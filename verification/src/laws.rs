//! Laws that relate the two kinds of scan and the offset cache.

use crate::chunks::application::ApplicationSpecificChunk;
use crate::chunks::comments::CommentsChunk;
use crate::chunks::common::CommonChunk;
use crate::chunks::form::{pushed, FormChunk, FormView};
use crate::chunks::instrument::InstrumentChunk;
use crate::chunks::marker::MarkerChunk;
use crate::chunks::metadata::ID3v2Chunk;
use crate::chunks::midi::MIDIDataChunk;
use crate::chunks::recording::AudioRecordingChunk;
use crate::chunks::sound::SoundDataChunk;
use crate::chunks::text::TextChunk;
use crate::chunks::{in_bounds, tag_at, Chunk, ChunkError};
use crate::ids::{
    kind_of, lemma_key_names_one_tag, same_tag, tag_key, ChunkID, ChunkKind, ANNOTATION,
    APPLICATION, AUTHOR, COMMENTS, COMMON, COPYRIGHT, FORM, INSTRUMENT, MARKER, MIDI, NAME,
    RECORDING, SOUND,
};
use crate::scan::{
    analysis, first_state, lemma_step_advances, scan_from, scan_step, ScanView, TAG_SPAN,
};
use vstd::prelude::*;

verus! {

/// Skipping and decoding move a scan alike: where a step that decodes
/// succeeds, the step that skips succeeds as well, and both end at the same
/// position, with the same offset cache if both record alike and held the
/// same cache before.
pub proof fn lemma_step_skips_as_it_decodes(
    bytes: Seq<u8>,
    decoding: ScanView,
    record_decoding: bool,
    skipping: ScanView,
    record_skipping: bool,
)
    requires
        decoding.pos == skipping.pos,
        in_bounds(bytes, decoding.pos, TAG_SPAN as int),
        scan_step(bytes, decoding, true, record_decoding) is Ok,
    ensures
        scan_step(bytes, skipping, false, record_skipping) is Ok,
        scan_step(bytes, skipping, false, record_skipping)->Ok_0.pos == scan_step(
            bytes,
            decoding,
            true,
            record_decoding,
        )->Ok_0.pos,
        record_decoding == record_skipping && decoding.locations == skipping.locations ==> scan_step(
            bytes,
            skipping,
            false,
            record_skipping,
        )->Ok_0.locations == scan_step(bytes, decoding, true, record_decoding)->Ok_0.locations,
{
    let id = tag_at(bytes, decoding.pos);
    let at = decoding.pos + TAG_SPAN as int;
    match kind_of(id) {
        ChunkKind::Common => CommonChunk::skip_ends_where_decode_ends(bytes, at, id),
        ChunkKind::Sound => SoundDataChunk::skip_ends_where_decode_ends(bytes, at, id),
        ChunkKind::Marker => MarkerChunk::skip_ends_where_decode_ends(bytes, at, id),
        ChunkKind::Instrument => InstrumentChunk::skip_ends_where_decode_ends(bytes, at, id),
        ChunkKind::Midi => MIDIDataChunk::skip_ends_where_decode_ends(bytes, at, id),
        ChunkKind::Recording => AudioRecordingChunk::skip_ends_where_decode_ends(bytes, at, id),
        ChunkKind::Application => ApplicationSpecificChunk::skip_ends_where_decode_ends(
            bytes,
            at,
            id,
        ),
        ChunkKind::Comments => CommentsChunk::skip_ends_where_decode_ends(bytes, at, id),
        ChunkKind::Text => TextChunk::skip_ends_where_decode_ends(bytes, at, id),
        ChunkKind::Tag { lead } => {
            if ID3v2Chunk::decoded(bytes, decoding.pos + lead, id, true) is Ok {
                ID3v2Chunk::skip_ends_where_decode_ends(bytes, decoding.pos + lead, id);
            }
        },
        ChunkKind::Unknown => {},
    }
}

/// A scan that skips follows a scan that decodes: where the decoding scan
/// reaches its end, the skipping scan reaches the same end, with the same
/// offset cache if both record alike and held the same cache before.
pub proof fn lemma_scan_skips_as_it_decodes(
    bytes: Seq<u8>,
    decoding: ScanView,
    record_decoding: bool,
    skipping: ScanView,
    record_skipping: bool,
)
    requires
        decoding.pos == skipping.pos,
        scan_from(bytes, decoding, true, record_decoding) is Ok,
    ensures
        scan_from(bytes, skipping, false, record_skipping) is Ok,
        scan_from(bytes, skipping, false, record_skipping)->Ok_0.pos == scan_from(
            bytes,
            decoding,
            true,
            record_decoding,
        )->Ok_0.pos,
        record_decoding == record_skipping && decoding.locations == skipping.locations ==> scan_from(
            bytes,
            skipping,
            false,
            record_skipping,
        )->Ok_0.locations == scan_from(bytes, decoding, true, record_decoding)->Ok_0.locations,
    decreases bytes.len() - decoding.pos,
{
    if in_bounds(bytes, decoding.pos, TAG_SPAN as int) {
        lemma_step_skips_as_it_decodes(
            bytes,
            decoding,
            record_decoding,
            skipping,
            record_skipping,
        );
        lemma_step_advances(bytes, decoding, true, record_decoding);
        lemma_scan_skips_as_it_decodes(
            bytes,
            scan_step(bytes, decoding, true, record_decoding)->Ok_0,
            record_decoding,
            scan_step(bytes, skipping, false, record_skipping)->Ok_0,
            record_skipping,
        );
    }
}

/// Locating follows a full scan: on a file that a full scan gets through,
/// the scan that only locates gets through as well, ends at the same
/// position and records the offsets that the full scan would record.
pub proof fn lemma_locate_follows_full_scan(
    bytes: Seq<u8>,
    locations: Map<u32, u64>,
    record: bool,
)
    requires
        analysis(bytes, locations, true, record) is Ok,
    ensures
        analysis(bytes, locations, false, record) is Ok,
        analysis(bytes, locations, false, record)->Ok_0.pos == analysis(
            bytes,
            locations,
            true,
            record,
        )->Ok_0.pos,
        analysis(bytes, locations, false, record)->Ok_0.locations == analysis(
            bytes,
            locations,
            true,
            record,
        )->Ok_0.locations,
{
    let form = FormChunk::decoded(bytes, TAG_SPAN as int, tag_at(bytes, 0), true)->Ok_0->0;
    let start = first_state(bytes, form, locations, record);
    lemma_scan_skips_as_it_decodes(bytes, start, record, start, record);
}

/// A scan that only locates decodes no tag: it ends with the tag metadata
/// with which it started.
pub proof fn lemma_locating_keeps_tag(bytes: Seq<u8>, s: ScanView, record: bool)
    requires
        scan_from(bytes, s, false, record) is Ok,
    ensures
        scan_from(bytes, s, false, record)->Ok_0.tag == s.tag,
    decreases bytes.len() - s.pos,
{
    if in_bounds(bytes, s.pos, TAG_SPAN as int) {
        lemma_step_advances(bytes, s, false, record);
        lemma_locating_keeps_tag(bytes, scan_step(bytes, s, false, record)->Ok_0, record);
    }
}

/// The tag of the chunk that the step at `pos` decodes, and the position
/// at which it decodes it; `None` for a chunk of no known kind.
pub open spec fn step_start(bytes: Seq<u8>, pos: int) -> Option<(ChunkID, int)> {
    match kind_of(tag_at(bytes, pos)) {
        ChunkKind::Unknown => None,
        ChunkKind::Tag { lead } => Some((tag_at(bytes, pos), pos + lead)),
        _ => Some((tag_at(bytes, pos), pos + TAG_SPAN as int)),
    }
}

/// The scan that starts in state `s` comes to a step that decodes a chunk
/// with tag `id` at the position `at`.
pub open spec fn meets(
    bytes: Seq<u8>,
    s: ScanView,
    read_data: bool,
    record: bool,
    id: ChunkID,
    at: int,
) -> bool
    decreases bytes.len() - s.pos,
{
    if !in_bounds(bytes, s.pos, TAG_SPAN as int) {
        false
    } else if step_start(bytes, s.pos) == Some((id, at)) {
        true
    } else {
        match scan_step(bytes, s, read_data, record) {
            Err(_) => false,
            Ok(next) => {
                proof {
                    lemma_step_advances(bytes, s, read_data, record);
                }
                meets(bytes, next, read_data, record, id, at)
            },
        }
    }
}

/// What a recording scan leaves in the offset cache for a tag is what the
/// cache held before, or the position of a chunk with that tag that the
/// scan came to.
pub proof fn lemma_cached_offset_was_met(
    bytes: Seq<u8>,
    s: ScanView,
    read_data: bool,
    id: ChunkID,
)
    requires
        bytes.len() <= u64::MAX,
        0 <= s.pos,
        scan_from(bytes, s, read_data, true) is Ok,
        scan_from(bytes, s, read_data, true)->Ok_0.locations.contains_key(tag_key(id) as u32),
    ensures
        ({
            let key = tag_key(id) as u32;
            let cached = scan_from(bytes, s, read_data, true)->Ok_0.locations[key];
            ||| s.locations.contains_key(key) && s.locations[key] == cached
            ||| meets(bytes, s, read_data, true, id, cached as int)
        }),
    decreases bytes.len() - s.pos,
{
    if in_bounds(bytes, s.pos, TAG_SPAN as int) {
        let next = scan_step(bytes, s, read_data, true)->Ok_0;
        lemma_step_advances(bytes, s, read_data, true);
        lemma_cached_offset_was_met(bytes, next, read_data, id);
        let key = tag_key(id) as u32;
        let cached = scan_from(bytes, s, read_data, true)->Ok_0.locations[key];
        if !meets(bytes, next, read_data, true, id, cached as int) {
            let here = tag_at(bytes, s.pos);
            if tag_key(here) as u32 == key {
                lemma_key_names_one_tag(here, id);
            }
        }
    }
}

/// A full scan comes to every chunk that locating came to.
pub proof fn lemma_full_scan_meets_what_locating_met(
    bytes: Seq<u8>,
    decoding: ScanView,
    record_decoding: bool,
    skipping: ScanView,
    record_skipping: bool,
    id: ChunkID,
    at: int,
)
    requires
        decoding.pos == skipping.pos,
        scan_from(bytes, decoding, true, record_decoding) is Ok,
        meets(bytes, skipping, false, record_skipping, id, at),
    ensures
        meets(bytes, decoding, true, record_decoding, id, at),
    decreases bytes.len() - decoding.pos,
{
    if in_bounds(bytes, decoding.pos, TAG_SPAN as int) && step_start(bytes, decoding.pos) != Some(
        (id, at),
    ) {
        lemma_step_skips_as_it_decodes(
            bytes,
            decoding,
            record_decoding,
            skipping,
            record_skipping,
        );
        lemma_step_advances(bytes, decoding, true, record_decoding);
        lemma_full_scan_meets_what_locating_met(
            bytes,
            scan_step(bytes, decoding, true, record_decoding)->Ok_0,
            record_decoding,
            scan_step(bytes, skipping, false, record_skipping)->Ok_0,
            record_skipping,
            id,
            at,
        );
    }
}

/// A chunk that is read again through the offset cache is a chunk that the
/// full scan read.
///
/// Let a scan that locates fill the offset cache, and let a full scan of
/// the same bytes succeed. Then the position that the cache holds for a tag
/// is one that the cache held before, or the position just after the tag of
/// the FORM head, or a position at which the full scan decoded a chunk with
/// that tag. Reading the chunk again decodes at that position by the same
/// function as the scan did, `Chunk::decoded`, and so yields the same value.
pub proof fn lemma_located_chunk_is_scanned_chunk(
    bytes: Seq<u8>,
    cache_before: Map<u32, u64>,
    full_cache: Map<u32, u64>,
    id: ChunkID,
)
    requires
        bytes.len() <= u64::MAX,
        analysis(bytes, cache_before, false, true) is Ok,
        analysis(bytes, full_cache, true, false) is Ok,
        analysis(bytes, cache_before, false, true)->Ok_0.locations.contains_key(
            tag_key(id) as u32,
        ),
    ensures
        ({
            let key = tag_key(id) as u32;
            let cached = analysis(bytes, cache_before, false, true)->Ok_0.locations[key];
            ||| cache_before.contains_key(key) && cache_before[key] == cached
            ||| id == tag_at(bytes, 0) && cached == TAG_SPAN
            ||| meets(
                bytes,
                first_state(bytes, FormView::empty(), full_cache, false),
                true,
                false,
                id,
                cached as int,
            )
        }),
{
    let key = tag_key(id) as u32;
    let cached = analysis(bytes, cache_before, false, true)->Ok_0.locations[key];
    let locating = first_state(bytes, FormView::empty(), cache_before, true);
    let full = first_state(bytes, FormView::empty(), full_cache, false);
    lemma_cached_offset_was_met(bytes, locating, false, id);
    if meets(bytes, locating, false, true, id, cached as int) {
        lemma_full_scan_meets_what_locating_met(bytes, full, false, locating, true, id, cached as int);
    } else if tag_key(tag_at(bytes, 0)) as u32 == key {
        lemma_key_names_one_tag(tag_at(bytes, 0), id);
    }
}

/// What the offset cache says of one kind of chunk that a form holds
/// once: the form holds none and the cache has no position for the tag, or
/// the form holds the value that decoding at the cached position yields.
pub open spec fn located_single<T: Chunk>(
    bytes: Seq<u8>,
    held: Option<T::V>,
    locations: Map<u32, u64>,
    tag: ChunkID,
) -> bool {
    match held {
        Some(v) => {
            &&& locations.contains_key(tag_key(tag) as u32)
            &&& T::decoded(bytes, locations[tag_key(tag) as u32] as int, tag, true) == Ok::<
                Option<T::V>,
                ChunkError,
            >(Some(v))
        },
        None => !locations.contains_key(tag_key(tag) as u32),
    }
}

/// The offset cache `locations` points at each chunk that `form` holds
/// once.
pub open spec fn singles_located(bytes: Seq<u8>, form: FormView, locations: Map<u32, u64>) -> bool {
    &&& located_single::<CommonChunk>(bytes, form.common, locations, COMMON)
    &&& located_single::<SoundDataChunk>(bytes, form.sound, locations, SOUND)
    &&& located_single::<CommentsChunk>(bytes, form.comments, locations, COMMENTS)
    &&& located_single::<InstrumentChunk>(bytes, form.instrument, locations, INSTRUMENT)
    &&& located_single::<AudioRecordingChunk>(bytes, form.recording, locations, RECORDING)
}

/// One step of a full scan and of a locating scan, side by side, keep the
/// cache of the one pointing at the single chunks of the other.
pub proof fn lemma_step_keeps_singles_located(
    bytes: Seq<u8>,
    decoding: ScanView,
    record_decoding: bool,
    locating: ScanView,
)
    requires
        bytes.len() <= u64::MAX,
        decoding.pos == locating.pos,
        in_bounds(bytes, decoding.pos, TAG_SPAN as int),
        scan_step(bytes, decoding, true, record_decoding) is Ok,
        scan_step(bytes, locating, false, true) is Ok,
        singles_located(bytes, decoding.form, locating.locations),
    ensures
        singles_located(
            bytes,
            scan_step(bytes, decoding, true, record_decoding)->Ok_0.form,
            scan_step(bytes, locating, false, true)->Ok_0.locations,
        ),
{
    let id = tag_at(bytes, decoding.pos);
    if tag_key(id) == tag_key(COMMON) {
        lemma_key_names_one_tag(id, COMMON);
    }
    if tag_key(id) == tag_key(SOUND) {
        lemma_key_names_one_tag(id, SOUND);
    }
    if tag_key(id) == tag_key(COMMENTS) {
        lemma_key_names_one_tag(id, COMMENTS);
    }
    if tag_key(id) == tag_key(INSTRUMENT) {
        lemma_key_names_one_tag(id, INSTRUMENT);
    }
    if tag_key(id) == tag_key(RECORDING) {
        lemma_key_names_one_tag(id, RECORDING);
    }
}

/// A full scan and a locating scan, side by side, keep the cache of the
/// one pointing at the single chunks of the other.
pub proof fn lemma_scan_keeps_singles_located(
    bytes: Seq<u8>,
    decoding: ScanView,
    record_decoding: bool,
    locating: ScanView,
)
    requires
        bytes.len() <= u64::MAX,
        decoding.pos == locating.pos,
        scan_from(bytes, decoding, true, record_decoding) is Ok,
        singles_located(bytes, decoding.form, locating.locations),
    ensures
        scan_from(bytes, locating, false, true) is Ok,
        singles_located(
            bytes,
            scan_from(bytes, decoding, true, record_decoding)->Ok_0.form,
            scan_from(bytes, locating, false, true)->Ok_0.locations,
        ),
    decreases bytes.len() - decoding.pos,
{
    if in_bounds(bytes, decoding.pos, TAG_SPAN as int) {
        lemma_step_skips_as_it_decodes(bytes, decoding, record_decoding, locating, true);
        lemma_step_keeps_singles_located(bytes, decoding, record_decoding, locating);
        lemma_step_advances(bytes, decoding, true, record_decoding);
        lemma_scan_keeps_singles_located(
            bytes,
            scan_step(bytes, decoding, true, record_decoding)->Ok_0,
            record_decoding,
            scan_step(bytes, locating, false, true)->Ok_0,
        );
    }
}

/// Reading a single chunk again through the offset cache yields the value
/// that the full scan put into the form.
///
/// Let the offset cache hold no position for the Common, Sound Data,
/// Comments, Instrument and Audio Recording chunks, let a scan that locates
/// fill it, and let a full scan of the same bytes succeed. Then for each of
/// these chunks the form of the full scan holds one exactly if the cache
/// has a position for its tag, and decoding at that position yields the
/// very value that the form holds.
pub proof fn lemma_reread_single_chunk_is_identical(
    bytes: Seq<u8>,
    cache_before: Map<u32, u64>,
    full_cache: Map<u32, u64>,
    record_full: bool,
)
    requires
        bytes.len() <= u64::MAX,
        singles_located(bytes, FormView::empty(), cache_before),
        analysis(bytes, full_cache, true, record_full) is Ok,
    ensures
        analysis(bytes, cache_before, false, true) is Ok,
        singles_located(
            bytes,
            analysis(bytes, full_cache, true, record_full)->Ok_0.form,
            analysis(bytes, cache_before, false, true)->Ok_0.locations,
        ),
{
    let locating = first_state(bytes, FormView::empty(), cache_before, true);
    let full = first_state(bytes, FormView::empty(), full_cache, record_full);
    let form_tag = tag_at(bytes, 0);
    assert(same_tag(form_tag, FORM));
    lemma_scan_keeps_singles_located(bytes, full, record_full, locating);
}

/// The list holds the value `v`.
pub open spec fn held_in<V>(list: Option<Seq<V>>, v: V) -> bool {
    match list {
        Some(l) => l.contains(v),
        None => false,
    }
}

/// What the offset cache says of one tag of a chunk that a form holds in a
/// list: where the cache has a position for the tag, the list holds the
/// value that decoding at that position yields.
pub open spec fn located_listed<T: Chunk>(
    bytes: Seq<u8>,
    list: Option<Seq<T::V>>,
    locations: Map<u32, u64>,
    tag: ChunkID,
) -> bool {
    locations.contains_key(tag_key(tag) as u32) ==> {
        let read = T::decoded(bytes, locations[tag_key(tag) as u32] as int, tag, true);
        read is Ok && read->Ok_0 is Some && held_in(list, read->Ok_0->0)
    }
}

/// The offset cache `locations` points, for each tag of a chunk that
/// `form` holds in a list, at a chunk that the list holds.
pub open spec fn lists_located(bytes: Seq<u8>, form: FormView, locations: Map<u32, u64>) -> bool {
    &&& located_listed::<TextChunk>(bytes, form.texts, locations, NAME)
    &&& located_listed::<TextChunk>(bytes, form.texts, locations, AUTHOR)
    &&& located_listed::<TextChunk>(bytes, form.texts, locations, COPYRIGHT)
    &&& located_listed::<TextChunk>(bytes, form.texts, locations, ANNOTATION)
    &&& located_listed::<MarkerChunk>(bytes, form.markers, locations, MARKER)
    &&& located_listed::<MIDIDataChunk>(bytes, form.midi, locations, MIDI)
    &&& located_listed::<ApplicationSpecificChunk>(bytes, form.apps, locations, APPLICATION)
}

/// The offset cache has no position for any tag of a chunk that a form
/// holds in a list.
pub open spec fn no_list_located(locations: Map<u32, u64>) -> bool {
    &&& !locations.contains_key(tag_key(NAME) as u32)
    &&& !locations.contains_key(tag_key(AUTHOR) as u32)
    &&& !locations.contains_key(tag_key(COPYRIGHT) as u32)
    &&& !locations.contains_key(tag_key(ANNOTATION) as u32)
    &&& !locations.contains_key(tag_key(MARKER) as u32)
    &&& !locations.contains_key(tag_key(MIDI) as u32)
    &&& !locations.contains_key(tag_key(APPLICATION) as u32)
}

/// A list that a value was appended to holds that value, and every value
/// that it held before.
pub proof fn lemma_pushed_holds<V>(list: Option<Seq<V>>, c: V, v: V)
    ensures
        held_in(pushed(list, c), c),
        held_in(list, v) ==> held_in(pushed(list, c), v),
{
    let after = pushed(list, c)->0;
    assert(after[after.len() - 1] == c);
    if held_in(list, v) {
        let i = choose|i: int| 0 <= i < list->0.len() && list->0[i] == v;
        assert(after[i] == v);
    }
}

/// One step of a full scan and of a locating scan, side by side, keep the
/// cache of the one pointing into the list of texts of the other.
pub proof fn lemma_step_keeps_text_located(
    bytes: Seq<u8>,
    decoding: ScanView,
    record_decoding: bool,
    locating: ScanView,
    tag: ChunkID,
)
    requires
        bytes.len() <= u64::MAX,
        decoding.pos == locating.pos,
        in_bounds(bytes, decoding.pos, TAG_SPAN as int),
        scan_step(bytes, decoding, true, record_decoding) is Ok,
        scan_step(bytes, locating, false, true) is Ok,
        kind_of(tag) == ChunkKind::Text,
        located_listed::<TextChunk>(bytes, decoding.form.texts, locating.locations, tag),
    ensures
        located_listed::<TextChunk>(
            bytes,
            scan_step(bytes, decoding, true, record_decoding)->Ok_0.form.texts,
            scan_step(bytes, locating, false, true)->Ok_0.locations,
            tag,
        ),
{
    let id = tag_at(bytes, decoding.pos);
    let at = decoding.pos + TAG_SPAN as int;
    if tag_key(id) == tag_key(tag) {
        lemma_key_names_one_tag(id, tag);
    }
    if kind_of(id) == ChunkKind::Text {
        let new = TextChunk::decoded(bytes, at, id, true)->Ok_0->0;
        lemma_pushed_holds(decoding.form.texts, new, new);
        if locating.locations.contains_key(tag_key(tag) as u32) {
            let old = TextChunk::decoded(
                bytes,
                locating.locations[tag_key(tag) as u32] as int,
                tag,
                true,
            )->Ok_0->0;
            lemma_pushed_holds(decoding.form.texts, new, old);
        }
    }
}

/// One step of a full scan and of a locating scan, side by side, keep the
/// cache of the one pointing into the list of Marker chunks of the other.
pub proof fn lemma_step_keeps_marker_located(
    bytes: Seq<u8>,
    decoding: ScanView,
    record_decoding: bool,
    locating: ScanView,
    tag: ChunkID,
)
    requires
        bytes.len() <= u64::MAX,
        decoding.pos == locating.pos,
        in_bounds(bytes, decoding.pos, TAG_SPAN as int),
        scan_step(bytes, decoding, true, record_decoding) is Ok,
        scan_step(bytes, locating, false, true) is Ok,
        kind_of(tag) == ChunkKind::Marker,
        located_listed::<MarkerChunk>(bytes, decoding.form.markers, locating.locations, tag),
    ensures
        located_listed::<MarkerChunk>(
            bytes,
            scan_step(bytes, decoding, true, record_decoding)->Ok_0.form.markers,
            scan_step(bytes, locating, false, true)->Ok_0.locations,
            tag,
        ),
{
    let id = tag_at(bytes, decoding.pos);
    let at = decoding.pos + TAG_SPAN as int;
    if tag_key(id) == tag_key(tag) {
        lemma_key_names_one_tag(id, tag);
    }
    if kind_of(id) == ChunkKind::Marker {
        let new = MarkerChunk::decoded(bytes, at, id, true)->Ok_0->0;
        lemma_pushed_holds(decoding.form.markers, new, new);
        if locating.locations.contains_key(tag_key(tag) as u32) {
            let old = MarkerChunk::decoded(
                bytes,
                locating.locations[tag_key(tag) as u32] as int,
                tag,
                true,
            )->Ok_0->0;
            lemma_pushed_holds(decoding.form.markers, new, old);
        }
    }
}

/// One step of a full scan and of a locating scan, side by side, keep the
/// cache of the one pointing into the list of MIDI Data chunks of the other.
pub proof fn lemma_step_keeps_midi_located(
    bytes: Seq<u8>,
    decoding: ScanView,
    record_decoding: bool,
    locating: ScanView,
    tag: ChunkID,
)
    requires
        bytes.len() <= u64::MAX,
        decoding.pos == locating.pos,
        in_bounds(bytes, decoding.pos, TAG_SPAN as int),
        scan_step(bytes, decoding, true, record_decoding) is Ok,
        scan_step(bytes, locating, false, true) is Ok,
        kind_of(tag) == ChunkKind::Midi,
        located_listed::<MIDIDataChunk>(bytes, decoding.form.midi, locating.locations, tag),
    ensures
        located_listed::<MIDIDataChunk>(
            bytes,
            scan_step(bytes, decoding, true, record_decoding)->Ok_0.form.midi,
            scan_step(bytes, locating, false, true)->Ok_0.locations,
            tag,
        ),
{
    let id = tag_at(bytes, decoding.pos);
    let at = decoding.pos + TAG_SPAN as int;
    if tag_key(id) == tag_key(tag) {
        lemma_key_names_one_tag(id, tag);
    }
    if kind_of(id) == ChunkKind::Midi {
        let new = MIDIDataChunk::decoded(bytes, at, id, true)->Ok_0->0;
        lemma_pushed_holds(decoding.form.midi, new, new);
        if locating.locations.contains_key(tag_key(tag) as u32) {
            let old = MIDIDataChunk::decoded(
                bytes,
                locating.locations[tag_key(tag) as u32] as int,
                tag,
                true,
            )->Ok_0->0;
            lemma_pushed_holds(decoding.form.midi, new, old);
        }
    }
}

/// One step of a full scan and of a locating scan, side by side, keep the
/// cache of the one pointing into the list of Application Specific chunks of the other.
pub proof fn lemma_step_keeps_application_located(
    bytes: Seq<u8>,
    decoding: ScanView,
    record_decoding: bool,
    locating: ScanView,
    tag: ChunkID,
)
    requires
        bytes.len() <= u64::MAX,
        decoding.pos == locating.pos,
        in_bounds(bytes, decoding.pos, TAG_SPAN as int),
        scan_step(bytes, decoding, true, record_decoding) is Ok,
        scan_step(bytes, locating, false, true) is Ok,
        kind_of(tag) == ChunkKind::Application,
        located_listed::<ApplicationSpecificChunk>(bytes, decoding.form.apps, locating.locations, tag),
    ensures
        located_listed::<ApplicationSpecificChunk>(
            bytes,
            scan_step(bytes, decoding, true, record_decoding)->Ok_0.form.apps,
            scan_step(bytes, locating, false, true)->Ok_0.locations,
            tag,
        ),
{
    let id = tag_at(bytes, decoding.pos);
    let at = decoding.pos + TAG_SPAN as int;
    if tag_key(id) == tag_key(tag) {
        lemma_key_names_one_tag(id, tag);
    }
    if kind_of(id) == ChunkKind::Application {
        let new = ApplicationSpecificChunk::decoded(bytes, at, id, true)->Ok_0->0;
        lemma_pushed_holds(decoding.form.apps, new, new);
        if locating.locations.contains_key(tag_key(tag) as u32) {
            let old = ApplicationSpecificChunk::decoded(
                bytes,
                locating.locations[tag_key(tag) as u32] as int,
                tag,
                true,
            )->Ok_0->0;
            lemma_pushed_holds(decoding.form.apps, new, old);
        }
    }
}

/// One step of a full scan and of a locating scan, side by side, keep the
/// cache of the one pointing into the lists of the other.
pub proof fn lemma_step_keeps_lists_located(
    bytes: Seq<u8>,
    decoding: ScanView,
    record_decoding: bool,
    locating: ScanView,
)
    requires
        bytes.len() <= u64::MAX,
        decoding.pos == locating.pos,
        in_bounds(bytes, decoding.pos, TAG_SPAN as int),
        scan_step(bytes, decoding, true, record_decoding) is Ok,
        scan_step(bytes, locating, false, true) is Ok,
        lists_located(bytes, decoding.form, locating.locations),
    ensures
        lists_located(
            bytes,
            scan_step(bytes, decoding, true, record_decoding)->Ok_0.form,
            scan_step(bytes, locating, false, true)->Ok_0.locations,
        ),
{
    lemma_step_keeps_text_located(bytes, decoding, record_decoding, locating, NAME);
    lemma_step_keeps_text_located(bytes, decoding, record_decoding, locating, AUTHOR);
    lemma_step_keeps_text_located(bytes, decoding, record_decoding, locating, COPYRIGHT);
    lemma_step_keeps_text_located(bytes, decoding, record_decoding, locating, ANNOTATION);
    lemma_step_keeps_marker_located(bytes, decoding, record_decoding, locating, MARKER);
    lemma_step_keeps_midi_located(bytes, decoding, record_decoding, locating, MIDI);
    lemma_step_keeps_application_located(bytes, decoding, record_decoding, locating, APPLICATION);
}

/// A full scan and a locating scan, side by side, keep the cache of the
/// one pointing into the lists of the other.
pub proof fn lemma_scan_keeps_lists_located(
    bytes: Seq<u8>,
    decoding: ScanView,
    record_decoding: bool,
    locating: ScanView,
)
    requires
        bytes.len() <= u64::MAX,
        decoding.pos == locating.pos,
        scan_from(bytes, decoding, true, record_decoding) is Ok,
        lists_located(bytes, decoding.form, locating.locations),
    ensures
        scan_from(bytes, locating, false, true) is Ok,
        lists_located(
            bytes,
            scan_from(bytes, decoding, true, record_decoding)->Ok_0.form,
            scan_from(bytes, locating, false, true)->Ok_0.locations,
        ),
    decreases bytes.len() - decoding.pos,
{
    if in_bounds(bytes, decoding.pos, TAG_SPAN as int) {
        lemma_step_skips_as_it_decodes(bytes, decoding, record_decoding, locating, true);
        lemma_step_keeps_lists_located(bytes, decoding, record_decoding, locating);
        lemma_step_advances(bytes, decoding, true, record_decoding);
        lemma_scan_keeps_lists_located(
            bytes,
            scan_step(bytes, decoding, true, record_decoding)->Ok_0,
            record_decoding,
            scan_step(bytes, locating, false, true)->Ok_0,
        );
    }
}

/// Reading a listed chunk again through the offset cache yields a value
/// that the full scan put into the form.
///
/// Let the offset cache hold no position for the tags of the text, Marker,
/// MIDI Data and Application Specific chunks, let a scan that locates fill
/// it, and let a full scan of the same bytes succeed. Then for each of
/// these tags for which the cache has a position, decoding at that position
/// yields a value that the list of the form holds.
pub proof fn lemma_reread_listed_chunk_is_held(
    bytes: Seq<u8>,
    cache_before: Map<u32, u64>,
    full_cache: Map<u32, u64>,
    record_full: bool,
)
    requires
        bytes.len() <= u64::MAX,
        no_list_located(cache_before),
        analysis(bytes, full_cache, true, record_full) is Ok,
    ensures
        analysis(bytes, cache_before, false, true) is Ok,
        lists_located(
            bytes,
            analysis(bytes, full_cache, true, record_full)->Ok_0.form,
            analysis(bytes, cache_before, false, true)->Ok_0.locations,
        ),
{
    let locating = first_state(bytes, FormView::empty(), cache_before, true);
    let full = first_state(bytes, FormView::empty(), full_cache, record_full);
    assert(same_tag(tag_at(bytes, 0), FORM));
    lemma_scan_keeps_lists_located(bytes, full, record_full, locating);
}

} // verus!
