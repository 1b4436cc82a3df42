//! What a scan of a whole file yields, as a function of its bytes.
//!
//! A scan reads the FORM head and then chunk after chunk until fewer than
//! four bytes are left. The functions here follow it step by step: they
//! are the statement against which the reader is verified.

use crate::chunks::application::ApplicationSpecificChunk;
use crate::chunks::comments::CommentsChunk;
use crate::chunks::common::CommonChunk;
use crate::chunks::form::{FormChunk, FormView};
use crate::chunks::instrument::InstrumentChunk;
use crate::chunks::marker::MarkerChunk;
use crate::chunks::metadata::ID3v2Chunk;
use crate::chunks::midi::MIDIDataChunk;
use crate::chunks::recording::AudioRecordingChunk;
use crate::chunks::sound::SoundDataChunk;
use crate::chunks::text::TextChunk;
use crate::chunks::{eof, in_bounds, tag_at, Chunk, ChunkError};
use crate::ids::{kind_of, tag_key, ChunkID, ChunkKind};
use crate::reader::be_i32;
use vstd::prelude::*;

verus! {

/// The number of bytes of a chunk tag.
pub const TAG_SPAN: usize = 4;

/// The number of bytes by which a scan moves on from the start of a tag
/// marker whose metadata could not be decoded.
pub const MARKER_SPAN: usize = 3;

/// Which tag metadata a reader holds in the course of a scan.
pub enum TagHeld {
    /// What it held before the scan, if anything: the scan has decoded no
    /// tag so far.
    Kept,
    /// The tag that the scan decoded last.
    Decoded,
}

/// The state of a scan between two chunks.
pub struct ScanView {
    /// The chunks gathered so far.
    pub form: FormView,
    /// Which tag metadata is held.
    pub tag: TagHeld,
    /// The offset cache: for the key of a tag, the position just after that
    /// tag where a chunk of it was last met.
    pub locations: Map<u32, u64>,
    /// The position in the stream.
    pub pos: int,
}

/// The offset cache after a chunk with tag `id` was met at `at`.
pub open spec fn located(locations: Map<u32, u64>, id: ChunkID, at: int, record: bool) -> Map<
    u32,
    u64,
> {
    if record {
        locations.insert(tag_key(id) as u32, at as u64)
    } else {
        locations
    }
}

/// The state after a chunk of type `T` with tag `id` was decoded at `at`
/// and its value, if any, was put into the form by `place`.
pub open spec fn after_chunk<T: Chunk>(
    bytes: Seq<u8>,
    s: ScanView,
    id: ChunkID,
    at: int,
    read_data: bool,
    record: bool,
    place: spec_fn(FormView, T::V) -> FormView,
) -> Result<ScanView, ChunkError> {
    match T::decoded(bytes, at, id, read_data) {
        Err(e) => Err(e),
        Ok(o) => Ok(
            ScanView {
                form: match o {
                    Some(v) => place(s.form, v),
                    None => s.form,
                },
                tag: s.tag,
                locations: located(s.locations, id, at, record),
                pos: T::end(bytes, at, id, read_data),
            },
        ),
    }
}

/// The state after the tag metadata whose marker starts at `at` was
/// handled. A failure to decode it is not an error of the scan: the scan
/// moves three bytes on from the marker's start and holds the tag that it
/// held. Only the end of the stream is fatal. A tag that is decoded takes
/// the place of the tag held; one that is only skipped does not.
pub open spec fn after_tag(
    bytes: Seq<u8>,
    s: ScanView,
    id: ChunkID,
    at: int,
    read_data: bool,
    record: bool,
) -> Result<ScanView, ChunkError> {
    match ID3v2Chunk::decoded(bytes, at, id, read_data) {
        Err(ChunkError::Io(e)) => Err(ChunkError::Io(e)),
        Err(_) => Ok(
            ScanView {
                locations: located(s.locations, id, at, record),
                pos: at + MARKER_SPAN as int,
                ..s
            },
        ),
        Ok(o) => Ok(
            ScanView {
                tag: if o is Some {
                    TagHeld::Decoded
                } else {
                    s.tag
                },
                locations: located(s.locations, id, at, record),
                pos: ID3v2Chunk::end(bytes, at, id, read_data),
                ..s
            },
        ),
    }
}

/// The state after a chunk of no known kind was skipped: `at` is the
/// position of its declared size, by which the scan moves on.
pub open spec fn after_unknown(bytes: Seq<u8>, s: ScanView, at: int) -> Result<
    ScanView,
    ChunkError,
> {
    if !in_bounds(bytes, at, 4) {
        Err(eof())
    } else if be_i32(bytes, at) < 0 {
        Err(ChunkError::InvalidSize(0, be_i32(bytes, at) as i32))
    } else if !in_bounds(bytes, at + 4, be_i32(bytes, at)) {
        Err(eof())
    } else {
        Ok(ScanView { pos: at + 4 + be_i32(bytes, at), ..s })
    }
}

/// One step of a scan: the state after the chunk whose tag stands at
/// `s.pos`.
pub open spec fn scan_step(bytes: Seq<u8>, s: ScanView, read_data: bool, record: bool) -> Result<
    ScanView,
    ChunkError,
> {
    let id = tag_at(bytes, s.pos);
    let at = s.pos + TAG_SPAN as int;
    match kind_of(id) {
        ChunkKind::Common => after_chunk::<CommonChunk>(
            bytes,
            s,
            id,
            at,
            read_data,
            record,
            |f: FormView, c: CommonChunk| f.with_common(c),
        ),
        ChunkKind::Sound => after_chunk::<SoundDataChunk>(
            bytes,
            s,
            id,
            at,
            read_data,
            record,
            |f: FormView, c| f.with_sound(c),
        ),
        ChunkKind::Marker => after_chunk::<MarkerChunk>(
            bytes,
            s,
            id,
            at,
            read_data,
            record,
            |f: FormView, c| f.with_marker(c),
        ),
        ChunkKind::Instrument => after_chunk::<InstrumentChunk>(
            bytes,
            s,
            id,
            at,
            read_data,
            record,
            |f: FormView, c: InstrumentChunk| f.with_instrument(c),
        ),
        ChunkKind::Midi => after_chunk::<MIDIDataChunk>(
            bytes,
            s,
            id,
            at,
            read_data,
            record,
            |f: FormView, c| f.with_midi(c),
        ),
        ChunkKind::Recording => after_chunk::<AudioRecordingChunk>(
            bytes,
            s,
            id,
            at,
            read_data,
            record,
            |f: FormView, c| f.with_recording(c),
        ),
        ChunkKind::Application => after_chunk::<ApplicationSpecificChunk>(
            bytes,
            s,
            id,
            at,
            read_data,
            record,
            |f: FormView, c| f.with_app(c),
        ),
        ChunkKind::Comments => after_chunk::<CommentsChunk>(
            bytes,
            s,
            id,
            at,
            read_data,
            record,
            |f: FormView, c| f.with_comments(c),
        ),
        ChunkKind::Text => after_chunk::<TextChunk>(
            bytes,
            s,
            id,
            at,
            read_data,
            record,
            |f: FormView, c| f.with_text(c),
        ),
        ChunkKind::Tag { lead } => after_tag(bytes, s, id, s.pos + lead, read_data, record),
        ChunkKind::Unknown => after_unknown(bytes, s, at),
    }
}

/// Every step leaves the scan further on, inside the bytes.
pub proof fn lemma_step_advances(bytes: Seq<u8>, s: ScanView, read_data: bool, record: bool)
    requires
        in_bounds(bytes, s.pos, TAG_SPAN as int),
        scan_step(bytes, s, read_data, record) is Ok,
    ensures
        s.pos < scan_step(bytes, s, read_data, record)->Ok_0.pos <= bytes.len(),
{
    let id = tag_at(bytes, s.pos);
    let at = s.pos + TAG_SPAN as int;
    match kind_of(id) {
        ChunkKind::Common => CommonChunk::end_in_range(bytes, at, id, read_data),
        ChunkKind::Sound => SoundDataChunk::end_in_range(bytes, at, id, read_data),
        ChunkKind::Marker => MarkerChunk::end_in_range(bytes, at, id, read_data),
        ChunkKind::Instrument => InstrumentChunk::end_in_range(bytes, at, id, read_data),
        ChunkKind::Midi => MIDIDataChunk::end_in_range(bytes, at, id, read_data),
        ChunkKind::Recording => AudioRecordingChunk::end_in_range(bytes, at, id, read_data),
        ChunkKind::Application => ApplicationSpecificChunk::end_in_range(bytes, at, id, read_data),
        ChunkKind::Comments => CommentsChunk::end_in_range(bytes, at, id, read_data),
        ChunkKind::Text => TextChunk::end_in_range(bytes, at, id, read_data),
        ChunkKind::Tag { lead } => {
            if ID3v2Chunk::decoded(bytes, s.pos + lead, id, read_data) is Ok {
                ID3v2Chunk::end_in_range(bytes, s.pos + lead, id, read_data);
            }
        },
        ChunkKind::Unknown => {},
    }
}

/// The state in which a scan that starts in state `s` ends, or the error
/// that stops it. The scan ends where fewer than four bytes are left.
pub open spec fn scan_from(bytes: Seq<u8>, s: ScanView, read_data: bool, record: bool) -> Result<
    ScanView,
    ChunkError,
>
    decreases bytes.len() - s.pos,
{
    if !in_bounds(bytes, s.pos, TAG_SPAN as int) {
        Ok(s)
    } else {
        match scan_step(bytes, s, read_data, record) {
            Err(e) => Err(e),
            Ok(next) => {
                proof {
                    lemma_step_advances(bytes, s, read_data, record);
                }
                scan_from(bytes, next, read_data, record)
            },
        }
    }
}

/// The state of a scan after the FORM head, whose form is `form`.
pub open spec fn first_state(
    bytes: Seq<u8>,
    form: FormView,
    locations: Map<u32, u64>,
    record: bool,
) -> ScanView {
    ScanView {
        form,
        tag: TagHeld::Kept,
        locations: located(locations, tag_at(bytes, 0), TAG_SPAN as int, record),
        pos: FormChunk::end(bytes, TAG_SPAN as int, tag_at(bytes, 0), true),
    }
}

/// What a scan of the whole of `bytes` yields: the FORM head is decoded at
/// the start, whatever `read_data` says, and the chunks after it are
/// decoded or skipped as `read_data` says. `locations` is the offset cache
/// that the reader held before.
pub open spec fn analysis(
    bytes: Seq<u8>,
    locations: Map<u32, u64>,
    read_data: bool,
    record: bool,
) -> Result<ScanView, ChunkError> {
    if !in_bounds(bytes, 0, TAG_SPAN as int) {
        Err(eof())
    } else {
        match FormChunk::decoded(bytes, TAG_SPAN as int, tag_at(bytes, 0), true) {
            Err(e) => Err(e),
            Ok(None) => Err(ChunkError::InvalidData("failed to parse form data")),
            Ok(Some(form)) => scan_from(
                bytes,
                first_state(bytes, form, locations, record),
                read_data,
                record,
            ),
        }
    }
}

} // verus!
