//! The four-byte tags that name chunks and FORM sub-types, and the table
//! that sorts a tag into the kind of chunk it opens.

use vstd::prelude::*;

verus! {

/// A chunk tag: four raw bytes, not necessarily ASCII.
pub type ChunkID = [u8; 4];

/// `FORM`, the outer container.
pub const FORM: ChunkID = [70, 79, 82, 77];

/// `AIFF`, the accepted FORM sub-type.
pub const AIFF: ChunkID = [65, 73, 70, 70];

/// `AIFC`, the compressed FORM sub-type, which is recognised and rejected.
pub const AIFF_C: ChunkID = [65, 73, 70, 67];

/// `COMM`
pub const COMMON: ChunkID = [67, 79, 77, 77];

/// `SSND`
pub const SOUND: ChunkID = [83, 83, 78, 68];

/// `MARK`
pub const MARKER: ChunkID = [77, 65, 82, 75];

/// `INST`
pub const INSTRUMENT: ChunkID = [73, 78, 83, 84];

/// `MIDI`
pub const MIDI: ChunkID = [77, 73, 68, 73];

/// `AESD`
pub const RECORDING: ChunkID = [65, 69, 83, 68];

/// `APPL`
pub const APPLICATION: ChunkID = [65, 80, 80, 76];

/// `COMT`
pub const COMMENTS: ChunkID = [67, 79, 77, 84];

/// `NAME`
pub const NAME: ChunkID = [78, 65, 77, 69];

/// `AUTH`
pub const AUTHOR: ChunkID = [65, 85, 84, 72];

/// `(c) `
pub const COPYRIGHT: ChunkID = [40, 99, 41, 32];

/// `ANNO`
pub const ANNOTATION: ChunkID = [65, 78, 78, 79];

/// `ID3`, the three-byte marker that opens embedded tag metadata.
pub const ID3: [u8; 3] = [73, 68, 51];

/// The kinds of chunk that a scan tells apart.
#[derive(Clone, Copy, Debug, PartialEq, Eq, Structural)]
pub enum ChunkKind {
    Common,
    Sound,
    Marker,
    Instrument,
    Midi,
    Recording,
    Application,
    Comments,
    /// One of the four text chunks.
    Text,
    /// Embedded tag metadata whose marker starts `lead` bytes into the tag
    /// window (0 or 1).
    Tag { lead: u8 },
    /// Anything else: skipped by its declared size.
    Unknown,
}

/// Two tags hold the same four bytes.
pub open spec fn same_tag(a: ChunkID, b: ChunkID) -> bool {
    a[0] == b[0] && a[1] == b[1] && a[2] == b[2] && a[3] == b[3]
}

/// The tag is one of `NAME`, `AUTH`, `(c) ` and `ANNO`.
pub open spec fn is_text_tag(id: ChunkID) -> bool {
    same_tag(id, NAME) || same_tag(id, AUTHOR) || same_tag(id, COPYRIGHT) || same_tag(
        id,
        ANNOTATION,
    )
}

/// The `ID3` marker stands in the window `id`, `lead` bytes in.
pub open spec fn marker_at(id: ChunkID, lead: int) -> bool {
    id[lead] == ID3[0] && id[lead + 1] == ID3[1] && id[lead + 2] == ID3[2]
}

/// The tag opens embedded tag metadata: the marker stands at the start of
/// the window or one byte in.
pub open spec fn is_tag_marker(id: ChunkID) -> bool {
    marker_at(id, 0) || marker_at(id, 1)
}

/// The kind of chunk that the tag `id` opens.
pub open spec fn kind_of(id: ChunkID) -> ChunkKind {
    if same_tag(id, COMMON) {
        ChunkKind::Common
    } else if same_tag(id, SOUND) {
        ChunkKind::Sound
    } else if same_tag(id, MARKER) {
        ChunkKind::Marker
    } else if same_tag(id, INSTRUMENT) {
        ChunkKind::Instrument
    } else if same_tag(id, MIDI) {
        ChunkKind::Midi
    } else if same_tag(id, RECORDING) {
        ChunkKind::Recording
    } else if same_tag(id, APPLICATION) {
        ChunkKind::Application
    } else if same_tag(id, COMMENTS) {
        ChunkKind::Comments
    } else if is_text_tag(id) {
        ChunkKind::Text
    } else if marker_at(id, 0) {
        ChunkKind::Tag { lead: 0 }
    } else if marker_at(id, 1) {
        ChunkKind::Tag { lead: 1 }
    } else {
        ChunkKind::Unknown
    }
}

/// The tag as one number, its first byte the most significant. Distinct
/// tags have distinct keys.
pub open spec fn tag_key(id: ChunkID) -> int {
    ((id[0] as int * 256 + id[1] as int) * 256 + id[2] as int) * 256 + id[3] as int
}

/// Whether two tags hold the same bytes.
pub fn same_id(a: &ChunkID, b: &ChunkID) -> (r: bool)
    ensures
        r == same_tag(*a, *b),
        r == (*a == *b),
{
    let r = a[0] == b[0] && a[1] == b[1] && a[2] == b[2] && a[3] == b[3];
    proof {
        if r {
            assert(*a =~= *b);
        }
    }
    r
}

/// Whether the `ID3` marker stands `lead` bytes into the window.
pub fn has_marker_at(id: &ChunkID, lead: usize) -> (r: bool)
    requires
        lead <= 1,
    ensures
        r == marker_at(*id, lead as int),
{
    id[lead] == ID3[0] && id[lead + 1] == ID3[1] && id[lead + 2] == ID3[2]
}

/// Sorts a tag into the kind of chunk it opens.
pub fn classify(id: &ChunkID) -> (k: ChunkKind)
    ensures
        k == kind_of(*id),
{
    if same_id(id, &COMMON) {
        ChunkKind::Common
    } else if same_id(id, &SOUND) {
        ChunkKind::Sound
    } else if same_id(id, &MARKER) {
        ChunkKind::Marker
    } else if same_id(id, &INSTRUMENT) {
        ChunkKind::Instrument
    } else if same_id(id, &MIDI) {
        ChunkKind::Midi
    } else if same_id(id, &RECORDING) {
        ChunkKind::Recording
    } else if same_id(id, &APPLICATION) {
        ChunkKind::Application
    } else if same_id(id, &COMMENTS) {
        ChunkKind::Comments
    } else if same_id(id, &NAME) || same_id(id, &AUTHOR) || same_id(id, &COPYRIGHT) || same_id(
        id,
        &ANNOTATION,
    ) {
        ChunkKind::Text
    } else if has_marker_at(id, 0) {
        ChunkKind::Tag { lead: 0 }
    } else if has_marker_at(id, 1) {
        ChunkKind::Tag { lead: 1 }
    } else {
        ChunkKind::Unknown
    }
}

/// The tag as one number, for use as a map key.
pub fn key_of(id: &ChunkID) -> (k: u32)
    ensures
        k == tag_key(*id),
{
    ((id[0] as u32 * 256 + id[1] as u32) * 256 + id[2] as u32) * 256 + id[3] as u32
}

/// Tags with the same key are the same tag.
pub proof fn lemma_key_names_one_tag(a: ChunkID, b: ChunkID)
    requires
        tag_key(a) == tag_key(b),
    ensures
        a == b,
{
    assert(a =~= b);
}

} // verus!
