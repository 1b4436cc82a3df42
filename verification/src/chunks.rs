//! The chunks of an AIFF file and their decoders.

use crate::ids::ChunkID;
use crate::source::{ByteSource, IoError};
use vstd::prelude::*;

pub mod application;
pub mod comments;
pub mod common;
pub mod form;
pub mod instrument;
pub mod marker;
pub mod metadata;
pub mod midi;
pub mod recording;
pub mod sound;
pub mod text;

pub use application::{ApplicationSpecificChunk, ApplicationSpecificView};
pub use comments::{Comment, CommentView, CommentsChunk, CommentsChunkView};
pub use common::CommonChunk;
pub use form::{FormChunk, FormView};
pub use instrument::{InstrumentChunk, Loop, MarkerId};
pub use marker::{Marker, MarkerChunk, MarkerChunkView, MarkerView};
pub use metadata::ID3v2Chunk;
pub use midi::{MIDIDataChunk, MIDIDataView};
pub use recording::{AudioRecordingChunk, AudioRecordingView};
pub use sound::{SoundDataChunk, SoundDataView};
pub use text::{TextChunk, TextChunkType, TextChunkView};

verus! {

/// Why a chunk could not be decoded.
#[derive(Debug, PartialEq, Eq)]
pub enum ChunkError {
    /// The tag is not one that the decoder accepts.
    InvalidID(ChunkID),
    /// The FORM sub-type is not `AIFF`.
    InvalidFormType(ChunkID),
    /// Embedded tag metadata of a version that is not supported
    /// (major, minor).
    InvalidID3Version([u8; 2]),
    /// The declared size is not the one the chunk must have
    /// (expected, declared). For a chunk of variable length, `expected` is
    /// the least size it can have.
    InvalidSize(i32, i32),
    /// The payload is malformed; the text names the part.
    InvalidData(&'static str),
    /// The stream ended early, or a seek left it.
    Io(IoError),
}

/// The error of a read that met the end of the stream.
pub open spec fn eof() -> ChunkError {
    ChunkError::Io(IoError::UnexpectedEof)
}

/// `n` bytes stand in `b` from `at` on.
pub open spec fn in_bounds(b: Seq<u8>, at: int, n: int) -> bool {
    0 <= at && 0 <= n && at + n <= b.len()
}

/// The four bytes at `at` as a tag.
pub open spec fn tag_at(b: Seq<u8>, at: int) -> ChunkID {
    [b[at], b[at + 1], b[at + 2], b[at + 3]]
}

/// Hands a primitive read on, with its error as a chunk error.
pub fn io<T>(r: Result<T, IoError>) -> (out: Result<T, ChunkError>)
    ensures
        match r {
            Ok(v) => out == Ok::<T, ChunkError>(v),
            Err(e) => out == Err::<T, ChunkError>(ChunkError::Io(e)),
        },
{
    match r {
        Ok(v) => Ok(v),
        Err(e) => Err(ChunkError::Io(e)),
    }
}

/// Writes the position into the slot, if the caller asked for it.
pub fn record(slot: &mut Option<u64>, pos: u64)
    ensures
        *final(slot) == recorded(*old(slot), pos as int),
{
    if slot.is_some() {
        *slot = Some(pos);
    }
}

/// The outcome of a decode with the decoded value replaced by its view.
pub open spec fn outcome_view<T: View>(r: Result<Option<T>, ChunkError>) -> Result<
    Option<T::V>,
    ChunkError,
> {
    match r {
        Ok(Some(c)) => Ok(Some(c@)),
        Ok(None) => Ok(None),
        Err(e) => Err(e),
    }
}

/// What a decoder leaves in the slot for the offset just after the tag: the
/// position at which it started, if the caller asked for it.
pub open spec fn recorded(slot: Option<u64>, pos: int) -> Option<u64> {
    match slot {
        Some(_) => Some(pos as u64),
        None => None,
    }
}

/// A chunk that can be decoded from a byte source positioned just after the
/// chunk's tag.
///
/// `decoded` and `end` say, as functions of the bytes and the starting
/// position alone, what `parse` returns and where it leaves the stream.
pub trait Chunk: View + Sized {
    /// What decoding at `pos` yields: a value (by its view), `None` when
    /// only skipping was asked for, or the error.
    spec fn decoded(bytes: Seq<u8>, pos: int, id: ChunkID, read_data: bool) -> Result<
        Option<Self::V>,
        ChunkError,
    >;

    /// Where a decode at `pos` that succeeds leaves the stream.
    spec fn end(bytes: Seq<u8>, pos: int, id: ChunkID, read_data: bool) -> int;

    /// Where a decode at `pos` that fails leaves the stream. A wrong tag
    /// leaves it at `pos`; for the other failures each decoder says where.
    spec fn failed_at(bytes: Seq<u8>, pos: int, id: ChunkID, read_data: bool) -> int;

    /// Skipping and decoding consume the same bytes: where a chunk can be
    /// decoded it can be skipped, and both leave the stream at the same
    /// position.
    proof fn skip_ends_where_decode_ends(bytes: Seq<u8>, pos: int, id: ChunkID)
        requires
            Self::decoded(bytes, pos, id, true) is Ok,
        ensures
            Self::decoded(bytes, pos, id, false) is Ok,
            Self::end(bytes, pos, id, false) == Self::end(bytes, pos, id, true),
    ;

    /// A decode that succeeds moves the stream forward and stays inside it.
    proof fn end_in_range(bytes: Seq<u8>, pos: int, id: ChunkID, read_data: bool)
        requires
            0 <= pos <= bytes.len(),
            Self::decoded(bytes, pos, id, read_data) is Ok,
        ensures
            pos < Self::end(bytes, pos, id, read_data) <= bytes.len(),
    ;

    /// Decodes the chunk whose tag `id` was just read, or only skips it
    /// when `read_data` is false. Writes the starting position into
    /// `curr_buf_pos` if that holds a value.
    fn parse(buf: &mut ByteSource, id: ChunkID, read_data: bool, curr_buf_pos: &mut Option<u64>) -> (r:
        Result<Option<Self>, ChunkError>)
        ensures
            final(buf).bytes() == old(buf).bytes(),
            old(buf).in_place(),
            final(buf).in_place(),
            *final(curr_buf_pos) == recorded(*old(curr_buf_pos), old(buf).offset()),
            outcome_view(r) == Self::decoded(old(buf).bytes(), old(buf).offset(), id, read_data),
            r is Ok ==> final(buf).offset() == Self::end(
                old(buf).bytes(),
                old(buf).offset(),
                id,
                read_data,
            ),
            r is Err ==> final(buf).offset() == Self::failed_at(
                old(buf).bytes(),
                old(buf).offset(),
                id,
                read_data,
            ),
    ;
}

} // verus!
