//! The Audio Recording chunk: AES channel status data.

use crate::chunks::{eof, in_bounds, io, record, Chunk, ChunkError};
use crate::ids::{same_id, same_tag, ChunkID, RECORDING};
use crate::reader::{be_i32, read_i32_be};
use crate::source::ByteSource;
use vstd::prelude::*;

verus! {

/// The size that an Audio Recording chunk must declare.
pub const RECORDING_SIZE: i32 = 24;

/// The channel status data of an AES recording.
#[derive(Clone, Copy, Debug, PartialEq, Eq)]
pub struct AudioRecordingChunk {
    /// The declared size of the payload, always 24.
    pub size: i32,
    /// The channel status data.
    pub data: [u8; 24],
}

/// An Audio Recording chunk as plain values.
pub struct AudioRecordingView {
    pub size: i32,
    pub data: Seq<u8>,
}

impl View for AudioRecordingChunk {
    type V = AudioRecordingView;

    open spec fn view(&self) -> AudioRecordingView {
        AudioRecordingView { size: self.size, data: self.data@ }
    }
}

/// The Audio Recording chunk that stands at `pos`.
pub open spec fn recording_at(b: Seq<u8>, pos: int) -> AudioRecordingView {
    AudioRecordingView { size: RECORDING_SIZE, data: b.subrange(pos + 4, pos + 28) }
}

impl Chunk for AudioRecordingChunk {
    open spec fn decoded(bytes: Seq<u8>, pos: int, id: ChunkID, read_data: bool) -> Result<
        Option<AudioRecordingView>,
        ChunkError,
    > {
        if !same_tag(id, RECORDING) {
            Err(ChunkError::InvalidID(id))
        } else if !in_bounds(bytes, pos, 4) {
            Err(eof())
        } else if be_i32(bytes, pos) != RECORDING_SIZE {
            Err(ChunkError::InvalidSize(RECORDING_SIZE, be_i32(bytes, pos) as i32))
        } else if !in_bounds(bytes, pos + 4, RECORDING_SIZE as int) {
            Err(eof())
        } else if !read_data {
            Ok(None)
        } else {
            Ok(Some(recording_at(bytes, pos)))
        }
    }

    open spec fn end(bytes: Seq<u8>, pos: int, id: ChunkID, read_data: bool) -> int {
        pos + 4 + RECORDING_SIZE as int
    }

    /// A wrong tag or a size cut short leaves the stream where it was; a
    /// size that is not 24 or a payload cut short leave it after the size:
    /// no byte of the payload is consumed.
    open spec fn failed_at(bytes: Seq<u8>, pos: int, id: ChunkID, read_data: bool) -> int {
        if same_tag(id, RECORDING) && in_bounds(bytes, pos, 4) {
            pos + 4
        } else {
            pos
        }
    }

    proof fn skip_ends_where_decode_ends(bytes: Seq<u8>, pos: int, id: ChunkID) {
    }

    proof fn end_in_range(bytes: Seq<u8>, pos: int, id: ChunkID, read_data: bool) {
    }

    fn parse(buf: &mut ByteSource, id: ChunkID, read_data: bool, curr_buf_pos: &mut Option<u64>) -> (r:
        Result<Option<Self>, ChunkError>) {
        record(curr_buf_pos, buf.position());
        if !same_id(&id, &RECORDING) {
            return Err(ChunkError::InvalidID(id));
        }
        let size = io(read_i32_be(buf))?;
        if size != RECORDING_SIZE {
            return Err(ChunkError::InvalidSize(RECORDING_SIZE, size));
        }
        if buf.available() < 24 {
            return Err(ChunkError::Io(crate::source::IoError::UnexpectedEof));
        }
        if !read_data {
            buf.advance(24);
            return Ok(None);
        }
        let mut data: [u8; 24] = [0u8; 24];
        let mut i: usize = 0;
        while i < 24
            invariant
                i <= 24,
                buf.remaining() >= 24,
                forall|j: int| 0 <= j < i ==> data@[j] == buf.bytes()[buf.offset() + j],
            decreases 24 - i,
        {
            data[i] = buf.peek(i);
            i = i + 1;
        }
        assert(data@ =~= buf.bytes().subrange(buf.offset(), buf.offset() + 24));
        buf.advance(24);
        Ok(Some(AudioRecordingChunk { size, data }))
    }
}

} // verus!
