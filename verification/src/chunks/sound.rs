//! The Sound Data chunk: the sample bytes.

use crate::chunks::{eof, in_bounds, io, record, Chunk, ChunkError};
use crate::ids::{same_id, same_tag, ChunkID, SOUND};
use crate::reader::{be_i32, be_u32, read_i32_be, read_u32_be};
use crate::source::{ByteSource, IoError};
use vstd::prelude::*;

verus! {

/// The sample bytes of a file.
///
/// `sound_data` holds as many bytes as `size` declares: the declared size
/// is taken to count the sample bytes alone, without the eight bytes of
/// `offset` and `block_size` that stand before them.
#[derive(Clone, Debug, PartialEq, Eq)]
pub struct SoundDataChunk {
    /// The declared size.
    pub size: i32,
    /// Where the first sample frame starts in the sample bytes.
    pub offset: u32,
    /// The block size to which the sample bytes are aligned.
    pub block_size: u32,
    /// The sample bytes.
    pub sound_data: Vec<u8>,
}

/// A Sound Data chunk as plain values.
pub struct SoundDataView {
    pub size: i32,
    pub offset: u32,
    pub block_size: u32,
    pub sound_data: Seq<u8>,
}

impl View for SoundDataChunk {
    type V = SoundDataView;

    open spec fn view(&self) -> SoundDataView {
        SoundDataView {
            size: self.size,
            offset: self.offset,
            block_size: self.block_size,
            sound_data: self.sound_data@,
        }
    }
}

/// The Sound Data chunk whose fields stand at `pos`.
pub open spec fn sound_at(b: Seq<u8>, pos: int) -> SoundDataView {
    SoundDataView {
        size: be_i32(b, pos) as i32,
        offset: be_u32(b, pos + 4) as u32,
        block_size: be_u32(b, pos + 8) as u32,
        sound_data: b.subrange(pos + 12, pos + 12 + be_i32(b, pos)),
    }
}

impl Chunk for SoundDataChunk {
    open spec fn decoded(bytes: Seq<u8>, pos: int, id: ChunkID, read_data: bool) -> Result<
        Option<SoundDataView>,
        ChunkError,
    > {
        if !same_tag(id, SOUND) {
            Err(ChunkError::InvalidID(id))
        } else if !in_bounds(bytes, pos, 12) {
            Err(eof())
        } else if be_i32(bytes, pos) < 0 {
            Err(ChunkError::InvalidSize(0, be_i32(bytes, pos) as i32))
        } else if !in_bounds(bytes, pos + 12, be_i32(bytes, pos)) {
            Err(eof())
        } else if !read_data {
            Ok(None)
        } else {
            Ok(Some(sound_at(bytes, pos)))
        }
    }

    open spec fn end(bytes: Seq<u8>, pos: int, id: ChunkID, read_data: bool) -> int {
        pos + 12 + be_i32(bytes, pos)
    }

    /// A wrong tag or a head cut short leaves the stream where it was; a
    /// negative size or sample bytes cut short leave it after the head, at
    /// the start of the sample bytes.
    open spec fn failed_at(bytes: Seq<u8>, pos: int, id: ChunkID, read_data: bool) -> int {
        if same_tag(id, SOUND) && in_bounds(bytes, pos, 12) {
            pos + 12
        } else {
            pos
        }
    }

    proof fn skip_ends_where_decode_ends(bytes: Seq<u8>, pos: int, id: ChunkID) {
    }

    proof fn end_in_range(bytes: Seq<u8>, pos: int, id: ChunkID, read_data: bool) {
    }

    fn parse(buf: &mut ByteSource, id: ChunkID, read_data: bool, curr_buf_pos: &mut Option<u64>) -> (r:
        Result<Option<Self>, ChunkError>) {
        record(curr_buf_pos, buf.position());
        if !same_id(&id, &SOUND) {
            return Err(ChunkError::InvalidID(id));
        }
        if buf.available() < 12 {
            return Err(ChunkError::Io(IoError::UnexpectedEof));
        }
        let size = io(read_i32_be(buf))?;
        let offset = io(read_u32_be(buf))?;
        let block_size = io(read_u32_be(buf))?;
        if size < 0 {
            return Err(ChunkError::InvalidSize(0, size));
        }
        if !read_data {
            io(buf.skip(size as usize))?;
            return Ok(None);
        }
        let sound_data = io(buf.read_exact(size as usize))?;
        Ok(Some(SoundDataChunk { size, offset, block_size, sound_data }))
    }
}

} // verus!
