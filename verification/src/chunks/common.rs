//! The Common chunk: the format of the sound data.

use crate::chunks::{eof, in_bounds, io, record, Chunk, ChunkError};
use crate::extended::{extended_of, parse_extended_precision_bytes, Extended};
use crate::ids::{same_id, same_tag, ChunkID, COMMON};
use crate::reader::{be_i16, be_i32, be_u32, read_i16_be, read_i32_be, read_u32_be};
use crate::source::{ByteSource, IoError};
use vstd::prelude::*;

verus! {

/// The number of bytes that a Common chunk takes up after its tag.
pub const COMMON_SPAN: usize = 22;

/// The format of the sound data.
#[derive(Clone, Copy, Debug, PartialEq, Eq)]
pub struct CommonChunk {
    /// The declared size of the payload.
    pub size: i32,
    /// The number of channels.
    pub num_channels: i16,
    /// The number of sample frames.
    pub num_sample_frames: u32,
    /// The number of bits in a sample point.
    pub bit_rate: i16,
    /// The number of sample frames per second.
    pub sample_rate: Extended,
}

impl View for CommonChunk {
    type V = CommonChunk;

    open spec fn view(&self) -> CommonChunk {
        *self
    }
}

/// The ten bytes of the sample rate of the Common chunk that starts at `pos`.
pub open spec fn rate_bytes(b: Seq<u8>, pos: int) -> Seq<u8> {
    b.subrange(pos + 12, pos + 22)
}

/// The Common chunk whose fields stand at `pos`.
pub open spec fn common_at(b: Seq<u8>, pos: int) -> CommonChunk {
    CommonChunk {
        size: be_i32(b, pos) as i32,
        num_channels: be_i16(b, pos + 4) as i16,
        num_sample_frames: be_u32(b, pos + 6) as u32,
        bit_rate: be_i16(b, pos + 10) as i16,
        sample_rate: extended_of(rate_bytes(b, pos)),
    }
}

/// Reads the ten bytes of an extended-precision number.
fn read_extended_bytes(buf: &mut ByteSource) -> (r: Result<[u8; 10], IoError>)
    ensures
        crate::reader::fixed_read(old(buf), final(buf), 10, r is Ok),
        r matches Ok(a) ==> a@ == old(buf).bytes().subrange(
            old(buf).offset(),
            old(buf).offset() + 10,
        ),
        r matches Err(e) ==> e == IoError::UnexpectedEof,
{
    if buf.available() < 10 {
        return Err(IoError::UnexpectedEof);
    }
    let a: [u8; 10] = [
        buf.peek(0),
        buf.peek(1),
        buf.peek(2),
        buf.peek(3),
        buf.peek(4),
        buf.peek(5),
        buf.peek(6),
        buf.peek(7),
        buf.peek(8),
        buf.peek(9),
    ];
    buf.advance(10);
    assert(a@ =~= old(buf).bytes().subrange(old(buf).offset(), old(buf).offset() + 10));
    Ok(a)
}

impl Chunk for CommonChunk {
    open spec fn decoded(bytes: Seq<u8>, pos: int, id: ChunkID, read_data: bool) -> Result<
        Option<CommonChunk>,
        ChunkError,
    > {
        if !same_tag(id, COMMON) {
            Err(ChunkError::InvalidID(id))
        } else if !in_bounds(bytes, pos, COMMON_SPAN as int) {
            Err(eof())
        } else if !read_data {
            Ok(None)
        } else if !extended_of(rate_bytes(bytes, pos)).is_supported() {
            Err(ChunkError::InvalidData("Extended Precision"))
        } else {
            Ok(Some(common_at(bytes, pos)))
        }
    }

    open spec fn end(bytes: Seq<u8>, pos: int, id: ChunkID, read_data: bool) -> int {
        pos + COMMON_SPAN as int
    }

    /// A wrong tag or a chunk cut short leaves the stream where it was; a
    /// sample rate that is not supported leaves it after the chunk.
    open spec fn failed_at(bytes: Seq<u8>, pos: int, id: ChunkID, read_data: bool) -> int {
        if same_tag(id, COMMON) && in_bounds(bytes, pos, COMMON_SPAN as int) {
            pos + COMMON_SPAN as int
        } else {
            pos
        }
    }

    proof fn skip_ends_where_decode_ends(bytes: Seq<u8>, pos: int, id: ChunkID) {
    }

    proof fn end_in_range(bytes: Seq<u8>, pos: int, id: ChunkID, read_data: bool) {
    }

    fn parse(buf: &mut ByteSource, id: ChunkID, read_data: bool, curr_buf_pos: &mut Option<u64>) -> (r:
        Result<Option<Self>, ChunkError>) {
        record(curr_buf_pos, buf.position());
        if !same_id(&id, &COMMON) {
            return Err(ChunkError::InvalidID(id));
        }
        if buf.available() < COMMON_SPAN {
            return Err(ChunkError::Io(IoError::UnexpectedEof));
        }
        let size = io(read_i32_be(buf))?;
        let num_channels = io(read_i16_be(buf))?;
        let num_sample_frames = io(read_u32_be(buf))?;
        let bit_rate = io(read_i16_be(buf))?;
        if !read_data {
            io(buf.skip(10))?;
            return Ok(None);
        }
        let rate_buf = io(read_extended_bytes(buf))?;
        let sample_rate = match parse_extended_precision_bytes(rate_buf) {
            Ok(s) => s,
            Err(_) => {
                return Err(ChunkError::InvalidData("Extended Precision"));
            },
        };
        Ok(Some(CommonChunk { size, num_channels, num_sample_frames, bit_rate, sample_rate }))
    }
}

} // verus!
