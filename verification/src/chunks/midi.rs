//! The MIDI Data chunk: raw MIDI bytes.

use crate::chunks::{eof, in_bounds, io, record, Chunk, ChunkError};
use crate::ids::{same_id, same_tag, ChunkID, MIDI};
use crate::reader::{be_i32, read_i32_be};
use crate::source::ByteSource;
use vstd::prelude::*;

verus! {

/// Raw MIDI bytes.
#[derive(Clone, Debug, PartialEq, Eq)]
pub struct MIDIDataChunk {
    /// The declared size of the payload.
    pub size: i32,
    /// The payload.
    pub data: Vec<u8>,
}

/// A MIDI Data chunk as plain values.
pub struct MIDIDataView {
    pub size: i32,
    pub data: Seq<u8>,
}

impl View for MIDIDataChunk {
    type V = MIDIDataView;

    open spec fn view(&self) -> MIDIDataView {
        MIDIDataView { size: self.size, data: self.data@ }
    }
}

/// The MIDI Data chunk that stands at `pos`.
pub open spec fn midi_at(b: Seq<u8>, pos: int) -> MIDIDataView {
    MIDIDataView { size: be_i32(b, pos) as i32, data: b.subrange(pos + 4, pos + 4 + be_i32(b, pos)) }
}

impl Chunk for MIDIDataChunk {
    open spec fn decoded(bytes: Seq<u8>, pos: int, id: ChunkID, read_data: bool) -> Result<
        Option<MIDIDataView>,
        ChunkError,
    > {
        if !same_tag(id, MIDI) {
            Err(ChunkError::InvalidID(id))
        } else if !in_bounds(bytes, pos, 4) {
            Err(eof())
        } else if be_i32(bytes, pos) < 0 {
            Err(ChunkError::InvalidSize(0, be_i32(bytes, pos) as i32))
        } else if !in_bounds(bytes, pos + 4, be_i32(bytes, pos)) {
            Err(eof())
        } else if !read_data {
            Ok(None)
        } else {
            Ok(Some(midi_at(bytes, pos)))
        }
    }

    open spec fn end(bytes: Seq<u8>, pos: int, id: ChunkID, read_data: bool) -> int {
        pos + 4 + be_i32(bytes, pos)
    }

    /// A wrong tag or a size cut short leaves the stream where it was; a
    /// negative size or a payload cut short leave it after the size, at the
    /// start of the payload.
    open spec fn failed_at(bytes: Seq<u8>, pos: int, id: ChunkID, read_data: bool) -> int {
        if same_tag(id, MIDI) && in_bounds(bytes, pos, 4) {
            pos + 4
        } else {
            pos
        }
    }

    proof fn skip_ends_where_decode_ends(bytes: Seq<u8>, pos: int, id: ChunkID) {
    }

    proof fn end_in_range(bytes: Seq<u8>, pos: int, id: ChunkID, read_data: bool) {
    }

    fn parse(buf: &mut ByteSource, id: ChunkID, read_data: bool, curr_buf_pos: &mut Option<u64>) -> (r:
        Result<Option<Self>, ChunkError>) {
        record(curr_buf_pos, buf.position());
        if !same_id(&id, &MIDI) {
            return Err(ChunkError::InvalidID(id));
        }
        let size = io(read_i32_be(buf))?;
        if size < 0 {
            return Err(ChunkError::InvalidSize(0, size));
        }
        if !read_data {
            io(buf.skip(size as usize))?;
            return Ok(None);
        }
        let data = io(buf.read_exact(size as usize))?;
        Ok(Some(MIDIDataChunk { size, data }))
    }
}

} // verus!
