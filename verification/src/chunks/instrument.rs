//! The Instrument chunk: how a sampler should play the sound.

use crate::chunks::{eof, in_bounds, io, record, Chunk, ChunkError};
use crate::ids::{same_id, same_tag, ChunkID, INSTRUMENT};
use crate::reader::{as_i8, be_i16, be_i32, fixed_read, read_i16_be, read_i32_be, read_i8_be};
use crate::source::{ByteSource, IoError};
use vstd::prelude::*;

verus! {

/// A marker identifier.
pub type MarkerId = i16;

/// The number of bytes that an Instrument chunk takes up after its tag.
pub const INSTRUMENT_SPAN: usize = 24;

/// A loop between two markers.
#[derive(Clone, Copy, Debug, PartialEq, Eq)]
pub struct Loop {
    /// 0: no looping, 1: forward, 2: forward and backward.
    pub play_mode: i16,
    /// The marker at which the loop begins.
    pub begin_loop: MarkerId,
    /// The marker at which the loop ends.
    pub end_loop: MarkerId,
}

/// The loop whose three fields stand at `at`.
pub open spec fn loop_at(b: Seq<u8>, at: int) -> Loop {
    Loop {
        play_mode: be_i16(b, at) as i16,
        begin_loop: be_i16(b, at + 2) as i16,
        end_loop: be_i16(b, at + 4) as i16,
    }
}

impl Loop {
    /// Reads a loop: play mode, begin marker and end marker, two bytes each.
    /// On failure the stream has not moved.
    pub fn from_reader(r: &mut ByteSource) -> (res: Result<Loop, IoError>)
        ensures
            final(r).bytes() == old(r).bytes(),
            final(r).in_place(),
            res is Ok <==> old(r).remaining() >= 6,
            res matches Ok(l) ==> l == loop_at(old(r).bytes(), old(r).offset()) && final(r).offset()
                == old(r).offset() + 6,
            res matches Err(e) ==> e == IoError::UnexpectedEof && final(r).offset() == old(
                r,
            ).offset(),
    {
        if r.available() < 6 {
            return Err(IoError::UnexpectedEof);
        }
        let play_mode = read_i16_be(r)?;
        let begin_loop = read_i16_be(r)?;
        let end_loop = read_i16_be(r)?;
        Ok(Loop { play_mode, begin_loop, end_loop })
    }
}

/// How a sampler should play the sound.
#[derive(Clone, Copy, Debug, PartialEq, Eq)]
pub struct InstrumentChunk {
    /// The declared size of the payload.
    pub size: i32,
    /// The MIDI note at which the sound plays unchanged.
    pub base_note: i8,
    /// The pitch shift in cents, from -50 to 50.
    pub detune: i8,
    /// The lowest MIDI note for which the sound is meant.
    pub low_note: i8,
    /// The highest MIDI note for which the sound is meant.
    pub high_note: i8,
    /// The lowest MIDI velocity for which the sound is meant.
    pub low_velocity: i8,
    /// The highest MIDI velocity for which the sound is meant.
    pub high_velocity: i8,
    /// The gain in decibels.
    pub gain: i16,
    /// The loop played while a key is held.
    pub sustain_loop: Loop,
    /// The loop played after the key is let go.
    pub release_loop: Loop,
}

impl View for InstrumentChunk {
    type V = InstrumentChunk;

    open spec fn view(&self) -> InstrumentChunk {
        *self
    }
}

/// The Instrument chunk whose fields stand at `pos`.
pub open spec fn instrument_at(b: Seq<u8>, pos: int) -> InstrumentChunk {
    InstrumentChunk {
        size: be_i32(b, pos) as i32,
        base_note: as_i8(b[pos + 4]) as i8,
        detune: as_i8(b[pos + 5]) as i8,
        low_note: as_i8(b[pos + 6]) as i8,
        high_note: as_i8(b[pos + 7]) as i8,
        low_velocity: as_i8(b[pos + 8]) as i8,
        high_velocity: as_i8(b[pos + 9]) as i8,
        gain: be_i16(b, pos + 10) as i16,
        sustain_loop: loop_at(b, pos + 12),
        release_loop: loop_at(b, pos + 18),
    }
}

impl Chunk for InstrumentChunk {
    open spec fn decoded(bytes: Seq<u8>, pos: int, id: ChunkID, read_data: bool) -> Result<
        Option<InstrumentChunk>,
        ChunkError,
    > {
        if !same_tag(id, INSTRUMENT) {
            Err(ChunkError::InvalidID(id))
        } else if !in_bounds(bytes, pos, INSTRUMENT_SPAN as int) {
            Err(eof())
        } else if !read_data {
            Ok(None)
        } else {
            Ok(Some(instrument_at(bytes, pos)))
        }
    }

    open spec fn end(bytes: Seq<u8>, pos: int, id: ChunkID, read_data: bool) -> int {
        pos + INSTRUMENT_SPAN as int
    }

    /// A failure leaves the stream where it was.
    open spec fn failed_at(bytes: Seq<u8>, pos: int, id: ChunkID, read_data: bool) -> int {
        pos
    }

    proof fn skip_ends_where_decode_ends(bytes: Seq<u8>, pos: int, id: ChunkID) {
    }

    proof fn end_in_range(bytes: Seq<u8>, pos: int, id: ChunkID, read_data: bool) {
    }

    fn parse(buf: &mut ByteSource, id: ChunkID, read_data: bool, curr_buf_pos: &mut Option<u64>) -> (r:
        Result<Option<Self>, ChunkError>) {
        record(curr_buf_pos, buf.position());
        if !same_id(&id, &INSTRUMENT) {
            return Err(ChunkError::InvalidID(id));
        }
        if buf.available() < INSTRUMENT_SPAN {
            return Err(ChunkError::Io(IoError::UnexpectedEof));
        }
        if !read_data {
            buf.advance(INSTRUMENT_SPAN);
            return Ok(None);
        }
        let size = io(read_i32_be(buf))?;
        let base_note = io(read_i8_be(buf))?;
        let detune = io(read_i8_be(buf))?;
        let low_note = io(read_i8_be(buf))?;
        let high_note = io(read_i8_be(buf))?;
        let low_velocity = io(read_i8_be(buf))?;
        let high_velocity = io(read_i8_be(buf))?;
        let gain = io(read_i16_be(buf))?;
        let sustain_loop = io(Loop::from_reader(buf))?;
        let release_loop = io(Loop::from_reader(buf))?;
        Ok(
            Some(
                InstrumentChunk {
                    size,
                    base_note,
                    detune,
                    low_note,
                    high_note,
                    low_velocity,
                    high_velocity,
                    gain,
                    sustain_loop,
                    release_loop,
                },
            ),
        )
    }
}

} // verus!
