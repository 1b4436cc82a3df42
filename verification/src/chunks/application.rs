//! The Application Specific chunk: data for one application.

use crate::chunks::{eof, in_bounds, io, record, tag_at, Chunk, ChunkError};
use crate::ids::{same_id, same_tag, ChunkID, APPLICATION};
use crate::reader::{as_i8, be_i32, read_chunk_id, read_i32_be};
use crate::source::ByteSource;
use vstd::prelude::*;

verus! {

/// Data that only the application named by the signature understands.
#[derive(Clone, Debug, PartialEq, Eq)]
pub struct ApplicationSpecificChunk {
    /// The declared size of the payload: the signature and the data.
    pub size: i32,
    /// The signature of the application.
    pub application_signature: ChunkID,
    /// The data, four bytes fewer than the declared size.
    pub data: Vec<i8>,
}

/// An Application Specific chunk as plain values.
pub struct ApplicationSpecificView {
    pub size: i32,
    pub application_signature: ChunkID,
    pub data: Seq<i8>,
}

impl View for ApplicationSpecificChunk {
    type V = ApplicationSpecificView;

    open spec fn view(&self) -> ApplicationSpecificView {
        ApplicationSpecificView {
            size: self.size,
            application_signature: self.application_signature,
            data: self.data@,
        }
    }
}

/// The bytes read as two's-complement numbers, one for one.
pub open spec fn signed_bytes(s: Seq<u8>) -> Seq<i8> {
    Seq::new(s.len(), |i: int| as_i8(s[i]) as i8)
}

/// The Application Specific chunk that stands at `pos`.
pub open spec fn application_at(b: Seq<u8>, pos: int) -> ApplicationSpecificView {
    ApplicationSpecificView {
        size: be_i32(b, pos) as i32,
        application_signature: tag_at(b, pos + 4),
        data: signed_bytes(b.subrange(pos + 8, pos + 4 + be_i32(b, pos))),
    }
}

/// Reads each byte as a two's-complement number.
fn to_signed(bytes: &Vec<u8>) -> (out: Vec<i8>)
    ensures
        out@ == signed_bytes(bytes@),
{
    let mut out: Vec<i8> = Vec::with_capacity(bytes.len());
    let mut i: usize = 0;
    while i < bytes.len()
        invariant
            i <= bytes.len(),
            out.len() == i,
            forall|j: int| 0 <= j < i ==> out@[j] == as_i8(bytes@[j]) as i8,
        decreases bytes.len() - i,
    {
        let b = bytes[i];
        out.push(
            if b < 0x80 {
                b as i8
            } else {
                (b - 0x80) as i8 + i8::MIN
            },
        );
        i = i + 1;
    }
    assert(out@ =~= signed_bytes(bytes@));
    out
}

impl Chunk for ApplicationSpecificChunk {
    open spec fn decoded(bytes: Seq<u8>, pos: int, id: ChunkID, read_data: bool) -> Result<
        Option<ApplicationSpecificView>,
        ChunkError,
    > {
        if !same_tag(id, APPLICATION) {
            Err(ChunkError::InvalidID(id))
        } else if !in_bounds(bytes, pos, 4) {
            Err(eof())
        } else if be_i32(bytes, pos) < 4 {
            Err(ChunkError::InvalidSize(4, be_i32(bytes, pos) as i32))
        } else if !in_bounds(bytes, pos + 4, be_i32(bytes, pos)) {
            Err(eof())
        } else if !read_data {
            Ok(None)
        } else {
            Ok(Some(application_at(bytes, pos)))
        }
    }

    open spec fn end(bytes: Seq<u8>, pos: int, id: ChunkID, read_data: bool) -> int {
        pos + 4 + be_i32(bytes, pos)
    }

    /// A wrong tag or a size cut short leaves the stream where it was; a
    /// size below four or a payload cut short leave it after the size, at
    /// the start of the signature.
    open spec fn failed_at(bytes: Seq<u8>, pos: int, id: ChunkID, read_data: bool) -> int {
        if same_tag(id, APPLICATION) && in_bounds(bytes, pos, 4) {
            pos + 4
        } else {
            pos
        }
    }

    proof fn skip_ends_where_decode_ends(bytes: Seq<u8>, pos: int, id: ChunkID) {
    }

    proof fn end_in_range(bytes: Seq<u8>, pos: int, id: ChunkID, read_data: bool) {
    }

    fn parse(buf: &mut ByteSource, id: ChunkID, read_data: bool, curr_buf_pos: &mut Option<u64>) -> (r:
        Result<Option<Self>, ChunkError>) {
        record(curr_buf_pos, buf.position());
        if !same_id(&id, &APPLICATION) {
            return Err(ChunkError::InvalidID(id));
        }
        let size = io(read_i32_be(buf))?;
        if size < 4 {
            return Err(ChunkError::InvalidSize(4, size));
        }
        if buf.available() < size as usize {
            return Err(ChunkError::Io(crate::source::IoError::UnexpectedEof));
        }
        let application_signature = io(read_chunk_id(buf))?;
        assert(application_signature =~= tag_at(old(buf).bytes(), old(buf).offset() + 4));
        if !read_data {
            io(buf.skip((size - 4) as usize))?;
            return Ok(None);
        }
        let raw = io(buf.read_exact((size - 4) as usize))?;
        let data = to_signed(&raw);
        Ok(Some(ApplicationSpecificChunk { size, application_signature, data }))
    }
}

} // verus!
