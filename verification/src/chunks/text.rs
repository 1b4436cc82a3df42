//! The text chunks: name, author, copyright and annotation.

use crate::chunks::{eof, in_bounds, io, record, Chunk, ChunkError};
use crate::ids::{same_id, same_tag, ChunkID, ANNOTATION, AUTHOR, COPYRIGHT, NAME};
use crate::reader::{be_i32, read_i32_be};
use crate::source::ByteSource;
use crate::text::decode_text;
use vstd::prelude::*;
use vstd::utf8::{decode_utf8, valid_utf8};

verus! {

/// Which of the four text chunks a text is.
#[derive(Clone, Copy, Debug, PartialEq, Eq, Structural)]
pub enum TextChunkType {
    Name,
    Author,
    Copyright,
    Annotation,
}

/// A text about the sound.
#[derive(Clone, Debug, PartialEq, Eq)]
pub struct TextChunk {
    /// Which text this is.
    pub chunk_type: TextChunkType,
    /// The declared size: the number of bytes of the text.
    pub size: i32,
    /// The text.
    pub text: String,
}

/// A text chunk as plain values.
pub struct TextChunkView {
    pub chunk_type: TextChunkType,
    pub size: i32,
    pub text: Seq<char>,
}

impl View for TextChunk {
    type V = TextChunkView;

    open spec fn view(&self) -> TextChunkView {
        TextChunkView { chunk_type: self.chunk_type, size: self.size, text: self.text@ }
    }
}

/// The text chunk that a tag opens, if it opens one.
pub open spec fn text_type_of(id: ChunkID) -> Option<TextChunkType> {
    if same_tag(id, NAME) {
        Some(TextChunkType::Name)
    } else if same_tag(id, AUTHOR) {
        Some(TextChunkType::Author)
    } else if same_tag(id, COPYRIGHT) {
        Some(TextChunkType::Copyright)
    } else if same_tag(id, ANNOTATION) {
        Some(TextChunkType::Annotation)
    } else {
        None
    }
}

/// The number of bytes that a payload of `size` bytes takes up when it is
/// padded to an even length.
pub open spec fn padded(size: int) -> int {
    size + size % 2
}

/// The bytes of the text of the text chunk that stands at `pos`.
pub open spec fn text_bytes(b: Seq<u8>, pos: int) -> Seq<u8> {
    b.subrange(pos + 4, pos + 4 + be_i32(b, pos))
}

impl Chunk for TextChunk {
    open spec fn decoded(bytes: Seq<u8>, pos: int, id: ChunkID, read_data: bool) -> Result<
        Option<TextChunkView>,
        ChunkError,
    > {
        if text_type_of(id) is None {
            Err(ChunkError::InvalidID(id))
        } else if !in_bounds(bytes, pos, 4) {
            Err(eof())
        } else if be_i32(bytes, pos) < 0 {
            Err(ChunkError::InvalidSize(0, be_i32(bytes, pos) as i32))
        } else if !in_bounds(bytes, pos + 4, padded(be_i32(bytes, pos))) {
            Err(eof())
        } else if !read_data {
            Ok(None)
        } else if !valid_utf8(text_bytes(bytes, pos)) {
            Err(ChunkError::InvalidData("text"))
        } else {
            Ok(
                Some(
                    TextChunkView {
                        chunk_type: text_type_of(id)->0,
                        size: be_i32(bytes, pos) as i32,
                        text: decode_utf8(text_bytes(bytes, pos)),
                    },
                ),
            )
        }
    }

    open spec fn end(bytes: Seq<u8>, pos: int, id: ChunkID, read_data: bool) -> int {
        pos + 4 + padded(be_i32(bytes, pos))
    }

    /// A wrong tag or a size cut short leaves the stream where it was; a
    /// negative size, a text cut short or a text that is not UTF-8 leave it
    /// after the size, at the start of the text.
    open spec fn failed_at(bytes: Seq<u8>, pos: int, id: ChunkID, read_data: bool) -> int {
        if text_type_of(id) is Some && in_bounds(bytes, pos, 4) {
            pos + 4
        } else {
            pos
        }
    }

    proof fn skip_ends_where_decode_ends(bytes: Seq<u8>, pos: int, id: ChunkID) {
    }

    proof fn end_in_range(bytes: Seq<u8>, pos: int, id: ChunkID, read_data: bool) {
    }

    fn parse(buf: &mut ByteSource, id: ChunkID, read_data: bool, curr_buf_pos: &mut Option<u64>) -> (r:
        Result<Option<Self>, ChunkError>) {
        record(curr_buf_pos, buf.position());
        let chunk_type = if same_id(&id, &NAME) {
            TextChunkType::Name
        } else if same_id(&id, &AUTHOR) {
            TextChunkType::Author
        } else if same_id(&id, &COPYRIGHT) {
            TextChunkType::Copyright
        } else if same_id(&id, &ANNOTATION) {
            TextChunkType::Annotation
        } else {
            return Err(ChunkError::InvalidID(id));
        };
        let size = io(read_i32_be(buf))?;
        if size < 0 {
            return Err(ChunkError::InvalidSize(0, size));
        }
        let length = size as usize;
        let pad: usize = length % 2;
        if buf.available() < pad || buf.available() - pad < length {
            return Err(ChunkError::Io(crate::source::IoError::UnexpectedEof));
        }
        if !read_data {
            buf.advance(length);
            buf.advance(pad);
            return Ok(None);
        }
        let text = match decode_text(buf.copy_ahead(0, length)) {
            Some(t) => t,
            None => {
                return Err(ChunkError::InvalidData("text"));
            },
        };
        buf.advance(length);
        buf.advance(pad);
        Ok(Some(TextChunk { chunk_type, size, text }))
    }
}

} // verus!
