//! Embedded ID3v2 tag metadata.
//!
//! The tag itself is decoded by the `id3` crate. This module finds the
//! tag's start, checks its version, hands the bytes over and moves the
//! stream past what the codec consumed.

use crate::chunks::{eof, in_bounds, record, Chunk, ChunkError};
use crate::ids::{has_marker_at, is_tag_marker, ChunkID};
use crate::source::{ByteSource, IoError};
use vstd::prelude::*;

verus! {

/// `id3::Tag`, a decoded tag. Nothing inside it is visible here: it is
/// only carried from the codec to the caller.
#[verifier::external_type_specification]
#[verifier::external_body]
pub struct ExTag(id3::Tag);

/// `id3::Error`, the error of the codec. Nothing inside it is visible here.
#[verifier::external_type_specification]
#[verifier::external_body]
pub struct ExTagError(id3::Error);

/// The highest major version of ID3v2 that is accepted.
pub const LAST_MAJOR_VERSION: u8 = 4;

/// The number of bytes that `id3::Tag::read_from` consumes of a stream that
/// starts with `bytes` when it succeeds, and `None` when it fails.
pub uninterp spec fn tag_length(bytes: Seq<u8>) -> Option<nat>;

/// `id3::Tag::read_from` on a cursor over `bytes`, together with the
/// position at which the cursor then stands.
///
/// Trusted: decoding the same bytes always succeeds or fails alike and
/// consumes the same number of bytes. Nothing is claimed of the tag.
#[verifier::external_body]
#[allow(deprecated)]
fn decode_tag(bytes: &[u8]) -> (r: Result<(id3::Tag, u64), id3::Error>)
    ensures
        match r {
            Ok((_, n)) => tag_length(bytes@) == Some(n as nat),
            Err(_) => tag_length(bytes@) is None,
        },
{
    let mut cursor = std::io::Cursor::new(bytes);
    match id3::Tag::read_from(&mut cursor) {
        Ok(tag) => Ok((tag, cursor.position())),
        Err(e) => Err(e),
    }
}

/// Embedded tag metadata.
#[derive(Debug)]
pub struct ID3v2Chunk {
    /// The decoded tag.
    pub tag: id3::Tag,
}

impl View for ID3v2Chunk {
    type V = ();

    open spec fn view(&self) -> () {
        ()
    }
}

/// The length that a decode consumed, where it is one that the stream can
/// be moved by: more than nothing, and no more than the `room` that is left.
pub open spec fn usable_length(length: Option<nat>, room: int) -> Option<int> {
    match length {
        Some(n) => if 0 < n <= room {
            Some(n as int)
        } else {
            None
        },
        None => None,
    }
}

/// The length that the codec reported, if it succeeded.
pub open spec fn reported_length(outcome: Result<(id3::Tag, u64), id3::Error>) -> Option<nat> {
    match outcome {
        Ok((_, n)) => Some(n as nat),
        Err(_) => None,
    }
}

/// The two version bytes of the tag that starts at `pos`.
pub open spec fn version_at(b: Seq<u8>, pos: int) -> [u8; 2] {
    [b[pos + 3], b[pos + 4]]
}

/// The version is one that is handed to the codec: major version at most 4,
/// minor version 0.
pub open spec fn version_accepted(version: [u8; 2]) -> bool {
    version[0] <= LAST_MAJOR_VERSION && version[1] == 0
}

/// The bytes from `pos` to the end.
pub open spec fn rest_from(b: Seq<u8>, pos: int) -> Seq<u8> {
    b.subrange(pos, b.len() as int)
}

/// Finishes a decode once the codec has answered, for every answer.
///
/// Where the codec succeeded and consumed a usable length, the stream moves
/// by that length and the tag is handed out, or dropped when only skipping
/// was asked for. In every other case the stream stays and the decode fails
/// with `InvalidData`.
pub fn accept_tag(
    buf: &mut ByteSource,
    outcome: Result<(id3::Tag, u64), id3::Error>,
    read_data: bool,
) -> (r: Result<Option<ID3v2Chunk>, ChunkError>)
    ensures
        match usable_length(reported_length(outcome), old(buf).remaining()) {
            Some(n) => {
                &&& old(buf).moved_to(final(buf), n)
                &&& match r {
                    Ok(Some(c)) => read_data && outcome == Ok::<(id3::Tag, u64), id3::Error>(
                        (c.tag, n as u64),
                    ),
                    Ok(None) => !read_data,
                    Err(_) => false,
                }
            },
            None => {
                &&& old(buf).moved_to(final(buf), 0)
                &&& r matches Err(e) && e == ChunkError::InvalidData("ID3 tag")
            },
        },
{
    let room = buf.available();
    match outcome {
        Ok((tag, n)) => {
            if 0 < n && n <= room as u64 {
                buf.advance(n as usize);
                if read_data {
                    Ok(Some(ID3v2Chunk { tag }))
                } else {
                    Ok(None)
                }
            } else {
                Err(ChunkError::InvalidData("ID3 tag"))
            }
        },
        Err(_) => Err(ChunkError::InvalidData("ID3 tag")),
    }
}

impl Chunk for ID3v2Chunk {
    open spec fn decoded(bytes: Seq<u8>, pos: int, id: ChunkID, read_data: bool) -> Result<
        Option<()>,
        ChunkError,
    > {
        if !is_tag_marker(id) {
            Err(ChunkError::InvalidID(id))
        } else if !in_bounds(bytes, pos, 5) {
            Err(eof())
        } else if !version_accepted(version_at(bytes, pos)) {
            Err(ChunkError::InvalidID3Version(version_at(bytes, pos)))
        } else if usable_length(tag_length(rest_from(bytes, pos)), bytes.len() - pos) is None {
            Err(ChunkError::InvalidData("ID3 tag"))
        } else if read_data {
            Ok(Some(()))
        } else {
            Ok(None)
        }
    }

    open spec fn end(bytes: Seq<u8>, pos: int, id: ChunkID, read_data: bool) -> int {
        pos + usable_length(tag_length(rest_from(bytes, pos)), bytes.len() - pos)->0
    }

    /// A failure leaves the stream where it was, at the start of the
    /// marker.
    open spec fn failed_at(bytes: Seq<u8>, pos: int, id: ChunkID, read_data: bool) -> int {
        pos
    }

    proof fn skip_ends_where_decode_ends(bytes: Seq<u8>, pos: int, id: ChunkID) {
    }

    proof fn end_in_range(bytes: Seq<u8>, pos: int, id: ChunkID, read_data: bool) {
    }

    /// The stream must stand at the start of the tag's marker, not after
    /// the window `id` in which the marker was found. Skipping decodes the
    /// tag as well, since only the codec knows where the tag ends.
    fn parse(buf: &mut ByteSource, id: ChunkID, read_data: bool, curr_buf_pos: &mut Option<u64>) -> (r:
        Result<Option<Self>, ChunkError>) {
        record(curr_buf_pos, buf.position());
        if !has_marker_at(&id, 0) && !has_marker_at(&id, 1) {
            return Err(ChunkError::InvalidID(id));
        }
        if buf.available() < 5 {
            return Err(ChunkError::Io(IoError::UnexpectedEof));
        }
        let version: [u8; 2] = [buf.peek(3), buf.peek(4)];
        assert(version =~= version_at(buf.bytes(), buf.offset()));
        if version[0] > LAST_MAJOR_VERSION || version[1] != 0 {
            return Err(ChunkError::InvalidID3Version(version));
        }
        let outcome = decode_tag(buf.rest());
        accept_tag(buf, outcome, read_data)
    }
}

} // verus!
