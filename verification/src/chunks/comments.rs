//! The Comments chunk: dated remarks, each tied to a marker or to none.

use crate::chunks::instrument::MarkerId;
use crate::chunks::text::padded;
use crate::chunks::{eof, in_bounds, io, record, Chunk, ChunkError};
use crate::ids::{same_id, same_tag, ChunkID, COMMENTS};
use crate::reader::{
    be_i16, be_i32, be_u16, be_u32, read_i16_be, read_i32_be, read_u16_be, read_u32_be,
};
use crate::source::{ByteSource, IoError};
use crate::text::decode_text;
use vstd::prelude::*;
use vstd::utf8::{decode_utf8, valid_utf8};

verus! {

/// A dated remark.
#[derive(Clone, Debug, PartialEq, Eq)]
pub struct Comment {
    /// When the comment was made, in seconds since the first of January 1904.
    pub timestamp: u32,
    /// The marker that the comment is about, or 0 for none.
    pub marker_id: MarkerId,
    /// The number of bytes of the text.
    pub count: u16,
    /// The text.
    pub text: String,
}

/// A comment as plain values.
pub struct CommentView {
    pub timestamp: u32,
    pub marker_id: MarkerId,
    pub count: u16,
    pub text: Seq<char>,
}

impl View for Comment {
    type V = CommentView;

    open spec fn view(&self) -> CommentView {
        CommentView {
            timestamp: self.timestamp,
            marker_id: self.marker_id,
            count: self.count,
            text: self.text@,
        }
    }
}

/// The number of bytes that the comment at `at` takes up: eight bytes of
/// fields and the text, padded to an even length.
pub open spec fn comment_span(b: Seq<u8>, at: int) -> int {
    8 + padded(be_u16(b, at + 6))
}

/// The comment at `at` lies wholly inside `b`.
pub open spec fn comment_fits(b: Seq<u8>, at: int) -> bool {
    in_bounds(b, at, 8) && at + comment_span(b, at) <= b.len()
}

/// The bytes of the text of the comment at `at`.
pub open spec fn comment_bytes(b: Seq<u8>, at: int) -> Seq<u8> {
    b.subrange(at + 8, at + 8 + be_u16(b, at + 6))
}

/// What reading the comment at `at` yields.
pub open spec fn comment_at(b: Seq<u8>, at: int) -> Result<CommentView, ChunkError> {
    if !comment_fits(b, at) {
        Err(eof())
    } else if !valid_utf8(comment_bytes(b, at)) {
        Err(ChunkError::InvalidData("comment"))
    } else {
        Ok(
            CommentView {
                timestamp: be_u32(b, at) as u32,
                marker_id: be_i16(b, at + 4) as i16,
                count: be_u16(b, at + 6) as u16,
                text: decode_utf8(comment_bytes(b, at)),
            },
        )
    }
}

/// Where `n` comments in a row that start at `at` end, if they all lie
/// inside `b`.
pub open spec fn comments_end(b: Seq<u8>, at: int, n: nat) -> Option<int>
    decreases n,
{
    if n == 0 {
        Some(at)
    } else if !comment_fits(b, at) {
        None
    } else {
        comments_end(b, at + comment_span(b, at), (n - 1) as nat)
    }
}

/// What reading `n` comments in a row from `at` yields: all of them, or the
/// error of the first that cannot be read.
pub open spec fn comments_at(b: Seq<u8>, at: int, n: nat) -> Result<Seq<CommentView>, ChunkError>
    decreases n,
{
    if n == 0 {
        Ok(Seq::empty())
    } else {
        match comment_at(b, at) {
            Err(e) => Err(e),
            Ok(c) => match comments_at(b, at + comment_span(b, at), (n - 1) as nat) {
                Err(e) => Err(e),
                Ok(rest) => Ok(seq![c] + rest),
            },
        }
    }
}

/// Where reading `n` comments in a row from `at` stops: at the first one
/// that cannot be read (or, when only skipping, that does not lie inside
/// `b`), or after the last one.
pub open spec fn comments_stop(b: Seq<u8>, at: int, n: nat, read_data: bool) -> int
    decreases n,
{
    if n == 0 {
        at
    } else if (if read_data {
        comment_at(b, at) is Err
    } else {
        !comment_fits(b, at)
    }) {
        at
    } else {
        comments_stop(b, at + comment_span(b, at), (n - 1) as nat, read_data)
    }
}

/// The comments read so far, followed by what the rest yields.
pub open spec fn comments_then(
    done: Seq<CommentView>,
    rest: Result<Seq<CommentView>, ChunkError>,
) -> Result<Seq<CommentView>, ChunkError> {
    match rest {
        Ok(more) => Ok(done + more),
        Err(e) => Err(e),
    }
}

/// The views of a list of comments.
pub open spec fn comment_views(v: Seq<Comment>) -> Seq<CommentView> {
    v.map_values(|c: Comment| c@)
}

/// Comments that can all be read all lie inside the bytes.
pub proof fn lemma_comments_read_fit(b: Seq<u8>, at: int, n: nat)
    requires
        comments_at(b, at, n) is Ok,
    ensures
        comments_end(b, at, n) is Some,
    decreases n,
{
    if n > 0 {
        lemma_comments_read_fit(b, at + comment_span(b, at), (n - 1) as nat);
    }
}

/// Comments that fit end at or after their start, inside the bytes.
pub proof fn lemma_comments_end_in_range(b: Seq<u8>, at: int, n: nat)
    requires
        0 <= at <= b.len(),
        comments_end(b, at, n) is Some,
    ensures
        at <= comments_end(b, at, n)->0 <= b.len(),
    decreases n,
{
    if n > 0 {
        lemma_comments_end_in_range(b, at + comment_span(b, at), (n - 1) as nat);
    }
}

impl Comment {
    /// Reads a comment: its time stamp, its marker, the length of its text,
    /// the text, and a pad byte if that length is odd. On failure the stream
    /// has not moved.
    pub fn from_reader(r: &mut ByteSource) -> (res: Result<Comment, ChunkError>)
        ensures
            final(r).bytes() == old(r).bytes(),
            final(r).in_place(),
            match res {
                Ok(c) => {
                    &&& comment_at(old(r).bytes(), old(r).offset()) == Ok::<
                        CommentView,
                        ChunkError,
                    >(c@)
                    &&& final(r).offset() == old(r).offset() + comment_span(
                        old(r).bytes(),
                        old(r).offset(),
                    )
                },
                Err(e) => {
                    &&& comment_at(old(r).bytes(), old(r).offset()) == Err::<
                        CommentView,
                        ChunkError,
                    >(e)
                    &&& final(r).offset() == old(r).offset()
                },
            },
    {
        let have = r.available();
        if have < 8 {
            return Err(ChunkError::Io(IoError::UnexpectedEof));
        }
        let count: u16 = r.peek(6) as u16 * 0x100 + r.peek(7) as u16;
        let length = count as usize;
        let pad: usize = length % 2;
        if have - 8 < length + pad {
            return Err(ChunkError::Io(IoError::UnexpectedEof));
        }
        let text = match decode_text(r.copy_ahead(8, length)) {
            Some(text) => text,
            None => {
                return Err(ChunkError::InvalidData("comment"));
            },
        };
        let timestamp = io(read_u32_be(r))?;
        let marker_id = io(read_i16_be(r))?;
        r.advance(2 + length + pad);
        Ok(Comment { timestamp, marker_id, count, text })
    }

    /// Moves past a comment without decoding its text. On failure the stream
    /// has not moved.
    pub fn skip(r: &mut ByteSource) -> (res: Result<(), IoError>)
        ensures
            final(r).bytes() == old(r).bytes(),
            final(r).in_place(),
            res is Ok <==> comment_fits(old(r).bytes(), old(r).offset()),
            res is Ok ==> final(r).offset() == old(r).offset() + comment_span(
                old(r).bytes(),
                old(r).offset(),
            ),
            res matches Err(e) ==> e == IoError::UnexpectedEof && final(r).offset() == old(
                r,
            ).offset(),
    {
        if r.available() < 8 {
            return Err(IoError::UnexpectedEof);
        }
        let length: usize = r.peek(6) as usize * 0x100 + r.peek(7) as usize;
        r.skip(8 + length + length % 2)
    }
}

/// The comments of a file.
#[derive(Clone, Debug, PartialEq, Eq)]
pub struct CommentsChunk {
    /// The declared size of the payload.
    pub size: i32,
    /// The declared number of comments.
    pub num_comments: u16,
    /// The comments, as many as declared.
    pub comments: Vec<Comment>,
}

/// A Comments chunk as plain values.
pub struct CommentsChunkView {
    pub size: i32,
    pub num_comments: u16,
    pub comments: Seq<CommentView>,
}

impl View for CommentsChunk {
    type V = CommentsChunkView;

    open spec fn view(&self) -> CommentsChunkView {
        CommentsChunkView {
            size: self.size,
            num_comments: self.num_comments,
            comments: comment_views(self.comments@),
        }
    }
}

impl Chunk for CommentsChunk {
    open spec fn decoded(bytes: Seq<u8>, pos: int, id: ChunkID, read_data: bool) -> Result<
        Option<CommentsChunkView>,
        ChunkError,
    > {
        if !same_tag(id, COMMENTS) {
            Err(ChunkError::InvalidID(id))
        } else if !in_bounds(bytes, pos, 6) {
            Err(eof())
        } else if !read_data {
            if comments_end(bytes, pos + 6, be_u16(bytes, pos + 4) as nat) is Some {
                Ok(None)
            } else {
                Err(eof())
            }
        } else {
            match comments_at(bytes, pos + 6, be_u16(bytes, pos + 4) as nat) {
                Ok(comments) => Ok(
                    Some(
                        CommentsChunkView {
                            size: be_i32(bytes, pos) as i32,
                            num_comments: be_u16(bytes, pos + 4) as u16,
                            comments,
                        },
                    ),
                ),
                Err(e) => Err(e),
            }
        }
    }

    open spec fn end(bytes: Seq<u8>, pos: int, id: ChunkID, read_data: bool) -> int {
        comments_end(bytes, pos + 6, be_u16(bytes, pos + 4) as nat)->0
    }

    /// A wrong tag or a head cut short leaves the stream where it was; a
    /// comment that cannot be read leaves it at the start of that comment.
    open spec fn failed_at(bytes: Seq<u8>, pos: int, id: ChunkID, read_data: bool) -> int {
        if same_tag(id, COMMENTS) && in_bounds(bytes, pos, 6) {
            comments_stop(bytes, pos + 6, be_u16(bytes, pos + 4) as nat, read_data)
        } else {
            pos
        }
    }

    proof fn skip_ends_where_decode_ends(bytes: Seq<u8>, pos: int, id: ChunkID) {
        lemma_comments_read_fit(bytes, pos + 6, be_u16(bytes, pos + 4) as nat);
    }

    proof fn end_in_range(bytes: Seq<u8>, pos: int, id: ChunkID, read_data: bool) {
        let n = be_u16(bytes, pos + 4) as nat;
        if read_data {
            lemma_comments_read_fit(bytes, pos + 6, n);
        }
        lemma_comments_end_in_range(bytes, pos + 6, n);
    }

    #[verifier::loop_isolation(false)]
    fn parse(buf: &mut ByteSource, id: ChunkID, read_data: bool, curr_buf_pos: &mut Option<u64>) -> (r:
        Result<Option<Self>, ChunkError>) {
        record(curr_buf_pos, buf.position());
        if !same_id(&id, &COMMENTS) {
            return Err(ChunkError::InvalidID(id));
        }
        if buf.available() < 6 {
            return Err(ChunkError::Io(IoError::UnexpectedEof));
        }
        let size = io(read_i32_be(buf))?;
        let num_comments = io(read_u16_be(buf))?;
        let ghost b = buf.bytes();
        let ghost first = buf.offset();
        let ghost n = num_comments as nat;
        let mut i: u16 = 0;
        if !read_data {
            while i < num_comments
                invariant
                    i <= num_comments,
                    n == num_comments,
                    buf.bytes() == b,
                    buf.in_place(),
                    comments_end(b, first, n) == comments_end(b, buf.offset(), (n - i) as nat),
                    comments_stop(b, first, n, false) == comments_stop(
                        b,
                        buf.offset(),
                        (n - i) as nat,
                        false,
                    ),
                decreases num_comments - i,
            {
                io(Comment::skip(buf))?;
                i = i + 1;
            }
            return Ok(None);
        }
        let mut comments: Vec<Comment> = Vec::with_capacity(num_comments as usize);
        while i < num_comments
            invariant
                i <= num_comments,
                n == num_comments,
                buf.bytes() == b,
                buf.in_place(),
                comments_end(b, first, n) == comments_end(b, buf.offset(), (n - i) as nat),
                comments_stop(b, first, n, true) == comments_stop(
                    b,
                    buf.offset(),
                    (n - i) as nat,
                    true,
                ),
                comments_at(b, first, n) == comments_then(
                    comment_views(comments@),
                    comments_at(b, buf.offset(), (n - i) as nat),
                ),
            decreases num_comments - i,
        {
            let ghost before = comment_views(comments@);
            let ghost at = buf.offset();
            let comment = Comment::from_reader(buf)?;
            proof {
                let tail = comments_at(b, at + comment_span(b, at), (n - i - 1) as nat);
                assert(comment_views(comments@.push(comment)) =~= before.push(comment@));
                if let Ok(more) = tail {
                    assert(before + (seq![comment@] + more) =~= before.push(comment@) + more);
                }
            }
            comments.push(comment);
            i = i + 1;
        }
        proof {
            assert(comment_views(comments@) + Seq::<CommentView>::empty() =~= comment_views(
                comments@,
            ));
            lemma_comments_read_fit(b, first, n);
        }
        Ok(Some(CommentsChunk { size, num_comments, comments }))
    }
}

} // verus!
