//! The Marker chunk: named positions in the sound.

use crate::chunks::instrument::MarkerId;
use crate::chunks::{eof, in_bounds, io, record, Chunk, ChunkError};
use crate::ids::{same_id, same_tag, ChunkID, MARKER};
use crate::reader::{
    be_i16, be_i32, be_u16, be_u32, pstring_at, pstring_fits, pstring_span, read_i16_be,
    read_i32_be, read_pstring, read_u16_be, read_u32_be, skip_pstring,
};
use crate::source::{ByteSource, IoError};
use crate::text::decode_text;
use vstd::prelude::*;

verus! {

/// A named position in the sound.
#[derive(Clone, Debug, PartialEq, Eq)]
pub struct Marker {
    /// The identifier by which loops and comments refer to the marker.
    pub id: MarkerId,
    /// The sample frame before which the marker stands.
    pub position: u32,
    /// The name of the marker.
    pub marker_name: String,
}

/// A marker as plain values.
pub struct MarkerView {
    pub id: MarkerId,
    pub position: u32,
    pub marker_name: Seq<char>,
}

impl View for Marker {
    type V = MarkerView;

    open spec fn view(&self) -> MarkerView {
        MarkerView { id: self.id, position: self.position, marker_name: self.marker_name@ }
    }
}

/// The number of bytes that the marker at `at` takes up.
pub open spec fn marker_span(b: Seq<u8>, at: int) -> int {
    6 + pstring_span(b, at + 6)
}

/// The marker at `at` lies wholly inside `b`.
pub open spec fn marker_fits(b: Seq<u8>, at: int) -> bool {
    in_bounds(b, at, 6) && pstring_fits(b, at + 6)
}

/// What reading the marker at `at` yields.
pub open spec fn marker_at(b: Seq<u8>, at: int) -> Result<MarkerView, ChunkError> {
    if !in_bounds(b, at, 6) {
        Err(eof())
    } else {
        match pstring_at(b, at + 6) {
            Ok(name) => Ok(
                MarkerView {
                    id: be_i16(b, at) as i16,
                    position: be_u32(b, at + 2) as u32,
                    marker_name: name,
                },
            ),
            Err(e) => Err(e),
        }
    }
}

/// Where `n` markers in a row that start at `at` end, if they all lie
/// inside `b`.
pub open spec fn markers_end(b: Seq<u8>, at: int, n: nat) -> Option<int>
    decreases n,
{
    if n == 0 {
        Some(at)
    } else if !marker_fits(b, at) {
        None
    } else {
        markers_end(b, at + marker_span(b, at), (n - 1) as nat)
    }
}

/// What reading `n` markers in a row from `at` yields: all of them, or the
/// error of the first that cannot be read.
pub open spec fn markers_at(b: Seq<u8>, at: int, n: nat) -> Result<Seq<MarkerView>, ChunkError>
    decreases n,
{
    if n == 0 {
        Ok(Seq::empty())
    } else {
        match marker_at(b, at) {
            Err(e) => Err(e),
            Ok(m) => match markers_at(b, at + marker_span(b, at), (n - 1) as nat) {
                Err(e) => Err(e),
                Ok(rest) => Ok(seq![m] + rest),
            },
        }
    }
}

/// Where reading `n` markers in a row from `at` stops: at the first one
/// that cannot be read (or, when only skipping, that does not lie inside
/// `b`), or after the last one.
pub open spec fn markers_stop(b: Seq<u8>, at: int, n: nat, read_data: bool) -> int
    decreases n,
{
    if n == 0 {
        at
    } else if (if read_data {
        marker_at(b, at) is Err
    } else {
        !marker_fits(b, at)
    }) {
        at
    } else {
        markers_stop(b, at + marker_span(b, at), (n - 1) as nat, read_data)
    }
}

/// The markers read so far, followed by what the rest yields.
pub open spec fn markers_then(done: Seq<MarkerView>, rest: Result<Seq<MarkerView>, ChunkError>) -> Result<
    Seq<MarkerView>,
    ChunkError,
> {
    match rest {
        Ok(more) => Ok(done + more),
        Err(e) => Err(e),
    }
}

/// The views of a list of markers.
pub open spec fn marker_views(v: Seq<Marker>) -> Seq<MarkerView> {
    v.map_values(|m: Marker| m@)
}

/// Markers that can all be read all lie inside the bytes.
pub proof fn lemma_markers_read_fit(b: Seq<u8>, at: int, n: nat)
    requires
        markers_at(b, at, n) is Ok,
    ensures
        markers_end(b, at, n) is Some,
    decreases n,
{
    if n > 0 {
        lemma_markers_read_fit(b, at + marker_span(b, at), (n - 1) as nat);
    }
}

/// Markers that fit end at or after their start, inside the bytes.
pub proof fn lemma_markers_end_in_range(b: Seq<u8>, at: int, n: nat)
    requires
        0 <= at <= b.len(),
        markers_end(b, at, n) is Some,
    ensures
        at <= markers_end(b, at, n)->0 <= b.len(),
    decreases n,
{
    if n > 0 {
        lemma_markers_end_in_range(b, at + marker_span(b, at), (n - 1) as nat);
    }
}

impl Marker {
    /// Reads a marker: its identifier, its position and its name, a Pascal
    /// string. On failure the stream has not moved.
    pub fn from_reader(r: &mut ByteSource) -> (res: Result<Marker, ChunkError>)
        ensures
            final(r).bytes() == old(r).bytes(),
            final(r).in_place(),
            match res {
                Ok(m) => {
                    &&& marker_at(old(r).bytes(), old(r).offset()) == Ok::<MarkerView, ChunkError>(
                        m@,
                    )
                    &&& final(r).offset() == old(r).offset() + marker_span(
                        old(r).bytes(),
                        old(r).offset(),
                    )
                },
                Err(e) => {
                    &&& marker_at(old(r).bytes(), old(r).offset()) == Err::<
                        MarkerView,
                        ChunkError,
                    >(e)
                    &&& final(r).offset() == old(r).offset()
                },
            },
    {
        let have = r.available();
        if have < 7 {
            return Err(ChunkError::Io(IoError::UnexpectedEof));
        }
        let len = r.peek(6) as usize;
        if have - 7 < len + len % 2 {
            return Err(ChunkError::Io(IoError::UnexpectedEof));
        }
        let marker_name = match decode_text(r.copy_ahead(7, len)) {
            Some(name) => name,
            None => {
                return Err(ChunkError::InvalidData("Pascal string"));
            },
        };
        let id = io(read_i16_be(r))?;
        let position = io(read_u32_be(r))?;
        r.advance(1 + len + len % 2);
        Ok(Marker { id, position, marker_name })
    }

    /// Moves past a marker without decoding its name. On failure the stream
    /// has not moved.
    pub fn skip(r: &mut ByteSource) -> (res: Result<(), IoError>)
        ensures
            final(r).bytes() == old(r).bytes(),
            final(r).in_place(),
            res is Ok <==> marker_fits(old(r).bytes(), old(r).offset()),
            res is Ok ==> final(r).offset() == old(r).offset() + marker_span(
                old(r).bytes(),
                old(r).offset(),
            ),
            res matches Err(e) ==> e == IoError::UnexpectedEof && final(r).offset() == old(
                r,
            ).offset(),
    {
        if r.available() < 7 {
            return Err(IoError::UnexpectedEof);
        }
        let len = r.peek(6) as usize;
        r.skip(7 + len + len % 2)
    }
}

/// The markers of a file.
#[derive(Clone, Debug, PartialEq, Eq)]
pub struct MarkerChunk {
    /// The declared size of the payload.
    pub size: i32,
    /// The declared number of markers.
    pub num_markers: u16,
    /// The markers, as many as declared.
    pub markers: Vec<Marker>,
}

/// A Marker chunk as plain values.
pub struct MarkerChunkView {
    pub size: i32,
    pub num_markers: u16,
    pub markers: Seq<MarkerView>,
}

impl View for MarkerChunk {
    type V = MarkerChunkView;

    open spec fn view(&self) -> MarkerChunkView {
        MarkerChunkView {
            size: self.size,
            num_markers: self.num_markers,
            markers: marker_views(self.markers@),
        }
    }
}

impl Chunk for MarkerChunk {
    open spec fn decoded(bytes: Seq<u8>, pos: int, id: ChunkID, read_data: bool) -> Result<
        Option<MarkerChunkView>,
        ChunkError,
    > {
        if !same_tag(id, MARKER) {
            Err(ChunkError::InvalidID(id))
        } else if !in_bounds(bytes, pos, 6) {
            Err(eof())
        } else if !read_data {
            if markers_end(bytes, pos + 6, be_u16(bytes, pos + 4) as nat) is Some {
                Ok(None)
            } else {
                Err(eof())
            }
        } else {
            match markers_at(bytes, pos + 6, be_u16(bytes, pos + 4) as nat) {
                Ok(markers) => Ok(
                    Some(
                        MarkerChunkView {
                            size: be_i32(bytes, pos) as i32,
                            num_markers: be_u16(bytes, pos + 4) as u16,
                            markers,
                        },
                    ),
                ),
                Err(e) => Err(e),
            }
        }
    }

    open spec fn end(bytes: Seq<u8>, pos: int, id: ChunkID, read_data: bool) -> int {
        markers_end(bytes, pos + 6, be_u16(bytes, pos + 4) as nat)->0
    }

    /// A wrong tag or a head cut short leaves the stream where it was; a
    /// marker that cannot be read leaves it at the start of that marker.
    open spec fn failed_at(bytes: Seq<u8>, pos: int, id: ChunkID, read_data: bool) -> int {
        if same_tag(id, MARKER) && in_bounds(bytes, pos, 6) {
            markers_stop(bytes, pos + 6, be_u16(bytes, pos + 4) as nat, read_data)
        } else {
            pos
        }
    }

    proof fn skip_ends_where_decode_ends(bytes: Seq<u8>, pos: int, id: ChunkID) {
        lemma_markers_read_fit(bytes, pos + 6, be_u16(bytes, pos + 4) as nat);
    }

    proof fn end_in_range(bytes: Seq<u8>, pos: int, id: ChunkID, read_data: bool) {
        let n = be_u16(bytes, pos + 4) as nat;
        if read_data {
            lemma_markers_read_fit(bytes, pos + 6, n);
        }
        lemma_markers_end_in_range(bytes, pos + 6, n);
    }

    #[verifier::loop_isolation(false)]
    fn parse(buf: &mut ByteSource, id: ChunkID, read_data: bool, curr_buf_pos: &mut Option<u64>) -> (r:
        Result<Option<Self>, ChunkError>) {
        record(curr_buf_pos, buf.position());
        if !same_id(&id, &MARKER) {
            return Err(ChunkError::InvalidID(id));
        }
        if buf.available() < 6 {
            return Err(ChunkError::Io(IoError::UnexpectedEof));
        }
        let size = io(read_i32_be(buf))?;
        let num_markers = io(read_u16_be(buf))?;
        let ghost b = buf.bytes();
        let ghost first = buf.offset();
        let ghost n = num_markers as nat;
        let mut i: u16 = 0;
        if !read_data {
            while i < num_markers
                invariant
                    i <= num_markers,
                    n == num_markers,
                    buf.bytes() == b,
                    buf.in_place(),
                    markers_end(b, first, n) == markers_end(b, buf.offset(), (n - i) as nat),
                    markers_stop(b, first, n, false) == markers_stop(
                        b,
                        buf.offset(),
                        (n - i) as nat,
                        false,
                    ),
                decreases num_markers - i,
            {
                io(Marker::skip(buf))?;
                i = i + 1;
            }
            return Ok(None);
        }
        let mut markers: Vec<Marker> = Vec::with_capacity(num_markers as usize);
        while i < num_markers
            invariant
                i <= num_markers,
                n == num_markers,
                buf.bytes() == b,
                buf.in_place(),
                markers_end(b, first, n) == markers_end(b, buf.offset(), (n - i) as nat),
                markers_stop(b, first, n, true) == markers_stop(
                    b,
                    buf.offset(),
                    (n - i) as nat,
                    true,
                ),
                markers_at(b, first, n) == markers_then(
                    marker_views(markers@),
                    markers_at(b, buf.offset(), (n - i) as nat),
                ),
            decreases num_markers - i,
        {
            let ghost before = marker_views(markers@);
            let ghost at = buf.offset();
            let marker = Marker::from_reader(buf)?;
            proof {
                let tail = markers_at(b, at + marker_span(b, at), (n - i - 1) as nat);
                assert(marker_views(markers@.push(marker)) =~= before.push(marker@));
                if let Ok(more) = tail {
                    assert(before + (seq![marker@] + more) =~= before.push(marker@) + more);
                }
            }
            markers.push(marker);
            i = i + 1;
        }
        proof {
            assert(marker_views(markers@) + Seq::<MarkerView>::empty() =~= marker_views(markers@));
            lemma_markers_read_fit(b, first, n);
        }
        Ok(Some(MarkerChunk { size, num_markers, markers }))
    }
}

} // verus!
