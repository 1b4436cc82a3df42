//! The reader of a whole file, and the big-endian primitives from which
//! every decoder is built.

use crate::chunks::application::ApplicationSpecificChunk;
use crate::chunks::comments::CommentsChunk;
use crate::chunks::common::CommonChunk;
use crate::chunks::form::{FormChunk, FormView};
use crate::chunks::instrument::InstrumentChunk;
use crate::chunks::marker::MarkerChunk;
use crate::chunks::metadata::ID3v2Chunk;
use crate::chunks::midi::MIDIDataChunk;
use crate::chunks::recording::AudioRecordingChunk;
use crate::chunks::sound::SoundDataChunk;
use crate::chunks::text::TextChunk;
use crate::chunks::{in_bounds, io, outcome_view, tag_at, Chunk, ChunkError};
use crate::ids::{classify, key_of, tag_key, ChunkID, ChunkKind};
use crate::scan::{
    after_tag, after_unknown, analysis, first_state, lemma_step_advances, located, scan_from,
    scan_step, ScanView, TagHeld, MARKER_SPAN, TAG_SPAN,
};
use crate::samples::{can_extract, extract, extractable, sample_values, SampleType};
use crate::source::{ByteSource, IoError};
use crate::laws::lemma_locating_keeps_tag;
use crate::text::decode_text;
use std::collections::HashMap;
use vstd::prelude::*;
use vstd::utf8::{decode_utf8, valid_utf8};

verus! {

broadcast use vstd::std_specs::hash::group_hash_axioms;

/// A reader of one AIFF file.
///
/// A scan gathers the chunks of the file into `form_chunk`, keeps tag
/// metadata in `id3v2_tag`, and can record in an offset cache where the
/// chunk of each tag starts, so that a single chunk can be read again
/// later without a new scan.
pub struct AiffReader {
    buf: ByteSource,
    /// The chunks that the last full scan gathered.
    pub form_chunk: Option<FormChunk>,
    /// The tag metadata that a scan last decoded.
    pub id3v2_tag: Option<id3::Tag>,
    form_buf_locations: HashMap<u32, u64>,
}

impl AiffReader {
    /// The bytes of the file.
    pub closed spec fn bytes(&self) -> Seq<u8> {
        self.buf.bytes()
    }

    /// The position at which the next read starts.
    pub closed spec fn offset(&self) -> int {
        self.buf.offset()
    }

    /// The offset cache: for the key of a tag, the position just after that
    /// tag where a chunk of it was last met.
    pub closed spec fn locations(&self) -> Map<u32, u64> {
        self.form_buf_locations@
    }

    /// The chunks that the last full scan gathered.
    pub closed spec fn held_form(&self) -> Option<FormChunk> {
        self.form_chunk
    }

    /// The tag metadata that a scan last decoded.
    pub closed spec fn held_tag(&self) -> Option<id3::Tag> {
        self.id3v2_tag
    }

    /// The position from which `read_chunk` decodes a chunk with tag `id`:
    /// the cached one if there is one, else the current one.
    pub open spec fn read_start(&self, id: ChunkID) -> int {
        if self.locations().contains_key(tag_key(id) as u32) {
            self.locations()[tag_key(id) as u32] as int
        } else {
            self.offset()
        }
    }

    /// The tag metadata that the reader holds is what `tag` says: the tag
    /// that it held `before` the scan, or one that the scan decoded.
    pub open spec fn holds(&self, before: Option<id3::Tag>, tag: TagHeld) -> bool {
        match tag {
            TagHeld::Kept => self.held_tag() == before,
            TagHeld::Decoded => self.held_tag() is Some,
        }
    }

    /// The reader stands in the state `s` of a scan, with `form` gathered;
    /// `before` is the tag metadata that it held before the scan.
    pub open spec fn stands_at(&self, before: Option<id3::Tag>, form: FormView, s: ScanView) -> bool {
        &&& s.form == form
        &&& self.holds(before, s.tag)
        &&& s.locations == self.locations()
        &&& s.pos == self.offset()
    }

    /// A reader of the file that `bytes` holds.
    pub fn new(bytes: Vec<u8>) -> (r: AiffReader)
        ensures
            r.bytes() == bytes@,
            r.offset() == 0,
            r.held_form() is None,
            r.held_tag() is None,
            r.locations() == Map::<u32, u64>::empty(),
    {
        AiffReader {
            buf: ByteSource::new(bytes),
            form_chunk: None,
            id3v2_tag: None,
            form_buf_locations: HashMap::new(),
        }
    }

    /// The position at which the next read starts.
    pub fn position(&self) -> (p: u64)
        ensures
            p == self.offset(),
            0 <= self.offset() <= self.bytes().len(),
    {
        self.buf.position()
    }

    /// The cached position for the tag `id`, if there is one.
    pub fn located_at(&self, id: ChunkID) -> (r: Option<u64>)
        ensures
            match r {
                Some(p) => self.locations().contains_key(tag_key(id) as u32) && p
                    == self.locations()[tag_key(id) as u32],
                None => !self.locations().contains_key(tag_key(id) as u32),
            },
    {
        let key = key_of(&id);
        match self.form_buf_locations.get(&key) {
            Some(p) => Some(*p),
            None => None,
        }
    }

    /// Decodes a chunk at the current position and records in the offset
    /// cache where it started, if `record_form_pos` says so.
    fn decode_here<T: Chunk>(&mut self, read_data: bool, record_form_pos: bool, id: ChunkID) -> (r:
        Result<Option<T>, ChunkError>)
        ensures
            final(self).bytes() == old(self).bytes(),
            final(self).held_form() == old(self).held_form(),
            final(self).held_tag() == old(self).held_tag(),
            0 <= old(self).offset() <= old(self).bytes().len(),
            0 <= final(self).offset() <= final(self).bytes().len(),
            final(self).locations() == located(
                old(self).locations(),
                id,
                old(self).offset(),
                record_form_pos,
            ),
            outcome_view(r) == T::decoded(old(self).bytes(), old(self).offset(), id, read_data),
            r is Ok ==> final(self).offset() == T::end(
                old(self).bytes(),
                old(self).offset(),
                id,
                read_data,
            ),
            r is Err ==> final(self).offset() == T::failed_at(
                old(self).bytes(),
                old(self).offset(),
                id,
                read_data,
            ),
    {
        let mut form_pos: Option<u64> = if record_form_pos {
            Some(0)
        } else {
            None
        };
        let chunk = T::parse(&mut self.buf, id, read_data, &mut form_pos);
        if let Some(pos) = form_pos {
            self.form_buf_locations.insert(key_of(&id), pos);
        }
        chunk
    }

    /// Reads one chunk with tag `chunk_id`: from the position that the
    /// offset cache holds for the tag, if it holds one, else from the
    /// current position. The stream must stand, or the cache must point,
    /// just after the tag. Records the position in the cache if
    /// `record_form_pos` says so.
    ///
    /// Fails with `SeekOutOfRange`, without moving, where the cached position
    /// lies past the end of the file. After any other failure the stream
    /// stands where the decoder left it.
    pub fn read_chunk<T: Chunk>(
        &mut self,
        read_data: bool,
        record_form_pos: bool,
        chunk_id: ChunkID,
    ) -> (r: Result<Option<T>, ChunkError>)
        ensures
            final(self).bytes() == old(self).bytes(),
            final(self).held_form() == old(self).held_form(),
            final(self).held_tag() == old(self).held_tag(),
            old(self).read_start(chunk_id) > old(self).bytes().len() ==> {
                &&& r matches Err(e) && e == ChunkError::Io(IoError::SeekOutOfRange)
                &&& final(self).locations() == old(self).locations()
                &&& final(self).offset() == old(self).offset()
            },
            old(self).read_start(chunk_id) <= old(self).bytes().len() ==> {
                &&& outcome_view(r) == T::decoded(
                    old(self).bytes(),
                    old(self).read_start(chunk_id),
                    chunk_id,
                    read_data,
                )
                &&& r is Ok ==> final(self).offset() == T::end(
                    old(self).bytes(),
                    old(self).read_start(chunk_id),
                    chunk_id,
                    read_data,
                )
                &&& r is Err ==> final(self).offset() == T::failed_at(
                    old(self).bytes(),
                    old(self).read_start(chunk_id),
                    chunk_id,
                    read_data,
                )
                &&& final(self).locations() == located(
                    old(self).locations(),
                    chunk_id,
                    old(self).read_start(chunk_id),
                    record_form_pos,
                )
            },
    {
        if let Some(seek_pos) = self.located_at(chunk_id) {
            io(self.buf.seek_start(seek_pos))?;
        }
        self.decode_here::<T>(read_data, record_form_pos, chunk_id)
    }

    /// Handles the tag metadata whose marker was found `lead` bytes into
    /// the tag window `id` that was just read. A tag that is decoded takes
    /// the place of the tag held; after any failure the tag held stays.
    fn scan_tag(
        &mut self,
        Ghost(before): Ghost<Option<id3::Tag>>,
        Ghost(s): Ghost<ScanView>,
        read_data: bool,
        record_form_pos: bool,
        id: ChunkID,
        lead: u8,
    ) -> (r: Result<(), ChunkError>)
        requires
            lead <= 1,
            0 <= s.pos,
            old(self).stands_at(before, s.form, ScanView { pos: s.pos + TAG_SPAN, ..s }),
        ensures
            final(self).bytes() == old(self).bytes(),
            final(self).held_form() == old(self).held_form(),
            match after_tag(old(self).bytes(), s, id, s.pos + lead, read_data, record_form_pos) {
                Ok(next) => r is Ok && final(self).stands_at(before, s.form, next),
                Err(e) => r == Err::<(), ChunkError>(e),
            },
    {
        // back to where the marker truly starts
        let start: u64 = self.buf.position() - TAG_SPAN as u64 + lead as u64;
        io(self.buf.seek_start(start))?;
        match self.decode_here::<ID3v2Chunk>(read_data, record_form_pos, id) {
            Ok(Some(chunk)) => {
                self.id3v2_tag = Some(chunk.tag);
            },
            Ok(None) => {},
            Err(ChunkError::Io(e)) => {
                return Err(ChunkError::Io(e));
            },
            Err(_) => {
                io(self.buf.seek_start(start + MARKER_SPAN as u64))?;
            },
        }
        Ok(())
    }

    /// Skips a chunk of no known kind by its declared size.
    fn scan_unknown(&mut self, Ghost(before): Ghost<Option<id3::Tag>>, Ghost(s): Ghost<ScanView>) -> (r:
        Result<(), ChunkError>)
        requires
            0 <= s.pos,
            old(self).stands_at(before, s.form, ScanView { pos: s.pos + TAG_SPAN, ..s }),
        ensures
            final(self).bytes() == old(self).bytes(),
            final(self).held_form() == old(self).held_form(),
            match after_unknown(old(self).bytes(), s, s.pos + TAG_SPAN) {
                Ok(next) => r is Ok && final(self).stands_at(before, s.form, next),
                Err(e) => r == Err::<(), ChunkError>(e),
            },
    {
        let size = io(read_i32_be(&mut self.buf))?;
        if size < 0 {
            return Err(ChunkError::InvalidSize(0, size));
        }
        io(self.buf.skip(size as usize))?;
        Ok(())
    }

    /// One step of a scan: reads a tag and decodes, skips or passes over
    /// what it opens.
    fn scan_chunk(
        &mut self,
        form: &mut FormChunk,
        Ghost(before): Ghost<Option<id3::Tag>>,
        Ghost(s): Ghost<ScanView>,
        read_data: bool,
        record_form_pos: bool,
    ) -> (r: Result<(), ChunkError>)
        requires
            in_bounds(old(self).bytes(), s.pos, TAG_SPAN as int),
            old(self).stands_at(before, old(form)@, s),
        ensures
            final(self).bytes() == old(self).bytes(),
            final(self).held_form() == old(self).held_form(),
            match scan_step(old(self).bytes(), s, read_data, record_form_pos) {
                Ok(next) => r is Ok && final(self).stands_at(before, final(form)@, next),
                Err(e) => r == Err::<(), ChunkError>(e),
            },
    {
        let ghost bytes = self.bytes();
        let id = io(read_chunk_id(&mut self.buf))?;
        assert(id =~= tag_at(bytes, s.pos));
        match classify(&id) {
            ChunkKind::Common => {
                if let Some(c) = self.decode_here::<CommonChunk>(read_data, record_form_pos, id)? {
                    form.set_common(c);
                }
            },
            ChunkKind::Sound => {
                if let Some(c) = self.decode_here::<SoundDataChunk>(
                    read_data,
                    record_form_pos,
                    id,
                )? {
                    form.set_sound(c);
                }
            },
            ChunkKind::Marker => {
                if let Some(c) = self.decode_here::<MarkerChunk>(read_data, record_form_pos, id)? {
                    form.add_marker_chunk(c);
                }
            },
            ChunkKind::Instrument => {
                if let Some(c) = self.decode_here::<InstrumentChunk>(
                    read_data,
                    record_form_pos,
                    id,
                )? {
                    form.set_instrument(c);
                }
            },
            ChunkKind::Midi => {
                if let Some(c) = self.decode_here::<MIDIDataChunk>(
                    read_data,
                    record_form_pos,
                    id,
                )? {
                    form.add_midi_chunk(c);
                }
            },
            ChunkKind::Recording => {
                if let Some(c) = self.decode_here::<AudioRecordingChunk>(
                    read_data,
                    record_form_pos,
                    id,
                )? {
                    form.set_recording(c);
                }
            },
            ChunkKind::Application => {
                if let Some(c) = self.decode_here::<ApplicationSpecificChunk>(
                    read_data,
                    record_form_pos,
                    id,
                )? {
                    form.add_app_chunk(c);
                }
            },
            ChunkKind::Comments => {
                if let Some(c) = self.decode_here::<CommentsChunk>(
                    read_data,
                    record_form_pos,
                    id,
                )? {
                    form.set_comments(c);
                }
            },
            ChunkKind::Text => {
                if let Some(c) = self.decode_here::<TextChunk>(read_data, record_form_pos, id)? {
                    form.add_text_chunk(c);
                }
            },
            ChunkKind::Tag { lead } => {
                self.scan_tag(Ghost(before), Ghost(s), read_data, record_form_pos, id, lead)?;
            },
            ChunkKind::Unknown => {
                self.scan_unknown(Ghost(before), Ghost(s))?;
            },
        }
        Ok(())
    }

    /// Scans the whole file from its start: decodes the FORM head, then
    /// decodes (`read_data`) or skips each chunk after it, until fewer than
    /// four bytes are left. Chunks of no known kind are skipped by their
    /// declared size. Tag metadata that cannot be decoded is passed over.
    /// The first other error ends the scan, and the form held before stays.
    #[verifier::loop_isolation(false)]
    fn analyze_data(&mut self, read_data: bool, record_form_pos: bool) -> (r: Result<
        (),
        ChunkError,
    >)
        ensures
            final(self).bytes() == old(self).bytes(),
            match analysis(old(self).bytes(), old(self).locations(), read_data, record_form_pos) {
                Ok(s) => {
                    &&& r is Ok
                    &&& final(self).held_form() matches Some(f) && final(self).stands_at(
                        old(self).held_tag(),
                        f@,
                        s,
                    )
                },
                Err(e) => {
                    &&& r == Err::<(), ChunkError>(e)
                    &&& final(self).held_form() == old(self).held_form()
                },
            },
    {
        let ghost bytes = self.buf.bytes();
        let ghost before = self.held_tag();
        let ghost goal = analysis(bytes, self.locations(), read_data, record_form_pos);
        self.buf.rewind();
        let form_id = io(read_chunk_id(&mut self.buf))?;
        assert(form_id =~= tag_at(bytes, 0));
        let mut form = match self.decode_here::<FormChunk>(true, record_form_pos, form_id)? {
            Some(item) => item,
            None => {
                return Err(ChunkError::InvalidData("failed to parse form data"));
            },
        };
        let ghost mut s = first_state(bytes, form@, old(self).locations(), record_form_pos);
        while self.buf.available() >= TAG_SPAN
            invariant
                self.bytes() == bytes,
                self.held_form() == old(self).held_form(),
                0 <= self.offset() <= bytes.len(),
                self.stands_at(before, form@, s),
                scan_from(bytes, s, read_data, record_form_pos) == goal,
            decreases bytes.len() - self.offset(),
        {
            proof {
                if scan_step(bytes, s, read_data, record_form_pos) is Ok {
                    lemma_step_advances(bytes, s, read_data, record_form_pos);
                }
            }
            self.scan_chunk(&mut form, Ghost(before), Ghost(s), read_data, record_form_pos)?;
            proof {
                s = scan_step(bytes, s, read_data, record_form_pos)->Ok_0;
            }
        }
        self.form_chunk = Some(form);
        Ok(())
    }

    /// Scans the whole file and decodes every chunk into a new form. The
    /// offset cache stays as it is. Tag metadata that the scan decodes takes
    /// the place of the tag held; where it decodes none, the tag held stays.
    ///
    /// On an error the form held before stays: no form is put in its place.
    pub fn read_all_form_data(&mut self) -> (r: Result<(), ChunkError>)
        ensures
            final(self).bytes() == old(self).bytes(),
            match analysis(old(self).bytes(), old(self).locations(), true, false) {
                Ok(s) => {
                    &&& r is Ok
                    &&& final(self).held_form() matches Some(f) && final(self).stands_at(
                        old(self).held_tag(),
                        f@,
                        s,
                    )
                },
                Err(e) => {
                    &&& r == Err::<(), ChunkError>(e)
                    &&& final(self).held_form() == old(self).held_form()
                },
            },
    {
        self.analyze_data(true, false)
    }

    /// Scans the whole file without decoding the chunks after the FORM
    /// head, and records in the offset cache where the chunk of each tag
    /// starts. The form that it leaves holds nothing, and the tag metadata
    /// held stays.
    pub fn parse_form_location(&mut self) -> (r: Result<(), ChunkError>)
        ensures
            final(self).bytes() == old(self).bytes(),
            r is Ok ==> final(self).held_tag() == old(self).held_tag(),
            match analysis(old(self).bytes(), old(self).locations(), false, true) {
                Ok(s) => {
                    &&& r is Ok
                    &&& final(self).held_form() matches Some(f) && final(self).stands_at(
                        old(self).held_tag(),
                        f@,
                        s,
                    )
                },
                Err(e) => {
                    &&& r == Err::<(), ChunkError>(e)
                    &&& final(self).held_form() == old(self).held_form()
                },
            },
    {
        proof {
            let bytes = self.bytes();
            if analysis(bytes, self.locations(), false, true) is Ok {
                let form = FormChunk::decoded(bytes, TAG_SPAN as int, tag_at(bytes, 0), true)->Ok_0->0;
                lemma_locating_keeps_tag(
                    bytes,
                    first_state(bytes, form, self.locations(), true),
                    true,
                );
            }
        }
        self.analyze_data(false, true)
    }

    /// The chunks that the last full scan gathered.
    pub fn form(&self) -> (r: &Option<FormChunk>)
        ensures
            *r == self.held_form(),
    {
        &self.form_chunk
    }

    /// Sample values can be taken out of what the reader holds: it holds a
    /// form with a Common chunk and a Sound Data chunk that fit each other.
    pub open spec fn can_sample(&self) -> bool {
        match self.held_form() {
            Some(f) => match (f@.common, f@.sound) {
                (Some(c), Some(s)) => extractable(c, s),
                _ => false,
            },
            None => false,
        }
    }

    /// The sample values of the sound that the reader holds.
    pub open spec fn held_samples<T: SampleType>(&self) -> Seq<T> {
        sample_values::<T>(self.held_form()->0@.common->0, self.held_form()->0@.sound->0)
    }

    /// The sample values of the sound, one for each channel of each sample
    /// frame, frame by frame.
    pub fn samples<T: SampleType>(&self) -> (r: Vec<T>)
        requires
            self.can_sample(),
        ensures
            r@ == self.held_samples::<T>(),
    {
        match self.try_samples::<T>() {
            Some(v) => v,
            None => Vec::new(),
        }
    }

    /// The sample values of the sound, or `None` where there is no form, no
    /// Common chunk or no Sound Data chunk, or where the two do not fit
    /// each other.
    pub fn try_samples<T: SampleType>(&self) -> (r: Option<Vec<T>>)
        ensures
            match r {
                Some(v) => self.can_sample() && v@ == self.held_samples::<T>(),
                None => !self.can_sample(),
            },
    {
        match &self.form_chunk {
            Some(f) => match (f.common(), f.sound()) {
                (Some(c), Some(s)) => {
                    if can_extract(c, s) {
                        Some(extract::<T>(c, s))
                    } else {
                        None
                    }
                },
                _ => None,
            },
            None => None,
        }
    }
}

/// The unsigned 16-bit number whose big-endian bytes stand at `at`.
pub open spec fn be_u16(b: Seq<u8>, at: int) -> int {
    b[at] as int * 0x100 + b[at + 1] as int
}

/// The unsigned 32-bit number whose big-endian bytes stand at `at`.
pub open spec fn be_u32(b: Seq<u8>, at: int) -> int {
    be_u16(b, at) * 0x1_0000 + be_u16(b, at + 2)
}

/// The byte read as a two's-complement number.
pub open spec fn as_i8(byte: u8) -> int {
    if byte < 0x80 {
        byte as int
    } else {
        byte as int - 0x100
    }
}

/// The signed 16-bit number whose big-endian bytes stand at `at`.
pub open spec fn be_i16(b: Seq<u8>, at: int) -> int {
    if be_u16(b, at) < 0x8000 {
        be_u16(b, at)
    } else {
        be_u16(b, at) - 0x1_0000
    }
}

/// The signed 32-bit number whose big-endian bytes stand at `at`.
pub open spec fn be_i32(b: Seq<u8>, at: int) -> int {
    if be_u32(b, at) < 0x8000_0000 {
        be_u32(b, at)
    } else {
        be_u32(b, at) - 0x1_0000_0000
    }
}

/// What a read of exactly `n` bytes does to the stream: where it succeeds
/// the stream held `n` more bytes and now stands past them; where it fails
/// the stream held fewer and has not moved.
pub open spec fn fixed_read(before: &ByteSource, after: &ByteSource, n: int, ok: bool) -> bool {
    if ok {
        n <= before.remaining() && before.moved_to(after, n)
    } else {
        n > before.remaining() && before.moved_to(after, 0)
    }
}

/// Reads a four-byte chunk tag.
pub fn read_chunk_id(r: &mut ByteSource) -> (res: Result<ChunkID, IoError>)
    ensures
        fixed_read(old(r), final(r), 4, res is Ok),
        res matches Ok(id) ==> id@ == old(r).bytes().subrange(
            old(r).offset(),
            old(r).offset() + 4,
        ),
        res matches Err(e) ==> e == IoError::UnexpectedEof,
{
    if r.available() < 4 {
        return Err(IoError::UnexpectedEof);
    }
    let id: ChunkID = [r.peek(0), r.peek(1), r.peek(2), r.peek(3)];
    r.advance(4);
    assert(id@ =~= old(r).bytes().subrange(old(r).offset(), old(r).offset() + 4));
    Ok(id)
}

/// Reads one byte.
pub fn read_u8(r: &mut ByteSource) -> (res: Result<u8, IoError>)
    ensures
        fixed_read(old(r), final(r), 1, res is Ok),
        res matches Ok(v) ==> v == old(r).bytes()[old(r).offset()],
        res matches Err(e) ==> e == IoError::UnexpectedEof,
{
    if r.available() < 1 {
        return Err(IoError::UnexpectedEof);
    }
    let b = r.peek(0);
    r.advance(1);
    Ok(b)
}

/// Reads an unsigned 16-bit number, most significant byte first.
pub fn read_u16_be(r: &mut ByteSource) -> (res: Result<u16, IoError>)
    ensures
        fixed_read(old(r), final(r), 2, res is Ok),
        res matches Ok(v) ==> v == be_u16(old(r).bytes(), old(r).offset()),
        res matches Err(e) ==> e == IoError::UnexpectedEof,
{
    if r.available() < 2 {
        return Err(IoError::UnexpectedEof);
    }
    let v: u16 = r.peek(0) as u16 * 0x100 + r.peek(1) as u16;
    r.advance(2);
    Ok(v)
}

/// Reads an unsigned 32-bit number, most significant byte first.
pub fn read_u32_be(r: &mut ByteSource) -> (res: Result<u32, IoError>)
    ensures
        fixed_read(old(r), final(r), 4, res is Ok),
        res matches Ok(v) ==> v == be_u32(old(r).bytes(), old(r).offset()),
        res matches Err(e) ==> e == IoError::UnexpectedEof,
{
    if r.available() < 4 {
        return Err(IoError::UnexpectedEof);
    }
    let hi: u32 = r.peek(0) as u32 * 0x100 + r.peek(1) as u32;
    let lo: u32 = r.peek(2) as u32 * 0x100 + r.peek(3) as u32;
    r.advance(4);
    Ok(hi * 0x1_0000 + lo)
}

/// Reads one byte as a two's-complement number.
pub fn read_i8_be(r: &mut ByteSource) -> (res: Result<i8, IoError>)
    ensures
        fixed_read(old(r), final(r), 1, res is Ok),
        res matches Ok(v) ==> v == as_i8(old(r).bytes()[old(r).offset()]),
        res matches Err(e) ==> e == IoError::UnexpectedEof,
{
    match read_u8(r) {
        Ok(b) => Ok(
            if b < 0x80 {
                b as i8
            } else {
                (b - 0x80) as i8 + i8::MIN
            },
        ),
        Err(e) => Err(e),
    }
}

/// Reads a signed 16-bit number, most significant byte first.
pub fn read_i16_be(r: &mut ByteSource) -> (res: Result<i16, IoError>)
    ensures
        fixed_read(old(r), final(r), 2, res is Ok),
        res matches Ok(v) ==> v == be_i16(old(r).bytes(), old(r).offset()),
        res matches Err(e) ==> e == IoError::UnexpectedEof,
{
    match read_u16_be(r) {
        Ok(u) => Ok(
            if u < 0x8000 {
                u as i16
            } else {
                (u - 0x8000) as i16 + i16::MIN
            },
        ),
        Err(e) => Err(e),
    }
}

/// Reads a signed 32-bit number, most significant byte first.
pub fn read_i32_be(r: &mut ByteSource) -> (res: Result<i32, IoError>)
    ensures
        fixed_read(old(r), final(r), 4, res is Ok),
        res matches Ok(v) ==> v == be_i32(old(r).bytes(), old(r).offset()),
        res matches Err(e) ==> e == IoError::UnexpectedEof,
{
    match read_u32_be(r) {
        Ok(u) => Ok(
            if u < 0x8000_0000 {
                u as i32
            } else {
                (u - 0x8000_0000) as i32 + i32::MIN
            },
        ),
        Err(e) => Err(e),
    }
}

/// The number of bytes that a Pascal string at `at` takes up: its length
/// byte, its text, and one pad byte where the text has an odd length.
pub open spec fn pstring_span(b: Seq<u8>, at: int) -> int {
    1 + b[at] as int + b[at] as int % 2
}

/// The text bytes of the Pascal string at `at`.
pub open spec fn pstring_bytes(b: Seq<u8>, at: int) -> Seq<u8> {
    b.subrange(at + 1, at + 1 + b[at] as int)
}

/// The Pascal string at `at` lies wholly inside `b`.
pub open spec fn pstring_fits(b: Seq<u8>, at: int) -> bool {
    0 <= at < b.len() && at + pstring_span(b, at) <= b.len()
}

/// What reading the Pascal string at `at` yields.
pub open spec fn pstring_at(b: Seq<u8>, at: int) -> Result<Seq<char>, ChunkError> {
    if !pstring_fits(b, at) {
        Err(ChunkError::Io(IoError::UnexpectedEof))
    } else if !valid_utf8(pstring_bytes(b, at)) {
        Err(ChunkError::InvalidData("Pascal string"))
    } else {
        Ok(decode_utf8(pstring_bytes(b, at)))
    }
}

/// Reads a Pascal string: a length byte, that many bytes of UTF-8 text, and
/// a pad byte if the length is odd. On success the stream stands past the
/// pad byte; on failure it has not moved.
pub fn read_pstring(r: &mut ByteSource) -> (res: Result<String, ChunkError>)
    ensures
        final(r).bytes() == old(r).bytes(),
        final(r).in_place(),
        match res {
            Ok(s) => pstring_at(old(r).bytes(), old(r).offset()) == Ok::<Seq<char>, ChunkError>(s@),
            Err(e) => pstring_at(old(r).bytes(), old(r).offset()) == Err::<Seq<char>, ChunkError>(e),
        },
        final(r).offset() == if res is Ok {
            old(r).offset() + pstring_span(old(r).bytes(), old(r).offset())
        } else {
            old(r).offset()
        },
{
    let have = r.available();
    if have < 1 {
        return Err(ChunkError::Io(IoError::UnexpectedEof));
    }
    let len = r.peek(0) as usize;
    let span: usize = 1 + len + len % 2;
    if have < span {
        return Err(ChunkError::Io(IoError::UnexpectedEof));
    }
    match decode_text(r.copy_ahead(1, len)) {
        Some(s) => {
            r.advance(span);
            Ok(s)
        },
        None => Err(ChunkError::InvalidData("Pascal string")),
    }
}

/// Moves past a Pascal string without decoding its text.
pub fn skip_pstring(r: &mut ByteSource) -> (res: Result<(), IoError>)
    ensures
        fixed_read(
            old(r),
            final(r),
            if old(r).remaining() >= 1 {
                pstring_span(old(r).bytes(), old(r).offset())
            } else {
                1
            },
            res is Ok,
        ),
        res matches Err(e) ==> e == IoError::UnexpectedEof,
{
    if r.available() < 1 {
        return Err(IoError::UnexpectedEof);
    }
    let len = r.peek(0) as usize;
    r.skip(1 + len + len % 2)
}

} // verus!
