//! The FORM chunk: the container that gathers every other chunk of a file.

use crate::chunks::application::{ApplicationSpecificChunk, ApplicationSpecificView};
use crate::chunks::comments::{CommentsChunk, CommentsChunkView};
use crate::chunks::common::CommonChunk;
use crate::chunks::instrument::InstrumentChunk;
use crate::chunks::marker::{MarkerChunk, MarkerChunkView};
use crate::chunks::midi::{MIDIDataChunk, MIDIDataView};
use crate::chunks::recording::{AudioRecordingChunk, AudioRecordingView};
use crate::chunks::sound::{SoundDataChunk, SoundDataView};
use crate::chunks::text::{TextChunk, TextChunkView};
use crate::chunks::{eof, in_bounds, io, record, tag_at, Chunk, ChunkError};
use crate::ids::{same_id, same_tag, ChunkID, AIFF, FORM};
use crate::reader::{read_chunk_id, read_i32_be};
use crate::source::ByteSource;
use vstd::prelude::*;

verus! {

/// The number of bytes that the head of a FORM chunk takes up after its
/// tag: the declared size and the sub-type.
pub const FORM_SPAN: usize = 8;

/// The chunks of one file, gathered as a scan meets them.
///
/// A chunk that a file holds once (common, sound, comments, instrument,
/// recording) is kept as the last one seen. A chunk that a file may hold
/// many times (text, marker, MIDI, application) is kept in a list, in the
/// order seen; a list is absent until its first chunk arrives.
#[derive(Debug)]
pub struct FormChunk {
    common: Option<CommonChunk>,
    sound: Option<SoundDataChunk>,
    comments: Option<CommentsChunk>,
    instrument: Option<InstrumentChunk>,
    recording: Option<AudioRecordingChunk>,
    texts: Option<Vec<TextChunk>>,
    markers: Option<Vec<MarkerChunk>>,
    midi: Option<Vec<MIDIDataChunk>>,
    apps: Option<Vec<ApplicationSpecificChunk>>,
}

/// A FORM chunk as plain values.
pub struct FormView {
    pub common: Option<CommonChunk>,
    pub sound: Option<SoundDataView>,
    pub comments: Option<CommentsChunkView>,
    pub instrument: Option<InstrumentChunk>,
    pub recording: Option<AudioRecordingView>,
    pub texts: Option<Seq<TextChunkView>>,
    pub markers: Option<Seq<MarkerChunkView>>,
    pub midi: Option<Seq<MIDIDataView>>,
    pub apps: Option<Seq<ApplicationSpecificView>>,
}

/// A list after `c` was appended: a list of `c` alone where there was none.
pub open spec fn pushed<V>(list: Option<Seq<V>>, c: V) -> Option<Seq<V>> {
    match list {
        Some(s) => Some(s.push(c)),
        None => Some(seq![c]),
    }
}

impl FormView {
    /// The view of a FORM chunk that holds nothing yet.
    pub open spec fn empty() -> FormView {
        FormView {
            common: None,
            sound: None,
            comments: None,
            instrument: None,
            recording: None,
            texts: None,
            markers: None,
            midi: None,
            apps: None,
        }
    }

    pub open spec fn with_common(self, c: CommonChunk) -> FormView {
        FormView { common: Some(c), ..self }
    }

    pub open spec fn with_sound(self, c: SoundDataView) -> FormView {
        FormView { sound: Some(c), ..self }
    }

    pub open spec fn with_comments(self, c: CommentsChunkView) -> FormView {
        FormView { comments: Some(c), ..self }
    }

    pub open spec fn with_instrument(self, c: InstrumentChunk) -> FormView {
        FormView { instrument: Some(c), ..self }
    }

    pub open spec fn with_recording(self, c: AudioRecordingView) -> FormView {
        FormView { recording: Some(c), ..self }
    }

    pub open spec fn with_text(self, c: TextChunkView) -> FormView {
        FormView { texts: pushed(self.texts, c), ..self }
    }

    pub open spec fn with_marker(self, c: MarkerChunkView) -> FormView {
        FormView { markers: pushed(self.markers, c), ..self }
    }

    pub open spec fn with_midi(self, c: MIDIDataView) -> FormView {
        FormView { midi: pushed(self.midi, c), ..self }
    }

    pub open spec fn with_app(self, c: ApplicationSpecificView) -> FormView {
        FormView { apps: pushed(self.apps, c), ..self }
    }
}

/// The view of a value that may be absent.
pub open spec fn held<T: View>(o: Option<T>) -> Option<T::V> {
    match o {
        Some(c) => Some(c@),
        None => None,
    }
}

/// The views of the chunks of a list that may be absent.
pub open spec fn listed<T: View>(o: Option<Vec<T>>) -> Option<Seq<T::V>> {
    match o {
        Some(v) => Some(v@.map_values(|c: T| c@)),
        None => None,
    }
}

/// Appends to a list, which comes into being with its first chunk.
fn append<T: View>(list: &mut Option<Vec<T>>, c: T)
    ensures
        listed(*final(list)) == pushed(listed(*old(list)), c@),
{
    let mut v = match list.take() {
        Some(v) => v,
        None => Vec::new(),
    };
    let ghost before = v@;
    v.push(c);
    assert(v@.map_values(|c: T| c@) =~= before.map_values(|c: T| c@).push(c@));
    assert(Seq::<T::V>::empty().push(c@) =~= seq![c@]);
    *list = Some(v);
}

impl View for FormChunk {
    type V = FormView;

    closed spec fn view(&self) -> FormView {
        FormView {
            common: self.common,
            sound: held(self.sound),
            comments: held(self.comments),
            instrument: self.instrument,
            recording: held(self.recording),
            texts: listed(self.texts),
            markers: listed(self.markers),
            midi: listed(self.midi),
            apps: listed(self.apps),
        }
    }
}

impl FormChunk {
    /// A FORM chunk that holds nothing yet.
    pub fn new() -> (f: FormChunk)
        ensures
            f@ == FormView::empty(),
    {
        FormChunk {
            common: None,
            sound: None,
            comments: None,
            instrument: None,
            recording: None,
            texts: None,
            markers: None,
            midi: None,
            apps: None,
        }
    }

    /// The Common chunk, if one was set.
    pub fn common(&self) -> (r: &Option<CommonChunk>)
        ensures
            *r == self@.common,
    {
        &self.common
    }

    /// Keeps `c` as the Common chunk, in place of any earlier one.
    pub fn set_common(&mut self, c: CommonChunk)
        ensures
            final(self)@ == old(self)@.with_common(c),
    {
        self.common = Some(c);
    }

    /// The Sound Data chunk, if one was set.
    pub fn sound(&self) -> (r: &Option<SoundDataChunk>)
        ensures
            held(*r) == self@.sound,
    {
        &self.sound
    }

    /// Keeps `c` as the Sound Data chunk, in place of any earlier one.
    pub fn set_sound(&mut self, c: SoundDataChunk)
        ensures
            final(self)@ == old(self)@.with_sound(c@),
    {
        self.sound = Some(c);
    }

    /// The Comments chunk, if one was set.
    pub fn comments(&self) -> (r: &Option<CommentsChunk>)
        ensures
            held(*r) == self@.comments,
    {
        &self.comments
    }

    /// Keeps `c` as the Comments chunk, in place of any earlier one.
    pub fn set_comments(&mut self, c: CommentsChunk)
        ensures
            final(self)@ == old(self)@.with_comments(c@),
    {
        self.comments = Some(c);
    }

    /// The Instrument chunk, if one was set.
    pub fn instrument(&self) -> (r: &Option<InstrumentChunk>)
        ensures
            *r == self@.instrument,
    {
        &self.instrument
    }

    /// Keeps `c` as the Instrument chunk, in place of any earlier one.
    pub fn set_instrument(&mut self, c: InstrumentChunk)
        ensures
            final(self)@ == old(self)@.with_instrument(c),
    {
        self.instrument = Some(c);
    }

    /// The Audio Recording chunk, if one was set.
    pub fn recording(&self) -> (r: &Option<AudioRecordingChunk>)
        ensures
            held(*r) == self@.recording,
    {
        &self.recording
    }

    /// Keeps `c` as the Audio Recording chunk, in place of any earlier one.
    pub fn set_recording(&mut self, c: AudioRecordingChunk)
        ensures
            final(self)@ == old(self)@.with_recording(c@),
    {
        self.recording = Some(c);
    }

    /// The text chunks in the order added, or `None` if none was added.
    pub fn texts(&self) -> (r: &Option<Vec<TextChunk>>)
        ensures
            listed(*r) == self@.texts,
    {
        &self.texts
    }

    /// Adds a text chunk after those already held.
    pub fn add_text_chunk(&mut self, c: TextChunk)
        ensures
            final(self)@ == old(self)@.with_text(c@),
    {
        append(&mut self.texts, c);
    }

    /// The Marker chunks in the order added, or `None` if none was added.
    pub fn markers(&self) -> (r: &Option<Vec<MarkerChunk>>)
        ensures
            listed(*r) == self@.markers,
    {
        &self.markers
    }

    /// Adds a Marker chunk after those already held.
    pub fn add_marker_chunk(&mut self, c: MarkerChunk)
        ensures
            final(self)@ == old(self)@.with_marker(c@),
    {
        append(&mut self.markers, c);
    }

    /// The MIDI Data chunks in the order added, or `None` if none was added.
    pub fn midi(&self) -> (r: &Option<Vec<MIDIDataChunk>>)
        ensures
            listed(*r) == self@.midi,
    {
        &self.midi
    }

    /// Adds a MIDI Data chunk after those already held.
    pub fn add_midi_chunk(&mut self, c: MIDIDataChunk)
        ensures
            final(self)@ == old(self)@.with_midi(c@),
    {
        append(&mut self.midi, c);
    }

    /// The Application Specific chunks in the order added, or `None` if none
    /// was added.
    pub fn apps(&self) -> (r: &Option<Vec<ApplicationSpecificChunk>>)
        ensures
            listed(*r) == self@.apps,
    {
        &self.apps
    }

    /// Adds an Application Specific chunk after those already held.
    pub fn add_app_chunk(&mut self, c: ApplicationSpecificChunk)
        ensures
            final(self)@ == old(self)@.with_app(c@),
    {
        append(&mut self.apps, c);
    }
}

impl Chunk for FormChunk {
    open spec fn decoded(bytes: Seq<u8>, pos: int, id: ChunkID, read_data: bool) -> Result<
        Option<FormView>,
        ChunkError,
    > {
        if !same_tag(id, FORM) {
            Err(ChunkError::InvalidID(id))
        } else if !in_bounds(bytes, pos, FORM_SPAN as int) {
            Err(eof())
        } else if !read_data {
            Ok(None)
        } else if !same_tag(tag_at(bytes, pos + 4), AIFF) {
            Err(ChunkError::InvalidFormType(tag_at(bytes, pos + 4)))
        } else {
            Ok(Some(FormView::empty()))
        }
    }

    open spec fn end(bytes: Seq<u8>, pos: int, id: ChunkID, read_data: bool) -> int {
        pos + FORM_SPAN as int
    }

    /// A wrong tag or a head cut short leaves the stream where it was; a
    /// sub-type that is not accepted leaves it after the head.
    open spec fn failed_at(bytes: Seq<u8>, pos: int, id: ChunkID, read_data: bool) -> int {
        if same_tag(id, FORM) && in_bounds(bytes, pos, FORM_SPAN as int) {
            pos + FORM_SPAN as int
        } else {
            pos
        }
    }

    proof fn skip_ends_where_decode_ends(bytes: Seq<u8>, pos: int, id: ChunkID) {
    }

    proof fn end_in_range(bytes: Seq<u8>, pos: int, id: ChunkID, read_data: bool) {
    }

    fn parse(buf: &mut ByteSource, id: ChunkID, read_data: bool, curr_buf_pos: &mut Option<u64>) -> (r:
        Result<Option<Self>, ChunkError>) {
        record(curr_buf_pos, buf.position());
        if !same_id(&id, &FORM) {
            return Err(ChunkError::InvalidID(id));
        }
        if buf.available() < FORM_SPAN {
            return Err(ChunkError::Io(crate::source::IoError::UnexpectedEof));
        }
        let _size = io(read_i32_be(buf))?;
        let form_type = io(read_chunk_id(buf))?;
        assert(form_type =~= tag_at(old(buf).bytes(), old(buf).offset() + 4));
        if !read_data {
            return Ok(None);
        }
        if same_id(&form_type, &AIFF) {
            Ok(Some(FormChunk::new()))
        } else {
            Err(ChunkError::InvalidFormType(form_type))
        }
    }
}

} // verus!
