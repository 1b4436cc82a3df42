use aiff::chunks::{
    ChunkError, CommonChunk, ID3v2Chunk, InstrumentChunk, MarkerChunk, SoundDataChunk, TextChunk,
    TextChunkType,
};
use aiff::ids;
use aiff::reader::AiffReader;
use aiff::source::IoError;
use id3::TagLike;

const RATE_44100: [u8; 10] = [0x40, 0x0E, 0xAC, 0x44, 0, 0, 0, 0, 0, 0];

fn chunk(id: &[u8; 4], payload: &[u8]) -> Vec<u8> {
    let mut v = id.to_vec();
    v.extend_from_slice(&(payload.len() as i32).to_be_bytes());
    v.extend_from_slice(payload);
    v
}

fn text(id: &[u8; 4], t: &str) -> Vec<u8> {
    let mut v = chunk(id, t.as_bytes());
    if t.len() % 2 == 1 {
        v.push(0);
    }
    v
}

fn common(channels: i16, frames: u32, bits: i16) -> Vec<u8> {
    let mut p = Vec::new();
    p.extend_from_slice(&channels.to_be_bytes());
    p.extend_from_slice(&frames.to_be_bytes());
    p.extend_from_slice(&bits.to_be_bytes());
    p.extend_from_slice(&RATE_44100);
    chunk(b"COMM", &p)
}

/// A Sound Data chunk as this library reads it: the declared size counts
/// the sample bytes alone.
fn sound(samples: &[u8]) -> Vec<u8> {
    let mut v = b"SSND".to_vec();
    v.extend_from_slice(&(samples.len() as i32).to_be_bytes());
    v.extend_from_slice(&[0, 0, 0, 0, 0, 0, 0, 0]);
    v.extend_from_slice(samples);
    v
}

fn markers() -> Vec<u8> {
    let mut p = vec![0, 1];
    p.extend_from_slice(&[0, 7, 0, 0, 0, 2, 4, b'l', b'o', b'o', b'p']);
    chunk(b"MARK", &p)
}

fn instrument() -> Vec<u8> {
    chunk(b"INST", &[60, 0, 0, 127, 1, 127, 0, 6, 0, 1, 0, 7, 0, 7, 0, 0, 0, 0, 0, 0])
}

fn tag(title: &str) -> Vec<u8> {
    let mut tag = id3::Tag::new();
    tag.set_title(title);
    let mut out = Vec::new();
    tag.write_to(&mut out, id3::Version::Id3v24).unwrap();
    out
}

fn file(chunks: &[Vec<u8>]) -> Vec<u8> {
    let body: Vec<u8> = chunks.concat();
    let mut v = b"FORM".to_vec();
    v.extend_from_slice(&((body.len() + 4) as i32).to_be_bytes());
    v.extend_from_slice(b"AIFF");
    v.extend_from_slice(&body);
    v
}

const SAMPLES: [u8; 16] = [
    0x00, 0x01, 0xFF, 0xFF, 0x00, 0x02, 0xFF, 0xFE, 0x7F, 0xFF, 0x80, 0x00, 0x12, 0x34, 0xED, 0xCC,
];

fn whole_file() -> Vec<u8> {
    file(&[
        text(b"NAME", "abc"),
        common(2, 4, 16),
        markers(),
        chunk(b"junk", &[1, 2, 3, 4, 5, 6]),
        instrument(),
        text(b"ANNO", "first"),
        chunk(b"MIDI", &[0x90, 0x3c]),
        chunk(b"AESD", &[9; 24]),
        chunk(b"APPL", b"stocxy"),
        chunk(b"COMT", &[0, 1, 0, 0, 0, 5, 0, 7, 0, 2, b'o', b'k']),
        text(b"AUTH", "me"),
        sound(&SAMPLES),
    ])
}

#[test]
fn new_reader_holds_nothing() {
    let r = AiffReader::new(whole_file());
    assert!(r.form().is_none());
    assert!(r.form_chunk.is_none());
    assert!(r.id3v2_tag.is_none());
    assert_eq!(r.position(), 0);
    assert_eq!(r.located_at(ids::COMMON), None);
    assert_eq!(r.try_samples::<i16>(), None);
}

#[test]
fn full_scan_gathers_every_chunk() {
    let mut r = AiffReader::new(whole_file());
    assert_eq!(r.read_all_form_data(), Ok(()));
    assert_eq!(r.position(), whole_file().len() as u64);
    let f = r.form().as_ref().unwrap();
    let c = f.common().unwrap();
    assert_eq!((c.size, c.num_channels, c.num_sample_frames, c.bit_rate), (18, 2, 4, 16));
    let s = f.sound().as_ref().unwrap();
    assert_eq!(s.size, 16);
    assert_eq!(s.sound_data, SAMPLES);
    let texts: Vec<(TextChunkType, &str)> =
        f.texts().as_ref().unwrap().iter().map(|t| (t.chunk_type, t.text.as_str())).collect();
    assert_eq!(
        texts,
        [
            (TextChunkType::Name, "abc"),
            (TextChunkType::Annotation, "first"),
            (TextChunkType::Author, "me"),
        ]
    );
    let m = f.markers().as_ref().unwrap();
    assert_eq!(m.len(), 1);
    assert_eq!(m[0].markers[0].marker_name, "loop");
    assert_eq!(m[0].markers[0].id, 7);
    let i = f.instrument().unwrap();
    assert_eq!(i.base_note, 60);
    assert_eq!(i.gain, 6);
    assert_eq!(i.sustain_loop.begin_loop, 7);
    assert_eq!(f.midi().as_ref().unwrap()[0].data, [0x90, 0x3c]);
    assert_eq!(f.recording().unwrap().data, [9; 24]);
    let a = &f.apps().as_ref().unwrap()[0];
    assert_eq!(&a.application_signature, b"stoc");
    assert_eq!(a.data, [b'x' as i8, b'y' as i8]);
    let comments = f.comments().as_ref().unwrap();
    assert_eq!(comments.comments[0].text, "ok");
    assert_eq!(comments.comments[0].timestamp, 5);
    // a full scan does not touch the offset cache
    assert_eq!(r.located_at(ids::COMMON), None);
    assert_eq!(r.located_at(ids::FORM), None);
}

#[test]
fn samples_come_out_frame_by_frame() {
    let mut r = AiffReader::new(file(&[common(2, 4, 16), sound(&SAMPLES)]));
    r.read_all_form_data().unwrap();
    let samples: Vec<i16> = r.samples();
    assert_eq!(samples.len(), 8);
    assert_eq!(samples, [1, -1, 2, -2, i16::MAX, i16::MIN, 0x1234, -0x1234]);
    assert_eq!(r.try_samples::<i16>(), Some(samples));
    // a narrower type takes the most significant byte of each point
    assert_eq!(r.try_samples::<u8>(), Some(vec![0x00, 0xFF, 0x00, 0xFF, 0x7F, 0x80, 0x12, 0xED]));
    assert_eq!(r.try_samples::<i32>().unwrap().len(), 8);
}

#[test]
fn samples_need_both_chunks() {
    let mut r = AiffReader::new(file(&[common(2, 4, 16)]));
    r.read_all_form_data().unwrap();
    assert_eq!(r.try_samples::<i16>(), None);
    let mut r = AiffReader::new(file(&[sound(&SAMPLES)]));
    r.read_all_form_data().unwrap();
    assert_eq!(r.try_samples::<i16>(), None);
    let mut r = AiffReader::new(file(&[common(2, 5, 16), sound(&SAMPLES)]));
    r.read_all_form_data().unwrap();
    assert_eq!(r.try_samples::<i16>(), None);
}

#[test]
fn locating_decodes_nothing_and_records_offsets() {
    let bytes = whole_file();
    let mut r = AiffReader::new(bytes.clone());
    assert_eq!(r.parse_form_location(), Ok(()));
    assert_eq!(r.position(), bytes.len() as u64);
    let f = r.form().as_ref().unwrap();
    assert!(f.common().is_none());
    assert!(f.sound().is_none());
    assert!(f.texts().is_none());
    assert!(f.markers().is_none());
    assert_eq!(r.located_at(ids::FORM), Some(4));
    // NAME is the first chunk: its tag stands at 12
    assert_eq!(r.located_at(ids::NAME), Some(16));
    let at = r.located_at(ids::COMMON).unwrap() as usize;
    assert_eq!(&bytes[at - 4..at], b"COMM");
    assert_eq!(at, 12 + 12 + 4);
    for id in [
        ids::SOUND,
        ids::MARKER,
        ids::INSTRUMENT,
        ids::MIDI,
        ids::RECORDING,
        ids::APPLICATION,
        ids::COMMENTS,
        ids::ANNOTATION,
        ids::AUTHOR,
    ] {
        let at = r.located_at(id).unwrap() as usize;
        assert_eq!(&bytes[at - 4..at], &id);
    }
    // chunks of no known kind are not recorded
    assert_eq!(r.located_at(*b"junk"), None);
    assert_eq!(r.located_at(ids::COPYRIGHT), None);
}

#[test]
fn locating_and_full_scan_end_at_the_same_position() {
    let bytes = whole_file();
    let mut locating = AiffReader::new(bytes.clone());
    let mut full = AiffReader::new(bytes);
    locating.parse_form_location().unwrap();
    full.read_all_form_data().unwrap();
    assert_eq!(locating.position(), full.position());
}

#[test]
fn reading_a_located_chunk_again_gives_what_the_scan_read() {
    let bytes = whole_file();
    let mut scanned = AiffReader::new(bytes.clone());
    scanned.read_all_form_data().unwrap();
    let form = scanned.form().as_ref().unwrap();

    let mut r = AiffReader::new(bytes);
    r.parse_form_location().unwrap();
    // out of order, with the stream standing at the end of the file
    let sound: SoundDataChunk = r.read_chunk(true, false, ids::SOUND).unwrap().unwrap();
    assert_eq!(&sound, form.sound().as_ref().unwrap());
    let common: CommonChunk = r.read_chunk(true, false, ids::COMMON).unwrap().unwrap();
    assert_eq!(&common, form.common().as_ref().unwrap());
    let marker: MarkerChunk = r.read_chunk(true, false, ids::MARKER).unwrap().unwrap();
    assert_eq!(marker, form.markers().as_ref().unwrap()[0]);
    let name: TextChunk = r.read_chunk(true, false, ids::NAME).unwrap().unwrap();
    assert_eq!(name, form.texts().as_ref().unwrap()[0]);
    let author: TextChunk = r.read_chunk(true, false, ids::AUTHOR).unwrap().unwrap();
    assert_eq!(author, form.texts().as_ref().unwrap()[2]);
    let instrument: InstrumentChunk = r.read_chunk(true, false, ids::INSTRUMENT).unwrap().unwrap();
    assert_eq!(&instrument, form.instrument().as_ref().unwrap());
    // and once more: the cache still points there
    let again: CommonChunk = r.read_chunk(true, true, ids::COMMON).unwrap().unwrap();
    assert_eq!(again, common);
}

#[test]
fn read_chunk_without_a_cached_offset_reads_where_the_stream_stands() {
    let bytes = file(&[common(1, 1, 8)]);
    let mut r = AiffReader::new(bytes);
    // the stream stands at 0, where no Common chunk is
    let here: Result<Option<CommonChunk>, ChunkError> = r.read_chunk(true, true, ids::COMMON);
    assert!(here.is_err());
    // the position was recorded all the same, and is used from now on
    assert_eq!(r.located_at(ids::COMMON), Some(0));
}

#[test]
fn read_chunk_records_only_when_asked() {
    let mut r = AiffReader::new(file(&[common(1, 1, 8)]));
    r.parse_form_location().unwrap();
    let before = r.located_at(ids::COMMON);
    let skipped: Option<CommonChunk> = r.read_chunk(false, false, ids::COMMON).unwrap();
    assert_eq!(skipped, None);
    assert_eq!(r.located_at(ids::COMMON), before);
    assert_eq!(r.position(), before.unwrap() + 22);
}

#[test]
fn read_chunk_of_the_wrong_type_is_an_error() {
    let mut r = AiffReader::new(file(&[common(1, 1, 8)]));
    r.parse_form_location().unwrap();
    let wrong: Result<Option<SoundDataChunk>, ChunkError> = r.read_chunk(true, false, ids::COMMON);
    assert_eq!(wrong, Err(ChunkError::InvalidID(ids::COMMON)));
}

#[test]
fn the_last_of_a_repeated_chunk_wins() {
    let bytes = file(&[common(1, 10, 8), text(b"NAME", "one"), common(2, 20, 16), text(b"NAME", "two")]);
    let mut r = AiffReader::new(bytes.clone());
    r.read_all_form_data().unwrap();
    let f = r.form().as_ref().unwrap();
    assert_eq!(f.common().unwrap().num_sample_frames, 20);
    assert_eq!(f.texts().as_ref().unwrap().len(), 2);
    // the cache holds the last one as well
    let mut r = AiffReader::new(bytes);
    r.parse_form_location().unwrap();
    let common: CommonChunk = r.read_chunk(true, false, ids::COMMON).unwrap().unwrap();
    assert_eq!(common.num_sample_frames, 20);
    let name: TextChunk = r.read_chunk(true, false, ids::NAME).unwrap().unwrap();
    assert_eq!(name.text, "two");
}

#[test]
fn a_second_scan_replaces_the_form() {
    let mut r = AiffReader::new(whole_file());
    r.read_all_form_data().unwrap();
    assert!(r.form().as_ref().unwrap().common().is_some());
    r.parse_form_location().unwrap();
    assert!(r.form().as_ref().unwrap().common().is_none());
    r.read_all_form_data().unwrap();
    assert!(r.form().as_ref().unwrap().common().is_some());
    assert_eq!(r.form().as_ref().unwrap().texts().as_ref().unwrap().len(), 3);
}

#[test]
fn compressed_files_are_rejected_and_leave_no_form() {
    let mut bytes = whole_file();
    bytes[8..12].copy_from_slice(b"AIFC");
    let mut r = AiffReader::new(bytes.clone());
    assert_eq!(r.read_all_form_data(), Err(ChunkError::InvalidFormType(*b"AIFC")));
    assert!(r.form().is_none());
    let mut r = AiffReader::new(bytes);
    assert_eq!(r.parse_form_location(), Err(ChunkError::InvalidFormType(*b"AIFC")));
    assert!(r.form().is_none());
}

#[test]
fn a_failed_scan_keeps_the_form_of_the_scan_before() {
    let mut r = AiffReader::new(file(&[common(1, 1, 8), chunk(b"NAME", &[0xff, 0xff])]));
    assert_eq!(r.parse_form_location(), Ok(()));
    assert!(r.form().as_ref().unwrap().common().is_none());
    assert_eq!(r.read_all_form_data(), Err(ChunkError::InvalidData("text")));
    assert!(r.form().is_some());
    assert!(r.form().as_ref().unwrap().common().is_none());
}

#[test]
fn files_that_do_not_start_with_a_form_are_rejected() {
    let mut r = AiffReader::new(b"RIFF\x00\x00\x00\x04WAVE".to_vec());
    assert_eq!(r.read_all_form_data(), Err(ChunkError::InvalidID(*b"RIFF")));
    let mut r = AiffReader::new(b"FOR".to_vec());
    assert_eq!(r.read_all_form_data(), Err(ChunkError::Io(IoError::UnexpectedEof)));
    let mut r = AiffReader::new(vec![]);
    assert_eq!(r.parse_form_location(), Err(ChunkError::Io(IoError::UnexpectedEof)));
    let mut r = AiffReader::new(b"FORM\x00\x00\x00\x04AIF".to_vec());
    assert_eq!(r.read_all_form_data(), Err(ChunkError::Io(IoError::UnexpectedEof)));
    assert!(r.form().is_none());
}

#[test]
fn an_empty_form_is_a_form() {
    let mut r = AiffReader::new(file(&[]));
    assert_eq!(r.read_all_form_data(), Ok(()));
    assert!(r.form().as_ref().unwrap().common().is_none());
    assert_eq!(r.position(), 12);
}

#[test]
fn the_scan_stops_where_fewer_than_four_bytes_are_left() {
    let mut bytes = file(&[common(1, 1, 8)]);
    bytes.extend_from_slice(b"COM");
    let mut r = AiffReader::new(bytes.clone());
    assert_eq!(r.read_all_form_data(), Ok(()));
    assert_eq!(r.position(), bytes.len() as u64 - 3);
    assert!(r.form().as_ref().unwrap().common().is_some());
}

#[test]
fn a_chunk_cut_short_ends_the_scan() {
    let mut bytes = file(&[common(1, 1, 8)]);
    bytes.truncate(bytes.len() - 1);
    let mut r = AiffReader::new(bytes.clone());
    assert_eq!(r.read_all_form_data(), Err(ChunkError::Io(IoError::UnexpectedEof)));
    assert!(r.form().is_none());
    let mut r = AiffReader::new(bytes);
    assert_eq!(r.parse_form_location(), Err(ChunkError::Io(IoError::UnexpectedEof)));
}

#[test]
fn chunks_of_no_known_kind_are_skipped_by_their_size() {
    let bytes = file(&[chunk(b"FVER", &[0xA2, 0x80, 0x51, 0x40]), common(1, 1, 8), chunk(b"CHAN", &[])]);
    let mut r = AiffReader::new(bytes.clone());
    assert_eq!(r.read_all_form_data(), Ok(()));
    assert!(r.form().as_ref().unwrap().common().is_some());
    assert_eq!(r.position(), bytes.len() as u64);
}

#[test]
fn a_chunk_of_no_known_kind_must_fit() {
    let mut r = AiffReader::new(file(&[b"junk\x00\x00\x00\x09abcd".to_vec()]));
    assert_eq!(r.read_all_form_data(), Err(ChunkError::Io(IoError::UnexpectedEof)));
    let mut r = AiffReader::new(file(&[b"junk\xff\xff\xff\xfcabcd".to_vec()]));
    assert_eq!(r.read_all_form_data(), Err(ChunkError::InvalidSize(0, -4)));
    let mut r = AiffReader::new(file(&[b"junk\x00\x00".to_vec()]));
    assert_eq!(r.parse_form_location(), Err(ChunkError::Io(IoError::UnexpectedEof)));
}

#[test]
fn an_error_in_a_chunk_ends_a_full_scan_but_not_locating() {
    let mut bad = common(1, 1, 8);
    bad[16] = 0x7f;
    bad[17] = 0xff;
    let bytes = file(&[bad, text(b"NAME", "x")]);
    let mut r = AiffReader::new(bytes.clone());
    assert_eq!(r.read_all_form_data(), Err(ChunkError::InvalidData("Extended Precision")));
    let mut r = AiffReader::new(bytes);
    assert_eq!(r.parse_form_location(), Ok(()));
    let mut r = AiffReader::new(file(&[chunk(b"AESD", &[0; 23]), vec![0]]));
    assert_eq!(r.parse_form_location(), Err(ChunkError::InvalidSize(24, 23)));
}

#[test]
fn tag_metadata_after_the_chunks_is_kept_by_the_reader() {
    let mut bytes = file(&[common(1, 1, 8)]);
    bytes.extend_from_slice(&tag("Song"));
    let mut r = AiffReader::new(bytes.clone());
    assert_eq!(r.read_all_form_data(), Ok(()));
    assert_eq!(r.id3v2_tag.as_ref().unwrap().title(), Some("Song"));
    assert!(r.form().as_ref().unwrap().common().is_some());
    // locating passes over it without keeping it, and records where it starts
    let mut r = AiffReader::new(bytes.clone());
    assert_eq!(r.parse_form_location(), Ok(()));
    assert!(r.id3v2_tag.is_none());
    let start = (bytes.len() - tag("Song").len()) as u64;
    assert_eq!(r.located_at(*b"ID3\x04"), Some(start));
    let again: ID3v2Chunk = r.read_chunk(true, false, *b"ID3\x04").unwrap().unwrap();
    assert_eq!(again.tag.title(), Some("Song"));
}

#[test]
fn tag_metadata_may_start_one_byte_into_the_window() {
    let mut bytes = file(&[text(b"NAME", "ab")]);
    bytes.push(0);
    bytes.extend_from_slice(&tag("Late"));
    bytes.extend_from_slice(&common(1, 3, 8));
    let mut r = AiffReader::new(bytes);
    assert_eq!(r.read_all_form_data(), Ok(()));
    assert_eq!(r.id3v2_tag.as_ref().unwrap().title(), Some("Late"));
    assert_eq!(r.form().as_ref().unwrap().common().unwrap().num_sample_frames, 3);
}

#[test]
fn tag_metadata_that_cannot_be_decoded_is_passed_over() {
    // version 2.5 does not exist: the scan moves three bytes on, reads
    // the window that starts with the version bytes as a tag of no known
    // kind, and skips what it takes for its payload
    let mut bytes = file(&[]);
    bytes.extend_from_slice(b"ID3");
    bytes.extend_from_slice(&[5, 0, 0, 0, 0, 0, 0, 2, 7, 7]);
    bytes.extend_from_slice(&common(1, 3, 8));
    let mut r = AiffReader::new(bytes.clone());
    assert_eq!(r.read_all_form_data(), Ok(()));
    assert!(r.id3v2_tag.is_none());
    assert_eq!(r.form().as_ref().unwrap().common().unwrap().num_sample_frames, 3);
    let mut r = AiffReader::new(bytes);
    assert_eq!(r.parse_form_location(), Ok(()));
    assert_eq!(r.located_at(*b"ID3\x05"), Some(12));
}

#[test]
fn a_tag_marker_at_the_very_end_is_cut_short() {
    let mut bytes = file(&[]);
    bytes.extend_from_slice(b"ID3\x04");
    let mut r = AiffReader::new(bytes);
    assert_eq!(r.read_all_form_data(), Err(ChunkError::Io(IoError::UnexpectedEof)));
}

#[test]
fn an_earlier_tag_stays_when_a_later_one_fails() {
    let mut bytes = file(&[]);
    bytes.extend_from_slice(&tag("Kept"));
    bytes.extend_from_slice(b"ID3");
    bytes.extend_from_slice(&[9, 9, 0, 0, 0, 0, 0, 0]);
    let mut r = AiffReader::new(bytes);
    assert_eq!(r.read_all_form_data(), Ok(()));
    assert_eq!(r.id3v2_tag.as_ref().unwrap().title(), Some("Kept"));
}

#[test]
fn duration_is_frames_over_rate() {
    let mut r = AiffReader::new(file(&[common(2, 66150, 16)]));
    r.read_all_form_data().unwrap();
    let c = r.form().as_ref().unwrap().common().unwrap();
    let rate = f64::from_bits(c.sample_rate.double_bits().unwrap());
    assert_eq!(rate, 44100.0);
    assert_eq!(c.num_sample_frames as f64 / rate, 1.5);
    // without a Common chunk there is nothing to divide
    let mut r = AiffReader::new(file(&[]));
    r.read_all_form_data().unwrap();
    assert!(r.form().as_ref().unwrap().common().is_none());
}

#[test]
fn a_tag_that_fails_leaves_the_tag_held_before() {
    let mut good = file(&[]);
    good.extend_from_slice(&tag("Held"));
    let mut r = AiffReader::new(good);
    r.read_all_form_data().unwrap();
    assert_eq!(r.id3v2_tag.as_ref().unwrap().title(), Some("Held"));
    // locating decodes no tag, so the tag held stays
    r.parse_form_location().unwrap();
    assert_eq!(r.id3v2_tag.as_ref().unwrap().title(), Some("Held"));

    let mut bad = file(&[]);
    bad.extend_from_slice(b"ID3");
    bad.extend_from_slice(&[9, 9, 0, 0, 0, 0, 0, 0]);
    let mut r = AiffReader::new(bad);
    assert_eq!(r.read_all_form_data(), Ok(()));
    assert!(r.id3v2_tag.is_none());
}

#[test]
fn the_last_tag_decoded_is_the_one_held() {
    let mut bytes = file(&[]);
    bytes.extend_from_slice(&tag("First"));
    bytes.extend_from_slice(&tag("Second"));
    let mut r = AiffReader::new(bytes);
    assert_eq!(r.read_all_form_data(), Ok(()));
    assert_eq!(r.id3v2_tag.as_ref().unwrap().title(), Some("Second"));
}

#[test]
fn read_chunk_that_fails_stands_where_the_decoder_stopped() {
    let mut r = AiffReader::new(file(&[chunk(b"AESD", &[0; 23]), vec![0]]));
    // the scan stops at the chunk, after it recorded where the chunk starts
    assert_eq!(r.parse_form_location(), Err(ChunkError::InvalidSize(24, 23)));
    assert_eq!(r.located_at(ids::RECORDING), Some(16));
    let again: Result<Option<aiff::chunks::AudioRecordingChunk>, ChunkError> =
        r.read_chunk(true, false, ids::RECORDING);
    assert_eq!(again, Err(ChunkError::InvalidSize(24, 23)));
    assert_eq!(r.position(), 20);
}
