//! Sample values out of the sample bytes.
//!
//! A sample point is the value of one channel in one sample frame. It
//! takes up as many whole bytes as its bit depth needs, most significant
//! byte first; the points of a frame follow each other channel by channel,
//! and the frames follow each other in time.
//!
//! A sample value is handed out in a numeric type that the caller picks.
//! A point that has fewer bytes than the type keeps its value and its
//! sign. A point that has more bytes than the type is cut to its most
//! significant bytes, as many as the type has.

use crate::chunks::common::CommonChunk;
use crate::chunks::sound::{SoundDataChunk, SoundDataView};
use vstd::prelude::*;

verus! {

/// The most bytes that a sample point can take up here.
pub const MAX_POINT_BYTES: usize = 4;

/// The number of whole bytes that a sample point of `bit_rate` bits takes
/// up.
pub open spec fn bytes_per_point(bit_rate: i16) -> int {
    (bit_rate + 7) / 8
}

/// The number that the bytes spell, most significant byte first.
pub open spec fn be_value(b: Seq<u8>) -> nat
    decreases b.len(),
{
    if b.len() == 0 {
        0
    } else {
        be_value(b.drop_last()) * 256 + b.last() as nat
    }
}

/// 256 to the power `n`: the number of values that `n` bytes can spell.
pub open spec fn radix(n: nat) -> nat
    decreases n,
{
    if n == 0 {
        1
    } else {
        256 * radix((n - 1) as nat)
    }
}

/// The number that the bytes spell when they are read as two's complement.
pub open spec fn signed_value(b: Seq<u8>) -> int {
    if 2 * be_value(b) >= radix(b.len()) {
        be_value(b) - radix(b.len())
    } else {
        be_value(b) as int
    }
}

/// The bytes of a sample point that a type of `width` bytes takes in: all
/// of them, or the most significant `width` where there are more.
pub open spec fn significant(bytes: Seq<u8>, width: int) -> Seq<u8> {
    if bytes.len() <= width {
        bytes
    } else {
        bytes.subrange(0, width)
    }
}

/// The bytes of the sample point with the given index.
pub open spec fn point_bytes(data: Seq<u8>, width: int, index: int) -> Seq<u8> {
    data.subrange(index * width, index * width + width)
}

/// The number that `n` bytes of `data` from `offset` on spell, and the
/// radix of `n`.
fn read_point(data: &[u8], offset: usize, n: usize) -> (r: (u32, u64))
    requires
        n <= MAX_POINT_BYTES,
        offset + n <= data@.len(),
    ensures
        r.0 == be_value(data@.subrange(offset as int, offset + n)),
        r.1 == radix(n as nat),
        r.0 < r.1,
{
    let mut value: u32 = 0;
    let mut span: u64 = 1;
    let mut i: usize = 0;
    let size = data.len();
    proof {
        reveal_with_fuel(radix, 6);
    }
    while i < n
        invariant
            i <= n <= MAX_POINT_BYTES,
            offset + n <= data@.len() == size,
            value == be_value(data@.subrange(offset as int, offset + i)),
            span == radix(i as nat),
            value < span,
            span <= 0x100_0000 || i == 4,
        decreases n - i,
    {
        proof {
            reveal_with_fuel(radix, 6);
            let next = data@.subrange(offset as int, offset + i + 1);
            assert(next.drop_last() =~= data@.subrange(offset as int, offset + i));
        }
        value = value * 256 + data[offset + i] as u32;
        span = span * 256;
        i = i + 1;
    }
    (value, span)
}

/// A numeric type in which sample values can be handed out.
pub trait SampleType: Sized {
    /// The number of bytes of the type.
    spec fn width() -> int;

    /// The value of the sample point that the bytes spell: the number that
    /// its significant bytes spell.
    spec fn of_bytes(bytes: Seq<u8>) -> Self;

    /// The number of bytes of the type.
    fn bytes() -> (n: usize)
        ensures
            n == Self::width(),
            1 <= n <= MAX_POINT_BYTES,
    ;

    /// The sample point of `bit_rate` bits that starts at `offset`.
    fn parse(data: &[u8], offset: usize, bit_rate: i16) -> (r: Self)
        requires
            bit_rate >= 1,
            offset + bytes_per_point(bit_rate) <= data@.len(),
        ensures
            r == Self::of_bytes(
                data@.subrange(offset as int, offset + bytes_per_point(bit_rate)),
            ),
    ;
}

/// The number of whole bytes that a sample point of `bit_rate` bits takes
/// up.
pub fn point_width(bit_rate: i16) -> (n: usize)
    requires
        bit_rate >= 1,
    ensures
        n == bytes_per_point(bit_rate),
{
    ((bit_rate as usize) + 7) / 8
}

/// The number that the significant bytes of a sample point spell, for a
/// type of `width` bytes.
fn read_unsigned(data: &[u8], offset: usize, bit_rate: i16, width: usize) -> (r: u32)
    requires
        bit_rate >= 1,
        1 <= width <= MAX_POINT_BYTES,
        offset + bytes_per_point(bit_rate) <= data@.len(),
    ensures
        r == be_value(
            significant(
                data@.subrange(offset as int, offset + bytes_per_point(bit_rate)),
                width as int,
            ),
        ),
        r < radix(width as nat),
{
    let whole = point_width(bit_rate);
    let taken = if whole <= width {
        whole
    } else {
        width
    };
    proof {
        reveal_with_fuel(radix, 6);
        let point = data@.subrange(offset as int, offset + whole);
        assert(significant(point, width as int) =~= data@.subrange(offset as int, offset + taken));
    }
    read_point(data, offset, taken).0
}

/// The number that the significant bytes of a sample point spell when they
/// are read as two's complement, for a type of `width` bytes.
fn read_signed(data: &[u8], offset: usize, bit_rate: i16, width: usize) -> (r: i64)
    requires
        bit_rate >= 1,
        1 <= width <= MAX_POINT_BYTES,
        offset + bytes_per_point(bit_rate) <= data@.len(),
    ensures
        r == signed_value(
            significant(
                data@.subrange(offset as int, offset + bytes_per_point(bit_rate)),
                width as int,
            ),
        ),
        -radix(width as nat) <= 2 * r < radix(width as nat),
{
    let whole = point_width(bit_rate);
    let taken = if whole <= width {
        whole
    } else {
        width
    };
    proof {
        reveal_with_fuel(radix, 6);
        let point = data@.subrange(offset as int, offset + whole);
        assert(significant(point, width as int) =~= data@.subrange(offset as int, offset + taken));
    }
    read_signed_point(data, offset, taken)
}

/// The number that the sample point spells when read as two's complement.
fn read_signed_point(data: &[u8], offset: usize, n: usize) -> (r: i64)
    requires
        1 <= n <= MAX_POINT_BYTES,
        offset + n <= data@.len(),
    ensures
        r == signed_value(data@.subrange(offset as int, offset + n)),
        -radix(n as nat) <= 2 * r < radix(n as nat),
{
    let (value, span) = read_point(data, offset, n);
    proof {
        reveal_with_fuel(radix, 6);
    }
    if 2 * (value as u64) >= span {
        value as i64 - span as i64
    } else {
        value as i64
    }
}

impl SampleType for u8 {
    open spec fn width() -> int {
        1
    }

    open spec fn of_bytes(bytes: Seq<u8>) -> u8 {
        be_value(significant(bytes, 1)) as u8
    }

    fn bytes() -> (n: usize) {
        1
    }

    fn parse(data: &[u8], offset: usize, bit_rate: i16) -> (r: u8) {
        proof {
            reveal_with_fuel(radix, 6);
        }
        read_unsigned(data, offset, bit_rate, 1) as u8
    }
}

impl SampleType for u16 {
    open spec fn width() -> int {
        2
    }

    open spec fn of_bytes(bytes: Seq<u8>) -> u16 {
        be_value(significant(bytes, 2)) as u16
    }

    fn bytes() -> (n: usize) {
        2
    }

    fn parse(data: &[u8], offset: usize, bit_rate: i16) -> (r: u16) {
        proof {
            reveal_with_fuel(radix, 6);
        }
        read_unsigned(data, offset, bit_rate, 2) as u16
    }
}

impl SampleType for u32 {
    open spec fn width() -> int {
        4
    }

    open spec fn of_bytes(bytes: Seq<u8>) -> u32 {
        be_value(significant(bytes, 4)) as u32
    }

    fn bytes() -> (n: usize) {
        4
    }

    fn parse(data: &[u8], offset: usize, bit_rate: i16) -> (r: u32) {
        read_unsigned(data, offset, bit_rate, 4)
    }
}

impl SampleType for i8 {
    open spec fn width() -> int {
        1
    }

    open spec fn of_bytes(bytes: Seq<u8>) -> i8 {
        signed_value(significant(bytes, 1)) as i8
    }

    fn bytes() -> (n: usize) {
        1
    }

    fn parse(data: &[u8], offset: usize, bit_rate: i16) -> (r: i8) {
        proof {
            reveal_with_fuel(radix, 6);
        }
        read_signed(data, offset, bit_rate, 1) as i8
    }
}

impl SampleType for i16 {
    open spec fn width() -> int {
        2
    }

    open spec fn of_bytes(bytes: Seq<u8>) -> i16 {
        signed_value(significant(bytes, 2)) as i16
    }

    fn bytes() -> (n: usize) {
        2
    }

    fn parse(data: &[u8], offset: usize, bit_rate: i16) -> (r: i16) {
        proof {
            reveal_with_fuel(radix, 6);
        }
        read_signed(data, offset, bit_rate, 2) as i16
    }
}

impl SampleType for i32 {
    open spec fn width() -> int {
        4
    }

    open spec fn of_bytes(bytes: Seq<u8>) -> i32 {
        signed_value(significant(bytes, 4)) as i32
    }

    fn bytes() -> (n: usize) {
        4
    }

    fn parse(data: &[u8], offset: usize, bit_rate: i16) -> (r: i32) {
        proof {
            reveal_with_fuel(radix, 6);
        }
        read_signed(data, offset, bit_rate, 4) as i32
    }
}

/// The number of sample points that the Common chunk declares: one for
/// each channel of each sample frame.
pub open spec fn sample_points(common: CommonChunk) -> int {
    common.num_sample_frames as int * common.num_channels as int
}

/// Sample values can be taken out of the sound data: the channel count is
/// not negative, a sample point has at least one bit, and the sound data
/// holds all declared points.
pub open spec fn extractable(common: CommonChunk, sound: SoundDataView) -> bool {
    &&& common.num_channels >= 0
    &&& common.bit_rate >= 1
    &&& sample_points(common) * bytes_per_point(common.bit_rate) <= sound.sound_data.len()
}

/// The sample values of the sound data: the value of each sample point, in
/// the order in which the points stand in the sound data, which is frame by
/// frame and, inside a frame, channel by channel.
pub open spec fn sample_values<T: SampleType>(common: CommonChunk, sound: SoundDataView) -> Seq<T> {
    Seq::new(
        sample_points(common) as nat,
        |i: int| T::of_bytes(point_bytes(sound.sound_data, bytes_per_point(common.bit_rate), i)),
    )
}

/// The place of the sample point of channel `channel` in sample frame
/// `frame`, in the sequence of all sample points.
pub open spec fn point_index(common: CommonChunk, frame: int, channel: int) -> int {
    frame * common.num_channels as int + channel
}

/// Every channel of every frame has its own place among the sample points,
/// and the places follow each other frame by frame, channel by channel.
pub proof fn lemma_points_are_frame_major(common: CommonChunk, frame: int, channel: int)
    requires
        0 <= frame < common.num_sample_frames,
        0 <= channel < common.num_channels,
    ensures
        0 <= point_index(common, frame, channel) < sample_points(common),
        point_index(common, frame, channel) / (common.num_channels as int) == frame,
        point_index(common, frame, channel) % (common.num_channels as int) == channel,
{
    let n = common.num_channels as int;
    let total = common.num_sample_frames as int;
    assert(frame * n + channel < total * n) by (nonlinear_arith)
        requires
            0 <= frame < total,
            0 <= channel < n,
    ;
    assert(frame * n >= 0) by (nonlinear_arith)
        requires
            0 <= frame,
            0 < n,
    ;
    vstd::arithmetic::div_mod::lemma_fundamental_div_mod_converse(
        frame * n + channel,
        n,
        frame,
        channel,
    );
}

/// There are as many sample values as the Common chunk declares sample
/// points: the number of sample frames times the number of channels.
pub proof fn lemma_one_value_for_each_point<T: SampleType>(common: CommonChunk, sound: SoundDataView)
    requires
        common.num_channels >= 0,
    ensures
        sample_values::<T>(common, sound).len() == common.num_sample_frames * common.num_channels,
{
    assert(common.num_sample_frames as int * common.num_channels as int >= 0) by (nonlinear_arith)
        requires
            common.num_sample_frames >= 0,
            common.num_channels >= 0,
    ;
}

/// The sample values stand frame by frame and, inside a frame, channel by
/// channel: the value of channel `channel` in frame `frame` stands at the
/// place `frame * channels + channel`, and it is what the type reads out
/// of the bytes of that point, which lie inside the sound data, one point
/// after the other.
pub proof fn lemma_values_are_frame_major<T: SampleType>(
    common: CommonChunk,
    sound: SoundDataView,
    frame: int,
    channel: int,
)
    requires
        extractable(common, sound),
        0 <= frame < common.num_sample_frames,
        0 <= channel < common.num_channels,
    ensures
        ({
            let k = point_index(common, frame, channel);
            let width = bytes_per_point(common.bit_rate);
            &&& 0 <= k < sample_values::<T>(common, sound).len()
            &&& 0 <= k * width && k * width + width <= sound.sound_data.len()
            &&& sample_values::<T>(common, sound)[k] == T::of_bytes(
                sound.sound_data.subrange(k * width, k * width + width),
            )
        }),
{
    lemma_points_are_frame_major(common, frame, channel);
    lemma_one_value_for_each_point::<T>(common, sound);
    let k = point_index(common, frame, channel);
    let width = bytes_per_point(common.bit_rate);
    let total = sample_points(common);
    assert(0 <= k * width && k * width + width <= total * width) by (nonlinear_arith)
        requires
            0 <= k < total,
            width >= 1,
    ;
}

/// Whether sample values can be taken out of the sound data.
pub fn can_extract(common: &CommonChunk, sound: &SoundDataChunk) -> (r: bool)
    ensures
        r == extractable(*common, sound@),
{
    if common.num_channels < 0 || common.bit_rate < 1 {
        return false;
    }
    let width = point_width(common.bit_rate);
    let frames = common.num_sample_frames as u64;
    let channels = common.num_channels as u64;
    assert(frames * channels <= 0xffff_ffff * 0x7fff) by (nonlinear_arith)
        requires
            frames <= 0xffff_ffff,
            channels <= 0x7fff,
    ;
    let points: u64 = frames * channels;
    assert(points * width <= 0xffff_ffff * 0x7fff * 4096) by (nonlinear_arith)
        requires
            points <= 0xffff_ffff * 0x7fff,
            width <= 4096,
    ;
    points * width as u64 <= sound.sound_data.len() as u64
}

/// Takes the sample values out of the sound data.
pub fn extract<T: SampleType>(common: &CommonChunk, sound: &SoundDataChunk) -> (samples: Vec<T>)
    requires
        extractable(*common, sound@),
    ensures
        samples@ == sample_values::<T>(*common, sound@),
{
    let width = point_width(common.bit_rate);
    let ghost total = sample_points(*common);
    let ghost data = sound.sound_data@;
    assert(0 <= total && total <= total * width) by (nonlinear_arith)
        requires
            total == common.num_sample_frames as int * common.num_channels as int,
            common.num_channels >= 0,
            width >= 1,
    ;
    let size = sound.sound_data.len();
    let frames = common.num_sample_frames as u64;
    let channels = common.num_channels as u64;
    assert(frames * channels <= 0xffff_ffff * 0x7fff) by (nonlinear_arith)
        requires
            frames <= 0xffff_ffff,
            channels <= 0x7fff,
    ;
    let sample_points: usize = (frames * channels) as usize;
    let mut samples: Vec<T> = Vec::with_capacity(sample_points);
    let mut point: usize = 0;
    while point < sample_points
        invariant
            point <= sample_points,
            sample_points == total,
            width == bytes_per_point(common.bit_rate),
            common.bit_rate >= 1,
            1 <= width,
            data == sound.sound_data@,
            total * width <= data.len() == size,
            samples@.len() == point,
            forall|i: int|
                0 <= i < point ==> samples@[i] == T::of_bytes(
                    #[trigger] point_bytes(data, width as int, i),
                ),
        decreases sample_points - point,
    {
        assert(0 <= point * width && point * width + width <= total * width) by (nonlinear_arith)
            requires
                0 <= point < total,
                width >= 1,
        ;
        let value = T::parse(sound.sound_data.as_slice(), point * width, common.bit_rate);
        samples.push(value);
        point = point + 1;
    }
    assert(samples@ =~= sample_values::<T>(*common, sound@));
    samples
}

} // verus!
