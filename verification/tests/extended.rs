use aiff::extended::{parse_extended_precision_bytes, Extended};

fn decode(bytes: [u8; 10]) -> Option<f64> {
    match parse_extended_precision_bytes(bytes) {
        Ok(x) => Some(f64::from_bits(x.double_bits().unwrap())),
        Err(()) => None,
    }
}

#[test]
fn known_pattern_decodes_to_44100() {
    let bytes = [0x40, 0x0E, 0xAC, 0x44, 0, 0, 0, 0, 0, 0];
    let x = parse_extended_precision_bytes(bytes).unwrap();
    assert_eq!(x, Extended { negative: false, exponent: 0x400E, mantissa: 0xAC44_0000_0000_0000 });
    assert_eq!(x.double_bits(), Some(0x40E5_8880_0000_0000));
    assert_eq!(decode(bytes), Some(44100.0));
}

#[test]
fn all_zero_pattern_decodes_to_zero() {
    let rate = decode([0; 10]).unwrap();
    assert_eq!(rate, 0.0);
    assert!(rate.is_sign_positive());
}

#[test]
fn common_sample_rates() {
    assert_eq!(decode([0x40, 0x0E, 0xBB, 0x80, 0, 0, 0, 0, 0, 0]), Some(48000.0));
    assert_eq!(decode([0x40, 0x0D, 0xAC, 0x44, 0, 0, 0, 0, 0, 0]), Some(22050.0));
    assert_eq!(decode([0x40, 0x0F, 0xBB, 0x80, 0, 0, 0, 0, 0, 0]), Some(96000.0));
    assert_eq!(decode([0x3F, 0xFF, 0x80, 0, 0, 0, 0, 0, 0, 0]), Some(1.0));
    assert_eq!(decode([0x3F, 0xFE, 0x80, 0, 0, 0, 0, 0, 0, 0]), Some(0.5));
}

#[test]
fn negative_numbers_keep_their_sign() {
    assert_eq!(decode([0xC0, 0x0E, 0xAC, 0x44, 0, 0, 0, 0, 0, 0]), Some(-44100.0));
    let x = parse_extended_precision_bytes([0xBF, 0xFF, 0x80, 0, 0, 0, 0, 0, 0, 0]).unwrap();
    assert!(x.negative);
    assert_eq!(x.exponent, 0x3FFF);
}

#[test]
fn mantissa_rounds_to_nearest_even() {
    // 1 + 2^-53 lies halfway between two doubles: ties go to the even one
    assert_eq!(decode([0x3F, 0xFF, 0x80, 0, 0, 0, 0, 0, 0x04, 0x00]), Some(1.0));
    // just above the halfway point: up
    assert_eq!(
        decode([0x3F, 0xFF, 0x80, 0, 0, 0, 0, 0, 0x04, 0x01]),
        Some(1.0 + f64::EPSILON)
    );
    // halfway above an odd significand: up to the even one
    assert_eq!(
        decode([0x3F, 0xFF, 0x80, 0, 0, 0, 0, 0, 0x0C, 0x00]),
        Some(1.0 + 2.0 * f64::EPSILON)
    );
    // just below the halfway point: down
    assert_eq!(decode([0x3F, 0xFF, 0x80, 0, 0, 0, 0, 0, 0x03, 0xFF]), Some(1.0));
}

#[test]
fn rounding_can_carry_into_the_exponent() {
    assert_eq!(decode([0x3F, 0xFF, 0xFF, 0xFF, 0xFF, 0xFF, 0xFF, 0xFF, 0xFF, 0xFF]), Some(2.0));
}

#[test]
fn agrees_with_floating_point_arithmetic() {
    let patterns: [[u8; 10]; 4] = [
        [0x40, 0x0E, 0xAC, 0x44, 0x12, 0x34, 0x56, 0x78, 0x9A, 0xBC],
        [0x3F, 0xF0, 0xDE, 0xAD, 0xBE, 0xEF, 0x01, 0x23, 0x45, 0x67],
        [0x40, 0x3E, 0x80, 0x00, 0x00, 0x00, 0x00, 0x00, 0x07, 0xFF],
        [0x43, 0xFE, 0xFF, 0xFF, 0xFF, 0xFF, 0xFF, 0xFF, 0xF8, 0x00],
    ];
    for bytes in patterns {
        let x = parse_extended_precision_bytes(bytes).unwrap();
        let expected = x.mantissa as f64 * 2f64.powi(x.exponent as i32 - 16383 - 63);
        assert_eq!(decode(bytes), Some(expected));
    }
}

#[test]
fn the_range_of_normal_doubles_is_the_range_accepted() {
    // largest and smallest exponent of a normal double
    assert_eq!(decode([0x43, 0xFE, 0x80, 0, 0, 0, 0, 0, 0, 0]), Some(2f64.powi(1023)));
    assert_eq!(decode([0x3C, 0x01, 0x80, 0, 0, 0, 0, 0, 0, 0]), Some(f64::MIN_POSITIVE));
    // one beyond on either side
    assert_eq!(decode([0x43, 0xFF, 0x80, 0, 0, 0, 0, 0, 0, 0]), None);
    assert_eq!(decode([0x3C, 0x00, 0x80, 0, 0, 0, 0, 0, 0, 0]), None);
    // rounding up out of the range
    assert_eq!(decode([0x43, 0xFE, 0xFF, 0xFF, 0xFF, 0xFF, 0xFF, 0xFF, 0xFF, 0xFF]), None);
}

#[test]
fn patterns_that_are_not_supported() {
    // infinity and NaN
    assert_eq!(parse_extended_precision_bytes([0x7F, 0xFF, 0x80, 0, 0, 0, 0, 0, 0, 0]), Err(()));
    assert_eq!(parse_extended_precision_bytes([0x7F, 0xFF, 0xC0, 0, 0, 0, 0, 0, 0, 1]), Err(()));
    // negative zero
    assert_eq!(parse_extended_precision_bytes([0x80, 0, 0, 0, 0, 0, 0, 0, 0, 0]), Err(()));
    // denormal: no integer bit, exponent zero
    assert_eq!(parse_extended_precision_bytes([0, 0, 0x40, 0, 0, 0, 0, 0, 0, 0]), Err(()));
    // unnormal: no integer bit, exponent not zero
    assert_eq!(parse_extended_precision_bytes([0x40, 0x0E, 0x2C, 0x44, 0, 0, 0, 0, 0, 0]), Err(()));
    // zero mantissa with an exponent
    assert_eq!(parse_extended_precision_bytes([0x40, 0x0E, 0, 0, 0, 0, 0, 0, 0, 0]), Err(()));
}

#[test]
fn double_bits_of_a_hand_made_number() {
    let unsupported = Extended { negative: false, exponent: 0x7FFF, mantissa: 1 << 63 };
    assert_eq!(unsupported.double_bits(), None);
    assert!(!unsupported.supported());
    let two = Extended { negative: false, exponent: 0x4000, mantissa: 1 << 63 };
    assert!(two.supported());
    assert_eq!(two.double_bits(), Some(2f64.to_bits()));
}
