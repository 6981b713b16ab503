use sensor_spectrum::codec::{decode, encode, SampleType};

#[test]
fn sample_type_widths() {
    assert_eq!(SampleType::Single.width(), 4);
    assert_eq!(SampleType::Double.width(), 8);
}

#[test]
fn decode_is_little_endian() {
    assert_eq!(decode(&[0x78, 0x56, 0x34, 0x12]), 0x1234_5678);
    assert_eq!(decode(&[1, 0, 0, 0]), 1);
    assert_eq!(decode(&[0, 0, 0, 1]), 0x0100_0000);
    assert_eq!(
        decode(&[0xef, 0xcd, 0xab, 0x89, 0x67, 0x45, 0x23, 0x01]),
        0x0123_4567_89ab_cdef
    );
}

#[test]
fn decode_of_no_bytes_is_zero() {
    assert_eq!(decode(&[]), 0);
}

#[test]
fn decode_all_ones() {
    assert_eq!(decode(&[0xff; 8]), u64::MAX);
    assert_eq!(decode(&[0xff; 4]), 0xffff_ffff);
}

#[test]
fn decode_matches_single_precision_bits() {
    let value = 1.0f32;
    assert_eq!(value.to_le_bytes(), [0x00, 0x00, 0x80, 0x3f]);
    let bits = decode(&value.to_le_bytes());
    assert_eq!(bits, 0x3f80_0000);
    assert_eq!(f32::from_bits(bits as u32), 1.0);
}

#[test]
fn decode_matches_double_precision_bits() {
    let value = -2.5f64;
    let bits = decode(&value.to_le_bytes());
    assert_eq!(bits, value.to_bits());
    assert_eq!(f64::from_bits(bits), -2.5);
}

#[test]
fn encode_is_little_endian() {
    assert_eq!(encode(0x1234_5678, 4), vec![0x78, 0x56, 0x34, 0x12]);
    assert_eq!(
        encode(0x0123_4567_89ab_cdef, 8),
        vec![0xef, 0xcd, 0xab, 0x89, 0x67, 0x45, 0x23, 0x01]
    );
    assert_eq!(encode(5, 0), Vec::<u8>::new());
}

#[test]
fn encode_keeps_the_low_bytes_only() {
    assert_eq!(encode(0x0123_4567_89ab_cdef, 4), vec![0xef, 0xcd, 0xab, 0x89]);
    assert_eq!(encode(0x1ff, 1), vec![0xff]);
}

#[test]
fn encode_pads_with_zero_bytes() {
    assert_eq!(encode(7, 4), vec![7, 0, 0, 0]);
    assert_eq!(encode(1, 10), vec![1, 0, 0, 0, 0, 0, 0, 0, 0, 0]);
}

#[test]
fn round_trip_special_single_patterns() {
    let patterns: [u32; 10] = [
        0x0000_0000, // +0
        0x8000_0000, // -0
        0x0000_0001, // smallest subnormal
        0x007f_ffff, // largest subnormal
        0x0080_0000, // smallest normal
        0x7f80_0000, // +inf
        0xff80_0000, // -inf
        0x7fc0_0000, // quiet NaN
        0x7fa0_0001, // signalling NaN with payload
        0xffff_ffff, // NaN, all bits set
    ];
    for pattern in patterns {
        let wire = encode(pattern as u64, SampleType::Single.width());
        assert_eq!(wire, f32::from_bits(pattern).to_le_bytes().to_vec());
        assert_eq!(decode(&wire), pattern as u64);
    }
}

#[test]
fn round_trip_special_double_patterns() {
    let patterns: [u64; 6] = [
        0,
        0x8000_0000_0000_0000,
        0x0000_0000_0000_0001,
        0x7ff0_0000_0000_0000,
        0x7ff8_0000_0000_0001,
        u64::MAX,
    ];
    for pattern in patterns {
        let wire = encode(pattern, SampleType::Double.width());
        assert_eq!(wire, f64::from_bits(pattern).to_le_bytes().to_vec());
        assert_eq!(decode(&wire), pattern);
    }
}

#[test]
fn round_trip_from_bytes() {
    let mut state: u32 = 0x2545_f491;
    for _ in 0..200 {
        let mut bytes = [0u8; 4];
        for b in bytes.iter_mut() {
            state = state.wrapping_mul(1_664_525).wrapping_add(1_013_904_223);
            *b = (state >> 24) as u8;
        }
        assert_eq!(encode(decode(&bytes), 4), bytes.to_vec());
    }
}
