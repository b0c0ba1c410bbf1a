use melcheck::slicing::slice_bounds_check;
use melcheck::hexcode::{hex_decode, hex_encode, parse_hex_argument};
use melcheck::payload::{decode_integer_differential, integer_size_differential, slice_differential};
use melcheck::text::{decimal_word, hex_word, pad_right_with_zeros};
use melcheck::varint::encode_u128;

#[test]
fn hex_encode_is_lower_case_pairs() {
    assert_eq!(hex_encode(&[0xde, 0xad, 0x01, 0x00]), "dead0100");
    assert_eq!(hex_encode(&[]), "");
}

#[test]
fn hex_decode_reads_both_cases() {
    assert_eq!(hex_decode("DEad0f"), Some(vec![0xde, 0xad, 0x0f]));
    assert_eq!(hex_decode(""), Some(vec![]));
}

#[test]
fn hex_decode_refuses_odd_length_and_non_digits() {
    assert_eq!(hex_decode("abc"), None);
    assert_eq!(hex_decode("zz"), None);
    assert_eq!(hex_decode("é0"), None);
}

#[test]
fn hex_round_trip() {
    let data: Vec<u8> = (0..=255u8).collect();
    assert_eq!(hex_decode(&hex_encode(&data)), Some(data));
}

#[test]
fn hex_argument_needs_prefix() {
    assert_eq!(parse_hex_argument("0x00ff"), Some(vec![0x00, 0xff]));
    assert_eq!(parse_hex_argument("0x"), Some(vec![]));
    assert_eq!(parse_hex_argument("00ff"), None);
    assert_eq!(parse_hex_argument("0xabc"), None);
    assert_eq!(parse_hex_argument("0"), None);
}

#[test]
fn words_match_the_format_macro() {
    for n in [0u128, 1, 0x40, 255, 1 << 64, u128::MAX] {
        assert_eq!(hex_word(n), format!("{:0>64x}", n));
    }
    for n in [0usize, 7, 1234567890, usize::MAX] {
        assert_eq!(decimal_word(n), format!("{:0>64}", n));
    }
}

#[test]
fn right_padding() {
    let mut s = String::from("abc");
    pad_right_with_zeros(&mut s, 8);
    assert_eq!(s, "abc00000");
    let mut t = String::from("abcdef");
    pad_right_with_zeros(&mut t, 4);
    assert_eq!(t, "abcdef");
}

#[test]
fn varint_forms() {
    assert_eq!(encode_u128(0), vec![0]);
    assert_eq!(encode_u128(250), vec![250]);
    assert_eq!(encode_u128(251), vec![251, 251, 0]);
    assert_eq!(encode_u128(0xffff), vec![251, 0xff, 0xff]);
    assert_eq!(encode_u128(0x1_0000), vec![252, 0, 0, 1, 0]);
    assert_eq!(encode_u128(0x1_0000_0000), vec![253, 0, 0, 0, 0, 1, 0, 0, 0]);
    let mut big = vec![254];
    big.extend_from_slice(&[0xff; 16]);
    assert_eq!(encode_u128(u128::MAX), big);
}

#[test]
fn varint_round_trips_through_stdcode() {
    for v in [0u128, 17, 250, 251, 300, 0xffff, 0x1_0000, u32::MAX as u128 + 1, u64::MAX as u128, u128::MAX] {
        let bytes = encode_u128(v);
        let back: u128 = stdcode::deserialize(&bytes).unwrap();
        assert_eq!(back, v);
    }
}

#[test]
fn decode_integer_payload() {
    assert_eq!(decode_integer_differential(0), "00");
    assert_eq!(decode_integer_differential(300), "fb2c01");
    assert_eq!(decode_integer_differential(1 << 64), "fe00000000000000000100000000000000");
}

#[test]
fn integer_size_payload() {
    let expected = format!(
        "{:0>64x}{:0>64x}{:0>64x}{:0<64}",
        0x40, 3, 3, "fb2c01"
    );
    assert_eq!(integer_size_differential(300), expected);
    assert_eq!(integer_size_differential(300).len(), 256);
    let long = integer_size_differential(u128::MAX);
    assert_eq!(long.len(), 256);
    assert_eq!(&long[64..128], format!("{:0>64x}", 17));
    assert!(long[192..].starts_with("feffffffffffffffffffffffffffffffff"));
}

#[test]
fn slice_forwards() {
    let data = [1u8, 2, 3, 4, 5];
    assert_eq!(slice_differential(&data, 1, 3), "0203");
    assert_eq!(slice_differential(&data, 0, 5), "0102030405");
}

#[test]
fn slice_backwards() {
    let data = [1u8, 2, 3, 4, 5];
    assert_eq!(slice_differential(&data, 3, 1), "0403");
    assert_eq!(slice_differential(&data, 2, -1), "030201");
    assert_eq!(slice_differential(&data, 2, 2), "");
    assert_eq!(slice_differential(&data, 4, 0), "05040302");
}

#[test]
fn backward_slice_reverses_forward_slice() {
    let data = [9u8, 8, 7, 6, 5, 4];
    let fwd = hex_decode(&slice_differential(&data, 2, 5)).unwrap();
    let mut bwd = hex_decode(&slice_differential(&data, 4, 1)).unwrap();
    bwd.reverse();
    assert_eq!(fwd, bwd);
}

#[test]
fn slice_bounds() {
    assert!(slice_bounds_check(5, 1, 3));
    assert!(!slice_bounds_check(5, -1, 3));
    assert!(!slice_bounds_check(5, 1, 6));
    assert!(slice_bounds_check(5, -1, -1));
    assert!(!slice_bounds_check(5, 0, -2));
    assert!(!slice_bounds_check(5, 5, 2));
    assert_eq!(slice_differential(&[1u8, 2], -1, -1), "");
}

#[test]
fn backward_slice_at_the_end() {
    let data = [1u8, 2, 3];
    assert!(slice_bounds_check(3, 2, -1));
    assert!(!slice_bounds_check(3, 3, -1));
    assert_eq!(slice_differential(&data, 2, -1), "030201");
    let fwd = hex_decode(&slice_differential(&data, 0, 3)).unwrap();
    let mut bwd = hex_decode(&slice_differential(&data, 2, -1)).unwrap();
    bwd.reverse();
    assert_eq!(fwd, bwd);
}
