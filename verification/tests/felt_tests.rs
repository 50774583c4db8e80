use pending_sync::felt::Felt;
use pending_sync::felt::HexParseError;

#[test]
fn hex_of_small_value() {
    let f = Felt::from_limbs(0, 0, 0, 0x1234);
    assert_eq!(f.to_hex_string(), "0x1234");
}

#[test]
fn hex_of_zero_keeps_one_digit() {
    let f = Felt::zero();
    assert_eq!(f.to_hex_string(), "0x0");
}

#[test]
fn hex_of_full_width_value() {
    let f = Felt::from_limbs(
        0x0123_4567_89ab_cdef,
        0xfedc_ba98_7654_3210,
        0x0011_2233_4455_6677,
        0x8899_aabb_ccdd_eeff,
    );
    assert_eq!(
        f.to_hex_string(),
        "0x123456789abcdeffedcba987654321000112233445566778899aabbccddeeff"
    );
}

#[test]
fn hex_digits_are_lowercase() {
    let f = Felt::from_limbs(0, 0, 0, 0xDEAD_BEEF);
    assert_eq!(f.to_hex_string(), "0xdeadbeef");
}

#[test]
fn parse_with_prefix() {
    let f = Felt::from_hex_str("0x1234").unwrap();
    assert_eq!(f, Felt::from_limbs(0, 0, 0, 0x1234));
}

#[test]
fn parse_without_prefix() {
    let f = Felt::from_hex_str("abcdef").unwrap();
    assert_eq!(f, Felt::from_limbs(0, 0, 0, 0xabcdef));
}

#[test]
fn parse_accepts_uppercase() {
    let f = Felt::from_hex_str("0xDEADBEEF").unwrap();
    assert_eq!(f, Felt::from_limbs(0, 0, 0, 0xdeadbeef));
}

#[test]
fn parse_full_width_round_trip() {
    let text = "0x123456789abcdeffedcba987654321000112233445566778899aabbccddeeff";
    let f = Felt::from_hex_str(text).unwrap();
    assert_eq!(f.to_hex_string(), text);
}

#[test]
fn parse_empty_is_invalid_length() {
    assert_eq!(Felt::from_hex_str(""), Err(HexParseError::InvalidLength));
    assert_eq!(Felt::from_hex_str("0x"), Err(HexParseError::InvalidLength));
}

#[test]
fn parse_over_sixty_four_digits_is_invalid_length() {
    let too_long = "0x10000000000000000000000000000000000000000000000000000000000000000";
    assert_eq!(
        Felt::from_hex_str(too_long),
        Err(HexParseError::InvalidLength)
    );
}

#[test]
fn parse_sixty_four_digits_is_accepted() {
    let max = "0xffffffffffffffffffffffffffffffffffffffffffffffffffffffffffffffff";
    let f = Felt::from_hex_str(max).unwrap();
    assert_eq!(
        f,
        Felt::from_limbs(u64::MAX, u64::MAX, u64::MAX, u64::MAX)
    );
}

#[test]
fn parse_stray_character_is_invalid_nibble() {
    assert_eq!(
        Felt::from_hex_str("0x12g4"),
        Err(HexParseError::InvalidNibble)
    );
}

#[test]
fn zero_round_trip() {
    let f = Felt::from_hex_str("0x0").unwrap();
    assert_eq!(f, Felt::zero());
    assert!(f.is_zero());
}

#[test]
fn bit_width_boundary() {
    let below = Felt::from_hex_str("0x7ffffffffffffffffffffffffffffffffffffffffffffffffffffffffffffff")
        .unwrap();
    assert!(!below.has_more_than_251_bits());
    let at = Felt::from_hex_str("0x800000000000000000000000000000000000000000000000000000000000000")
        .unwrap();
    assert!(at.has_more_than_251_bits());
}

#[test]
fn hex_crosses_limb_boundaries() {
    let f = Felt::from_limbs(0, 0, 1, 0);
    assert_eq!(f.to_hex_string(), "0x10000000000000000");
    assert_eq!(Felt::from_hex_str("0x10000000000000000").unwrap(), f);
}
