use blockifier::felt::{u128_from_be_bytes, u128_to_be_bytes, Felt};

fn hex_bytes(hex: &str) -> Vec<u8> {
    let digits: Vec<u8> = hex
        .trim_start_matches("0x")
        .bytes()
        .map(|c| match c {
            b'0'..=b'9' => c - b'0',
            b'a'..=b'f' => c - b'a' + 10,
            b'A'..=b'F' => c - b'A' + 10,
            _ => panic!("not a hex digit"),
        })
        .collect();
    let mut padded = vec![0u8; 64 - digits.len()];
    padded.extend(digits);
    padded.chunks(2).map(|pair| pair[0] * 16 + pair[1]).collect()
}

fn felt_from_hex(hex: &str) -> Felt {
    Felt::from_bytes_be(&hex_bytes(hex)).unwrap()
}

const PRIME_HEX: &str = "0x800000000000011000000000000000000000000000000000000000000000001";
const PRIME_MINUS_ONE_HEX: &str =
    "0x800000000000011000000000000000000000000000000000000000000000000";

#[test]
fn zero_is_zero() {
    assert!(Felt::zero().is_zero());
    assert_eq!(Felt::from_u128(0), Felt::zero());
    assert!(!Felt::one().is_zero());
    assert_eq!(Felt::from_bool(false), Felt::zero());
    assert_eq!(Felt::from_bool(true), Felt::one());
}

#[test]
fn integers_keep_their_value() {
    assert_eq!(Felt::from_u32(4321).to_u64(), Some(4321));
    assert_eq!(Felt::from_u64(u64::MAX).to_u64(), Some(u64::MAX));
    assert_eq!(Felt::from_u128(u128::MAX).to_u128(), Some(u128::MAX));
    assert_eq!(Felt::from_u128(u64::MAX as u128 + 1).to_u64(), None);
    assert_eq!(felt_from_hex("0x100000000000000000000000000000000").to_u128(), None);
    assert_eq!(Felt::from_u32(7), Felt::from_u128(7));
}

#[test]
fn sixteen_bytes_spell_a_u128() {
    let bytes = u128_to_be_bytes(0x0102_0304_0506_0708_090a_0b0c_0d0e_0f10);
    assert_eq!(bytes, vec![1, 2, 3, 4, 5, 6, 7, 8, 9, 10, 11, 12, 13, 14, 15, 16]);
    assert_eq!(u128_to_be_bytes(0), vec![0u8; 16]);
    assert_eq!(u128_to_be_bytes(u128::MAX), vec![0xffu8; 16]);
    let mut longer = vec![0xaau8, 0xbb];
    longer.extend(bytes);
    assert_eq!(u128_from_be_bytes(&longer, 2), 0x0102_0304_0506_0708_090a_0b0c_0d0e_0f10);
}

#[test]
fn bytes_round_trip() {
    let f = felt_from_hex("0x03d937c035c878245caf64531a5756109c53068da139362728feb561405371cb");
    let bytes = f.to_bytes_be();
    assert_eq!(bytes.len(), 32);
    assert_eq!(
        bytes,
        hex_bytes("0x03d937c035c878245caf64531a5756109c53068da139362728feb561405371cb")
    );
    assert_eq!(Felt::from_bytes_be(&bytes), Some(f));
    assert_eq!(Felt::from_u128(258).to_bytes_be()[30..], [1u8, 2]);
}

#[test]
fn from_bytes_be_rejects_what_is_no_field_element() {
    assert_eq!(Felt::from_bytes_be(&hex_bytes(PRIME_HEX)), None);
    assert_eq!(Felt::from_bytes_be(&[0xffu8; 32]), None);
    assert_eq!(Felt::from_bytes_be(&[0u8; 31]), None);
    assert_eq!(Felt::from_bytes_be(&[0u8; 33]), None);
    assert!(Felt::from_bytes_be(&hex_bytes(PRIME_MINUS_ONE_HEX)).is_some());
}

#[test]
fn from_halves_checks_the_modulus() {
    assert_eq!(Felt::from_halves(0, 5), Some(Felt::from_u128(5)));
    assert_eq!(
        Felt::from_halves(0x0800_0000_0000_0011_0000_0000_0000_0000, 0),
        Some(felt_from_hex(PRIME_MINUS_ONE_HEX))
    );
    assert_eq!(Felt::from_halves(0x0800_0000_0000_0011_0000_0000_0000_0000, 1), None);
    assert_eq!(Felt::from_halves(u128::MAX, 0), None);
}

#[test]
fn slices_are_reduced_modulo_the_prime() {
    assert_eq!(Felt::from_bytes_be_slice(b"TYAS0"), Felt::from_u128(0x54_5941_5330));
    assert_eq!(Felt::from_bytes_be_slice(&[]), Felt::zero());
    assert_eq!(Felt::from_bytes_be_slice(&hex_bytes(PRIME_HEX)), Felt::zero());
    // 2^256 = 32 * p + r with r = 2^256 - 32 * p
    let mut two_to_256 = vec![1u8];
    two_to_256.extend(vec![0u8; 32]);
    assert_eq!(
        Felt::from_bytes_be_slice(&two_to_256),
        felt_from_hex("0x7fffffffffffdf0ffffffffffffffffffffffffffffffffffffffffffffffe1")
    );
    // 32 bytes that spell 2^256 - 1, which is not below the prime
    assert_eq!(
        Felt::from_bytes_be_slice(&[0xffu8; 32]),
        felt_from_hex("0x7fffffffffffdf0ffffffffffffffffffffffffffffffffffffffffffffffe0")
    );
    // the prime plus two, in 32 bytes
    let mut above = hex_bytes(PRIME_HEX);
    above[31] = 3;
    assert_eq!(Felt::from_bytes_be_slice(&above), Felt::from_u128(2));
}

#[test]
fn slices_agree_with_the_field_library() {
    let inputs: [&[u8]; 4] = [b"", b"$YAS1", &[0xff; 34], &[0x12; 70]];
    for input in inputs {
        let expected = starknet_types_core::felt::Felt::from_bytes_be_slice(input).to_bytes_be();
        assert_eq!(Felt::from_bytes_be_slice(input).to_bytes_be(), expected.to_vec());
    }
}

#[test]
fn increment_stops_at_the_end_of_the_field() {
    assert_eq!(Felt::from_u128(41).checked_increment(), Some(Felt::from_u128(42)));
    assert_eq!(
        Felt::from_u128(u128::MAX).checked_increment(),
        Some(felt_from_hex("0x100000000000000000000000000000000"))
    );
    assert_eq!(felt_from_hex(PRIME_MINUS_ONE_HEX).checked_increment(), None);
}

#[test]
fn key_bound_is_two_to_251() {
    let bound = "0x800000000000000000000000000000000000000000000000000000000000000";
    let below = "0x7ffffffffffffffffffffffffffffffffffffffffffffffffffffffffffffff";
    assert!(!felt_from_hex(bound).is_below_key_bound());
    assert!(felt_from_hex(below).is_below_key_bound());
    assert!(Felt::zero().is_below_key_bound());
}

#[test]
fn address_bound_reduction() {
    let bound = "0x7ffffffffffffffffffffffffffffffffffffffffffffffffffffffffffff00";
    let below = "0x7fffffffffffffffffffffffffffffffffffffffffffffffffffffffffffeff";
    assert_eq!(felt_from_hex(bound).mod_address_bound(), Felt::zero());
    assert_eq!(felt_from_hex(below).mod_address_bound(), felt_from_hex(below));
    assert_eq!(Felt::from_u128(77).mod_address_bound(), Felt::from_u128(77));
    // p - 1 - (2^251 - 256) = 17 * 2^192 + 256
    assert_eq!(
        felt_from_hex(PRIME_MINUS_ONE_HEX).mod_address_bound(),
        felt_from_hex("0x11000000000000000000000000000000000000000000000100")
    );
    // a borrow from the upper half: 2^251 + 5 - (2^251 - 256) = 261
    assert_eq!(
        felt_from_hex("0x800000000000000000000000000000000000000000000000000000000000005")
            .mod_address_bound(),
        Felt::from_u128(261)
    );
}

#[test]
fn order_follows_the_value() {
    assert!(Felt::from_u128(1).lt(&Felt::from_u128(2)));
    assert!(!Felt::from_u128(2).lt(&Felt::from_u128(2)));
    assert!(Felt::from_u128(u128::MAX).lt(&felt_from_hex("0x100000000000000000000000000000000")));
    assert!(!felt_from_hex("0x100000000000000000000000000000000").lt(&Felt::from_u128(u128::MAX)));
}
