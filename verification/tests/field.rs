use bberg::field::{ByteCursor, DecodeError, FieldElement, ENCODING_WIDTH};

fn element(n: u64) -> FieldElement {
    let mut bytes = [0u8; 32];
    bytes[24..].copy_from_slice(&n.to_be_bytes());
    FieldElement::decode(&bytes)
}

fn pattern(seed: u8) -> [u8; 32] {
    let mut bytes = [0u8; 32];
    for i in 0..32 {
        bytes[i] = seed.wrapping_mul(31).wrapping_add((i as u8).wrapping_mul(7));
    }
    bytes
}

#[test]
fn encoding_width_is_32() {
    assert_eq!(ENCODING_WIDTH, 32);
}

#[test]
fn encode_after_decode_gives_the_bytes_back() {
    for seed in 0..=255u8 {
        let bytes = pattern(seed);
        assert_eq!(FieldElement::decode(&bytes).encode(), bytes);
    }
    assert_eq!(FieldElement::decode(&[0xff; 32]).encode(), [0xff; 32]);
}

#[test]
fn decode_after_encode_gives_the_element_back() {
    for seed in 0..=255u8 {
        let x = FieldElement::decode(&pattern(seed));
        assert_eq!(FieldElement::decode(&x.encode()), x);
    }
}

#[test]
fn decode_distinguishes_byte_order() {
    let mut front = [0u8; 32];
    front[0] = 1;
    let mut back = [0u8; 32];
    back[31] = 1;
    assert_ne!(FieldElement::decode(&front), FieldElement::decode(&back));
    assert_eq!(FieldElement::decode(&back), FieldElement::one());
    assert_ne!(FieldElement::decode(&front), FieldElement::one());
}

#[test]
fn zero_encodes_as_zero_bytes() {
    assert_eq!(FieldElement::zero().encode(), [0u8; 32]);
    assert_eq!(FieldElement::decode(&[0u8; 32]), FieldElement::zero());
}

#[test]
fn one_encodes_with_last_byte_set() {
    let mut expected = [0u8; 32];
    expected[31] = 1;
    assert_eq!(FieldElement::one().encode(), expected);
    assert_eq!(element(1), FieldElement::one());
}

#[test]
fn is_zero_only_of_zero() {
    assert!(FieldElement::zero().is_zero());
    assert!(element(0).is_zero());
    assert!(!FieldElement::one().is_zero());
    for position in 0..32 {
        let mut bytes = [0u8; 32];
        bytes[position] = 0x80;
        assert!(!FieldElement::decode(&bytes).is_zero());
    }
}

#[test]
fn values_above_the_modulus_are_decoded_as_they_are() {
    let x = FieldElement::decode(&[0xff; 32]);
    assert!(!x.is_zero());
    assert_eq!(x.encode(), [0xff; 32]);
}

#[test]
fn cursor_reads_elements_in_order() {
    let mut stream = Vec::new();
    for seed in [3u8, 4, 5] {
        stream.extend_from_slice(&pattern(seed));
    }
    let mut cursor = ByteCursor::new(&stream);
    assert_eq!(cursor.offset(), 0);
    assert_eq!(cursor.available(), 96);
    assert_eq!(cursor.read_field(), Ok(FieldElement::decode(&pattern(3))));
    assert_eq!(cursor.offset(), 32);
    assert_eq!(cursor.available(), 64);
    assert_eq!(cursor.read_field(), Ok(FieldElement::decode(&pattern(4))));
    assert_eq!(cursor.read_field(), Ok(FieldElement::decode(&pattern(5))));
    assert_eq!(cursor.offset(), 96);
    assert_eq!(cursor.available(), 0);
}

#[test]
fn cursor_reverses_the_stream_bytes() {
    let mut stream = [0u8; 32];
    stream[31] = 7;
    let mut cursor = ByteCursor::new(&stream);
    let x = cursor.read_field().unwrap();
    assert_eq!(x, element(7));
    assert_eq!(x.encode(), stream);
}

#[test]
fn cursor_reports_an_empty_stream() {
    let stream: Vec<u8> = Vec::new();
    let mut cursor = ByteCursor::new(&stream);
    assert_eq!(cursor.read_field(), Err(DecodeError { offset: 0, available: 0 }));
    assert_eq!(cursor.offset(), 0);
}

#[test]
fn cursor_reports_a_short_stream_and_stays() {
    for length in 0..32usize {
        let stream = vec![0xabu8; length];
        let mut cursor = ByteCursor::new(&stream);
        assert_eq!(cursor.read_field(), Err(DecodeError { offset: 0, available: length }));
        assert_eq!(cursor.offset(), 0);
        assert_eq!(cursor.available(), length);
    }
}

#[test]
fn cursor_reports_a_short_tail() {
    let stream = vec![1u8; 32 + 31];
    let mut cursor = ByteCursor::new(&stream);
    assert!(cursor.read_field().is_ok());
    assert_eq!(cursor.read_field(), Err(DecodeError { offset: 32, available: 31 }));
    assert_eq!(cursor.read_field(), Err(DecodeError { offset: 32, available: 31 }));
    assert_eq!(cursor.offset(), 32);
}

#[test]
fn cursor_reads_exactly_one_width() {
    let stream = vec![9u8; 33];
    let mut cursor = ByteCursor::new(&stream);
    assert_eq!(cursor.read_field(), Ok(FieldElement::decode(&[9u8; 32])));
    assert_eq!(cursor.available(), 1);
}

const PRIME: [u8; 32] = [
    0x30, 0x64, 0x4e, 0x72, 0xe1, 0x31, 0xa0, 0x29, 0xb8, 0x50, 0x45, 0xb6, 0x81, 0x81, 0x58, 0x5d,
    0x28, 0x33, 0xe8, 0x48, 0x79, 0xb9, 0x70, 0x91, 0x43, 0xe1, 0xf5, 0x93, 0xf0, 0x00, 0x00, 0x01,
];

#[test]
fn from_u64_is_the_element_of_that_integer() {
    assert_eq!(FieldElement::from_u64(0), FieldElement::zero());
    assert_eq!(FieldElement::from_u64(1), FieldElement::one());
    for n in [2u64, 255, 256, 257, 65535, 65536, 0x0123_4567_89ab_cdef, u64::MAX] {
        assert_eq!(FieldElement::from_u64(n), element(n));
        let mut expected = [0u8; 32];
        expected[24..].copy_from_slice(&n.to_be_bytes());
        assert_eq!(FieldElement::from_u64(n).encode(), expected);
    }
}

#[test]
fn equality_is_equality_of_encodings() {
    assert!(FieldElement::from_u64(7) == FieldElement::from_u64(7));
    assert!(FieldElement::from_u64(7) != FieldElement::from_u64(8));
    let mut high = [0u8; 32];
    high[0] = 7;
    assert!(FieldElement::decode(&high) != FieldElement::from_u64(7));
}

#[test]
fn canonical_below_the_prime() {
    assert!(FieldElement::zero().is_canonical());
    assert!(FieldElement::one().is_canonical());
    assert!(FieldElement::from_u64(u64::MAX).is_canonical());
    let mut below = PRIME;
    below[31] = 0;
    assert!(FieldElement::decode(&below).is_canonical());
    let mut smaller_high_byte = [0xff; 32];
    smaller_high_byte[0] = 0x2f;
    assert!(FieldElement::decode(&smaller_high_byte).is_canonical());
}

#[test]
fn not_canonical_from_the_prime_on() {
    assert!(!FieldElement::decode(&PRIME).is_canonical());
    let mut above = PRIME;
    above[31] = 2;
    assert!(!FieldElement::decode(&above).is_canonical());
    let mut middle = PRIME;
    middle[16] = 0x29;
    assert!(!FieldElement::decode(&middle).is_canonical());
    assert!(!FieldElement::decode(&[0xff; 32]).is_canonical());
    let mut larger_high_byte = [0u8; 32];
    larger_high_byte[0] = 0x31;
    assert!(!FieldElement::decode(&larger_high_byte).is_canonical());
}

#[test]
fn the_prime_is_the_order_of_the_scalar_field() {
    let mut digits = Vec::new();
    let mut number = PRIME.to_vec();
    while number.iter().any(|byte| *byte != 0) {
        let mut carry: u32 = 0;
        for byte in number.iter_mut() {
            let current = carry * 256 + *byte as u32;
            *byte = (current / 10) as u8;
            carry = current % 10;
        }
        digits.push(char::from_digit(carry, 10).unwrap());
    }
    let decimal: String = digits.iter().rev().collect();
    assert_eq!(
        decimal,
        "21888242871839275222246405745257275088548364400416034343698204186575808495617"
    );
}
