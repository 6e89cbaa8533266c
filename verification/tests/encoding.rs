use alloy_rlp::Encodable;
use bench_from_rpc::bytes::{append_bytes, copy_bytes, minimal_be_bytes, same_bytes};
use bench_from_rpc::rlp::{rlp_encode_bytes, rlp_encode_list, rlp_encode_u64};
use bench_from_rpc::uint::{rlp_encode_u256, U256};

fn reference<T: Encodable>(value: T) -> Vec<u8> {
    let mut out = Vec::new();
    value.encode(&mut out);
    out
}

fn small(v: u64) -> U256 {
    U256 { limbs: [v, 0, 0, 0] }
}

#[test]
fn minimal_bytes_have_no_leading_zero() {
    assert_eq!(minimal_be_bytes(1), vec![1]);
    assert_eq!(minimal_be_bytes(255), vec![255]);
    assert_eq!(minimal_be_bytes(256), vec![1, 0]);
    assert_eq!(minimal_be_bytes(0x0102_0304), vec![1, 2, 3, 4]);
    assert_eq!(minimal_be_bytes(u64::MAX), vec![255; 8]);
    assert_eq!(minimal_be_bytes(1 << 56), vec![1, 0, 0, 0, 0, 0, 0, 0]);
}

#[test]
fn minimal_bytes_of_zero_are_one_zero_byte() {
    assert_eq!(minimal_be_bytes(0), vec![0]);
}

#[test]
fn byte_helpers() {
    let mut out = vec![1u8, 2];
    append_bytes(&mut out, &[3, 4]);
    assert_eq!(out, vec![1, 2, 3, 4]);
    assert_eq!(copy_bytes(&out), out);
    assert!(same_bytes(&[1, 2], &[1, 2]));
    assert!(!same_bytes(&[1, 2], &[1, 3]));
    assert!(!same_bytes(&[1, 2], &[1, 2, 3]));
    assert!(same_bytes(&[], &[]));
}

#[test]
fn strings_of_one_byte() {
    assert_eq!(rlp_encode_bytes(&[0x00]), vec![0x00]);
    assert_eq!(rlp_encode_bytes(&[0x7f]), vec![0x7f]);
    assert_eq!(rlp_encode_bytes(&[0x80]), vec![0x81, 0x80]);
    assert_eq!(rlp_encode_bytes(&[0xff]), vec![0x81, 0xff]);
}

#[test]
fn empty_string() {
    assert_eq!(rlp_encode_bytes(&[]), vec![0x80]);
}

#[test]
fn short_strings() {
    assert_eq!(rlp_encode_bytes(b"dog"), vec![0x83, b'd', b'o', b'g']);
    let text = [7u8; 55];
    let encoded = rlp_encode_bytes(&text);
    assert_eq!(encoded[0], 0x80 + 55);
    assert_eq!(&encoded[1..], &text[..]);
}

#[test]
fn long_strings() {
    let text = [7u8; 56];
    let encoded = rlp_encode_bytes(&text);
    assert_eq!(&encoded[..2], &[0xb8, 56]);
    assert_eq!(&encoded[2..], &text[..]);
    let text = vec![9u8; 1024];
    let encoded = rlp_encode_bytes(&text);
    assert_eq!(&encoded[..3], &[0xb9, 0x04, 0x00]);
    assert_eq!(&encoded[3..], &text[..]);
}

#[test]
fn strings_agree_with_the_reference_encoder() {
    for len in [0usize, 1, 2, 54, 55, 56, 57, 255, 256, 257, 65535, 65536, 65537] {
        for fill in [0x00u8, 0x7f, 0x80, 0xff] {
            let text = vec![fill; len];
            assert_eq!(rlp_encode_bytes(&text), reference(&text[..]));
        }
    }
}

#[test]
fn empty_list() {
    assert_eq!(rlp_encode_list(&[]), vec![0xc0]);
}

#[test]
fn list_of_strings() {
    let items = [rlp_encode_bytes(b"cat"), rlp_encode_bytes(b"dog")];
    assert_eq!(
        rlp_encode_list(&items),
        vec![0xc8, 0x83, b'c', b'a', b't', 0x83, b'd', b'o', b'g']
    );
}

#[test]
fn nested_lists() {
    let empty = rlp_encode_list(&[]);
    let one = rlp_encode_list(&[empty.clone()]);
    let two = rlp_encode_list(&[empty.clone(), one.clone()]);
    assert_eq!(
        rlp_encode_list(&[empty, one, two]),
        vec![0xc7, 0xc0, 0xc1, 0xc0, 0xc3, 0xc0, 0xc1, 0xc0]
    );
}

#[test]
fn list_prefix_boundary() {
    let short = rlp_encode_list(&[vec![1u8; 55]]);
    assert_eq!(short[0], 0xc0 + 55);
    assert_eq!(short.len(), 56);
    let long = rlp_encode_list(&[vec![1u8; 56]]);
    assert_eq!(&long[..2], &[0xf8, 56]);
    assert_eq!(long.len(), 58);
    let longer = rlp_encode_list(&[vec![1u8; 200], vec![2u8; 100]]);
    assert_eq!(&longer[..3], &[0xf9, 0x01, 0x2c]);
    assert_eq!(longer.len(), 303);
}

#[test]
fn lists_agree_with_the_reference_encoder() {
    for n in [0u64, 1, 3, 20, 300] {
        let numbers: Vec<u64> = (0..n).collect();
        let items: Vec<Vec<u8>> = numbers.iter().map(|v| rlp_encode_u64(*v)).collect();
        assert_eq!(rlp_encode_list(&items), reference(numbers));
    }
}

#[test]
fn numbers() {
    assert_eq!(rlp_encode_u64(0), vec![0x80]);
    assert_eq!(rlp_encode_u64(15), vec![0x0f]);
    assert_eq!(rlp_encode_u64(127), vec![0x7f]);
    assert_eq!(rlp_encode_u64(128), vec![0x81, 0x80]);
    assert_eq!(rlp_encode_u64(1024), vec![0x82, 0x04, 0x00]);
    assert_eq!(rlp_encode_u64(u64::MAX), vec![0x88, 255, 255, 255, 255, 255, 255, 255, 255]);
}

#[test]
fn wide_numbers_from_narrow_ones() {
    assert_eq!(U256::from_u64(0), U256 { limbs: [0; 4] });
    assert_eq!(U256::from_u64(u64::MAX), U256 { limbs: [u64::MAX, 0, 0, 0] });
    assert!(U256::from_u64(0).is_zero());
    assert!(!U256::from_u64(1).is_zero());
    for i in 0..4 {
        let mut limbs = [0; 4];
        limbs[i] = 1;
        assert!(!U256 { limbs }.is_zero());
    }
}

#[test]
fn wide_numbers() {
    assert_eq!(rlp_encode_u256(&small(0)), vec![0x80]);
    assert_eq!(rlp_encode_u256(&small(1)), vec![0x01]);
    assert_eq!(rlp_encode_u256(&small(1024)), vec![0x82, 0x04, 0x00]);
    let mut max = vec![0xa0];
    max.extend([0xff; 32]);
    assert_eq!(rlp_encode_u256(&U256 { limbs: [u64::MAX; 4] }), max);
    assert_eq!(
        rlp_encode_u256(&U256 { limbs: [2, 1, 0, 0] }),
        vec![0x89, 1, 0, 0, 0, 0, 0, 0, 0, 2]
    );
    let mut top = vec![0xa0, 1];
    top.extend([0; 31]);
    assert_eq!(rlp_encode_u256(&U256 { limbs: [0, 0, 0, 1 << 56] }), top);
}

#[test]
fn wide_numbers_agree_with_narrow_ones() {
    for v in [0u64, 1, 127, 128, 255, 256, 0xdead_beef, u64::MAX] {
        assert_eq!(rlp_encode_u256(&small(v)), rlp_encode_u64(v));
        assert_eq!(rlp_encode_u64(v), reference(v));
    }
}

#[test]
fn wide_numbers_agree_with_the_reference_encoder() {
    for limbs in [[0u64; 4], [5, 0, 0, 0], [0, 5, 0, 0], [1, 2, 3, 4], [0, 0, 0, u64::MAX]] {
        let expected = reference(alloy_primitives::U256::from_limbs(limbs));
        assert_eq!(rlp_encode_u256(&U256 { limbs }), expected);
    }
}

#[test]
fn an_encoding_is_not_the_start_of_another() {
    let encodings = vec![
        rlp_encode_bytes(&[]),
        rlp_encode_bytes(&[0]),
        rlp_encode_bytes(&[0x80]),
        rlp_encode_bytes(&[0x81, 0x80]),
        rlp_encode_bytes(&[1; 55]),
        rlp_encode_bytes(&[1; 56]),
        rlp_encode_list(&[]),
        rlp_encode_list(&[rlp_encode_bytes(&[])]),
        rlp_encode_list(&[rlp_encode_list(&[])]),
        rlp_encode_list(&[vec![1; 56]]),
    ];
    for (i, a) in encodings.iter().enumerate() {
        for (j, b) in encodings.iter().enumerate() {
            assert_eq!(i == j, b.starts_with(a));
        }
    }
}
