use blockchainlib::block::Block;
use blockchainlib::hashable::Hashable;
use blockchainlib::transaction::{Output, Transaction};
use blockchainlib::{difficulty_bytes_as_u128, u128_bytes, u32_bytes, u64_bytes};

#[test]
fn u32_bytes_is_big_endian() {
    assert_eq!(u32_bytes(0x01020304), vec![1u8, 2, 3, 4]);
    assert_eq!(u32_bytes(0), vec![0u8, 0, 0, 0]);
    assert_eq!(u32_bytes(u32::MAX), vec![0xffu8, 0xff, 0xff, 0xff]);
}

#[test]
fn u64_bytes_is_big_endian() {
    assert_eq!(u64_bytes(1), vec![0u8, 0, 0, 0, 0, 0, 0, 1]);
    assert_eq!(
        u64_bytes(0x0102030405060708),
        vec![1u8, 2, 3, 4, 5, 6, 7, 8]
    );
}

#[test]
fn u128_bytes_is_big_endian() {
    let mut expected: Vec<u8> = vec![0u8; 16];
    expected[15] = 9;
    assert_eq!(u128_bytes(9), expected);
    assert_eq!(u128_bytes(0x0100)[14], 1u8);
}

#[test]
fn leading_bytes_read_back_as_big_endian_integer() {
    let mut h: Vec<u8> = vec![0u8; 32];
    h[15] = 5;
    assert_eq!(difficulty_bytes_as_u128(&h), 5);
    h[0] = 1;
    assert_eq!(difficulty_bytes_as_u128(&h), (1u128 << 120) | 5);
    // Bytes past the first 16 take no part.
    h[16] = 0xff;
    h[31] = 0xff;
    assert_eq!(difficulty_bytes_as_u128(&h), (1u128 << 120) | 5);
}

#[test]
fn output_bytes_are_address_then_value() {
    let o = Output {
        to_addr: b"ab".to_vec(),
        value: 1,
    };
    assert_eq!(o.bytes(), vec![97u8, 98, 0, 0, 0, 0, 0, 0, 0, 1]);
}

#[test]
fn transaction_bytes_concatenate_inputs_then_outputs() {
    let t = Transaction {
        inputs: vec![Output {
            to_addr: b"a".to_vec(),
            value: 2,
        }],
        outputs: vec![Output {
            to_addr: b"b".to_vec(),
            value: 3,
        }],
    };
    let mut expected: Vec<u8> = Vec::new();
    expected.push(97);
    expected.extend_from_slice(&[0, 0, 0, 0, 0, 0, 0, 2]);
    expected.push(98);
    expected.extend_from_slice(&[0, 0, 0, 0, 0, 0, 0, 3]);
    assert_eq!(t.bytes(), expected);
}

#[test]
fn block_bytes_have_fixed_field_order() {
    let prev: Vec<u8> = vec![0xaau8; 32];
    let b = Block::new(1, 2, prev.clone(), Vec::new(), 3);
    let mut expected: Vec<u8> = Vec::new();
    expected.extend_from_slice(&[0, 0, 0, 1]);
    let mut ts: Vec<u8> = vec![0u8; 16];
    ts[15] = 2;
    expected.extend_from_slice(&ts);
    expected.extend_from_slice(&prev);
    expected.extend_from_slice(&[0u8; 8]);
    let mut d: Vec<u8> = vec![0u8; 16];
    d[15] = 3;
    expected.extend_from_slice(&d);
    assert_eq!(b.bytes(), expected);
}

#[test]
fn block_bytes_leave_own_hash_out() {
    let mut a = Block::new(7, 8, vec![1u8; 32], Vec::new(), 9);
    let b = Block::new(7, 8, vec![1u8; 32], Vec::new(), 9);
    a.hash = vec![0x55u8; 32];
    assert_eq!(a.bytes(), b.bytes());
}

#[test]
fn digest_matches_known_sha256_vectors() {
    // SHA-256 of 8 zero bytes: the encoding of Output { [], 0 }.
    let o = Output {
        to_addr: Vec::new(),
        value: 0,
    };
    assert_eq!(o.bytes(), vec![0u8; 8]);
    assert_eq!(
        hex::encode(o.hash()),
        "af5570f5a1810b7af78caf4bc70a660f0df51e42baf91d4de5b2328de0e83dfc"
    );
    // SHA-256 of b"ab" followed by 1 as 8 big-endian bytes.
    let p = Output {
        to_addr: b"ab".to_vec(),
        value: 1,
    };
    assert_eq!(
        hex::encode(p.hash()),
        "184791421e9b9f0f97fe72c07438cffc824a86fb323765dc29031caa1801ab64"
    );
}

#[test]
fn bytes_and_digest_are_deterministic() {
    let t = Transaction {
        inputs: vec![Output {
            to_addr: b"x".to_vec(),
            value: 4,
        }],
        outputs: vec![Output {
            to_addr: b"y".to_vec(),
            value: 5,
        }],
    };
    let b = Block::new(2, 11, vec![3u8; 32], vec![t], 10);
    assert_eq!(b.bytes(), b.bytes());
    assert_eq!(b.hash(), b.hash());
}
