use blockchainlib::block::{check_difficulty, Block};
use blockchainlib::hashable::Hashable;
use blockchainlib::transaction::{Output, Transaction};

#[test]
fn new_block_starts_with_placeholder() {
    let b = Block::new(0, 0, vec![0u8; 32], Vec::new(), 1);
    assert_eq!(b.hash, vec![0u8; 32]);
    assert_eq!(b.nonce, 0);
}

#[test]
fn difficulty_check_is_a_strict_threshold() {
    let mut h: Vec<u8> = vec![0u8; 32];
    h[15] = 5;
    // The leading 16 bytes read as 5: true above, false at or below.
    assert!(check_difficulty(&h, 6));
    assert!(check_difficulty(&h, u128::MAX));
    assert!(!check_difficulty(&h, 5));
    assert!(!check_difficulty(&h, 4));
    assert!(!check_difficulty(&h, 0));
    let all_ones: Vec<u8> = vec![0xffu8; 32];
    assert!(!check_difficulty(&all_ones, u128::MAX));
    let zeros: Vec<u8> = vec![0u8; 32];
    assert!(check_difficulty(&zeros, 1));
    assert!(!check_difficulty(&zeros, 0));
}

#[test]
fn mining_genesis_block_meets_difficulty() {
    let difficulty: u128 = 0x00008fffffffffffffffffffffffffff;
    let mut b = Block::new(0, 0, vec![0u8; 32], Vec::new(), difficulty);
    let solved = b.mine();
    assert!(solved);
    // The committed digest's leading 16 bytes, as a big-endian integer,
    // fall strictly below the difficulty.
    let mut leading: u128 = 0;
    for i in 0..16usize {
        leading = (leading << 8) | b.hash[i] as u128;
    }
    assert!(leading < difficulty);
    assert!(check_difficulty(&b.hash, b.difficulty));
}

#[test]
fn mining_commits_the_digest_of_the_final_fields() {
    let difficulty: u128 = 0x0000ffffffffffffffffffffffffffff;
    let tx = Transaction {
        inputs: Vec::new(),
        outputs: vec![Output {
            to_addr: b"miner".to_vec(),
            value: 50,
        }],
    };
    let mut b = Block::new(1, 1700000000, vec![7u8; 32], vec![tx], difficulty);
    let solved = b.mine();
    assert!(solved);
    // The hash field takes no part in the encoding, so re-hashing the mined
    // block reproduces the committed digest.
    assert_eq!(b.hash(), b.hash);
    assert_eq!(b.hash.len(), 32);
}

#[test]
fn blocks_differing_only_in_nonce_hash_differently() {
    let a = Block::new(5, 42, vec![9u8; 32], Vec::new(), 123);
    let mut b = Block::new(5, 42, vec![9u8; 32], Vec::new(), 123);
    b.nonce = 1;
    assert_ne!(a.bytes(), b.bytes());
    assert_ne!(a.hash(), b.hash());
}
