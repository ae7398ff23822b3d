use sparse_merkle::digest::{hash_bytes, hash_nodes, same_bytes, Digest, TREE_DEPTH};

fn from_hex(text: &str) -> [u8; 32] {
    let digits: Vec<u8> = text
        .bytes()
        .map(|c| match c {
            b'0'..=b'9' => c - b'0',
            b'a'..=b'f' => c - b'a' + 10,
            _ => panic!("not a hex digit"),
        })
        .collect();
    assert_eq!(digits.len(), 64);
    let mut bytes = [0u8; 32];
    for i in 0..32 {
        bytes[i] = digits[2 * i] * 16 + digits[2 * i + 1];
    }
    bytes
}

#[test]
fn depth_is_one_level_per_bit() {
    assert_eq!(TREE_DEPTH, 256);
}

#[test]
fn default_digest_is_all_zero() {
    assert_eq!(Digest::default().to_bytes(), [0u8; 32]);
    assert!(Digest::default().is_zero());
}

#[test]
fn digest_round_trips_through_its_bytes() {
    let mut bytes = [0u8; 32];
    for i in 0..32 {
        bytes[i] = i as u8 * 7 + 1;
    }
    assert_eq!(Digest::new_from_array(bytes).to_bytes(), bytes);
}

#[test]
fn is_zero_sees_every_byte() {
    for i in 0..32 {
        let mut bytes = [0u8; 32];
        bytes[i] = 1;
        assert!(!Digest::new_from_array(bytes).is_zero());
    }
}

#[test]
fn digests_compare_by_every_byte() {
    let base = Digest::new_from_array([9u8; 32]);
    assert_eq!(base, Digest::new_from_array([9u8; 32]));
    for i in 0..32 {
        let mut bytes = [9u8; 32];
        bytes[i] = 10;
        assert_ne!(base, Digest::new_from_array(bytes));
        assert!(!same_bytes(&[9u8; 32], &bytes));
    }
    assert!(same_bytes(&[9u8; 32], &[9u8; 32]));
}

#[test]
fn first_byte_parity() {
    let mut bytes = [1u8; 32];
    bytes[0] = 0;
    assert!(Digest::new_from_array(bytes).first_byte_is_even());
    bytes[0] = 254;
    assert!(Digest::new_from_array(bytes).first_byte_is_even());
    bytes[0] = 1;
    assert!(!Digest::new_from_array(bytes).first_byte_is_even());
    bytes[0] = 255;
    assert!(!Digest::new_from_array(bytes).first_byte_is_even());
    let mut even_elsewhere = [2u8; 32];
    even_elsewhere[0] = 3;
    assert!(!Digest::new_from_array(even_elsewhere).first_byte_is_even());
}

#[test]
fn hash_bytes_is_sha256() {
    assert_eq!(
        hash_bytes(b"").to_bytes(),
        from_hex("e3b0c44298fc1c149afbf4c8996fb92427ae41e4649b934ca495991b7852b855")
    );
    assert_eq!(
        hash_bytes(b"abc").to_bytes(),
        from_hex("ba7816bf8f01cfea414140de5dae2223b00361a396177a9cb410ff61f20015ad")
    );
    assert_eq!(
        hash_bytes(&[0u8; 32]).to_bytes(),
        from_hex("66687aadf862bd776c8fc18b8e9f8e20089714856ee233b3902a591d0d5f2925")
    );
}

#[test]
fn hash_nodes_hashes_left_then_right() {
    let zero = Digest::default();
    assert_eq!(
        hash_nodes(&zero, &zero).to_bytes(),
        from_hex("f5a5fd42d16a20302798ef6ed309979b43003d2320d9f0e8ea9831a92759fb4b")
    );

    let left = Digest::new_from_array([1u8; 32]);
    let right = Digest::new_from_array([2u8; 32]);
    let mut joined = Vec::new();
    joined.extend_from_slice(&[1u8; 32]);
    joined.extend_from_slice(&[2u8; 32]);
    assert_eq!(hash_nodes(&left, &right), hash_bytes(&joined));
    assert_eq!(
        hash_nodes(&left, &right).to_bytes(),
        solana_sha256_hasher::hashv(&[&[1u8; 32], &[2u8; 32]]).to_bytes()
    );
}

#[test]
fn hash_nodes_is_not_commutative() {
    let left = Digest::new_from_array([1u8; 32]);
    let right = Digest::new_from_array([2u8; 32]);
    assert_ne!(hash_nodes(&left, &right), hash_nodes(&right, &left));
}

#[test]
fn hashing_is_deterministic() {
    let left = Digest::new_from_array([5u8; 32]);
    let right = Digest::new_from_array([6u8; 32]);
    assert_eq!(hash_nodes(&left, &right), hash_nodes(&left, &right));
    assert_eq!(hash_bytes(b"same"), hash_bytes(b"same"));
    assert_ne!(hash_bytes(b"same"), hash_bytes(b"other"));
}
