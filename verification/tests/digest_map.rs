use sparse_merkle::digest::Digest;
use sparse_merkle::digest_map::DigestMap;

fn digest_with(position: usize, byte: u8) -> Digest {
    let mut bytes = [0u8; 32];
    bytes[position] = byte;
    Digest::new_from_array(bytes)
}

#[test]
fn new_map_holds_nothing() {
    let map = DigestMap::new();
    assert_eq!(map.get(&Digest::default()), None);
    assert_eq!(map.get(&digest_with(0, 1)), None);
}

#[test]
fn map_returns_what_was_stored() {
    let mut map = DigestMap::new();
    let key = digest_with(3, 7);
    let value = digest_with(30, 9);
    map.insert(key, value);
    assert_eq!(map.get(&key), Some(value));
    assert_eq!(map.get(&value), None);
}

#[test]
fn map_overwrites_under_the_same_key() {
    let mut map = DigestMap::new();
    let key = digest_with(0, 1);
    map.insert(key, digest_with(1, 1));
    map.insert(key, digest_with(2, 2));
    assert_eq!(map.get(&key), Some(digest_with(2, 2)));
}

#[test]
fn map_tells_keys_apart_by_every_byte() {
    let mut map = DigestMap::new();
    for position in 0..32 {
        map.insert(digest_with(position, 1), digest_with(position, 200));
    }
    map.insert(Digest::default(), digest_with(0, 99));
    for position in 0..32 {
        assert_eq!(map.get(&digest_with(position, 1)), Some(digest_with(position, 200)));
        assert_eq!(map.get(&digest_with(position, 2)), None);
    }
    assert_eq!(map.get(&Digest::default()), Some(digest_with(0, 99)));
}

#[test]
fn map_can_store_the_zero_digest() {
    let mut map = DigestMap::new();
    let key = digest_with(31, 255);
    map.insert(key, Digest::default());
    assert_eq!(map.get(&key), Some(Digest::default()));
}
