//! A map from digests to digests.
//!
//! A digest is looked up by its two 128-bit halves: a pair of integers has an order
//! that the ordered map of the standard library is specified for.

use crate::digest::Digest;
use std::collections::BTreeMap;
use vstd::bytes::{
    lemma_auto_spec_u128_to_from_le_bytes, spec_u128_from_le_bytes, spec_u128_to_le_bytes,
    u128_from_le_bytes,
};
use vstd::prelude::*;
use vstd::slice::slice_subrange;

verus! {

/// The two little-endian words that a 32-byte key is stored under.
pub open spec fn key_words(key: Seq<u8>) -> (u128, u128) {
    (
        spec_u128_from_le_bytes(key.subrange(0, 16)),
        spec_u128_from_le_bytes(key.subrange(16, 32)),
    )
}

/// Two 32-byte keys with the same words are the same key.
pub proof fn lemma_key_words_injective(a: Seq<u8>, b: Seq<u8>)
    requires
        a.len() == 32,
        b.len() == 32,
        key_words(a) == key_words(b),
    ensures
        a == b,
{
    lemma_auto_spec_u128_to_from_le_bytes();
    let (a_low, a_high) = (a.subrange(0, 16), a.subrange(16, 32));
    let (b_low, b_high) = (b.subrange(0, 16), b.subrange(16, 32));
    assert(a_low == spec_u128_to_le_bytes(spec_u128_from_le_bytes(a_low)));
    assert(b_low == spec_u128_to_le_bytes(spec_u128_from_le_bytes(b_low)));
    assert(a_high == spec_u128_to_le_bytes(spec_u128_from_le_bytes(a_high)));
    assert(b_high == spec_u128_to_le_bytes(spec_u128_from_le_bytes(b_high)));
    assert(a =~= a_low + a_high);
    assert(b =~= b_low + b_high);
}

/// A map from digests to digests, each stored under its key.
#[derive(Clone, Debug)]
pub struct DigestMap {
    entries: BTreeMap<(u128, u128), Digest>,
}

impl View for DigestMap {
    type V = Map<Seq<u8>, Seq<u8>>;

    closed spec fn view(&self) -> Map<Seq<u8>, Seq<u8>> {
        Map::new(
            |key: Seq<u8>| key.len() == 32 && self.entries@.contains_key(key_words(key)),
            |key: Seq<u8>| self.entries@[key_words(key)]@,
        )
    }
}

fn words_of(key: &Digest) -> (words: (u128, u128))
    ensures
        words == key_words(key@),
{
    let bytes = key.bytes.as_slice();
    let low = u128_from_le_bytes(slice_subrange(bytes, 0, 16));
    let high = u128_from_le_bytes(slice_subrange(bytes, 16, 32));
    (low, high)
}

impl DigestMap {
    pub fn new() -> (map: DigestMap)
        ensures
            map@ == Map::<Seq<u8>, Seq<u8>>::empty(),
    {
        let map = DigestMap { entries: BTreeMap::new() };
        assert(map@ =~= Map::<Seq<u8>, Seq<u8>>::empty());
        map
    }

    /// The digest stored under `key`, if there is one.
    pub fn get(&self, key: &Digest) -> (found: Option<Digest>)
        ensures
            match found {
                Some(value) => self@.contains_key(key@) && self@[key@] == value@,
                None => !self@.contains_key(key@),
            },
    {
        let words = words_of(key);
        match self.entries.get(&words) {
            Some(value) => Some(*value),
            None => None,
        }
    }

    /// Stores `value` under `key`, in place of what was there.
    pub fn insert(&mut self, key: Digest, value: Digest)
        ensures
            final(self)@ == old(self)@.insert(key@, value@),
    {
        let words = words_of(&key);
        self.entries.insert(words, value);
        proof {
            assert forall|other: Seq<u8>| other.len() == 32 && other != key@ implies key_words(
                other,
            ) != words by {
                if key_words(other) == words {
                    lemma_key_words_injective(other, key@);
                }
            }
            assert(self@ =~= old(self)@.insert(key@, value@));
        }
    }
}

} // verus!
