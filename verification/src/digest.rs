//! Digests and the hash function that produces them.

use vstd::prelude::*;

verus! {

/// The SHA-256 digest of a list of byte strings fed to the hasher one after another.
pub uninterp spec fn hashv_digest(parts: Seq<Seq<u8>>) -> Seq<u8>;

/// The number of levels between a leaf and the root: one for each bit of a digest.
pub const TREE_DEPTH: usize = 256;

/// The all-zero digest, which stands for "absent" and for "empty".
pub open spec fn zero_digest() -> Seq<u8> {
    Seq::new(32, |i: int| 0u8)
}

/// The digest of one byte string.
pub open spec fn digest_of(data: Seq<u8>) -> Seq<u8> {
    hashv_digest(seq![data])
}

/// The parent digest of two children: the digest of the left child's bytes followed
/// by the right child's. The order of the children matters.
pub open spec fn combine(left: Seq<u8>, right: Seq<u8>) -> Seq<u8> {
    digest_of(left + right)
}

/// The digest stored under `key`, or the zero digest where there is none.
pub open spec fn stored_or_zero<K>(stored: Map<K, Seq<u8>>, key: K) -> Seq<u8> {
    if stored.contains_key(key) {
        stored[key]
    } else {
        zero_digest()
    }
}

/// The byte strings that a list of slices holds.
pub open spec fn slices_view(parts: Seq<&[u8]>) -> Seq<Seq<u8>> {
    Seq::new(parts.len(), |i: int| parts[i]@)
}

/// The 32-byte output of the hash function.
#[derive(Clone, Copy, Debug, Eq, Hash)]
pub struct Digest {
    pub bytes: [u8; 32],
}

impl View for Digest {
    type V = Seq<u8>;

    open spec fn view(&self) -> Seq<u8> {
        self.bytes@
    }
}

/// Whether two arrays of 32 bytes hold the same bytes.
pub fn same_bytes(a: &[u8; 32], b: &[u8; 32]) -> (same: bool)
    ensures
        same == (a@ == b@),
{
    let mut i: usize = 0;
    while i < 32
        invariant
            i <= 32,
            forall|j: int| 0 <= j < i ==> a@[j] == b@[j],
        decreases 32 - i,
    {
        if a[i] != b[i] {
            return false;
        }
        i += 1;
    }
    assert(a@ =~= b@);
    true
}

impl PartialEq for Digest {
    fn eq(&self, other: &Digest) -> (r: bool) {
        same_bytes(&self.bytes, &other.bytes)
    }
}

impl vstd::std_specs::cmp::PartialEqSpecImpl for Digest {
    open spec fn obeys_eq_spec() -> bool {
        true
    }

    open spec fn eq_spec(&self, other: &Digest) -> bool {
        self@ == other@
    }
}

impl Default for Digest {
    fn default() -> (d: Digest)
        ensures
            d@ == zero_digest(),
    {
        let d = Digest { bytes: [0u8; 32] };
        assert(d@ =~= zero_digest());
        d
    }
}

impl Digest {
    pub fn new_from_array(bytes: [u8; 32]) -> (d: Digest)
        ensures
            d@ == bytes@,
    {
        Digest { bytes }
    }

    pub fn to_bytes(self) -> (bytes: [u8; 32])
        ensures
            bytes@ == self@,
    {
        self.bytes
    }

    /// Whether this is the all-zero digest.
    pub fn is_zero(&self) -> (r: bool)
        ensures
            r == (self@ == zero_digest()),
    {
        let mut i: usize = 0;
        while i < 32
            invariant
                i <= 32,
                forall|j: int| 0 <= j < i ==> self.bytes@[j] == 0u8,
            decreases 32 - i,
        {
            if self.bytes[i] != 0 {
                assert(zero_digest()[i as int] == 0u8);
                return false;
            }
            i += 1;
        }
        assert(self@ =~= zero_digest());
        true
    }

    /// Whether the first byte is even: it decides on which side a node is combined.
    pub fn first_byte_is_even(&self) -> (r: bool)
        ensures
            r == (self@[0] % 2 == 0),
    {
        let b: u8 = self.bytes[0];
        assert((b & 1 == 0) == (b % 2 == 0)) by (bit_vector);
        b & 1 == 0
    }
}

/// Calls `solana_sha256_hasher::hashv`, which feeds each slice in turn to one SHA-256
/// hasher and returns the 32 bytes it ends with. The result is a function of the
/// slices' contents alone, to which the first clause gives the name `hashv_digest`.
/// The hasher takes its input as one stream, so the slices joined into a single one
/// hash to the same digest: that is the second clause.
#[verifier::external_body]
fn hashv(parts: &[&[u8]]) -> (digest: Digest)
    ensures
        digest@ == hashv_digest(slices_view(parts@)),
        digest@ == digest_of(slices_view(parts@).flatten()),
{
    Digest { bytes: solana_sha256_hasher::hashv(parts).to_bytes() }
}

/// Hashes one byte string.
pub fn hash_bytes(data: &[u8]) -> (digest: Digest)
    ensures
        digest@ == digest_of(data@),
{
    let parts: [&[u8]; 1] = [data];
    assert(slices_view(parts@) =~= seq![data@]);
    hashv(parts.as_slice())
}

/// Hashes two digests, left then right, into their parent.
pub fn hash_nodes(left: &Digest, right: &Digest) -> (parent: Digest)
    ensures
        parent@ == combine(left@, right@),
{
    let parts: [&[u8]; 2] = [left.bytes.as_slice(), right.bytes.as_slice()];
    proof {
        reveal_with_fuel(Seq::<Seq<u8>>::flatten, 3);
        assert(slices_view(parts@) =~= seq![left@, right@]);
        assert(seq![left@, right@].flatten() =~= left@ + right@);
    }
    hashv(parts.as_slice())
}

} // verus!
