//! The content-addressed tree: a leaf is found by the digest of an account's key.

use crate::digest::{
    combine, digest_of, hash_bytes, hash_nodes, stored_or_zero, zero_digest, Digest, TREE_DEPTH,
};
use crate::digest_map::DigestMap;
use crate::record::{Account, AccountView, EncodeError, Pubkey};
use vstd::prelude::*;

verus! {

/// The parent of `value` and its sibling. The first byte of the path key decides the
/// side: `value` is the left child under an even byte, the right child under an odd one.
pub open spec fn parent_digest(key: Seq<u8>, value: Seq<u8>, sibling: Seq<u8>) -> Seq<u8> {
    if key[0] % 2 == 0 {
        combine(value, sibling)
    } else {
        combine(sibling, value)
    }
}

/// The path key one level up.
pub open spec fn next_key(key: Seq<u8>) -> Seq<u8> {
    combine(key, zero_digest())
}

/// The path key `level` levels above `key`.
pub open spec fn path_key(key: Seq<u8>, level: nat) -> Seq<u8>
    decreases level,
{
    if level == 0 {
        key
    } else {
        next_key(path_key(key, (level - 1) as nat))
    }
}

/// A walk towards the root: the node map so far, and the key and value about to be
/// written.
pub struct PathState {
    pub nodes: Map<Seq<u8>, Seq<u8>>,
    pub key: Seq<u8>,
    pub value: Seq<u8>,
}

impl PathState {
    /// One level up: the value is written under the current key, and is combined with
    /// what was stored there before into the value of the next level.
    pub open spec fn step(self) -> PathState {
        PathState {
            nodes: self.nodes.insert(self.key, self.value),
            key: next_key(self.key),
            value: parent_digest(self.key, self.value, stored_or_zero(self.nodes, self.key)),
        }
    }

    /// `levels` levels up.
    pub open spec fn walk(self, levels: nat) -> PathState
        decreases levels,
    {
        if levels == 0 {
            self
        } else {
            self.walk((levels - 1) as nat).step()
        }
    }
}

/// The sibling digests along the path of `key`, from the leaf upwards.
pub open spec fn proof_of(nodes: Map<Seq<u8>, Seq<u8>>, key: Seq<u8>) -> Seq<Seq<u8>> {
    Seq::new(TREE_DEPTH as nat, |level: int| stored_or_zero(nodes, path_key(key, level as nat)))
}

/// The byte strings of a list of digests.
pub open spec fn digests_view(digests: Seq<Digest>) -> Seq<Seq<u8>> {
    Seq::new(digests.len(), |i: int| digests[i]@)
}

/// The tree as plain values.
pub struct TreeView {
    pub nodes: Map<Seq<u8>, Seq<u8>>,
    pub leaves: Map<Seq<u8>, Seq<u8>>,
    pub root: Seq<u8>,
}

impl TreeView {
    /// The tree that holds nothing.
    pub open spec fn empty() -> TreeView {
        TreeView { nodes: Map::empty(), leaves: Map::empty(), root: zero_digest() }
    }

    /// Whether the leaf under `key` is there and is the zero digest.
    pub open spec fn holds_zero_leaf(self, key: Seq<u8>) -> bool {
        self.leaves.contains_key(key) && self.leaves[key] == zero_digest()
    }

    /// The tree after the path from `(key, value)` to the root was rewritten.
    pub open spec fn update_path(self, key: Seq<u8>, value: Seq<u8>) -> TreeView {
        let top = PathState { nodes: self.nodes, key, value }.walk(TREE_DEPTH as nat);
        TreeView { nodes: top.nodes, leaves: self.leaves, root: top.value }
    }

    /// The tree after the leaf digest `value` was inserted under `key`. A zero leaf
    /// over a zero leaf changes nothing, a zero leaf is stored without touching nodes
    /// or root, and any other leaf is stored and its path rewritten.
    pub open spec fn insert_leaf(self, key: Seq<u8>, value: Seq<u8>) -> TreeView {
        if value == zero_digest() {
            if self.holds_zero_leaf(key) {
                self
            } else {
                TreeView { leaves: self.leaves.insert(key, value), ..self }
            }
        } else {
            TreeView { leaves: self.leaves.insert(key, value), ..self }.update_path(key, value)
        }
    }

    /// The tree after the account of `pubkey` was inserted: its leaf digest goes under
    /// the digest of the key. An account without a leaf digest changes nothing.
    pub open spec fn insert_record(self, pubkey: Seq<u8>, account: AccountView) -> TreeView {
        match account.leaf_digest() {
            Some(value) => self.insert_leaf(digest_of(pubkey), value),
            None => self,
        }
    }

    /// The tree after each of `records` was inserted in turn.
    pub open spec fn insert_records(self, records: Seq<(Seq<u8>, AccountView)>) -> TreeView
        decreases records.len(),
    {
        if records.len() == 0 {
            self
        } else {
            self.insert_records(records.drop_last()).insert_record(
                records.last().0,
                records.last().1,
            )
        }
    }
}

/// The walk of the path update passes the path keys that a proof is read from: after
/// any number of levels it stands at the path key of that level.
pub proof fn lemma_walk_follows_path_keys(start: PathState, levels: nat)
    ensures
        start.walk(levels).key == path_key(start.key, levels),
    decreases levels,
{
    if levels > 0 {
        lemma_walk_follows_path_keys(start, (levels - 1) as nat);
    }
}

/// Whether `key` is the path key of one of the first `levels` levels above `leaf_key`.
pub open spec fn is_path_key(key: Seq<u8>, leaf_key: Seq<u8>, levels: nat) -> bool {
    exists|level: nat| level < levels && key == #[trigger] path_key(leaf_key, level)
}

/// A walk writes under the path keys of the levels it has passed and under no other
/// key: the node map holds what it held before, and those keys.
pub proof fn lemma_walk_writes_path_keys(start: PathState, levels: nat)
    ensures
        forall|key: Seq<u8>| #[trigger]
            start.walk(levels).nodes.contains_key(key) <==> start.nodes.contains_key(key)
                || is_path_key(key, start.key, levels),
    decreases levels,
{
    if levels > 0 {
        let below = (levels - 1) as nat;
        lemma_walk_writes_path_keys(start, below);
        lemma_walk_follows_path_keys(start, below);
        assert forall|key: Seq<u8>| #[trigger]
            start.walk(levels).nodes.contains_key(key) <==> start.nodes.contains_key(key)
                || is_path_key(key, start.key, levels) by {
            assert(start.walk(below).nodes.contains_key(key) <==> start.nodes.contains_key(key)
                || is_path_key(key, start.key, below));
            if key == path_key(start.key, below) {
                assert(below < levels && key == path_key(start.key, below));
            }
        }
    }
}

/// No insert drops an entry of the node map or of the leaf map, and an insert adds
/// nodes under the path keys of its leaf only: no more than one for each level.
pub proof fn lemma_insert_keeps_entries(tree: TreeView, key: Seq<u8>, value: Seq<u8>)
    ensures
        tree.nodes.dom().subset_of(tree.insert_leaf(key, value).nodes.dom()),
        tree.leaves.dom().subset_of(tree.insert_leaf(key, value).leaves.dom()),
        forall|added: Seq<u8>| #[trigger]
            tree.insert_leaf(key, value).nodes.contains_key(added) ==> tree.nodes.contains_key(
                added,
            ) || is_path_key(added, key, TREE_DEPTH as nat),
{
    let start = PathState { nodes: tree.nodes, key, value };
    let after = tree.insert_leaf(key, value);
    lemma_walk_writes_path_keys(start, TREE_DEPTH as nat);
    assert forall|kept: Seq<u8>| tree.nodes.contains_key(kept) implies after.nodes.contains_key(
        kept,
    ) by {
        if value != zero_digest() {
            assert(start.walk(TREE_DEPTH as nat).nodes.contains_key(kept));
        }
    }
}

/// After an insert the leaf map holds the inserted digest under its key.
pub proof fn lemma_inserted_leaf_is_stored(tree: TreeView, key: Seq<u8>, value: Seq<u8>)
    ensures
        tree.insert_leaf(key, value).leaves.contains_key(key),
        tree.insert_leaf(key, value).leaves[key] == value,
{
}

/// A zero leaf never perturbs the root or the nodes, whatever the tree holds.
pub proof fn lemma_zero_leaf_keeps_root(tree: TreeView, key: Seq<u8>)
    ensures
        tree.insert_leaf(key, zero_digest()).root == tree.root,
        tree.insert_leaf(key, zero_digest()).nodes == tree.nodes,
{
}

/// An empty account inserted for a key that already holds the zero leaf leaves the
/// root, the leaves and the nodes as they were.
pub proof fn lemma_empty_over_empty_changes_nothing(
    tree: TreeView,
    pubkey: Seq<u8>,
    account: AccountView,
)
    requires
        account.is_empty(),
        tree.holds_zero_leaf(digest_of(pubkey)),
    ensures
        tree.insert_record(pubkey, account) == tree,
{
}

/// An account that is not empty, whose leaf digest is not zero, gives the tree the
/// root that stands at the top of its path. So the root changes with the insert
/// whenever that top is not the root the tree had before. It can be: a record that
/// is inserted over and over settles every level of its path, one more each time.
pub proof fn lemma_insert_changes_root(tree: TreeView, pubkey: Seq<u8>, account: AccountView)
    requires
        !account.is_empty(),
        account.leaf_digest() matches Some(value) && value != zero_digest() && tree.update_path(
            digest_of(pubkey),
            value,
        ).root != tree.root,
    ensures
        tree.insert_record(pubkey, account).root != tree.root,
{
}

/// Two trees built from nothing by the same inserts in the same order have the same
/// root, and the same leaves and nodes as well.
pub proof fn lemma_same_inserts_same_root(
    first: TreeView,
    second: TreeView,
    records: Seq<(Seq<u8>, AccountView)>,
)
    requires
        first == TreeView::empty().insert_records(records),
        second == TreeView::empty().insert_records(records),
    ensures
        first.root == second.root,
        first == second,
{
}

/// Sparse Merkle tree of fixed depth over a 256-bit address space.
#[derive(Clone, Debug)]
pub struct SparseMerkleTree {
    /// The digest last written under each path key.
    pub nodes: DigestMap,
    /// The leaf digest of each account, under the digest of its key.
    pub leaves: DigestMap,
    /// The root of the tree.
    pub root: Digest,
}

impl View for SparseMerkleTree {
    type V = TreeView;

    open spec fn view(&self) -> TreeView {
        TreeView { nodes: self.nodes@, leaves: self.leaves@, root: self.root@ }
    }
}

impl SparseMerkleTree {
    pub fn new() -> (tree: SparseMerkleTree)
        ensures
            tree@ == TreeView::empty(),
    {
        SparseMerkleTree {
            nodes: DigestMap::new(),
            leaves: DigestMap::new(),
            root: Digest::default(),
        }
    }

    /// The digest of an account's canonical bytes: the leaf digest of an account that
    /// is not empty.
    pub fn hash_account(account: &Account) -> (outcome: Result<Digest, EncodeError>)
        ensures
            match outcome {
                Ok(digest) => account@.encoding() matches Some(bytes) && digest@ == digest_of(
                    bytes,
                ),
                Err(_) => account@.encoding() is None,
            },
    {
        match account.encode() {
            Ok(bytes) => Ok(hash_bytes(bytes.as_slice())),
            Err(error) => Err(error),
        }
    }

    /// The key under which an account is stored: the digest of its public key.
    pub fn hash_key(pubkey: &Pubkey) -> (key: Digest)
        ensures
            key@ == digest_of(pubkey@),
    {
        hash_bytes(pubkey.bytes.as_slice())
    }

    /// Inserts or updates the account of `pubkey`. An account that cannot be encoded is
    /// refused and leaves the tree as it was.
    pub fn insert(&mut self, pubkey: Pubkey, account: &Account) -> (outcome: Result<
        (),
        EncodeError,
    >)
        ensures
            outcome is Ok <==> account@.leaf_digest() is Some,
            final(self)@ == old(self)@.insert_record(pubkey@, account@),
            account@.is_empty() ==> outcome is Ok,
            account@.is_empty() && old(self)@.holds_zero_leaf(digest_of(pubkey@)) ==> final(self)@
                == old(self)@,
    {
        let leaf_key = Self::hash_key(&pubkey);
        let leaf_hash = if account.is_empty() {
            Digest::default()
        } else {
            match Self::hash_account(account) {
                Ok(digest) => digest,
                Err(error) => {
                    return Err(error);
                },
            }
        };
        self.insert_leaf(leaf_key, leaf_hash);
        Ok(())
    }

    /// Inserts the leaf digest `value` under the key digest `key`.
    pub fn insert_leaf(&mut self, key: Digest, value: Digest)
        ensures
            final(self)@ == old(self)@.insert_leaf(key@, value@),
    {
        let empty = value.is_zero();
        if empty {
            if let Some(existing) = self.leaves.get(&key) {
                if existing.is_zero() {
                    return ;
                }
            }
        }
        self.leaves.insert(key, value);
        if !empty {
            self.update_path(key, value);
        }
    }

    /// Rewrites the path from a leaf to the root.
    fn update_path(&mut self, key: Digest, value: Digest)
        ensures
            final(self)@ == old(self)@.update_path(key@, value@),
    {
        let ghost start = PathState { nodes: self.nodes@, key: key@, value: value@ };
        let mut key = key;
        let mut value = value;
        let mut level: usize = 0;
        while level < TREE_DEPTH
            invariant
                level <= TREE_DEPTH,
                self.leaves == old(self).leaves,
                start.walk(level as nat) == (PathState {
                    nodes: self.nodes@,
                    key: key@,
                    value: value@,
                }),
            decreases TREE_DEPTH - level,
        {
            let sibling = match self.nodes.get(&key) {
                Some(stored) => stored,
                None => Digest::default(),
            };
            let parent = if key.first_byte_is_even() {
                hash_nodes(&value, &sibling)
            } else {
                hash_nodes(&sibling, &value)
            };
            self.nodes.insert(key, value);
            value = parent;
            key = hash_nodes(&key, &Digest::default());
            level += 1;
        }
        self.root = value;
    }

    /// The root of the tree.
    pub fn get_root(&self) -> (root: Digest)
        ensures
            root@ == self@.root,
    {
        self.root
    }

    /// The proof for the account of `pubkey`: the stored sibling of each level of its
    /// path, the zero digest where none is stored. There is a proof for every key,
    /// inserted or not.
    pub fn generate_proof(&self, pubkey: &Pubkey) -> (proof: Option<Vec<Digest>>)
        ensures
            proof matches Some(siblings) && siblings@.len() == TREE_DEPTH && digests_view(siblings@)
                == proof_of(self@.nodes, digest_of(pubkey@)),
    {
        let key = Self::hash_key(pubkey);
        Some(self.proof_for_key(key))
    }

    /// The proof for the leaf under the key digest `key`.
    pub fn proof_for_key(&self, key: Digest) -> (siblings: Vec<Digest>)
        ensures
            siblings@.len() == TREE_DEPTH,
            digests_view(siblings@) == proof_of(self@.nodes, key@),
    {
        let ghost leaf_key = key@;
        let mut key = key;
        let mut siblings: Vec<Digest> = Vec::new();
        let mut level: usize = 0;
        while level < TREE_DEPTH
            invariant
                level <= TREE_DEPTH,
                siblings@.len() == level,
                key@ == path_key(leaf_key, level as nat),
                forall|i: int|
                    0 <= i < level ==> (#[trigger] siblings@[i])@ == stored_or_zero(
                        self@.nodes,
                        path_key(leaf_key, i as nat),
                    ),
            decreases TREE_DEPTH - level,
        {
            let sibling = match self.nodes.get(&key) {
                Some(stored) => stored,
                None => Digest::default(),
            };
            siblings.push(sibling);
            key = hash_nodes(&key, &Digest::default());
            level += 1;
        }
        assert(digests_view(siblings@) =~= proof_of(self@.nodes, leaf_key));
        siblings
    }
}

} // verus!
