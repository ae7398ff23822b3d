//! The position-addressed tree: a leaf is found by the order in which it was inserted.

use crate::digest::{
    combine, digest_of, hash_bytes, stored_or_zero, zero_digest, Digest, TREE_DEPTH,
};
use crate::record::{EncodeError, Pubkey};
use std::collections::HashMap;
use vstd::prelude::*;

verus! {

/// The bytes that `bincode` encodes the triple of a transfer to, or `None` where it
/// refuses the triple.
pub uninterp spec fn bincode_transfer(sender: Seq<u8>, receiver: Seq<u8>, amount: u64) -> Option<
    Seq<u8>,
>;

/// A transfer of an amount from one account to another.
#[derive(Clone, Debug)]
pub struct TransactionData {
    pub sender: Pubkey,
    pub receiver: Pubkey,
    pub amount: u64,
}

/// A transfer as plain values.
pub struct TransactionView {
    pub sender: Seq<u8>,
    pub receiver: Seq<u8>,
    pub amount: u64,
}

impl TransactionView {
    /// The canonical bytes of the transfer, where it has any.
    pub open spec fn encoding(self) -> Option<Seq<u8>> {
        bincode_transfer(self.sender, self.receiver, self.amount)
    }
}

impl View for TransactionData {
    type V = TransactionView;

    open spec fn view(&self) -> TransactionView {
        TransactionView { sender: self.sender@, receiver: self.receiver@, amount: self.amount }
    }
}

/// Calls `bincode::serialize` on the triple of the sender and the receiver, each as a
/// `solana_sdk` public key, and the amount: `bincode` writes a triple as it writes a
/// struct of the same three fields. The outcome is a function of the three values
/// alone; the contract gives it the name `bincode_transfer`, and promises no success.
#[verifier::external_body]
fn serialize_transfer(transfer: &TransactionData) -> (outcome: Result<
    Vec<u8>,
    Box<bincode::ErrorKind>,
>)
    ensures
        bincode_transfer(transfer.sender@, transfer.receiver@, transfer.amount) == match outcome {
            Ok(bytes) => Some(bytes@),
            Err(_) => None,
        },
{
    bincode::serialize(
        &(
            solana_sdk::pubkey::Pubkey::new_from_array(transfer.sender.bytes),
            solana_sdk::pubkey::Pubkey::new_from_array(transfer.receiver.bytes),
            transfer.amount,
        ),
    )
}

impl TransactionData {
    /// The canonical bytes of the transfer.
    pub fn encode(&self) -> (outcome: Result<Vec<u8>, EncodeError>)
        ensures
            match outcome {
                Ok(bytes) => self@.encoding() == Some(bytes@),
                Err(_) => self@.encoding() is None,
            },
    {
        match serialize_transfer(self) {
            Ok(bytes) => Ok(bytes),
            Err(_) => Err(EncodeError),
        }
    }
}

/// A climb towards slot 0: the slots so far, the slot about to be written and the
/// digest combined so far.
pub struct ClimbState {
    pub tree: Map<u64, Seq<u8>>,
    pub index: u64,
    pub current: Seq<u8>,
}

impl ClimbState {
    /// One level up. The running digest is combined with what the sibling slot holds,
    /// on the left under an even index and on the right under an odd one; the slot
    /// itself receives `leaf`, and the index is halved.
    pub open spec fn step(self, leaf: Seq<u8>) -> ClimbState {
        let sibling = stored_or_zero(self.tree, self.index ^ 1);
        ClimbState {
            tree: self.tree.insert(self.index, leaf),
            index: self.index / 2,
            current: if self.index % 2 == 0 {
                combine(self.current, sibling)
            } else {
                combine(sibling, self.current)
            },
        }
    }

    /// `levels` levels up.
    pub open spec fn walk(self, leaf: Seq<u8>, levels: nat) -> ClimbState
        decreases levels,
    {
        if levels == 0 {
            self
        } else {
            self.walk(leaf, (levels - 1) as nat).step(leaf)
        }
    }
}

/// The tree as plain values.
pub struct LogView {
    pub tree: Map<u64, Seq<u8>>,
    pub root: Seq<u8>,
    pub next_index: nat,
}

impl LogView {
    /// The tree that holds nothing.
    pub open spec fn empty() -> LogView {
        LogView { tree: Map::empty(), root: zero_digest(), next_index: 0 }
    }

    /// The tree after `leaf` was appended: it takes the next index, and the climb from
    /// there gives the new slots and the new root.
    pub open spec fn append(self, leaf: Seq<u8>) -> LogView {
        let top = ClimbState { tree: self.tree, index: self.next_index as u64, current: leaf }.walk(
            leaf,
            TREE_DEPTH as nat,
        );
        LogView { tree: top.tree, root: top.current, next_index: self.next_index + 1 }
    }

    /// The tree after `transfer` was appended: its leaf is the digest of its canonical
    /// bytes. A transfer without canonical bytes changes nothing.
    pub open spec fn insert_transfer(self, transfer: TransactionView) -> LogView {
        match transfer.encoding() {
            Some(bytes) => self.append(digest_of(bytes)),
            None => self,
        }
    }

    /// The tree after each of `transfers` was appended in turn.
    pub open spec fn insert_transfers(self, transfers: Seq<TransactionView>) -> LogView
        decreases transfers.len(),
    {
        if transfers.len() == 0 {
            self
        } else {
            self.insert_transfers(transfers.drop_last()).insert_transfer(transfers.last())
        }
    }

    /// Whether `candidate` is the root of the tree.
    pub open spec fn verifies(self, candidate: Seq<u8>) -> bool {
        candidate == self.root
    }
}

/// After any number of transfers was inserted into the empty tree, each of them with
/// canonical bytes, the next index is that number, and the tree verifies its own root.
pub proof fn lemma_next_index_counts_inserts(transfers: Seq<TransactionView>)
    requires
        forall|i: int| 0 <= i < transfers.len() ==> (#[trigger] transfers[i]).encoding() is Some,
    ensures
        LogView::empty().insert_transfers(transfers).next_index == transfers.len(),
        LogView::empty().insert_transfers(transfers).verifies(
            LogView::empty().insert_transfers(transfers).root,
        ),
    decreases transfers.len(),
{
    if transfers.len() > 0 {
        lemma_next_index_counts_inserts(transfers.drop_last());
    }
}

/// Two trees built from nothing by the same inserts in the same order have the same
/// root, and the same slots and next index as well.
pub proof fn lemma_same_inserts_same_root(
    first: LogView,
    second: LogView,
    transfers: Seq<TransactionView>,
)
    requires
        first == LogView::empty().insert_transfers(transfers),
        second == LogView::empty().insert_transfers(transfers),
    ensures
        first.root == second.root,
        first == second,
{
}

/// Sparse Merkle tree over the transfers of a log, in the order of their arrival.
#[derive(Clone, Debug)]
pub struct SparseMerkleTree {
    tree: HashMap<u64, Digest>,
    root: Digest,
    next_index: u64,
}

impl View for SparseMerkleTree {
    type V = LogView;

    closed spec fn view(&self) -> LogView {
        LogView {
            tree: self.tree@.map_values(|digest: Digest| digest@),
            root: self.root@,
            next_index: self.next_index as nat,
        }
    }
}

impl SparseMerkleTree {
    pub fn new() -> (tree: SparseMerkleTree)
        ensures
            tree@ == LogView::empty(),
    {
        let tree = SparseMerkleTree {
            tree: HashMap::new(),
            root: Digest::default(),
            next_index: 0,
        };
        assert(tree@.tree =~= Map::<u64, Seq<u8>>::empty());
        tree
    }

    /// Hashes two digests, left then right, into their parent.
    pub fn hash_nodes(left: &Digest, right: &Digest) -> (parent: Digest)
        ensures
            parent@ == combine(left@, right@),
    {
        crate::digest::hash_nodes(left, right)
    }

    /// The index that the next transfer will take.
    pub fn next_index(&self) -> (index: u64)
        ensures
            index == self@.next_index,
    {
        self.next_index
    }

    /// Appends a transfer to the tree. A transfer that cannot be encoded is refused
    /// and leaves the tree as it was.
    pub fn insert(&mut self, transaction_data: &TransactionData) -> (outcome: Result<
        (),
        EncodeError,
    >)
        requires
            old(self)@.next_index < u64::MAX,
        ensures
            outcome is Ok <==> transaction_data@.encoding() is Some,
            final(self)@ == old(self)@.insert_transfer(transaction_data@),
            outcome is Ok ==> final(self)@.next_index == old(self)@.next_index + 1,
    {
        let transaction_bytes = match transaction_data.encode() {
            Ok(bytes) => bytes,
            Err(error) => {
                return Err(error);
            },
        };
        let transaction_hash = hash_bytes(transaction_bytes.as_slice());
        self.insert_leaf(transaction_hash);
        Ok(())
    }

    /// Appends the leaf digest `leaf` to the tree.
    pub fn insert_leaf(&mut self, leaf: Digest)
        requires
            old(self)@.next_index < u64::MAX,
        ensures
            final(self)@ == old(self)@.append(leaf@),
            final(self)@.next_index == old(self)@.next_index + 1,
    {
        let ghost start = ClimbState { tree: self@.tree, index: self.next_index, current: leaf@ };
        let mut current_hash = leaf;
        let mut index = self.next_index;
        self.next_index += 1;
        let mut level: usize = 0;
        while level < TREE_DEPTH
            invariant
                level <= TREE_DEPTH,
                self.next_index == old(self).next_index + 1,
                start.walk(leaf@, level as nat) == (ClimbState {
                    tree: self@.tree,
                    index,
                    current: current_hash@,
                }),
            decreases TREE_DEPTH - level,
        {
            let sibling_index = index ^ 1;
            let sibling_hash = match self.tree.get(&sibling_index) {
                Some(stored) => *stored,
                None => Digest::default(),
            };
            if index % 2 == 0 {
                current_hash = Self::hash_nodes(&current_hash, &sibling_hash);
            } else {
                current_hash = Self::hash_nodes(&sibling_hash, &current_hash);
            }
            let ghost before = self@.tree;
            self.tree.insert(index, leaf);
            assert(self@.tree =~= before.insert(index, leaf@));
            index /= 2;
            level += 1;
        }
        self.root = current_hash;
    }

    /// Whether `root` is the root of the tree.
    pub fn verify_root(&self, root: &Digest) -> (matches: bool)
        ensures
            matches == self@.verifies(root@),
    {
        &self.root == root
    }

    /// The root of the tree.
    pub fn get_root(&self) -> (root: Digest)
        ensures
            root@ == self@.root,
    {
        self.root
    }
}

} // verus!
