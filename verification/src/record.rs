//! Accounts and their keys, and the canonical byte encoding of an account.

use crate::digest::{digest_of, same_bytes, zero_digest};
use vstd::prelude::*;

verus! {

/// What `bincode` reports when it cannot encode a value.
#[verifier::external_type_specification]
#[verifier::external_body]
pub struct ExBincodeErrorKind(bincode::ErrorKind);

/// The bytes that `bincode` encodes an account to, or `None` where it refuses the account.
pub uninterp spec fn bincode_account(
    lamports: u64,
    data: Seq<u8>,
    owner: Seq<u8>,
    executable: bool,
    rent_epoch: u64,
) -> Option<Seq<u8>>;

/// A record could not be brought into its canonical byte encoding.
#[derive(Clone, Copy, Debug, PartialEq, Eq, Structural)]
pub struct EncodeError;

/// A 32-byte public key, which identifies an account.
#[derive(Clone, Copy, Debug, Eq, Hash)]
pub struct Pubkey {
    pub bytes: [u8; 32],
}

impl View for Pubkey {
    type V = Seq<u8>;

    open spec fn view(&self) -> Seq<u8> {
        self.bytes@
    }
}

impl PartialEq for Pubkey {
    fn eq(&self, other: &Pubkey) -> (r: bool) {
        same_bytes(&self.bytes, &other.bytes)
    }
}

impl vstd::std_specs::cmp::PartialEqSpecImpl for Pubkey {
    open spec fn obeys_eq_spec() -> bool {
        true
    }

    open spec fn eq_spec(&self, other: &Pubkey) -> bool {
        self@ == other@
    }
}

impl Pubkey {
    pub fn new_from_array(bytes: [u8; 32]) -> (key: Pubkey)
        ensures
            key@ == bytes@,
    {
        Pubkey { bytes }
    }

    pub fn to_bytes(self) -> (bytes: [u8; 32])
        ensures
            bytes@ == self@,
    {
        self.bytes
    }
}

/// An account as it is stored on chain.
#[derive(Clone, Debug)]
pub struct Account {
    /// The balance.
    pub lamports: u64,
    /// The payload.
    pub data: Vec<u8>,
    /// The program that owns the account.
    pub owner: Pubkey,
    /// Whether the payload is a loaded program.
    pub executable: bool,
    /// The epoch at which the account next owes rent.
    pub rent_epoch: u64,
}

/// An account as plain values.
pub struct AccountView {
    pub lamports: u64,
    pub data: Seq<u8>,
    pub owner: Seq<u8>,
    pub executable: bool,
    pub rent_epoch: u64,
}

impl AccountView {
    /// An account is empty when it holds neither balance nor payload.
    pub open spec fn is_empty(self) -> bool {
        self.lamports == 0 && self.data.len() == 0
    }

    /// The canonical bytes of the account, where it has any.
    pub open spec fn encoding(self) -> Option<Seq<u8>> {
        bincode_account(self.lamports, self.data, self.owner, self.executable, self.rent_epoch)
    }

    /// The leaf digest of the account: zero for an empty account, else the digest of
    /// its canonical bytes; `None` where it is neither empty nor encodable.
    pub open spec fn leaf_digest(self) -> Option<Seq<u8>> {
        if self.is_empty() {
            Some(zero_digest())
        } else {
            match self.encoding() {
                Some(bytes) => Some(digest_of(bytes)),
                None => None,
            }
        }
    }
}

impl View for Account {
    type V = AccountView;

    open spec fn view(&self) -> AccountView {
        AccountView {
            lamports: self.lamports,
            data: self.data@,
            owner: self.owner@,
            executable: self.executable,
            rent_epoch: self.rent_epoch,
        }
    }
}

/// Calls `bincode::serialize` on the `solana_sdk` account with the same five fields.
/// The outcome is a function of the fields alone; the contract gives it the name
/// `bincode_account`, and promises no success.
#[verifier::external_body]
fn serialize_account(account: &Account) -> (outcome: Result<Vec<u8>, Box<bincode::ErrorKind>>)
    ensures
        bincode_account(
            account.lamports,
            account.data@,
            account.owner@,
            account.executable,
            account.rent_epoch,
        ) == match outcome {
            Ok(bytes) => Some(bytes@),
            Err(_) => None,
        },
{
    bincode::serialize(
        &solana_sdk::account::Account {
            lamports: account.lamports,
            data: account.data.clone(),
            owner: solana_sdk::pubkey::Pubkey::new_from_array(account.owner.bytes),
            executable: account.executable,
            rent_epoch: account.rent_epoch,
        },
    )
}

impl Account {
    /// Whether the account holds neither balance nor payload.
    pub fn is_empty(&self) -> (r: bool)
        ensures
            r == self@.is_empty(),
    {
        self.lamports == 0 && self.data.len() == 0
    }

    /// The canonical bytes of the account.
    pub fn encode(&self) -> (outcome: Result<Vec<u8>, EncodeError>)
        ensures
            match outcome {
                Ok(bytes) => self@.encoding() == Some(bytes@),
                Err(_) => self@.encoding() is None,
            },
    {
        match serialize_account(self) {
            Ok(bytes) => Ok(bytes),
            Err(_) => Err(EncodeError),
        }
    }
}

} // verus!
