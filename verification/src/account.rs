//! Account identities.

use crate::wire::{copy_bytes, same_bytes};
use candid::Principal;
use vstd::prelude::*;

verus! {

/// The longest identity, in bytes.
pub const MAX_ACCOUNT_BYTES: usize = 29;

/// The identity of an account: an opaque byte string of at most
/// [`MAX_ACCOUNT_BYTES`] bytes.
#[derive(Debug)]
pub struct AccountId {
    bytes: Vec<u8>,
}

/// The textual form of the identity with the given bytes.
pub uninterp spec fn account_text(bytes: Seq<u8>) -> Seq<char>;

/// Renders an identity with `Principal::from_slice` and `Principal::to_text`.
///
/// The text is a checksum and the bytes in base 32, which depends on the
/// bytes alone; the contract gives it the name [`account_text`] and claims
/// nothing more. `from_slice` panics on more than 29 bytes.
#[verifier::external_body]
fn principal_text(bytes: &Vec<u8>) -> (text: String)
    requires
        bytes@.len() <= MAX_ACCOUNT_BYTES,
    ensures
        text@ == account_text(bytes@),
{
    Principal::from_slice(bytes).to_text()
}

impl View for AccountId {
    type V = Seq<u8>;

    closed spec fn view(&self) -> Seq<u8> {
        self.bytes@
    }
}

impl AccountId {
    #[verifier::type_invariant]
    spec fn well_formed(self) -> bool {
        self.bytes@.len() <= MAX_ACCOUNT_BYTES
    }

    /// The identity with the given bytes, if they are few enough.
    pub fn new(bytes: Vec<u8>) -> (id: Option<AccountId>)
        ensures
            id is Some <==> bytes@.len() <= MAX_ACCOUNT_BYTES,
            id is Some ==> id->0@ == bytes@,
    {
        if bytes.len() <= MAX_ACCOUNT_BYTES {
            Some(AccountId { bytes })
        } else {
            None
        }
    }

    /// The bytes of the identity.
    pub fn as_bytes(&self) -> (bytes: &Vec<u8>)
        ensures
            bytes@ == self@,
            bytes@.len() <= MAX_ACCOUNT_BYTES,
    {
        proof {
            use_type_invariant(self);
        }
        &self.bytes
    }

    /// Whether `self` and `other` are the same identity.
    pub fn same_as(&self, other: &AccountId) -> (same: bool)
        ensures
            same == (self@ == other@),
    {
        same_bytes(&self.bytes, &other.bytes)
    }

    /// The textual form of the identity.
    pub fn to_text(&self) -> (text: String)
        ensures
            text@ == account_text(self@),
    {
        proof {
            use_type_invariant(self);
        }
        principal_text(&self.bytes)
    }
}

impl Clone for AccountId {
    fn clone(&self) -> (copy: AccountId)
        ensures
            copy@ == self@,
    {
        proof {
            use_type_invariant(self);
        }
        AccountId { bytes: copy_bytes(&self.bytes) }
    }
}

/// The account a query is about: the one named, or else the caller's.
pub open spec fn query_target(caller: Seq<u8>, principal: Option<AccountId>) -> Seq<u8> {
    match principal {
        Some(account) => account@,
        None => caller,
    }
}

} // verus!
