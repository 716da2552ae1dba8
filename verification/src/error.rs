//! Error kinds of the collection and of the ownership ledger it reports to.

use vstd::prelude::*;

verus! {

/// What the ownership ledger answers when it refuses a registration.
#[derive(Clone, Copy, Debug, PartialEq, Eq, Structural)]
pub enum LedgerError {
    /// The identifier is already bound to an owner.
    DuplicateIdentifier,
    /// The owner reference is malformed.
    InvalidOwner,
}

/// Every way an operation of the collection can fail.
#[derive(Clone, Copy, Debug, PartialEq, Eq, Structural)]
pub enum NftError {
    /// The attached payment is below the mint price.
    InsufficientPayment,
    /// The ledger already holds the identifier.
    DuplicateIdentifier,
    /// The ledger rejected the owner reference.
    InvalidOwner,
    /// Stored bytes, or the bytes of an identifier, are not valid UTF-8.
    DecodingError,
    /// The identifier counter has no value left to hand out.
    Overflow,
}

impl NftError {
    /// The error of the collection that stands for a refusal of the ledger.
    pub open spec fn of_ledger(e: LedgerError) -> NftError {
        match e {
            LedgerError::DuplicateIdentifier => NftError::DuplicateIdentifier,
            LedgerError::InvalidOwner => NftError::InvalidOwner,
        }
    }

    /// Carries a refusal of the ledger over, kind for kind.
    pub fn from_ledger(e: LedgerError) -> (r: NftError)
        ensures
            r == NftError::of_ledger(e),
    {
        match e {
            LedgerError::DuplicateIdentifier => NftError::DuplicateIdentifier,
            LedgerError::InvalidOwner => NftError::InvalidOwner,
        }
    }

    /// A short description for people.
    pub fn message(&self) -> (r: &'static str)
        ensures
            r@ == NftError::message_of(*self),
    {
        match self {
            NftError::InsufficientPayment => "Insufficient mint price.",
            NftError::DuplicateIdentifier => "Token identifier is already registered.",
            NftError::InvalidOwner => "Owner reference is invalid.",
            NftError::DecodingError => "Stored bytes are not valid UTF-8.",
            NftError::Overflow => "Token identifier counter is exhausted.",
        }
    }

    /// The text that [`NftError::message`] returns for each kind.
    pub open spec fn message_of(e: NftError) -> Seq<char> {
        match e {
            NftError::InsufficientPayment => "Insufficient mint price."@,
            NftError::DuplicateIdentifier => "Token identifier is already registered."@,
            NftError::InvalidOwner => "Owner reference is invalid."@,
            NftError::DecodingError => "Stored bytes are not valid UTF-8."@,
            NftError::Overflow => "Token identifier counter is exhausted."@,
        }
    }
}

} // verus!
