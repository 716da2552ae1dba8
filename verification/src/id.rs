//! Token identifiers and the accounts that own tokens.

use ink_prelude::vec::Vec;
use vstd::prelude::*;
use vstd::slice::slice_to_vec;

use crate::error::NftError;
use crate::text::{decimal, decoded};

verus! {

/// The chain's account type, `ink_env::AccountId`. Nothing here looks inside
/// an account: a mint hands on the one it was given.
#[verifier::external_type_specification]
#[verifier::external_body]
pub struct ExAccountId(ink_env::AccountId);

/// A token identifier: an unsigned integer of one of five widths, or bytes.
/// Identifiers of different kinds are different, whatever they hold.
#[derive(Debug, PartialEq, Eq)]
pub enum Id {
    U8(u8),
    U16(u16),
    U32(u32),
    U64(u64),
    U128(u128),
    Bytes(Vec<u8>),
}

/// The mathematical value of an [`Id`].
pub ghost enum IdView {
    U8(u8),
    U16(u16),
    U32(u32),
    U64(u64),
    U128(u128),
    Bytes(Seq<u8>),
}

impl View for Id {
    type V = IdView;

    open spec fn view(&self) -> IdView {
        match self {
            Id::U8(n) => IdView::U8(*n),
            Id::U16(n) => IdView::U16(*n),
            Id::U32(n) => IdView::U32(*n),
            Id::U64(n) => IdView::U64(*n),
            Id::U128(n) => IdView::U128(*n),
            Id::Bytes(b) => IdView::Bytes(b@),
        }
    }
}

/// Whether two byte strings hold the same bytes.
pub fn bytes_equal(a: &Vec<u8>, b: &Vec<u8>) -> (r: bool)
    ensures
        r == (a@ == b@),
{
    if a.len() != b.len() {
        return false;
    }
    let mut i: usize = 0;
    while i < a.len()
        invariant
            a.len() == b.len(),
            i <= a.len(),
            forall|j: int| 0 <= j < i ==> a@[j] == b@[j],
        decreases a.len() - i,
    {
        if a[i] != b[i] {
            return false;
        }
        i += 1;
    }
    assert(a@ =~= b@);
    true
}

/// A fresh byte string with the same bytes.
pub fn copy_bytes(a: &Vec<u8>) -> (r: Vec<u8>)
    ensures
        r@ == a@,
{
    slice_to_vec(a.as_slice())
}

/// The canonical text of an identifier: the base-10 numeral of a number, the
/// UTF-8 decoding of bytes.
pub open spec fn id_text(id: IdView) -> Result<Seq<char>, NftError> {
    match id {
        IdView::U8(n) => Ok(decimal(n as nat)),
        IdView::U16(n) => Ok(decimal(n as nat)),
        IdView::U32(n) => Ok(decimal(n as nat)),
        IdView::U64(n) => Ok(decimal(n as nat)),
        IdView::U128(n) => Ok(decimal(n as nat)),
        IdView::Bytes(b) => decoded(b),
    }
}

impl Id {
    /// Whether `self` and `other` are the same identifier: same kind, same
    /// content.
    pub fn same(&self, other: &Id) -> (r: bool)
        ensures
            r == (self@ == other@),
    {
        match (self, other) {
            (Id::U8(a), Id::U8(b)) => *a == *b,
            (Id::U16(a), Id::U16(b)) => *a == *b,
            (Id::U32(a), Id::U32(b)) => *a == *b,
            (Id::U64(a), Id::U64(b)) => *a == *b,
            (Id::U128(a), Id::U128(b)) => *a == *b,
            (Id::Bytes(a), Id::Bytes(b)) => bytes_equal(a, b),
            _ => false,
        }
    }
}

impl Clone for Id {
    /// A copy of the identifier: same kind, same content.
    fn clone(&self) -> (r: Id)
        ensures
            r@ == self@,
    {
        match self {
            Id::U8(n) => Id::U8(*n),
            Id::U16(n) => Id::U16(*n),
            Id::U32(n) => Id::U32(*n),
            Id::U64(n) => Id::U64(*n),
            Id::U128(n) => Id::U128(*n),
            Id::Bytes(b) => Id::Bytes(copy_bytes(b)),
        }
    }
}

} // verus!
