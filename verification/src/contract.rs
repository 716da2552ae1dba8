//! The collection: its metadata, its identifier counter and the mint gate.

use ink_env::AccountId;
use ink_prelude::string::String;
use ink_prelude::vec::Vec;
use vstd::prelude::*;
use vstd::string::StrSliceExecFns;
use vstd::utf8::{
    encode_utf8, encode_utf8_decode_utf8, encode_utf8_valid_utf8, is_ascii_chars,
    is_ascii_chars_encode_utf8,
};

use crate::attributes::{lookup, optional_bytes, stored, AttributeName, AttributeStore};
use crate::error::{LedgerError, NftError};
use crate::id::{id_text, Id, IdView};
use crate::text::{decimal, decimal_string, decode_text, text_view};
use crate::uri::{join_locator, joined, locator};

verus! {

/// The price of a token that is minted for sale: one unit of the chain's
/// currency, in its smallest denomination.
pub const MINT_PRICE: u128 = 1_000_000_000_000_000_000;

/// The key of the collection's name: the bytes of the text `name`.
pub open spec fn name_key() -> Seq<u8> {
    encode_utf8("name"@)
}

/// The key of the collection's symbol: the bytes of the text `symbol`.
pub open spec fn symbol_key() -> Seq<u8> {
    encode_utf8("symbol"@)
}

/// The key of the collection's base URI: the bytes of the text `base_uri`.
pub open spec fn base_uri_key() -> Seq<u8> {
    encode_utf8("base_uri"@)
}

/// The three keys byte by byte, in ASCII. They differ from one another.
pub proof fn lemma_key_bytes()
    ensures
        name_key() == seq![110u8, 97u8, 109u8, 101u8],
        symbol_key() == seq![115u8, 121u8, 109u8, 98u8, 111u8, 108u8],
        base_uri_key() == seq![98u8, 97u8, 115u8, 101u8, 95u8, 117u8, 114u8, 105u8],
        name_key() != symbol_key(),
        name_key() != base_uri_key(),
        symbol_key() != base_uri_key(),
{
    reveal_strlit("name");
    reveal_strlit("symbol");
    reveal_strlit("base_uri");
    assert(is_ascii_chars("name"@));
    assert(is_ascii_chars("symbol"@));
    assert(is_ascii_chars("base_uri"@));
    is_ascii_chars_encode_utf8("name"@);
    is_ascii_chars_encode_utf8("symbol"@);
    is_ascii_chars_encode_utf8("base_uri"@);
    assert(name_key() =~= seq![110u8, 97u8, 109u8, 101u8]);
    assert(symbol_key() =~= seq![115u8, 121u8, 109u8, 98u8, 111u8, 108u8]);
    assert(base_uri_key() =~= seq![98u8, 97u8, 115u8, 101u8, 95u8, 117u8, 114u8, 105u8]);
    assert(name_key().len() != symbol_key().len());
    assert(name_key().len() != base_uri_key().len());
    assert(symbol_key().len() != base_uri_key().len());
}

/// The bytes of the key under which the collection's name is stored.
pub fn name_key_bytes() -> (k: Vec<u8>)
    ensures
        k@ == name_key(),
{
    "name".as_bytes_vec()
}

/// The bytes of the key under which the collection's symbol is stored.
pub fn symbol_key_bytes() -> (k: Vec<u8>)
    ensures
        k@ == symbol_key(),
{
    "symbol".as_bytes_vec()
}

/// The bytes of the key under which the collection's base URI is stored.
pub fn base_uri_key_bytes() -> (k: Vec<u8>)
    ensures
        k@ == base_uri_key(),
{
    "base_uri".as_bytes_vec()
}

/// What the ownership ledger is to record: `id` as owned by `owner`.
#[derive(Debug)]
pub struct Registration {
    pub owner: AccountId,
    pub id: Id,
}

/// The state of a collection.
pub struct Contract {
    attributes: AttributeStore,
    initial_id: Id,
    next_token_id: u32,
}

/// The mathematical value of a [`Contract`].
pub ghost struct ContractView {
    /// The attribute store's contents.
    pub attributes: Map<AttributeName, Seq<u8>>,
    /// The identifier under which the collection's own metadata is stored.
    pub collection_id: IdView,
    /// The identifier that the next open mint hands out.
    pub next_token_id: u32,
}

impl View for Contract {
    type V = ContractView;

    closed spec fn view(&self) -> ContractView {
        ContractView {
            attributes: self.attributes@,
            collection_id: self.initial_id@,
            next_token_id: self.next_token_id,
        }
    }
}

/// The attributes of a collection that was just constructed.
pub open spec fn initial_attributes(
    id: u32,
    name: Seq<char>,
    symbol: Seq<char>,
    base_uri: Seq<char>,
) -> Map<AttributeName, Seq<u8>> {
    let scope = IdView::U32(id);
    stored(
        stored(
            stored(Map::empty(), scope, name_key(), encode_utf8(name)),
            scope,
            symbol_key(),
            encode_utf8(symbol),
        ),
        scope,
        base_uri_key(),
        encode_utf8(base_uri),
    )
}

/// What an allocation does at a given counter: it hands out the counter's
/// value as a 32-bit identifier and leaves the counter one higher, or fails
/// where the counter has reached its last value.
pub open spec fn allocation(counter: u32) -> Result<(IdView, u32), NftError> {
    if counter == u32::MAX {
        Err(NftError::Overflow)
    } else {
        Ok((IdView::U32(counter), (counter + 1) as u32))
    }
}

/// What a mint with a given identifier does to the state `before`, and what
/// it returns: the counter advances and `id` is to be registered for `owner`,
/// or the counter is exhausted and nothing changes.
pub open spec fn minted(before: ContractView, owner: AccountId, id: IdView) -> (
    ContractView,
    Result<(AccountId, IdView), NftError>,
) {
    match allocation(before.next_token_id) {
        Ok((_, next)) => (ContractView { next_token_id: next, ..before }, Ok((owner, id))),
        Err(e) => (before, Err(e)),
    }
}

/// What an open mint does to the state `before`: a mint of the identifier
/// that the counter stands at.
pub open spec fn open_minted(before: ContractView, owner: AccountId) -> (
    ContractView,
    Result<(AccountId, IdView), NftError>,
) {
    minted(before, owner, IdView::U32(before.next_token_id))
}

/// The identifiers that `n` open mints in a row hand out, the first of them
/// in the state `before`; it ends early where a mint fails.
pub open spec fn open_mint_ids(before: ContractView, owner: AccountId, n: nat) -> Seq<IdView>
    decreases n,
{
    if n == 0 {
        Seq::empty()
    } else {
        match open_minted(before, owner) {
            (after, Ok((_, id))) => seq![id] + open_mint_ids(after, owner, (n - 1) as nat),
            (_, Err(_)) => Seq::empty(),
        }
    }
}

/// What a mint for sale does: below the price nothing changes and the
/// payment is refused; from the price on it is a mint of `id` for `owner`.
pub open spec fn minted_for_sale(
    before: ContractView,
    owner: AccountId,
    id: IdView,
    paid_amount: u128,
) -> (ContractView, Result<(AccountId, IdView), NftError>) {
    if paid_amount < MINT_PRICE {
        (before, Err(NftError::InsufficientPayment))
    } else {
        minted(before, owner, id)
    }
}

/// The owner and identifier of a registration, the error kept as it is.
pub open spec fn registration_view(r: Result<Registration, NftError>) -> Result<
    (AccountId, IdView),
    NftError,
> {
    match r {
        Ok(reg) => Ok((reg.owner, reg.id@)),
        Err(e) => Err(e),
    }
}

impl Contract {
    /// A collection whose metadata is stored under the 32-bit identifier
    /// `id`: its name, symbol and base URI, each as the UTF-8 bytes of the
    /// given text. No token is minted yet, and the counter stands at zero.
    pub fn new(id: u32, name: String, symbol: String, base_uri: String) -> (c: Contract)
        ensures
            c@ == (ContractView {
                attributes: initial_attributes(id, name@, symbol@, base_uri@),
                collection_id: IdView::U32(id),
                next_token_id: 0,
            }),
    {
        let mut attributes = AttributeStore::new();
        attributes.set_attribute(Id::U32(id), name_key_bytes(), name.as_str().as_bytes_vec());
        attributes.set_attribute(Id::U32(id), symbol_key_bytes(), symbol.as_str().as_bytes_vec());
        attributes.set_attribute(
            Id::U32(id),
            base_uri_key_bytes(),
            base_uri.as_str().as_bytes_vec(),
        );
        Contract { attributes, initial_id: Id::U32(id), next_token_id: 0 }
    }

    /// A collection in a given state: the attributes stored so far, the
    /// identifier that scopes the collection's metadata, and the counter.
    pub fn from_parts(attributes: AttributeStore, initial_id: Id, next_token_id: u32) -> (c:
        Contract)
        ensures
            c@ == (ContractView {
                attributes: attributes@,
                collection_id: initial_id@,
                next_token_id,
            }),
    {
        Contract { attributes, initial_id, next_token_id }
    }

    /// The identifier under which the collection's metadata is stored.
    pub fn collection_id(&self) -> (id: Id)
        ensures
            id@ == self@.collection_id,
    {
        self.initial_id.clone()
    }

    /// The identifier that the next open mint hands out.
    pub fn next_token_id(&self) -> (n: u32)
        ensures
            n == self@.next_token_id,
    {
        self.next_token_id
    }

    /// The value stored under `(id, key)`, or nothing where none is.
    pub fn get_attribute(&self, id: Id, key: Vec<u8>) -> (r: Option<Vec<u8>>)
        ensures
            optional_bytes(r) == lookup(self@.attributes, id@, key@),
    {
        self.attributes.get_attribute(&id, &key)
    }

    /// Stores `value` under `(id, key)`, in place of what was stored there.
    /// Nothing else changes.
    pub fn set_attribute(&mut self, id: Id, key: Vec<u8>, value: Vec<u8>)
        ensures
            final(self)@ == (ContractView {
                attributes: stored(old(self)@.attributes, id@, key@, value@),
                ..old(self)@
            }),
    {
        self.attributes.set_attribute(id, key, value);
    }

    /// Hands out the next identifier and advances the counter by one. At the
    /// counter's last value it fails and changes nothing.
    pub fn allocate_next(&mut self) -> (r: Result<Id, NftError>)
        ensures
            match allocation(old(self)@.next_token_id) {
                Ok((id, next)) => r is Ok && r->Ok_0@ == id && final(self)@ == (ContractView {
                    next_token_id: next,
                    ..old(self)@
                }),
                Err(e) => r == Err::<Id, NftError>(e) && final(self)@ == old(self)@,
            },
    {
        if self.next_token_id == u32::MAX {
            return Err(NftError::Overflow);
        }
        let id = Id::U32(self.next_token_id);
        self.next_token_id = self.next_token_id + 1;
        Ok(id)
    }

    /// Open mint: the next identifier is allocated for `caller`. The counter
    /// advances before the ledger is asked, so it stays advanced whatever the
    /// ledger answers.
    pub fn mint_token(&mut self, caller: AccountId) -> (r: Result<Registration, NftError>)
        ensures
            (final(self)@, registration_view(r)) == open_minted(old(self)@, caller),
    {
        match self.allocate_next() {
            Ok(id) => Ok(Registration { owner: caller, id }),
            Err(e) => Err(e),
        }
    }

    /// Mint of an identifier that the caller chose. Whether it is still free
    /// is for the ledger to say; the counter advances all the same.
    pub fn mint(&mut self, caller: AccountId, id: u32) -> (r: Result<Registration, NftError>)
        ensures
            (final(self)@, registration_view(r)) == minted(old(self)@, caller, IdView::U32(id)),
    {
        match self.allocate_next() {
            Ok(_) => Ok(Registration { owner: caller, id: Id::U32(id) }),
            Err(e) => Err(e),
        }
    }

    /// Mint of a chosen identifier for `account`, against a payment of at
    /// least [`MINT_PRICE`]. The payment is tested before anything changes.
    pub fn mint_for_sale(&mut self, account: AccountId, id: u32, paid_amount: u128) -> (r: Result<
        Registration,
        NftError,
    >)
        ensures
            (final(self)@, registration_view(r)) == minted_for_sale(
                old(self)@,
                account,
                IdView::U32(id),
                paid_amount,
            ),
    {
        if paid_amount < MINT_PRICE {
            return Err(NftError::InsufficientPayment);
        }
        self.mint(account, id)
    }

    /// The result of a mint once the ledger has answered: success where it
    /// registered the token, else its refusal, kind for kind.
    pub fn complete_mint(outcome: Result<(), LedgerError>) -> (r: Result<(), NftError>)
        ensures
            r == match outcome {
                Ok(_) => Ok::<(), NftError>(()),
                Err(e) => Err::<(), NftError>(NftError::of_ledger(e)),
            },
    {
        match outcome {
            Ok(_) => Ok(()),
            Err(e) => Err(NftError::from_ledger(e)),
        }
    }

    /// The metadata locator of the token `id`: the collection's base URI, the
    /// identifier's text and `.json`; the empty string where the collection
    /// has no base URI.
    pub fn token_uri(&self, id: Id) -> (r: Result<String, NftError>)
        ensures
            text_view(r) == locator(
                lookup(self@.attributes, self@.collection_id, base_uri_key()),
                id@,
            ),
    {
        let key = base_uri_key_bytes();
        let base_uri = match self.attributes.get_attribute(&self.initial_id, &key) {
            Some(value) => value,
            None => {
                let empty = String::new();
                assert(empty@ =~= Seq::<char>::empty());
                return Ok(empty);
            },
        };
        let id_str = match self._get_id_string(id) {
            Ok(s) => s,
            Err(e) => {
                return Err(e);
            },
        };
        join_locator(base_uri, id_str.as_str())
    }

    /// The canonical text of an identifier.
    pub fn get_id_string(&self, id: Id) -> (r: Result<String, NftError>)
        ensures
            text_view(r) == id_text(id@),
    {
        self._get_id_string(id)
    }

    fn _get_id_string(&self, id: Id) -> (r: Result<String, NftError>)
        ensures
            text_view(r) == id_text(id@),
    {
        match id {
            Id::U8(id) => {
                let tmp: u8 = id;
                Ok(decimal_string(tmp as u128))
            },
            Id::U16(id) => {
                let tmp: u16 = id;
                Ok(decimal_string(tmp as u128))
            },
            Id::U32(id) => {
                let tmp: u32 = id;
                Ok(decimal_string(tmp as u128))
            },
            Id::U64(id) => {
                let tmp: u64 = id;
                Ok(decimal_string(tmp as u128))
            },
            Id::U128(id) => {
                let tmp: u128 = id;
                Ok(decimal_string(tmp))
            },
            Id::Bytes(value) => decode_text(value),
        }
    }
}

/// Open mints in a row hand out consecutive identifiers: with the counter at
/// `c` before the first, the one at place `i` is the 32-bit identifier
/// `c + i`. From a new collection, whose counter is zero, they are 0, 1, 2
/// and so on.
pub proof fn lemma_open_mints_in_order(before: ContractView, owner: AccountId, n: nat)
    requires
        before.next_token_id + n <= u32::MAX,
    ensures
        open_mint_ids(before, owner, n).len() == n,
        forall|i: int|
            0 <= i < n ==> open_mint_ids(before, owner, n)[i] == IdView::U32(
                (before.next_token_id + i) as u32,
            ),
    decreases n,
{
    if n > 0 {
        let after = open_minted(before, owner).0;
        let rest = open_mint_ids(after, owner, (n - 1) as nat);
        lemma_open_mints_in_order(after, owner, (n - 1) as nat);
        assert(open_mint_ids(before, owner, n) == seq![IdView::U32(before.next_token_id)] + rest);
        assert forall|i: int| 0 <= i < n implies open_mint_ids(before, owner, n)[i] == IdView::U32(
            (before.next_token_id + i) as u32,
        ) by {
            if i > 0 {
                assert(open_mint_ids(before, owner, n)[i] == rest[i - 1]);
            }
        }
    }
}

/// No identifier is handed out twice by open mints in a row.
pub proof fn lemma_open_mints_distinct(
    before: ContractView,
    owner: AccountId,
    n: nat,
    i: int,
    j: int,
)
    requires
        before.next_token_id + n <= u32::MAX,
        0 <= i < j < n,
    ensures
        open_mint_ids(before, owner, n)[i] != open_mint_ids(before, owner, n)[j],
{
    lemma_open_mints_in_order(before, owner, n);
}

/// In a new collection the three pieces of metadata are found under the
/// collection's identifier, each as the UTF-8 bytes of the text given.
pub proof fn lemma_new_collection_metadata(
    id: u32,
    name: Seq<char>,
    symbol: Seq<char>,
    base_uri: Seq<char>,
)
    ensures
        lookup(initial_attributes(id, name, symbol, base_uri), IdView::U32(id), name_key()) == Some(
            encode_utf8(name),
        ),
        lookup(initial_attributes(id, name, symbol, base_uri), IdView::U32(id), symbol_key())
            == Some(encode_utf8(symbol)),
        lookup(initial_attributes(id, name, symbol, base_uri), IdView::U32(id), base_uri_key())
            == Some(encode_utf8(base_uri)),
{
    lemma_key_bytes();
}

/// In a new collection the locator of a token with a 32-bit identifier is the
/// base URI as given, the identifier's numeral and `.json`.
pub proof fn lemma_new_collection_locator(
    id: u32,
    name: Seq<char>,
    symbol: Seq<char>,
    base_uri: Seq<char>,
    token: u32,
)
    ensures
        locator(
            lookup(initial_attributes(id, name, symbol, base_uri), IdView::U32(id), base_uri_key()),
            IdView::U32(token),
        ) == Ok::<Seq<char>, NftError>(joined(base_uri, decimal(token as nat))),
{
    broadcast use {encode_utf8_valid_utf8, encode_utf8_decode_utf8};

    lemma_new_collection_metadata(id, name, symbol, base_uri);
    assert(vstd::utf8::valid_utf8(encode_utf8(base_uri)));
    assert(vstd::utf8::decode_utf8(encode_utf8(base_uri)) == base_uri);
}

/// A collection without a base URI has the empty locator for every token.
pub proof fn lemma_locator_without_base_uri(id: IdView)
    ensures
        locator(None, id) == Ok::<Seq<char>, NftError>(Seq::empty()),
{
}

/// A payment below the price changes nothing and is refused; a payment of
/// the price or more is a mint of the chosen identifier for the buyer.
pub proof fn lemma_payment_gate(before: ContractView, owner: AccountId, id: IdView, paid_amount: u128)
    ensures
        paid_amount < MINT_PRICE ==> minted_for_sale(before, owner, id, paid_amount) == (
            before,
            Err::<(AccountId, IdView), NftError>(NftError::InsufficientPayment),
        ),
        paid_amount >= MINT_PRICE && before.next_token_id < u32::MAX ==> minted_for_sale(
            before,
            owner,
            id,
            paid_amount,
        ).1 == Ok::<(AccountId, IdView), NftError>((owner, id)),
{
}

/// A mint leaves the attribute store and the collection's identifier as they
/// were, whatever identifier is minted and whatever the ledger answers later.
pub proof fn lemma_mint_keeps_attributes(before: ContractView, owner: AccountId, id: IdView)
    ensures
        minted(before, owner, id).0.attributes == before.attributes,
        minted(before, owner, id).0.collection_id == before.collection_id,
        before.next_token_id < u32::MAX ==> minted(before, owner, id).0.next_token_id
            == before.next_token_id + 1,
{
}

} // verus!
