use nft_psp34::attributes::AttributeStore;
use nft_psp34::contract::{
    base_uri_key_bytes, name_key_bytes, symbol_key_bytes, Contract, MINT_PRICE,
};
use nft_psp34::error::{LedgerError, NftError};
use ink_env::AccountId;
use nft_psp34::id::Id;

fn account(b: u8) -> AccountId {
    AccountId::from([b; 32])
}

fn sample() -> Contract {
    Contract::new(0, String::from("N"), String::from("S"), String::from("U/"))
}

#[test]
fn keys_are_ascii_names() {
    assert_eq!(name_key_bytes(), b"name".to_vec());
    assert_eq!(symbol_key_bytes(), b"symbol".to_vec());
    assert_eq!(base_uri_key_bytes(), b"base_uri".to_vec());
}

#[test]
fn mint_price_is_one_unit() {
    assert_eq!(MINT_PRICE, 1_000_000_000_000_000_000u128);
}

#[test]
fn construction_stores_metadata() {
    let nft = sample();
    assert_eq!(nft.get_attribute(Id::U32(0), b"base_uri".to_vec()), Some(b"U/".to_vec()));
    assert_eq!(nft.get_attribute(Id::U32(0), b"name".to_vec()), Some(b"N".to_vec()));
    assert_eq!(nft.get_attribute(Id::U32(0), b"symbol".to_vec()), Some(b"S".to_vec()));
    assert_eq!(nft.token_uri(Id::U32(5)), Ok(String::from("U/5.json")));
    assert_eq!(nft.collection_id(), Id::U32(0));
    assert_eq!(nft.next_token_id(), 0);
}

#[test]
fn construction_scopes_metadata_by_identifier() {
    let nft = Contract::new(7, String::from("KEY"), String::from("VAL"), String::from("VAL2"));
    assert_eq!(nft.get_attribute(Id::U32(7), b"name".to_vec()), Some(b"KEY".to_vec()));
    assert_eq!(nft.get_attribute(Id::U32(7), b"symbol".to_vec()), Some(b"VAL".to_vec()));
    assert_eq!(nft.get_attribute(Id::U32(7), b"base_uri".to_vec()), Some(b"VAL2".to_vec()));
    assert_eq!(nft.get_attribute(Id::U32(0), b"name".to_vec()), None);
    assert_eq!(nft.get_attribute(Id::U64(7), b"name".to_vec()), None);
    assert_eq!(nft.get_attribute(Id::U32(7), b"KEY".to_vec()), None);
}

#[test]
fn open_mints_allocate_in_order() {
    let mut nft = sample();
    let mut i: u32 = 0;
    while i < 50 {
        let reg = nft.mint_token(account(1)).unwrap();
        assert_eq!(reg.id, Id::U32(i));
        assert_eq!(reg.owner, account(1));
        i += 1;
        assert_eq!(nft.next_token_id(), i);
    }
}

#[test]
fn allocate_next_hands_out_the_counter() {
    let mut nft = sample();
    assert_eq!(nft.allocate_next(), Ok(Id::U32(0)));
    assert_eq!(nft.allocate_next(), Ok(Id::U32(1)));
    assert_eq!(nft.next_token_id(), 2);
}

#[test]
fn allocation_fails_at_the_last_counter_value() {
    let mut nft = Contract::from_parts(AttributeStore::new(), Id::U32(0), u32::MAX - 1);
    assert_eq!(nft.allocate_next(), Ok(Id::U32(u32::MAX - 1)));
    assert_eq!(nft.next_token_id(), u32::MAX);
    assert_eq!(nft.allocate_next(), Err(NftError::Overflow));
    assert_eq!(nft.next_token_id(), u32::MAX);
    assert_eq!(nft.mint_token(account(1)).unwrap_err(), NftError::Overflow);
    assert_eq!(nft.mint(account(1), 3).unwrap_err(), NftError::Overflow);
    assert_eq!(nft.mint_for_sale(account(1), 3, MINT_PRICE).unwrap_err(), NftError::Overflow);
    assert_eq!(nft.mint_for_sale(account(1), 3, 0).unwrap_err(), NftError::InsufficientPayment);
    assert_eq!(nft.next_token_id(), u32::MAX);
}

#[test]
fn set_then_get_returns_the_value() {
    let mut nft = sample();
    assert_eq!(nft.get_attribute(Id::U32(9), b"colour".to_vec()), None);
    nft.set_attribute(Id::U32(9), b"colour".to_vec(), b"red".to_vec());
    assert_eq!(nft.get_attribute(Id::U32(9), b"colour".to_vec()), Some(b"red".to_vec()));
    nft.set_attribute(Id::U32(9), b"colour".to_vec(), b"blue".to_vec());
    assert_eq!(nft.get_attribute(Id::U32(9), b"colour".to_vec()), Some(b"blue".to_vec()));
    assert_eq!(nft.get_attribute(Id::U32(9), b"colou".to_vec()), None);
    assert_eq!(nft.get_attribute(Id::U32(8), b"colour".to_vec()), None);
    assert_eq!(nft.get_attribute(Id::U16(9), b"colour".to_vec()), None);
    assert_eq!(nft.get_attribute(Id::U32(0), b"base_uri".to_vec()), Some(b"U/".to_vec()));
}

#[test]
fn store_keeps_names_apart() {
    let mut store = AttributeStore::new();
    assert_eq!(store.get_attribute(&Id::U8(1), &vec![]), None);
    store.set_attribute(Id::U8(1), vec![], vec![1]);
    store.set_attribute(Id::U16(1), vec![], vec![2]);
    store.set_attribute(Id::Bytes(vec![1]), vec![], vec![3]);
    store.set_attribute(Id::Bytes(vec![1]), vec![0], vec![4]);
    store.set_attribute(Id::U8(1), vec![], vec![5, 5]);
    assert_eq!(store.get_attribute(&Id::U8(1), &vec![]), Some(vec![5, 5]));
    assert_eq!(store.get_attribute(&Id::U16(1), &vec![]), Some(vec![2]));
    assert_eq!(store.get_attribute(&Id::Bytes(vec![1]), &vec![]), Some(vec![3]));
    assert_eq!(store.get_attribute(&Id::Bytes(vec![1]), &vec![0]), Some(vec![4]));
    assert_eq!(store.get_attribute(&Id::Bytes(vec![1, 0]), &vec![]), None);
    assert_eq!(store.get_attribute(&Id::U128(1), &vec![]), None);
}

#[test]
fn token_uri_is_empty_without_base_uri() {
    let nft = Contract::from_parts(AttributeStore::new(), Id::U32(0), 0);
    assert_eq!(nft.token_uri(Id::U32(42)), Ok(String::new()));
    assert_eq!(nft.token_uri(Id::Bytes(vec![0xff])), Ok(String::new()));
    let mut store = AttributeStore::new();
    store.set_attribute(Id::U32(1), b"base_uri".to_vec(), b"https://x/".to_vec());
    let other = Contract::from_parts(store, Id::U32(0), 0);
    assert_eq!(other.token_uri(Id::U32(42)), Ok(String::new()));
}

#[test]
fn token_uri_joins_base_uri_identifier_and_suffix() {
    let nft = Contract::new(3, String::from("N"), String::from("S"), String::from("https://x/"));
    assert_eq!(nft.token_uri(Id::U32(42)), Ok(String::from("https://x/42.json")));
    assert_eq!(nft.token_uri(Id::U8(0)), Ok(String::from("https://x/0.json")));
    assert_eq!(nft.token_uri(Id::Bytes(b"abc".to_vec())), Ok(String::from("https://x/abc.json")));
}

#[test]
fn token_uri_decodes_text_beyond_ascii() {
    let nft = Contract::new(0, String::from("N"), String::from("S"), String::from("h\u{e9}\u{20ac}/"));
    assert_eq!(
        nft.get_attribute(Id::U32(0), b"base_uri".to_vec()),
        Some(vec![0x68, 0xc3, 0xa9, 0xe2, 0x82, 0xac, 0x2f])
    );
    assert_eq!(nft.token_uri(Id::U64(10)), Ok(String::from("h\u{e9}\u{20ac}/10.json")));
}

#[test]
fn token_uri_reports_bytes_that_are_not_text() {
    let mut nft = sample();
    assert_eq!(nft.token_uri(Id::Bytes(vec![0xc3])), Err(NftError::DecodingError));
    nft.set_attribute(Id::U32(0), b"base_uri".to_vec(), vec![0xff, 0x2f]);
    assert_eq!(nft.token_uri(Id::U32(1)), Err(NftError::DecodingError));
}

#[test]
fn mint_for_sale_checks_the_payment() {
    let mut nft = sample();
    let refused = nft.mint_for_sale(account(2), 11, 999_999_999_999_999_999);
    assert_eq!(refused.unwrap_err(), NftError::InsufficientPayment);
    assert_eq!(nft.next_token_id(), 0);
    assert_eq!(nft.get_attribute(Id::U32(0), b"base_uri".to_vec()), Some(b"U/".to_vec()));
    let reg = nft.mint_for_sale(account(2), 11, 1_000_000_000_000_000_000).unwrap();
    assert_eq!(reg.owner, account(2));
    assert_eq!(reg.id, Id::U32(11));
    assert_eq!(nft.next_token_id(), 1);
    assert_eq!(Contract::complete_mint(Ok(())), Ok(()));
    let more = nft.mint_for_sale(account(3), 12, u128::MAX).unwrap();
    assert_eq!(more.owner, account(3));
    assert_eq!(more.id, Id::U32(12));
}

#[test]
fn refused_registration_keeps_attributes_and_advances_counter() {
    let mut nft = sample();
    let first = nft.mint(account(1), 4).unwrap();
    assert_eq!(first.id, Id::U32(4));
    assert_eq!(first.owner, account(1));
    assert_eq!(Contract::complete_mint(Ok(())), Ok(()));
    let second = nft.mint(account(1), 4).unwrap();
    assert_eq!(second.id, Id::U32(4));
    assert_eq!(
        Contract::complete_mint(Err(LedgerError::DuplicateIdentifier)),
        Err(NftError::DuplicateIdentifier)
    );
    assert_eq!(nft.next_token_id(), 2);
    assert_eq!(nft.get_attribute(Id::U32(0), b"name".to_vec()), Some(b"N".to_vec()));
    assert_eq!(nft.get_attribute(Id::U32(0), b"symbol".to_vec()), Some(b"S".to_vec()));
    assert_eq!(nft.get_attribute(Id::U32(0), b"base_uri".to_vec()), Some(b"U/".to_vec()));
    assert_eq!(nft.get_attribute(Id::U32(4), b"name".to_vec()), None);
}

#[test]
fn ledger_refusals_carry_over() {
    assert_eq!(
        Contract::complete_mint(Err(LedgerError::InvalidOwner)),
        Err(NftError::InvalidOwner)
    );
    assert_eq!(NftError::from_ledger(LedgerError::DuplicateIdentifier), NftError::DuplicateIdentifier);
    assert_eq!(NftError::from_ledger(LedgerError::InvalidOwner), NftError::InvalidOwner);
}

#[test]
fn explicit_mint_then_open_mint_shares_the_counter() {
    let mut nft = sample();
    assert_eq!(nft.mint(account(1), 100).unwrap().id, Id::U32(100));
    assert_eq!(nft.mint_token(account(1)).unwrap().id, Id::U32(1));
    assert_eq!(nft.next_token_id(), 2);
}

#[test]
fn error_messages() {
    assert_eq!(NftError::InsufficientPayment.message(), "Insufficient mint price.");
    assert_ne!(NftError::Overflow.message(), NftError::DecodingError.message());
    assert_ne!(NftError::DuplicateIdentifier.message(), NftError::InvalidOwner.message());
}
