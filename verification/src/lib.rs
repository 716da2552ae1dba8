//! Token identity, attribute storage and metadata locators of an NFT collection.
//!
//! The collection hands out token identifiers, keeps byte-valued attributes
//! scoped by identifier, derives each token's metadata locator from the
//! collection's base URI, and gates minting on the attached payment. Ownership
//! itself is kept by a ledger outside this crate: the minting functions decide
//! what is to be registered there and return it as a [`contract::Registration`].

pub mod attributes;
pub mod contract;
pub mod error;
pub mod id;
pub mod text;
pub mod uri;
