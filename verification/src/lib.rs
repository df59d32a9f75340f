//! A consignment-marketplace ledger.
//!
//! Administrators list assets for sale under price models; buyers purchase
//! directly from escrow. Every entity (market, collection, price model,
//! listing node) lives at a deterministic derived address, and each
//! collection's listings form a doubly-linked chain bounded by two sentinel
//! nodes. The ledger operations preserve the chain invariant across every
//! insertion and removal, and detect every error before mutating anything.

pub mod addr;
pub mod chain;
pub mod error;
pub mod key;
pub mod kmap;
pub mod ledger;
pub mod links;
pub mod records;
pub mod token;
