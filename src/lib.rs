//! Construction, signing and validation of the transactions that define a
//! proof-of-stake chain's genesis state.

pub mod construct;
pub mod crypto;
pub mod decimal;
pub mod encoding;
pub mod ledger;
pub mod parameters;
pub mod payloads;
pub mod signing;
pub mod threshold;
pub mod timeouts;
pub mod txs;
pub mod validation;
