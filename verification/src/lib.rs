//! A single-node, append-only ledger of signed value transfers grouped into
//! hash-linked blocks, committed by a permissioned set of validators.

pub mod block;
pub mod clock;
pub mod digest;
pub mod errors;
pub mod hexcode;
pub mod keys;
pub mod ledger;
pub mod table;
pub mod transaction;
