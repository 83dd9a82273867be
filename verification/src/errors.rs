//! The error kinds the ledger's operations report.

use vstd::prelude::*;

verus! {

/// Why a ledger operation was refused.
#[derive(Clone, Copy, Debug, PartialEq, Eq, Structural)]
pub enum LedgerError {
    /// An operation referenced an address with no public key on file.
    UnregisteredAddress,
    /// Admitting the transaction would overdraw the sender's balance.
    InsufficientBalance,
    /// A non-validator attempted to commit a block.
    NotAuthorized,
    /// A commit was attempted with nothing pending.
    EmptyPool,
    /// An attempt to sign a genesis (sentinel-sender) transaction.
    GenesisSigningError,
    /// Hex decoding or key reconstruction failed while loading identities.
    MalformedKeyMaterial,
}

impl LedgerError {
    /// A short description, for the presentation layer to render.
    pub fn describe(&self) -> (r: &'static str)
    {
        match self {
            LedgerError::UnregisteredAddress => "address is not registered",
            LedgerError::InsufficientBalance => "insufficient balance for transaction",
            LedgerError::NotAuthorized => "only authorized validators can create blocks",
            LedgerError::EmptyPool => "no pending transactions to include in block",
            LedgerError::GenesisSigningError => "cannot sign genesis transaction",
            LedgerError::MalformedKeyMaterial => "malformed key material",
        }
    }
}

} // verus!
