use vstd::prelude::*;

verus! {

/// Why an operation on the ledger failed.
#[derive(Clone, Copy, Debug, PartialEq, Eq, Structural)]
pub enum ContractError {
    /// The caller is not the current authority.
    Unauthorized,
    /// No ledger record has been stored yet.
    NotInitialized,
}

} // verus!
