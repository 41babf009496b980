use vstd::prelude::*;

use crate::addr::Addr;

verus! {

/// The configuration given at instantiation; it carries nothing.
#[derive(Clone, Debug, PartialEq)]
pub struct InstantiateMsg {}

/// The commands that change the ledger.
#[derive(Clone, Debug, PartialEq)]
pub enum ExecuteMsg {
    SetOwner { owner: Addr },
    SetScore { addr: Addr, score: i32 },
}

/// The read-only questions on the ledger.
#[derive(Clone, Debug, PartialEq)]
pub enum QueryMsg {
    /// The current authority.
    GetOwner {},
    /// The score of one address.
    GetScore { addr: Addr },
}

/// The answer to `GetOwner`.
#[derive(Clone, Debug, PartialEq)]
pub struct OwnerResponse {
    pub owner: Addr,
}

/// The answer to `GetScore`: a recorded score, or none at all.
#[derive(Clone, Debug, PartialEq)]
pub enum ScoreResponse {
    Success { addr: Addr, score: i32 },
    UnknownAddress {},
}

/// The answer to any query.
#[derive(Clone, Debug, PartialEq)]
pub enum QueryAnswer {
    Owner(OwnerResponse),
    Score(ScoreResponse),
}

} // verus!
