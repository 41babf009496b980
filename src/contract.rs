use vstd::prelude::*;

use crate::addr::Addr;
use crate::error::ContractError;
use crate::msg::{ExecuteMsg, InstantiateMsg, OwnerResponse, QueryAnswer, QueryMsg, ScoreResponse};
use crate::state::{Ledger, Scores, State, Store};

verus! {

/// The ledger right after instantiation by `owner`.
pub open spec fn new_ledger(owner: Seq<char>) -> Ledger {
    (owner, Map::empty())
}

/// Handing authority to `owner`, as asked by `caller`.
pub open spec fn set_owner_step(l: Ledger, caller: Seq<char>, owner: Seq<char>) -> Result<
    Ledger,
    ContractError,
> {
    if caller == l.0 {
        Ok((owner, l.1))
    } else {
        Err(ContractError::Unauthorized)
    }
}

/// Recording `score` for `key`, as asked by `caller`.
pub open spec fn set_score_step(l: Ledger, caller: Seq<char>, key: Seq<char>, score: i32) -> Result<
    Ledger,
    ContractError,
> {
    if caller == l.0 {
        Ok((l.0, l.1.insert(key, score)))
    } else {
        Err(ContractError::Unauthorized)
    }
}

/// The step that a command takes on a ledger.
pub open spec fn execute_step(l: Ledger, caller: Seq<char>, msg: ExecuteMsg) -> Result<
    Ledger,
    ContractError,
> {
    match msg {
        ExecuteMsg::SetOwner { owner } => set_owner_step(l, caller, owner@),
        ExecuteMsg::SetScore { addr, score } => set_score_step(l, caller, addr@, score),
    }
}

/// The score recorded for `key`, if any.
pub open spec fn score_of(l: Ledger, key: Seq<char>) -> Option<i32> {
    if l.1.contains_key(key) {
        Some(l.1[key])
    } else {
        None
    }
}

/// What a mutating call leaves behind: with no ledger stored it fails with
/// `NotInitialized`; otherwise it stores the ledger that `step` gives, or
/// returns the step's error and leaves the store exactly as it was.
pub open spec fn mutation_outcome(
    before: Store,
    after: Store,
    r: Result<(), ContractError>,
    step: spec_fn(Ledger) -> Result<Ledger, ContractError>,
) -> bool {
    match before@ {
        None => r == Err::<(), ContractError>(ContractError::NotInitialized) && after == before,
        Some(l) => match step(l) {
            Ok(next) => r is Ok && after@ == Some(next),
            Err(e) => r == Err::<(), ContractError>(e) && after == before,
        },
    }
}

/// The answer to `GetOwner` on a store.
pub open spec fn owner_answer(s: Option<Ledger>, r: Result<OwnerResponse, ContractError>) -> bool {
    match s {
        None => r == Err::<OwnerResponse, ContractError>(ContractError::NotInitialized),
        Some(l) => r matches Ok(o) && o.owner@ == l.0,
    }
}

/// The answer to `GetScore` for `key` on a store.
pub open spec fn score_answer(
    s: Option<Ledger>,
    key: Seq<char>,
    r: Result<ScoreResponse, ContractError>,
) -> bool {
    match s {
        None => r == Err::<ScoreResponse, ContractError>(ContractError::NotInitialized),
        Some(l) => match score_of(l, key) {
            Some(v) => r matches Ok(ScoreResponse::Success { addr, score }) && addr@ == key && score
                == v,
            None => r matches Ok(ScoreResponse::UnknownAddress {  }),
        },
    }
}

/// Creates the ledger with `sender` as its authority and no scores.
pub fn instantiate(store: &mut Store, sender: Addr, _msg: InstantiateMsg)
    ensures
        final(store)@ == Some(new_ledger(sender@)),
{
    let state = State { owner: sender, scores: Scores::new() };
    store.save(state);
}

/// Succeeds exactly when `caller` is the ledger's authority.
pub fn authorize(state: &State, caller: &Addr) -> (r: Result<(), ContractError>)
    ensures
        r is Ok <==> caller@ == state.owner@,
        r is Err ==> r == Err::<(), ContractError>(ContractError::Unauthorized),
{
    if *caller != state.owner {
        return Err(ContractError::Unauthorized);
    }
    Ok(())
}

/// Runs one command as `sender`.
pub fn execute(store: &mut Store, sender: Addr, msg: ExecuteMsg) -> (r: Result<(), ContractError>)
    ensures
        mutation_outcome(*old(store), *final(store), r, |l: Ledger| execute_step(l, sender@, msg)),
{
    match msg {
        ExecuteMsg::SetOwner { owner } => try_set_owner(store, sender, owner),
        ExecuteMsg::SetScore { addr, score } => try_set_score(store, sender, addr, score),
    }
}

/// Hands authority to `owner`, if `sender` holds it.
pub fn try_set_owner(store: &mut Store, sender: Addr, owner: Addr) -> (r: Result<(), ContractError>)
    ensures
        mutation_outcome(
            *old(store),
            *final(store),
            r,
            |l: Ledger| set_owner_step(l, sender@, owner@),
        ),
{
    let mut state = store.load()?;
    authorize(&state, &sender)?;
    state.owner = owner;
    store.save(state);
    Ok(())
}

/// Records `score` for `addr`, if `sender` is the authority.
pub fn try_set_score(store: &mut Store, sender: Addr, addr: Addr, score: i32) -> (r: Result<
    (),
    ContractError,
>)
    ensures
        mutation_outcome(
            *old(store),
            *final(store),
            r,
            |l: Ledger| set_score_step(l, sender@, addr@, score),
        ),
{
    let mut state = store.load()?;
    authorize(&state, &sender)?;
    state.scores.insert(addr, score);
    store.save(state);
    Ok(())
}

/// Answers one query; the store is only read.
pub fn query(store: &Store, msg: QueryMsg) -> (r: Result<QueryAnswer, ContractError>)
    ensures
        match msg {
            QueryMsg::GetOwner {  } => match r {
                Ok(QueryAnswer::Owner(o)) => owner_answer(store@, Ok(o)),
                Ok(QueryAnswer::Score(_)) => false,
                Err(e) => owner_answer(store@, Err(e)),
            },
            QueryMsg::GetScore { addr } => match r {
                Ok(QueryAnswer::Score(s)) => score_answer(store@, addr@, Ok(s)),
                Ok(QueryAnswer::Owner(_)) => false,
                Err(e) => score_answer(store@, addr@, Err(e)),
            },
        },
{
    match msg {
        QueryMsg::GetOwner {  } => match query_owner(store) {
            Ok(o) => Ok(QueryAnswer::Owner(o)),
            Err(e) => Err(e),
        },
        QueryMsg::GetScore { addr } => match query_score(store, addr) {
            Ok(s) => Ok(QueryAnswer::Score(s)),
            Err(e) => Err(e),
        },
    }
}

/// The current authority.
pub fn query_owner(store: &Store) -> (r: Result<OwnerResponse, ContractError>)
    ensures
        owner_answer(store@, r),
{
    let state = store.load()?;
    Ok(OwnerResponse { owner: state.owner })
}

/// The score recorded for `addr`, or `UnknownAddress` where there is none.
pub fn query_score(store: &Store, addr: Addr) -> (r: Result<ScoreResponse, ContractError>)
    ensures
        score_answer(store@, addr@, r),
{
    let state = store.load()?;
    match state.scores.get(&addr) {
        Some(score) => Ok(ScoreResponse::Success { addr, score }),
        None => Ok(ScoreResponse::UnknownAddress {  }),
    }
}

} // verus!
