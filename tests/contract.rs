use scores::addr::Addr;
use scores::contract::{execute, instantiate, query, try_set_owner, try_set_score};
use scores::error::ContractError;
use scores::msg::{ExecuteMsg, InstantiateMsg, OwnerResponse, QueryAnswer, QueryMsg, ScoreResponse};
use scores::state::Store;

fn fresh(creator: &str) -> Store {
    let mut store = Store::new();
    instantiate(&mut store, Addr::unchecked(creator), InstantiateMsg {});
    store
}

fn owner_of(store: &Store) -> OwnerResponse {
    match query(store, QueryMsg::GetOwner {}).unwrap() {
        QueryAnswer::Owner(o) => o,
        other => panic!("unexpected answer {:?}", other),
    }
}

fn score_of(store: &Store, addr: &str) -> ScoreResponse {
    match query(store, QueryMsg::GetScore { addr: Addr::unchecked(addr) }).unwrap() {
        QueryAnswer::Score(s) => s,
        other => panic!("unexpected answer {:?}", other),
    }
}

#[test]
fn proper_initialization() {
    let mut store = Store::new();
    instantiate(&mut store, Addr::unchecked("creator"), InstantiateMsg {});
    let stored = store.slot.as_ref().unwrap();
    assert_eq!(0, stored.scores.len());
    assert_eq!(stored.owner, Addr::unchecked("creator"));
}

#[test]
fn get_owner() {
    let store = fresh("creator");
    let value = owner_of(&store);
    assert_eq!(value.owner, Addr::unchecked("creator"));
}

#[test]
fn set_owner() {
    let mut store = fresh("creator");
    let msg = ExecuteMsg::SetOwner { owner: Addr::unchecked("new_owner") };
    execute(&mut store, Addr::unchecked("creator"), msg).unwrap();
    let value = owner_of(&store);
    assert_eq!(value.owner, Addr::unchecked("new_owner"));
}

#[test]
fn set_owner_unauthorized() {
    let mut store = fresh("creator");
    let msg = ExecuteMsg::SetOwner { owner: Addr::unchecked("new_owner") };
    match execute(&mut store, Addr::unchecked("other"), msg) {
        Err(ContractError::Unauthorized) => {}
        _ => panic!("Must return unauthorized error"),
    }
    let value = owner_of(&store);
    assert_eq!(value.owner, Addr::unchecked("creator"));
}

#[test]
fn set_score() {
    let mut store = fresh("creator");
    let msg = ExecuteMsg::SetScore { addr: Addr::unchecked("address1"), score: 123 };
    execute(&mut store, Addr::unchecked("creator"), msg).unwrap();
    match score_of(&store, "address1") {
        ScoreResponse::Success { addr, score } => {
            assert_eq!(addr, Addr::unchecked("address1"));
            assert_eq!(score, 123);
        }
        _ => panic!("Expected Success"),
    }
}

#[test]
fn get_score_for_unknown_address() {
    let store = fresh("creator");
    match score_of(&store, "address1") {
        ScoreResponse::UnknownAddress {} => {}
        _ => panic!("Expected UnknownAddress"),
    }
}

#[test]
fn set_score_unauthorized() {
    let mut store = fresh("creator");
    let msg = ExecuteMsg::SetScore { addr: Addr::unchecked("address1"), score: 123 };
    match execute(&mut store, Addr::unchecked("other"), msg) {
        Err(ContractError::Unauthorized) => {}
        _ => panic!("Must return unauthorized error"),
    }
    match score_of(&store, "address1") {
        ScoreResponse::UnknownAddress {} => {}
        _ => panic!("Expected UnknownAddress"),
    }
}

#[test]
fn alice_hands_over_to_bob() {
    let mut store = fresh("alice");
    assert_eq!(owner_of(&store).owner, Addr::unchecked("alice"));
    try_set_owner(&mut store, Addr::unchecked("alice"), Addr::unchecked("bob")).unwrap();
    assert_eq!(owner_of(&store).owner, Addr::unchecked("bob"));
    assert_eq!(
        try_set_score(&mut store, Addr::unchecked("alice"), Addr::unchecked("k"), 5),
        Err(ContractError::Unauthorized)
    );
    assert_eq!(score_of(&store, "k"), ScoreResponse::UnknownAddress {});
    try_set_score(&mut store, Addr::unchecked("bob"), Addr::unchecked("k"), 5).unwrap();
    assert_eq!(
        score_of(&store, "k"),
        ScoreResponse::Success { addr: Addr::unchecked("k"), score: 5 }
    );
}

#[test]
fn queries_on_empty_store_fail() {
    let store = Store::new();
    assert_eq!(query(&store, QueryMsg::GetOwner {}), Err(ContractError::NotInitialized));
    assert_eq!(
        query(&store, QueryMsg::GetScore { addr: Addr::unchecked("a") }),
        Err(ContractError::NotInitialized)
    );
}

#[test]
fn commands_on_empty_store_fail() {
    let mut store = Store::new();
    let msg = ExecuteMsg::SetScore { addr: Addr::unchecked("a"), score: 1 };
    assert_eq!(execute(&mut store, Addr::unchecked("a"), msg), Err(ContractError::NotInitialized));
    let msg = ExecuteMsg::SetOwner { owner: Addr::unchecked("a") };
    assert_eq!(execute(&mut store, Addr::unchecked("a"), msg), Err(ContractError::NotInitialized));
    assert!(store.slot.is_none());
}

#[test]
fn non_owner_changes_nothing() {
    let mut store = fresh("owner");
    try_set_score(&mut store, Addr::unchecked("owner"), Addr::unchecked("k"), 7).unwrap();
    for msg in vec![
        ExecuteMsg::SetOwner { owner: Addr::unchecked("thief") },
        ExecuteMsg::SetScore { addr: Addr::unchecked("k"), score: -1 },
        ExecuteMsg::SetScore { addr: Addr::unchecked("j"), score: 3 },
    ] {
        assert_eq!(execute(&mut store, Addr::unchecked("thief"), msg), Err(ContractError::Unauthorized));
    }
    assert_eq!(owner_of(&store).owner, Addr::unchecked("owner"));
    assert_eq!(score_of(&store, "k"), ScoreResponse::Success { addr: Addr::unchecked("k"), score: 7 });
    assert_eq!(score_of(&store, "j"), ScoreResponse::UnknownAddress {});
}

#[test]
fn set_score_twice_is_set_once() {
    let mut once = fresh("o");
    try_set_score(&mut once, Addr::unchecked("o"), Addr::unchecked("k"), 9).unwrap();
    let mut twice = fresh("o");
    try_set_score(&mut twice, Addr::unchecked("o"), Addr::unchecked("k"), 9).unwrap();
    try_set_score(&mut twice, Addr::unchecked("o"), Addr::unchecked("k"), 9).unwrap();
    let a = once.slot.unwrap();
    let b = twice.slot.unwrap();
    assert_eq!(a.owner, b.owner);
    assert_eq!(a.scores, b.scores);
}

#[test]
fn later_score_overwrites() {
    let mut store = fresh("o");
    try_set_score(&mut store, Addr::unchecked("o"), Addr::unchecked("k"), 1).unwrap();
    try_set_score(&mut store, Addr::unchecked("o"), Addr::unchecked("k"), -20).unwrap();
    assert_eq!(score_of(&store, "k"), ScoreResponse::Success { addr: Addr::unchecked("k"), score: -20 });
    assert_eq!(store.slot.as_ref().unwrap().scores.len(), 1);
}

#[test]
fn zero_score_differs_from_none() {
    let mut store = fresh("o");
    let absent = score_of(&store, "k");
    assert_eq!(absent, ScoreResponse::UnknownAddress {});
    try_set_score(&mut store, Addr::unchecked("o"), Addr::unchecked("k"), 0).unwrap();
    let zero = score_of(&store, "k");
    assert_eq!(zero, ScoreResponse::Success { addr: Addr::unchecked("k"), score: 0 });
    assert_ne!(absent, zero);
}

#[test]
fn extreme_scores_are_kept() {
    let mut store = fresh("o");
    try_set_score(&mut store, Addr::unchecked("o"), Addr::unchecked("lo"), i32::MIN).unwrap();
    try_set_score(&mut store, Addr::unchecked("o"), Addr::unchecked("hi"), i32::MAX).unwrap();
    assert_eq!(score_of(&store, "lo"), ScoreResponse::Success { addr: Addr::unchecked("lo"), score: i32::MIN });
    assert_eq!(score_of(&store, "hi"), ScoreResponse::Success { addr: Addr::unchecked("hi"), score: i32::MAX });
}
