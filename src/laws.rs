use vstd::prelude::*;

use crate::contract::{
    execute_step, mutation_outcome, new_ledger, owner_answer, score_answer, score_of,
    set_score_step,
};
use crate::error::ContractError;
use crate::msg::{ExecuteMsg, OwnerResponse, ScoreResponse};
use crate::state::{
    entries_map, keys_unique, lemma_entries_map_dom, lemma_entries_map_len,
    lemma_entries_map_value, Ledger, Store,
};

verus! {

/// Right after instantiation by `a`, the authority read back is `a` and no
/// key has a score.
pub proof fn law_instantiate_reads(
    a: Seq<char>,
    k: Seq<char>,
    owner: Result<OwnerResponse, ContractError>,
    score: Result<ScoreResponse, ContractError>,
)
    requires
        owner_answer(Some(new_ledger(a)), owner),
        score_answer(Some(new_ledger(a)), k, score),
    ensures
        owner matches Ok(o) && o.owner@ == a,
        score matches Ok(ScoreResponse::UnknownAddress {  }),
{
}

/// A command from anyone but the authority fails with `Unauthorized` and
/// leaves the store exactly as it was.
pub proof fn law_non_owner_rejected(
    before: Store,
    after: Store,
    r: Result<(), ContractError>,
    caller: Seq<char>,
    msg: ExecuteMsg,
)
    requires
        before@ matches Some(l) && l.0 != caller,
        mutation_outcome(before, after, r, |l: Ledger| execute_step(l, caller, msg)),
    ensures
        r == Err::<(), ContractError>(ContractError::Unauthorized),
        after == before,
{
}

/// Setting the same score twice in a row leaves what setting it once left.
pub proof fn law_set_score_idempotent(
    s0: Store,
    s1: Store,
    s2: Store,
    r1: Result<(), ContractError>,
    r2: Result<(), ContractError>,
    caller: Seq<char>,
    key: Seq<char>,
    v: i32,
)
    requires
        mutation_outcome(s0, s1, r1, |l: Ledger| set_score_step(l, caller, key, v)),
        mutation_outcome(s1, s2, r2, |l: Ledger| set_score_step(l, caller, key, v)),
    ensures
        s2@ == s1@,
        r2 is Ok <==> r1 is Ok,
{
    if let Some(l) = s0@ {
        if caller == l.0 {
            assert(l.1.insert(key, v).insert(key, v) =~= l.1.insert(key, v));
        }
    }
}

/// After the authority sets `v1` and then `v2` for a key, the key reads `v2`.
pub proof fn law_overwrite(
    s0: Store,
    s1: Store,
    s2: Store,
    r1: Result<(), ContractError>,
    r2: Result<(), ContractError>,
    owner: Seq<char>,
    key: Seq<char>,
    v1: i32,
    v2: i32,
)
    requires
        s0@ matches Some(l) && l.0 == owner,
        mutation_outcome(s0, s1, r1, |l: Ledger| set_score_step(l, owner, key, v1)),
        mutation_outcome(s1, s2, r2, |l: Ledger| set_score_step(l, owner, key, v2)),
    ensures
        r1 is Ok,
        r2 is Ok,
        s2@ matches Some(l) && score_of(l, key) == Some(v2),
{
}

/// A key that was never scored and a key scored zero give different answers.
pub proof fn law_absent_differs_from_zero(
    a: Seq<char>,
    k: Seq<char>,
    scored: Ledger,
    r_absent: Result<ScoreResponse, ContractError>,
    r_zero: Result<ScoreResponse, ContractError>,
)
    requires
        set_score_step(new_ledger(a), a, k, 0) == Ok::<Ledger, ContractError>(scored),
        score_answer(Some(new_ledger(a)), k, r_absent),
        score_answer(Some(scored), k, r_zero),
    ensures
        r_absent matches Ok(ScoreResponse::UnknownAddress {  }),
        r_zero matches Ok(ScoreResponse::Success { addr, score }) && addr@ == k && score == 0,
        r_absent != r_zero,
{
}

/// Pairs with distinct keys reload to a table of exactly those keys, each
/// with its own value.
pub proof fn law_reload_exact(pairs: Seq<(Seq<char>, i32)>)
    requires
        keys_unique(pairs),
    ensures
        entries_map(pairs).dom().len() == pairs.len(),
        forall|i: int|
            0 <= i < pairs.len() ==> #[trigger] entries_map(pairs).contains_key(pairs[i].0)
                && entries_map(pairs)[pairs[i].0] == pairs[i].1,
        forall|k: Seq<char>|
            #[trigger] entries_map(pairs).contains_key(k) ==> exists|i: int|
                0 <= i < pairs.len() && (#[trigger] pairs[i]).0 == k,
{
    lemma_entries_map_len(pairs);
    assert forall|i: int| 0 <= i < pairs.len() implies #[trigger] entries_map(
        pairs,
    ).contains_key(pairs[i].0) && entries_map(pairs)[pairs[i].0] == pairs[i].1 by {
        lemma_entries_map_value(pairs, i);
    }
    assert forall|k: Seq<char>| #[trigger] entries_map(pairs).contains_key(k) implies exists|i: int|
        0 <= i < pairs.len() && (#[trigger] pairs[i]).0 == k by {
        lemma_entries_map_dom(pairs, k);
    }
}

/// Two flattenings that hold the same pairs, each key once, reload to the
/// same table, whatever their order.
pub proof fn law_reload_order_free(p: Seq<(Seq<char>, i32)>, q: Seq<(Seq<char>, i32)>)
    requires
        keys_unique(p),
        keys_unique(q),
        forall|x: (Seq<char>, i32)| p.contains(x) <==> q.contains(x),
    ensures
        entries_map(p) == entries_map(q),
{
    let mp = entries_map(p);
    let mq = entries_map(q);
    assert forall|k: Seq<char>| #[trigger] mp.contains_key(k) implies mq.contains_key(k) && mq[k]
        == mp[k] by {
        lemma_entries_map_dom(p, k);
        let i = choose|i: int| 0 <= i < p.len() && (#[trigger] p[i]).0 == k;
        assert(p.contains(p[i]));
        let j = choose|j: int| 0 <= j < q.len() && q[j] == p[i];
        assert(q[j].0 == k);
        lemma_entries_map_value(p, i);
        lemma_entries_map_value(q, j);
    }
    assert forall|k: Seq<char>| #[trigger] mq.contains_key(k) implies mp.contains_key(k) by {
        lemma_entries_map_dom(q, k);
        let j = choose|j: int| 0 <= j < q.len() && (#[trigger] q[j]).0 == k;
        assert(q.contains(q[j]));
        let i = choose|i: int| 0 <= i < p.len() && p[i] == q[j];
        assert(p[i].0 == k);
        lemma_entries_map_value(p, i);
    }
    assert(mp =~= mq);
}

} // verus!
