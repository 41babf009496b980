use vstd::prelude::*;

use crate::addr::Addr;
use crate::error::ContractError;

verus! {

/// The keys and values of stored pairs, as plain values.
pub open spec fn pairs_view(pairs: Seq<(Addr, i32)>) -> Seq<(Seq<char>, i32)> {
    pairs.map_values(|p: (Addr, i32)| (p.0@, p.1))
}

/// The lookup that a sequence of pairs denotes: each pair is inserted in
/// order, so a later pair for a key overwrites an earlier one.
pub open spec fn entries_map(pairs: Seq<(Seq<char>, i32)>) -> Map<Seq<char>, i32>
    decreases pairs.len(),
{
    if pairs.len() == 0 {
        Map::empty()
    } else {
        entries_map(pairs.drop_last()).insert(pairs.last().0, pairs.last().1)
    }
}

/// No key occurs twice in the sequence.
pub open spec fn keys_unique(pairs: Seq<(Seq<char>, i32)>) -> bool {
    forall|i: int, j: int|
        0 <= i < pairs.len() && 0 <= j < pairs.len() && i != j ==> #[trigger] pairs[i].0
            != #[trigger] pairs[j].0
}

/// A key is in the lookup exactly when some pair carries it.
pub proof fn lemma_entries_map_dom(pairs: Seq<(Seq<char>, i32)>, k: Seq<char>)
    ensures
        entries_map(pairs).contains_key(k) <==> exists|i: int|
            0 <= i < pairs.len() && (#[trigger] pairs[i]).0 == k,
    decreases pairs.len(),
{
    if pairs.len() > 0 {
        let init = pairs.drop_last();
        lemma_entries_map_dom(init, k);
        if entries_map(pairs).contains_key(k) && k != pairs.last().0 {
            let i = choose|i: int| 0 <= i < init.len() && (#[trigger] init[i]).0 == k;
            assert(pairs[i] == init[i]);
        }
        if exists|i: int| 0 <= i < pairs.len() && (#[trigger] pairs[i]).0 == k {
            let i = choose|i: int| 0 <= i < pairs.len() && (#[trigger] pairs[i]).0 == k;
            if i < pairs.len() - 1 {
                assert(init[i] == pairs[i]);
            }
        }
    }
}

/// With unique keys, each pair's key looks up that pair's value.
pub proof fn lemma_entries_map_value(pairs: Seq<(Seq<char>, i32)>, i: int)
    requires
        keys_unique(pairs),
        0 <= i < pairs.len(),
    ensures
        entries_map(pairs).contains_key(pairs[i].0),
        entries_map(pairs)[pairs[i].0] == pairs[i].1,
    decreases pairs.len(),
{
    let init = pairs.drop_last();
    if i < pairs.len() - 1 {
        assert(init[i] == pairs[i]);
        assert(keys_unique(init)) by {
            assert forall|a: int, b: int|
                0 <= a < init.len() && 0 <= b < init.len() && a != b implies #[trigger] init[a].0
                != #[trigger] init[b].0 by {
                assert(init[a] == pairs[a] && init[b] == pairs[b]);
            }
        }
        lemma_entries_map_value(init, i);
        assert(pairs[i].0 != pairs[pairs.len() - 1].0);
    }
}

/// With unique keys, the lookup holds exactly as many keys as there are pairs.
pub proof fn lemma_entries_map_len(pairs: Seq<(Seq<char>, i32)>)
    requires
        keys_unique(pairs),
    ensures
        entries_map(pairs).dom().finite(),
        entries_map(pairs).dom().len() == pairs.len(),
    decreases pairs.len(),
{
    if pairs.len() > 0 {
        let init = pairs.drop_last();
        let k = pairs.last().0;
        assert forall|a: int, b: int|
            0 <= a < init.len() && 0 <= b < init.len() && a != b implies #[trigger] init[a].0
            != #[trigger] init[b].0 by {
            assert(init[a] == pairs[a] && init[b] == pairs[b]);
        }
        lemma_entries_map_len(init);
        lemma_entries_map_dom(init, k);
        if entries_map(init).contains_key(k) {
            let j = choose|j: int| 0 <= j < init.len() && (#[trigger] init[j]).0 == k;
            assert(init[j] == pairs[j]);
        }
        assert(entries_map(pairs).dom() =~= entries_map(init).dom().insert(k));
    }
}

/// Overwriting the value of a present key in place updates the lookup at that key.
pub proof fn lemma_entries_map_update(pairs: Seq<(Seq<char>, i32)>, i: int, v: i32)
    requires
        keys_unique(pairs),
        0 <= i < pairs.len(),
    ensures
        keys_unique(pairs.update(i, (pairs[i].0, v))),
        entries_map(pairs.update(i, (pairs[i].0, v))) == entries_map(pairs).insert(pairs[i].0, v),
{
    let upd = pairs.update(i, (pairs[i].0, v));
    assert forall|a: int, b: int|
        0 <= a < upd.len() && 0 <= b < upd.len() && a != b implies #[trigger] upd[a].0
        != #[trigger] upd[b].0 by {
        assert(upd[a].0 == pairs[a].0 && upd[b].0 == pairs[b].0);
    }
    let lhs = entries_map(upd);
    let rhs = entries_map(pairs).insert(pairs[i].0, v);
    assert forall|k: Seq<char>| lhs.contains_key(k) <==> rhs.contains_key(k) by {
        lemma_entries_map_dom(upd, k);
        lemma_entries_map_dom(pairs, k);
        if exists|j: int| 0 <= j < upd.len() && (#[trigger] upd[j]).0 == k {
            let j = choose|j: int| 0 <= j < upd.len() && (#[trigger] upd[j]).0 == k;
            assert(pairs[j].0 == k);
        }
        if exists|j: int| 0 <= j < pairs.len() && (#[trigger] pairs[j]).0 == k {
            let j = choose|j: int| 0 <= j < pairs.len() && (#[trigger] pairs[j]).0 == k;
            assert(upd[j].0 == k);
        }
        if k == pairs[i].0 {
            assert(upd[i].0 == k);
        }
    }
    assert forall|k: Seq<char>| #[trigger] lhs.contains_key(k) implies lhs[k] == rhs[k] by {
        lemma_entries_map_dom(upd, k);
        let j = choose|j: int| 0 <= j < upd.len() && (#[trigger] upd[j]).0 == k;
        lemma_entries_map_value(upd, j);
        if j != i {
            assert(upd[j] == pairs[j]);
            lemma_entries_map_value(pairs, j);
        }
    }
    assert(lhs =~= rhs);
}

/// Appending a pair whose key is absent keeps the keys unique and adds that key.
pub proof fn lemma_entries_map_push(pairs: Seq<(Seq<char>, i32)>, k: Seq<char>, v: i32)
    requires
        keys_unique(pairs),
        !entries_map(pairs).contains_key(k),
    ensures
        keys_unique(pairs.push((k, v))),
        entries_map(pairs.push((k, v))) == entries_map(pairs).insert(k, v),
{
    let pushed = pairs.push((k, v));
    lemma_entries_map_dom(pairs, k);
    assert forall|a: int, b: int|
        0 <= a < pushed.len() && 0 <= b < pushed.len() && a != b implies #[trigger] pushed[a].0
        != #[trigger] pushed[b].0 by {
        if a < pairs.len() {
            assert(pushed[a] == pairs[a]);
        }
        if b < pairs.len() {
            assert(pushed[b] == pairs[b]);
        }
    }
    assert(pushed.drop_last() =~= pairs);
}

/// The scores of a ledger: at most one value per address.
pub struct Scores {
    entries: Vec<(Addr, i32)>,
}

impl View for Scores {
    type V = Map<Seq<char>, i32>;

    closed spec fn view(&self) -> Map<Seq<char>, i32> {
        entries_map(pairs_view(self.entries@))
    }
}

impl Scores {
    /// The table holds each address at most once.
    pub closed spec fn wf(&self) -> bool {
        keys_unique(pairs_view(self.entries@))
    }

    /// A table with no scores.
    pub fn new() -> (r: Scores)
        ensures
            r.wf(),
            r@ == Map::<Seq<char>, i32>::empty(),
    {
        let r = Scores { entries: Vec::new() };
        assert(pairs_view(r.entries@) =~= Seq::<(Seq<char>, i32)>::empty());
        r
    }

    /// The position of `key` among the entries, if it is there.
    fn position(&self, key: &Addr) -> (r: Option<usize>)
        requires
            self.wf(),
        ensures
            r is None ==> !self@.contains_key(key@),
            r matches Some(i) ==> i < self.entries@.len() && self.entries@[i as int].0@ == key@,
    {
        let ghost pv = pairs_view(self.entries@);
        let n = self.entries.len();
        let mut i: usize = 0;
        while i < n
            invariant
                n == self.entries@.len(),
                pv == pairs_view(self.entries@),
                0 <= i <= n,
                forall|j: int| 0 <= j < i ==> (#[trigger] pv[j]).0 != key@,
            decreases n - i,
        {
            if self.entries[i].0 == *key {
                return Some(i);
            }
            assert(pv[i as int].0 == self.entries@[i as int].0@);
            i = i + 1;
        }
        proof {
            lemma_entries_map_dom(pv, key@);
        }
        None
    }

    /// The score held for `key`, if any.
    pub fn get(&self, key: &Addr) -> (r: Option<i32>)
        requires
            self.wf(),
        ensures
            r == (if self@.contains_key(key@) {
                Some(self@[key@])
            } else {
                None
            }),
    {
        match self.position(key) {
            Some(i) => {
                proof {
                    lemma_entries_map_value(pairs_view(self.entries@), i as int);
                }
                Some(self.entries[i].1)
            },
            None => None,
        }
    }

    /// Sets the score of `key` to `value`, replacing any earlier one.
    pub fn insert(&mut self, key: Addr, value: i32)
        requires
            old(self).wf(),
        ensures
            final(self).wf(),
            final(self)@ == old(self)@.insert(key@, value),
    {
        let ghost pv = pairs_view(self.entries@);
        match self.position(&key) {
            Some(i) => {
                self.entries.set(i, (key, value));
                proof {
                    lemma_entries_map_update(pv, i as int, value);
                    assert(pairs_view(self.entries@) =~= pv.update(i as int, (pv[i as int].0, value)));
                }
            },
            None => {
                let ghost k = key@;
                self.entries.push((key, value));
                proof {
                    lemma_entries_map_push(pv, k, value);
                    assert(pairs_view(self.entries@) =~= pv.push((k, value)));
                }
            },
        }
    }
}

/// The pairs of a table, in the order in which they are kept.
pub fn to_array(map: &Scores) -> (r: Vec<(Addr, i32)>)
    requires
        map.wf(),
    ensures
        keys_unique(pairs_view(r@)),
        entries_map(pairs_view(r@)) == map@,
        r@.len() == map@.dom().len(),
{
    let n = map.entries.len();
    let mut r: Vec<(Addr, i32)> = Vec::new();
    let mut i: usize = 0;
    while i < n
        invariant
            n == map.entries@.len(),
            0 <= i <= n,
            r@.len() == i,
            pairs_view(r@) == pairs_view(map.entries@).take(i as int),
        decreases n - i,
    {
        let (a, v) = (map.entries[i].0.copied(), map.entries[i].1);
        r.push((a, v));
        i = i + 1;
        proof {
            assert(pairs_view(r@) =~= pairs_view(map.entries@).take(i as int));
        }
    }
    proof {
        assert(pairs_view(map.entries@).take(n as int) =~= pairs_view(map.entries@));
        lemma_entries_map_len(pairs_view(r@));
    }
    r
}

/// The table that a sequence of pairs denotes; of two pairs with one key
/// the later wins.
pub fn from_array(pairs: &Vec<(Addr, i32)>) -> (r: Scores)
    ensures
        r.wf(),
        r@ == entries_map(pairs_view(pairs@)),
{
    let ghost pv = pairs_view(pairs@);
    let n = pairs.len();
    let mut r = Scores::new();
    let mut i: usize = 0;
    while i < n
        invariant
            n == pairs@.len(),
            pv == pairs_view(pairs@),
            0 <= i <= n,
            r.wf(),
            r@ == entries_map(pv.take(i as int)),
        decreases n - i,
    {
        let key = pairs[i].0.copied();
        r.insert(key, pairs[i].1);
        proof {
            assert(pv.take(i + 1).drop_last() =~= pv.take(i as int));
        }
        i = i + 1;
    }
    proof {
        assert(pv.take(n as int) =~= pv);
    }
    r
}

/// What a ledger holds: its authority and its scores.
pub type Ledger = (Seq<char>, Map<Seq<char>, i32>);

/// The ledger in memory, with its scores ready for lookup.
pub struct State {
    pub owner: Addr,
    pub scores: Scores,
}

impl State {
    pub open spec fn wf(&self) -> bool {
        self.scores.wf()
    }

    pub open spec fn ledger(&self) -> Ledger {
        (self.owner@, self.scores@)
    }
}

/// The ledger as it is persisted: its scores flattened to a sequence of pairs.
pub struct StoredState {
    pub owner: Addr,
    pub scores: Vec<(Addr, i32)>,
}

impl View for StoredState {
    type V = Ledger;

    open spec fn view(&self) -> Ledger {
        (self.owner@, entries_map(pairs_view(self.scores@)))
    }
}

/// The single slot in which the host keeps the ledger between calls.
pub struct Store {
    pub slot: Option<StoredState>,
}

impl View for Store {
    type V = Option<Ledger>;

    open spec fn view(&self) -> Option<Ledger> {
        match self.slot {
            Some(s) => Some(s@),
            None => None,
        }
    }
}

impl Store {
    /// A slot that holds nothing yet.
    pub fn new() -> (r: Store)
        ensures
            r@ is None,
    {
        Store { slot: None }
    }

    /// Reads the ledger back from the slot.
    pub fn load(&self) -> (r: Result<State, ContractError>)
        ensures
            match self@ {
                None => r == Err::<State, ContractError>(ContractError::NotInitialized),
                Some(l) => r matches Ok(st) && st.wf() && st.ledger() == l,
            },
    {
        match &self.slot {
            None => Err(ContractError::NotInitialized),
            Some(stored) => Ok(State { owner: stored.owner.copied(), scores: from_array(&stored.scores) }),
        }
    }

    /// Writes the whole ledger to the slot in one step.
    pub fn save(&mut self, state: State)
        requires
            state.wf(),
        ensures
            final(self)@ == Some(state.ledger()),
    {
        let scores = to_array(&state.scores);
        self.slot = Some(StoredState { owner: state.owner, scores });
    }
}

} // verus!
