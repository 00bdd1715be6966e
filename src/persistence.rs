//! The persistence contract: upsert by composite identity key and the
//! contained-window range query, with an in-memory store that keeps it.

use vstd::prelude::*;
use crate::model::{MatchupOverview, key_of, same_key};
use crate::order::{
    key_lt, strictly_ordered, precedes, shares_key, lemma_key_lt_total, lemma_key_lt_transitive,
    lemma_text_lt_irreflexive,
};
use crate::timestamp::Timestamp;

verus! {

/// Why a save or a range query failed.
#[derive(Clone, Copy, Debug, PartialEq, Eq, Structural)]
pub enum PersistError {
    /// The backend could not be reached or did not answer.
    BackendUnavailable,
    /// An insert met a record with the same composite identity key.
    Conflict,
    /// A payload could not be encoded or decoded.
    Serialization,
}

/// The write that the upsert protocol makes once the lookup by key has answered.
#[derive(Clone, Copy, Debug, PartialEq, Eq)]
pub enum WriteAction<H> {
    /// Overwrite the payload of the record found, through its backend handle.
    Update(H),
    /// Insert a new record under the composite identity key.
    Insert,
}

/// The upsert decision: update the record that the lookup found, else insert.
pub fn plan_write<H>(existing: Option<H>) -> (r: WriteAction<H>)
    ensures
        match existing {
            Some(h) => r == WriteAction::Update(h),
            None => r == WriteAction::<H>::Insert,
        },
{
    match existing {
        Some(h) => WriteAction::Update(h),
        None => WriteAction::Insert,
    }
}

/// The outcome of a batch save from the outcomes of its items, each saved on its own:
/// success when every item succeeded, else the error of the first item that failed.
pub fn batch_outcome(results: &Vec<Result<(), PersistError>>) -> (r: Result<(), PersistError>)
    ensures
        r is Ok <==> (forall|i: int| 0 <= i < results@.len() ==> (#[trigger] results@[i]) is Ok),
        r matches Err(e) ==> exists|i: int|
            0 <= i < results@.len() && results@[i] == Err::<(), PersistError>(e) && (forall|j: int|
                0 <= j < i ==> (#[trigger] results@[j]) is Ok),
{
    let mut i: usize = 0;
    while i < results.len()
        invariant
            i <= results@.len(),
            forall|j: int| 0 <= j < i ==> (#[trigger] results@[j]) is Ok,
        decreases results@.len() - i,
    {
        match &results[i] {
            Ok(()) => {},
            Err(e) => {
                return Err(*e);
            },
        }
        i = i + 1;
    }
    Ok(())
}

/// Whether the window of `m` lies within `start` to `end`, both bounds included.
pub open spec fn in_window(m: MatchupOverview, start: int, end: int) -> bool {
    start <= m.start_time@ && m.end_time@ <= end
}

/// Whether `store` holds `x` as the record of its key.
pub open spec fn holds(store: Map<(Seq<char>, int), MatchupOverview>, x: MatchupOverview) -> bool {
    store.contains_key(key_of(x)) && store[key_of(x)] == x
}

/// `r` is the answer to a range query from `start` to `end` on `store`: every stored snapshot
/// whose window lies within the range, each once, ascending by identity and then by start.
pub open spec fn is_selection(
    store: Map<(Seq<char>, int), MatchupOverview>,
    start: int,
    end: int,
    r: Seq<MatchupOverview>,
) -> bool {
    &&& strictly_ordered(r)
    &&& forall|x: MatchupOverview| #[trigger] r.contains(x) <==> (holds(store, x) && in_window(x, start, end))
}

/// The snapshots behind a sequence of references.
pub open spec fn snapshots_of(r: Seq<&MatchupOverview>) -> Seq<MatchupOverview> {
    r.map_values(|x: &MatchupOverview| *x)
}

/// What a store holds after saving `batch`, item after item, on `store`.
pub open spec fn saved_all(
    store: Map<(Seq<char>, int), MatchupOverview>,
    batch: Seq<MatchupOverview>,
) -> Map<(Seq<char>, int), MatchupOverview>
    decreases batch.len(),
{
    if batch.len() == 0 {
        store
    } else {
        saved_all(store, batch.drop_last()).insert(key_of(batch.last()), batch.last())
    }
}

/// A store kept in memory, one record per composite identity key.
pub struct MemoryPersistence {
    records: Vec<MatchupOverview>,
    contents: Ghost<Map<(Seq<char>, int), MatchupOverview>>,
}

impl View for MemoryPersistence {
    type V = Map<(Seq<char>, int), MatchupOverview>;

    /// The stored records, by composite identity key.
    closed spec fn view(&self) -> Self::V {
        self.contents@
    }
}

impl MemoryPersistence {
    /// The records are kept in ascending key order, and they are exactly the contents.
    pub closed spec fn wf(&self) -> bool {
        &&& strictly_ordered(self.records@)
        &&& forall|i: int|
            0 <= i < self.records@.len() ==> holds(self.contents@, #[trigger] self.records@[i])
        &&& forall|k: (Seq<char>, int)|
            #[trigger] self.contents@.contains_key(k) ==> exists|i: int|
                0 <= i < self.records@.len() && key_of(#[trigger] self.records@[i]) == k
    }

    /// An empty store.
    pub fn new() -> (r: MemoryPersistence)
        ensures
            r.wf(),
            r@ == Map::<(Seq<char>, int), MatchupOverview>::empty(),
    {
        MemoryPersistence { records: Vec::new(), contents: Ghost(Map::empty()) }
    }

    /// Looks `s`'s key up: `Ok` with the index of the record that has it, else `Err` with
    /// the index where a record with that key belongs.
    fn lookup(&self, s: &MatchupOverview) -> (r: Result<usize, usize>)
        requires
            self.wf(),
        ensures
            r matches Ok(i) ==> i < self.records@.len() && same_key(self.records@[i as int], *s),
            r matches Err(p) ==> p <= self.records@.len() && (forall|j: int|
                0 <= j < p ==> key_lt(#[trigger] self.records@[j], *s)) && (forall|j: int|
                p <= j < self.records@.len() ==> key_lt(*s, #[trigger] self.records@[j])),
    {
        let mut i: usize = 0;
        while i < self.records.len()
            invariant
                self.wf(),
                i <= self.records@.len(),
                forall|j: int| 0 <= j < i ==> key_lt(#[trigger] self.records@[j], *s),
            decreases self.records@.len() - i,
        {
            if shares_key(&self.records[i], s) {
                return Ok(i);
            }
            if precedes(s, &self.records[i]) {
                proof {
                    assert forall|j: int| i <= j < self.records@.len() implies key_lt(
                        *s,
                        #[trigger] self.records@[j],
                    ) by {
                        if j > i {
                            lemma_key_lt_transitive(*s, self.records@[i as int], self.records@[j]);
                        }
                    }
                }
                return Err(i);
            }
            proof {
                lemma_key_lt_total(self.records@[i as int], *s);
            }
            i = i + 1;
        }
        Err(i)
    }

    /// Saves one snapshot: overwrites the record with its key, or inserts it where none is.
    pub fn save_one(&mut self, s: MatchupOverview)
        requires
            old(self).wf(),
        ensures
            final(self).wf(),
            final(self)@ == old(self)@.insert(key_of(s), s),
    {
        let ghost old_records = self.records@;
        let ghost old_contents = self.contents@;
        proof {
            lemma_text_lt_irreflexive(s.id@);
        }
        match self.lookup(&s) {
            Ok(i) => {
                let ghost found = old_records[i as int];
                self.records.set(i, s);
                self.contents = Ghost(self.contents@.insert(key_of(s), s));
                proof {
                    assert forall|a: int, b: int|
                        0 <= a < b < self.records@.len() implies key_lt(
                        #[trigger] self.records@[a],
                        #[trigger] self.records@[b],
                    ) by {
                        assert(key_lt(old_records[a], old_records[b]));
                    }
                    assert forall|j: int| 0 <= j < self.records@.len() implies holds(
                        self.contents@,
                        #[trigger] self.records@[j],
                    ) by {
                        if j != i {
                            if j < i {
                                assert(key_lt(old_records[j], found));
                            } else {
                                assert(key_lt(found, old_records[j]));
                            }
                            assert(holds(old_contents, old_records[j]));
                        }
                    }
                    assert forall|k: (Seq<char>, int)| #[trigger]
                        self.contents@.contains_key(k) implies exists|j: int|
                        0 <= j < self.records@.len() && key_of(#[trigger] self.records@[j]) == k by {
                        if k == key_of(s) {
                            assert(key_of(self.records@[i as int]) == k);
                        } else {
                            let j = choose|j: int|
                                0 <= j < old_records.len() && key_of(#[trigger] old_records[j]) == k;
                            assert(key_of(self.records@[j]) == k);
                        }
                    }
                }
            },
            Err(p) => {
                self.records.insert(p, s);
                self.contents = Ghost(self.contents@.insert(key_of(s), s));
                proof {
                    old_records.insert_ensures(p as int, s);
                    assert forall|j: int| 0 <= j < self.records@.len() implies (j < p ==> self.records@[j] == old_records[j]) && (j == p ==> self.records@[j] == s) && (j > p ==> self.records@[j] == old_records[j - 1]) by {
                        if j > p {
                            assert(self.records@[(j - 1) + 1] == old_records[j - 1]);
                        }
                    }
                    assert forall|a: int, b: int|
                        0 <= a < b < self.records@.len() implies key_lt(
                        #[trigger] self.records@[a],
                        #[trigger] self.records@[b],
                    ) by {
                        if a < p && b > p {
                            assert(key_lt(old_records[a], s));
                            assert(key_lt(s, old_records[b - 1]));
                            lemma_key_lt_transitive(old_records[a], s, old_records[b - 1]);
                        } else if a < p && b < p {
                            assert(key_lt(old_records[a], old_records[b]));
                        } else if a > p {
                            assert(key_lt(old_records[a - 1], old_records[b - 1]));
                        } else if a < p {
                            assert(key_lt(old_records[a], s));
                        } else {
                            assert(key_lt(s, old_records[b - 1]));
                        }
                    }
                    assert forall|j: int| 0 <= j < self.records@.len() implies holds(
                        self.contents@,
                        #[trigger] self.records@[j],
                    ) by {
                        if j < p {
                            assert(key_lt(old_records[j], s));
                            assert(holds(old_contents, old_records[j]));
                        } else if j > p {
                            assert(key_lt(s, old_records[j - 1]));
                            assert(holds(old_contents, old_records[j - 1]));
                        }
                    }
                    assert forall|k: (Seq<char>, int)| #[trigger]
                        self.contents@.contains_key(k) implies exists|j: int|
                        0 <= j < self.records@.len() && key_of(#[trigger] self.records@[j]) == k by {
                        if k == key_of(s) {
                            assert(key_of(self.records@[p as int]) == k);
                        } else {
                            let j = choose|j: int|
                                0 <= j < old_records.len() && key_of(#[trigger] old_records[j]) == k;
                            if j < p {
                                assert(key_of(self.records@[j]) == k);
                            } else {
                                assert(key_of(self.records@[j + 1]) == k);
                            }
                        }
                    }
                }
            },
        }
    }

    /// Saves every snapshot of `batch`, in order, each by the upsert protocol; a later
    /// snapshot with the key of an earlier one replaces it. Keeping records in memory cannot fail.
    pub fn save(&mut self, batch: Vec<MatchupOverview>) -> (r: Result<(), PersistError>)
        requires
            old(self).wf(),
        ensures
            final(self).wf(),
            final(self)@ == saved_all(old(self)@, batch@),
            r is Ok,
    {
        let ghost start = self@;
        let mut rest = batch;
        let ghost mut done: int = 0;
        while rest.len() > 0
            invariant
                self.wf(),
                0 <= done <= batch@.len(),
                rest@ == batch@.skip(done),
                self@ == saved_all(start, batch@.take(done)),
            decreases rest@.len(),
        {
            let s = rest.remove(0);
            proof {
                assert(batch@.take(done + 1).drop_last() =~= batch@.take(done));
                assert(batch@.take(done + 1).last() == batch@[done]);
                assert(rest@ =~= batch@.skip(done + 1));
                done = done + 1;
            }
            self.save_one(s);
        }
        proof {
            assert(batch@.take(done) =~= batch@);
        }
        Ok(())
    }

    /// Every stored snapshot whose window lies within `start` to `end`, bounds included,
    /// ascending by identity and then by window start.
    pub fn select_by_date_range(&self, start: &Timestamp, end: &Timestamp) -> (r: Vec<
        &MatchupOverview,
    >)
        requires
            self.wf(),
        ensures
            is_selection(self@, start@, end@, snapshots_of(r@)),
    {
        let mut r: Vec<&MatchupOverview> = Vec::new();
        let mut i: usize = 0;
        while i < self.records.len()
            invariant
                self.wf(),
                i <= self.records@.len(),
                strictly_ordered(snapshots_of(r@)),
                forall|x: MatchupOverview| #[trigger]
                    snapshots_of(r@).contains(x) <==> exists|j: int|
                        0 <= j < i && self.records@[j] == x && in_window(x, start@, end@),
                r@.len() > 0 ==> exists|j: int|
                    0 <= j < i && self.records@[j] == snapshots_of(r@).last(),
            decreases self.records@.len() - i,
        {
            let m = &self.records[i];
            if start.is_at_or_before(&m.start_time) && m.end_time.is_at_or_before(end) {
                let ghost before = snapshots_of(r@);
                r.push(m);
                proof {
                    assert(snapshots_of(r@) =~= before.push(*m));
                    if before.len() > 0 {
                        let j = choose|j: int| 0 <= j < i && self.records@[j] == before.last();
                        assert(key_lt(self.records@[j], self.records@[i as int]));
                        assert forall|a: int| 0 <= a < before.len() implies key_lt(
                            #[trigger] before[a],
                            *m,
                        ) by {
                            if a < before.len() - 1 {
                                assert(key_lt(before[a], before[before.len() - 1]));
                                lemma_key_lt_transitive(before[a], before.last(), *m);
                            }
                        }
                    }
                    assert forall|x: MatchupOverview| #[trigger]
                        snapshots_of(r@).contains(x) <==> exists|j: int|
                            0 <= j < i + 1 && self.records@[j] == x && in_window(
                                x,
                                start@,
                                end@,
                            ) by {
                        if snapshots_of(r@).contains(x) && x != *m {
                            assert(before.contains(x));
                        }
                        if x == *m {
                            assert(snapshots_of(r@).last() == x);
                        } else if exists|j: int|
                            0 <= j < i + 1 && self.records@[j] == x && in_window(x, start@, end@) {
                            assert(before.contains(x));
                            let k = choose|k: int| 0 <= k < before.len() && before[k] == x;
                            assert(snapshots_of(r@)[k] == x);
                        }
                    }
                }
            } else {
                proof {
                    assert forall|x: MatchupOverview| #[trigger]
                        snapshots_of(r@).contains(x) <==> exists|j: int|
                            0 <= j < i + 1 && self.records@[j] == x && in_window(
                                x,
                                start@,
                                end@,
                            ) by {
                        if exists|j: int|
                            0 <= j < i + 1 && self.records@[j] == x && in_window(x, start@, end@) {
                            let j = choose|j: int|
                                0 <= j < i + 1 && self.records@[j] == x && in_window(x, start@, end@);
                            assert(j < i);
                        }
                    }
                }
            }
            i = i + 1;
        }
        proof {
            assert forall|x: MatchupOverview| #[trigger] snapshots_of(r@).contains(x) <==> (holds(
                self@,
                x,
            ) && in_window(x, start@, end@)) by {
                if holds(self@, x) {
                    let j = choose|j: int|
                        0 <= j < self.records@.len() && key_of(#[trigger] self.records@[j])
                            == key_of(x);
                    assert(holds(self.contents@, self.records@[j]));
                    assert(self.records@[j] == x);
                }
                if exists|j: int| 0 <= j < i && self.records@[j] == x {
                    let j = choose|j: int| 0 <= j < i && self.records@[j] == x;
                    assert(holds(self.contents@, self.records@[j]));
                }
            }
        }
        r
    }
}

} // verus!
