//! What the persistence contract guarantees across calls.

use vstd::prelude::*;
use crate::model::{MatchupOverview, key_of, same_key};
use crate::order::{
    key_lt, text_lt, lemma_key_lt_asymmetric, lemma_text_lt_irreflexive,
    lemma_text_lt_transitive,
};
use crate::persistence::{holds, in_window, is_selection};

verus! {

/// Saving the same snapshot twice leaves the store as saving it once; a range query
/// whose bounds contain its window then returns it exactly once.
pub proof fn lemma_save_twice_same_as_once(
    store: Map<(Seq<char>, int), MatchupOverview>,
    s: MatchupOverview,
    start: int,
    end: int,
    r: Seq<MatchupOverview>,
)
    requires
        in_window(s, start, end),
        is_selection(store.insert(key_of(s), s).insert(key_of(s), s), start, end, r),
    ensures
        store.insert(key_of(s), s).insert(key_of(s), s) == store.insert(key_of(s), s),
        store.insert(key_of(s), s).insert(key_of(s), s).dom() == store.dom().insert(key_of(s)),
        r.contains(s),
        forall|i: int, j: int| 0 <= i < r.len() && 0 <= j < r.len() && r[i] == s && r[j] == s ==> i == j,
{
    let once = store.insert(key_of(s), s);
    assert(once.insert(key_of(s), s) =~= once);
    assert(once.dom() =~= store.dom().insert(key_of(s)));
    assert(holds(once, s));
    assert forall|i: int, j: int|
        0 <= i < r.len() && 0 <= j < r.len() && r[i] == s && r[j] == s implies i == j by {
        if i < j {
            assert(key_lt(r[i], r[j]));
            lemma_key_lt_asymmetric(r[i], r[j]);
        } else if j < i {
            assert(key_lt(r[j], r[i]));
            lemma_key_lt_asymmetric(r[j], r[i]);
        }
    }
}

/// Saving a snapshot and then a second one with the same composite identity key keeps one
/// record under that key, the second; the first is no longer stored unless it equals it.
pub proof fn lemma_save_same_key_overwrites(
    store: Map<(Seq<char>, int), MatchupOverview>,
    first: MatchupOverview,
    second: MatchupOverview,
)
    requires
        same_key(first, second),
    ensures
        ({
            let after = store.insert(key_of(first), first).insert(key_of(second), second);
            &&& after.dom() == store.dom().insert(key_of(first))
            &&& after[key_of(first)] == second
            &&& holds(after, second)
            &&& first != second ==> !holds(after, first)
        }),
{
    let after = store.insert(key_of(first), first).insert(key_of(second), second);
    assert(key_of(first) == key_of(second));
    assert(after.dom() =~= store.dom().insert(key_of(first)));
}

/// A stored snapshot is returned by a range query exactly when the range's start is no
/// later than the snapshot's start and the snapshot's end is no later than the range's end.
pub proof fn lemma_range_containment(
    store: Map<(Seq<char>, int), MatchupOverview>,
    s: MatchupOverview,
    start: int,
    end: int,
    r: Seq<MatchupOverview>,
)
    requires
        holds(store, s),
        is_selection(store, start, end, r),
    ensures
        r.contains(s) <==> (start <= s.start_time@ && s.end_time@ <= end),
{
}

/// In the answer to a range query a snapshot whose identity comes first in text order
/// stands before one whose identity comes later.
pub proof fn lemma_selection_ascending_by_identity(
    store: Map<(Seq<char>, int), MatchupOverview>,
    start: int,
    end: int,
    r: Seq<MatchupOverview>,
    i: int,
    j: int,
)
    requires
        is_selection(store, start, end, r),
        0 <= i < r.len(),
        0 <= j < r.len(),
        text_lt(r[i].id@, r[j].id@),
    ensures
        i < j,
{
    lemma_text_lt_irreflexive(r[i].id@);
    if j < i {
        assert(key_lt(r[j], r[i]));
        if text_lt(r[j].id@, r[i].id@) {
            lemma_text_lt_transitive(r[i].id@, r[j].id@, r[i].id@);
        }
    }
}

} // verus!
