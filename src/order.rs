//! The order of stored snapshots: ascending by identity, then by window start.

use vstd::prelude::*;
use vstd::string::*;
use vstd::multiset::Multiset;
use crate::model::{MatchupOverview, same_key};

verus! {

/// Lexicographic order on texts, character by character (the order of `str`).
pub open spec fn text_lt(a: Seq<char>, b: Seq<char>) -> bool
    decreases a.len(),
{
    if a.len() == 0 {
        b.len() > 0
    } else if b.len() == 0 {
        false
    } else if a[0] != b[0] {
        a[0] < b[0]
    } else {
        text_lt(a.drop_first(), b.drop_first())
    }
}

/// `a` comes strictly before `b`: by identity, then by window start.
pub open spec fn key_lt(a: MatchupOverview, b: MatchupOverview) -> bool {
    text_lt(a.id@, b.id@) || (a.id@ == b.id@ && a.start_time@ < b.start_time@)
}

/// Each snapshot comes strictly before every later one; so no key occurs twice.
pub open spec fn strictly_ordered(s: Seq<MatchupOverview>) -> bool {
    forall|i: int, j: int| 0 <= i < j < s.len() ==> key_lt(#[trigger] s[i], #[trigger] s[j])
}

/// No text comes before itself.
pub proof fn lemma_text_lt_irreflexive(a: Seq<char>)
    ensures
        !text_lt(a, a),
    decreases a.len(),
{
    if a.len() > 0 {
        lemma_text_lt_irreflexive(a.drop_first());
    }
}

/// Text order is transitive.
pub proof fn lemma_text_lt_transitive(a: Seq<char>, b: Seq<char>, c: Seq<char>)
    requires
        text_lt(a, b),
        text_lt(b, c),
    ensures
        text_lt(a, c),
    decreases a.len(),
{
    if a.len() > 0 && b.len() > 0 && c.len() > 0 && a[0] == b[0] && b[0] == c[0] {
        lemma_text_lt_transitive(a.drop_first(), b.drop_first(), c.drop_first());
    }
}

/// Of two different texts, one comes before the other.
pub proof fn lemma_text_lt_total(a: Seq<char>, b: Seq<char>)
    requires
        a != b,
    ensures
        text_lt(a, b) || text_lt(b, a),
    decreases a.len(),
{
    if a.len() > 0 && b.len() > 0 && a[0] == b[0] {
        if a.drop_first() == b.drop_first() {
            assert(a =~= b) by {
                assert(a.len() == a.drop_first().len() + 1);
                assert(b.len() == b.drop_first().len() + 1);
                assert forall|i: int| 0 <= i < a.len() implies a[i] == b[i] by {
                    if i > 0 {
                        assert(a[i] == a.drop_first()[i - 1]);
                        assert(b[i] == b.drop_first()[i - 1]);
                    }
                }
            }
        }
        lemma_text_lt_total(a.drop_first(), b.drop_first());
    } else if a.len() == 0 && b.len() == 0 {
        assert(a =~= b);
    }
}

/// Key order is transitive.
pub proof fn lemma_key_lt_transitive(a: MatchupOverview, b: MatchupOverview, c: MatchupOverview)
    requires
        key_lt(a, b),
        key_lt(b, c),
    ensures
        key_lt(a, c),
{
    if text_lt(a.id@, b.id@) && text_lt(b.id@, c.id@) {
        lemma_text_lt_transitive(a.id@, b.id@, c.id@);
    }
}

/// Key order is asymmetric, and keys in order differ.
pub proof fn lemma_key_lt_asymmetric(a: MatchupOverview, b: MatchupOverview)
    requires
        key_lt(a, b),
    ensures
        !key_lt(b, a),
        !same_key(a, b),
{
    lemma_text_lt_irreflexive(a.id@);
    if key_lt(b, a) {
        lemma_key_lt_transitive(a, b, a);
    }
}

/// Of two snapshots with different keys, one comes before the other.
pub proof fn lemma_key_lt_total(a: MatchupOverview, b: MatchupOverview)
    requires
        !same_key(a, b),
    ensures
        key_lt(a, b) || key_lt(b, a),
{
    if a.id@ != b.id@ {
        lemma_text_lt_total(a.id@, b.id@);
    }
}

/// Compares two texts: negative where `a` comes first, zero where they are equal,
/// positive where `b` comes first.
pub fn compare_text(a: &str, b: &str) -> (r: i8)
    ensures
        r < 0 <==> text_lt(a@, b@),
        r == 0 <==> a@ == b@,
        r > 0 <==> text_lt(b@, a@),
{
    let n = a.unicode_len();
    let m = b.unicode_len();
    let mut i: usize = 0;
    assert(a@.skip(0) =~= a@);
    assert(b@.skip(0) =~= b@);
    while i < n && i < m
        invariant
            n == a@.len(),
            m == b@.len(),
            i <= n,
            i <= m,
            a@.subrange(0, i as int) == b@.subrange(0, i as int),
            text_lt(a@, b@) == text_lt(a@.skip(i as int), b@.skip(i as int)),
            text_lt(b@, a@) == text_lt(b@.skip(i as int), a@.skip(i as int)),
        decreases n - i,
    {
        let ca = a.get_char(i);
        let cb = b.get_char(i);
        assert(a@.skip(i as int)[0] == ca);
        assert(b@.skip(i as int)[0] == cb);
        if ca != cb {
            assert(a@[i as int] != b@[i as int]);
            if ca < cb {
                return -1;
            } else {
                return 1;
            }
        }
        assert(a@.skip(i as int).drop_first() =~= a@.skip(i + 1));
        assert(b@.skip(i as int).drop_first() =~= b@.skip(i + 1));
        assert(a@.subrange(0, i + 1) =~= a@.subrange(0, i as int).push(ca));
        assert(b@.subrange(0, i + 1) =~= b@.subrange(0, i as int).push(cb));
        i = i + 1;
    }
    if i == n && i == m {
        assert(a@ =~= a@.subrange(0, i as int));
        assert(b@ =~= b@.subrange(0, i as int));
        proof {
            lemma_text_lt_irreflexive(a@);
        }
        0
    } else if i == n {
        -1
    } else {
        1
    }
}

/// Whether `a` comes strictly before `b` in the stored order.
pub fn precedes(a: &MatchupOverview, b: &MatchupOverview) -> (r: bool)
    ensures
        r == key_lt(*a, *b),
{
    let c = compare_text(a.id.as_str(), b.id.as_str());
    if c < 0 {
        true
    } else if c > 0 {
        proof {
            if text_lt(a.id@, b.id@) {
                lemma_text_lt_transitive(a.id@, b.id@, a.id@);
                lemma_text_lt_irreflexive(a.id@);
            }
        }
        false
    } else {
        proof {
            lemma_text_lt_irreflexive(a.id@);
        }
        a.start_time.unix_seconds() < b.start_time.unix_seconds()
    }
}

/// Whether `a` and `b` share their composite identity key.
pub fn shares_key(a: &MatchupOverview, b: &MatchupOverview) -> (r: bool)
    ensures
        r == same_key(*a, *b),
{
    compare_text(a.id.as_str(), b.id.as_str()) == 0
        && a.start_time.unix_seconds() == b.start_time.unix_seconds()
}

/// No snapshot comes after a later one: ascending by identity, then by window start.
pub open spec fn ordered(s: Seq<MatchupOverview>) -> bool {
    forall|i: int, j: int| 0 <= i < j < s.len() ==> !key_lt(#[trigger] s[j], #[trigger] s[i])
}

/// The same snapshots, ascending by identity and then by window start.
pub fn order_snapshots(rows: Vec<MatchupOverview>) -> (r: Vec<MatchupOverview>)
    ensures
        ordered(r@),
        r@.to_multiset() == rows@.to_multiset(),
{
    broadcast use vstd::seq_lib::group_to_multiset_ensures, vstd::multiset::group_multiset_axioms;

    let mut rest = rows;
    let mut out: Vec<MatchupOverview> = Vec::new();
    while rest.len() > 0
        invariant
            ordered(out@),
            rest@.to_multiset().add(out@.to_multiset()) == rows@.to_multiset(),
        decreases rest@.len(),
    {
        let ghost before_rest = rest@;
        let x = rest.pop().unwrap();
        proof {
            assert(before_rest =~= rest@.push(x));
        }
        let mut p: usize = 0;
        while p < out.len() && !precedes(&x, &out[p])
            invariant
                ordered(out@),
                before_rest == rest@.push(x),
                before_rest.to_multiset().add(out@.to_multiset()) == rows@.to_multiset(),
                p <= out@.len(),
                forall|j: int| 0 <= j < p ==> !key_lt(x, #[trigger] out@[j]),
            decreases out@.len() - p,
        {
            p = p + 1;
        }
        let ghost before = out@;
        out.insert(p, x);
        proof {
            before.insert_ensures(p as int, x);
            assert forall|a: int, b: int| 0 <= a < b < out@.len() implies !key_lt(
                #[trigger] out@[b],
                #[trigger] out@[a],
            ) by {
                if b < p {
                    assert(out@[a] == before[a] && out@[b] == before[b]);
                } else if a < p && b == p {
                    assert(out@[a] == before[a]);
                } else if a < p {
                    assert(out@[a] == before[a]);
                    assert(out@[b] == before[b - 1]);
                } else if a == p {
                    assert(out@[b] == before[b - 1]);
                    assert(key_lt(x, before[p as int]));
                    if key_lt(before[b - 1], x) {
                        if b - 1 == p {
                            lemma_key_lt_asymmetric(x, before[p as int]);
                        } else {
                            lemma_key_lt_transitive(before[b - 1], x, before[p as int]);
                        }
                    }
                } else {
                    assert(out@[a] == before[a - 1]);
                    assert(out@[b] == before[b - 1]);
                }
            }
            vstd::seq_lib::to_multiset_insert(before, p as int, x);
            vstd::seq_lib::to_multiset_build(rest@, x);
            assert(out@.to_multiset() == before.insert(p as int, x).to_multiset());
            assert(out@.to_multiset() == before.to_multiset().insert(x));
            assert(before_rest.to_multiset() == rest@.push(x).to_multiset());
            assert(before_rest.to_multiset() == rest@.to_multiset().insert(x));
            assert(rest@.to_multiset().add(out@.to_multiset()) =~= before_rest.to_multiset().add(
                before.to_multiset(),
            ));
        }
    }
    proof {
        assert(rest@.to_multiset() =~= Multiset::empty());
    }
    out
}

} // verus!
