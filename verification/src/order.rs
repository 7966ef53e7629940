//! Lexicographic order on character sequences (the order of `String`'s `Ord`, which compares
//! code points), and sorting strings by it.

use vstd::prelude::*;
use vstd::relations::{sorted_by, total_ordering};
use crate::text::chars_of;

verus! {

/// `a` sorts no later than `b`: compared character by character by code point, a proper
/// prefix sorting first.
pub open spec fn lex_le(a: Seq<char>, b: Seq<char>) -> bool
    decreases a.len(),
{
    if a.len() == 0 {
        true
    } else if b.len() == 0 {
        false
    } else if a[0] != b[0] {
        (a[0] as int) < (b[0] as int)
    } else {
        lex_le(a.drop_first(), b.drop_first())
    }
}

/// The views of a vector of strings.
pub open spec fn views(v: Seq<String>) -> Seq<Seq<char>> {
    v.map_values(|s: String| s@)
}

pub proof fn lemma_lex_le_reflexive(a: Seq<char>)
    ensures
        lex_le(a, a),
    decreases a.len(),
{
    if a.len() > 0 {
        lemma_lex_le_reflexive(a.drop_first());
    }
}

pub proof fn lemma_lex_le_antisymmetric(a: Seq<char>, b: Seq<char>)
    requires
        lex_le(a, b),
        lex_le(b, a),
    ensures
        a == b,
    decreases a.len(),
{
    if a.len() > 0 && b.len() > 0 {
        if a[0] == b[0] {
            lemma_lex_le_antisymmetric(a.drop_first(), b.drop_first());
            assert(a =~= seq![a[0]] + a.drop_first());
            assert(b =~= seq![b[0]] + b.drop_first());
        } else {
            assert((a[0] as int) != (b[0] as int));
        }
    } else {
        assert(a.len() == 0 && b.len() == 0);
        assert(a =~= b);
    }
}

pub proof fn lemma_lex_le_transitive(a: Seq<char>, b: Seq<char>, c: Seq<char>)
    requires
        lex_le(a, b),
        lex_le(b, c),
    ensures
        lex_le(a, c),
    decreases a.len(),
{
    if a.len() > 0 && b.len() > 0 && c.len() > 0 {
        if a[0] == b[0] && b[0] == c[0] {
            lemma_lex_le_transitive(a.drop_first(), b.drop_first(), c.drop_first());
        }
    }
}

pub proof fn lemma_lex_le_total(a: Seq<char>, b: Seq<char>)
    ensures
        lex_le(a, b) || lex_le(b, a),
    decreases a.len(),
{
    if a.len() > 0 && b.len() > 0 {
        if a[0] == b[0] {
            lemma_lex_le_total(a.drop_first(), b.drop_first());
        } else {
            assert((a[0] as int) != (b[0] as int));
        }
    }
}

/// `lex_le` is a total order.
pub proof fn lemma_lex_le_total_ordering()
    ensures
        total_ordering(|a: Seq<char>, b: Seq<char>| lex_le(a, b)),
{
    let leq = |a: Seq<char>, b: Seq<char>| lex_le(a, b);
    assert forall|a: Seq<char>| #[trigger] leq(a, a) by {
        lemma_lex_le_reflexive(a);
    }
    assert forall|a: Seq<char>, b: Seq<char>| #[trigger] leq(a, b) && #[trigger] leq(b, a) implies a == b by {
        lemma_lex_le_antisymmetric(a, b);
    }
    assert forall|a: Seq<char>, b: Seq<char>, c: Seq<char>|
        #[trigger] leq(a, b) && #[trigger] leq(b, c) implies #[trigger] leq(a, c) by {
        lemma_lex_le_transitive(a, b, c);
    }
    assert forall|a: Seq<char>, b: Seq<char>| #[trigger] leq(a, b) || #[trigger] leq(b, a) by {
        lemma_lex_le_total(a, b);
    }
    assert(vstd::relations::reflexive(leq));
    assert(vstd::relations::antisymmetric(leq));
    assert(vstd::relations::transitive(leq));
    assert(vstd::relations::strongly_connected(leq));
}

/// Whether `a` sorts no later than `b`.
pub fn chars_le(a: &Vec<char>, b: &Vec<char>) -> (r: bool)
    ensures
        r == lex_le(a@, b@),
{
    let mut i: usize = 0;
    assert(a@.subrange(0, a@.len() as int) =~= a@);
    assert(b@.subrange(0, b@.len() as int) =~= b@);
    while i < a.len() && i < b.len() && a[i] == b[i]
        invariant
            i <= a@.len(),
            i <= b@.len(),
            lex_le(a@, b@) == lex_le(a@.subrange(i as int, a@.len() as int), b@.subrange(i as int, b@.len() as int)),
        decreases a.len() - i,
    {
        let ghost sa = a@.subrange(i as int, a@.len() as int);
        let ghost sb = b@.subrange(i as int, b@.len() as int);
        assert(sa.drop_first() =~= a@.subrange(i + 1, a@.len() as int));
        assert(sb.drop_first() =~= b@.subrange(i + 1, b@.len() as int));
        i = i + 1;
    }
    let ghost sa = a@.subrange(i as int, a@.len() as int);
    let ghost sb = b@.subrange(i as int, b@.len() as int);
    if i == a.len() {
        assert(sa.len() == 0);
        true
    } else if i == b.len() {
        assert(sb.len() == 0);
        false
    } else {
        assert(sa[0] == a@[i as int] && sb[0] == b@[i as int]);
        a[i] < b[i]
    }
}

/// Whether `a` sorts no later than `b`.
pub fn str_le(a: &str, b: &str) -> (r: bool)
    ensures
        r == lex_le(a@, b@),
{
    let x = chars_of(a);
    let y = chars_of(b);
    chars_le(&x, &y)
}

/// Inserting `x` where it belongs keeps a sorted sequence sorted.
proof fn lemma_insert_keeps_sorted(before: Seq<Seq<char>>, p: int, x: Seq<char>)
    requires
        sorted_by(before, |a: Seq<char>, b: Seq<char>| lex_le(a, b)),
        0 <= p <= before.len(),
        forall|k: int| 0 <= k < p ==> lex_le(#[trigger] before[k], x),
        forall|k: int| p <= k < before.len() ==> lex_le(x, #[trigger] before[k]),
    ensures
        sorted_by(before.insert(p, x), |a: Seq<char>, b: Seq<char>| lex_le(a, b)),
{
    let leq = |a: Seq<char>, b: Seq<char>| lex_le(a, b);
    let after = before.insert(p, x);
    assert forall|a: int, b: int| 0 <= a < b < after.len() implies #[trigger] leq(after[a], after[b]) by {
        if b < p {
            assert(leq(before[a], before[b]));
        } else if b == p {
            assert(lex_le(before[a], x));
        } else if a == p {
            assert(lex_le(x, before[b - 1]));
        } else if a < p {
            assert(leq(before[a], before[b - 1]));
        } else {
            assert(leq(before[a - 1], before[b - 1]));
        }
    }
}

/// `v`, sorted (the same strings, in `lex_le` order).
pub fn sort_strings(v: Vec<String>) -> (r: Vec<String>)
    ensures
        views(r@) == views(v@).sort_by(|a: Seq<char>, b: Seq<char>| lex_le(a, b)),
{
    let ghost leq = |a: Seq<char>, b: Seq<char>| lex_le(a, b);
    let mut r: Vec<String> = Vec::new();
    let n = v.len();
    let mut i: usize = 0;
    proof {
        lemma_lex_le_total_ordering();
        assert(views(r@) =~= Seq::<Seq<char>>::empty());
        assert(views(v@).subrange(0, 0) =~= Seq::<Seq<char>>::empty());
    }
    while i < n
        invariant
            n == v@.len(),
            i <= n,
            sorted_by(views(r@), leq),
            views(r@).to_multiset() == views(v@).subrange(0, i as int).to_multiset(),
            total_ordering(leq),
            leq == (|a: Seq<char>, b: Seq<char>| lex_le(a, b)),
        decreases n - i,
    {
        let x = v[i].clone();
        let mut p: usize = r.len();
        while p > 0 && !str_le(r[p - 1].as_str(), x.as_str())
            invariant
                p <= r@.len(),
                forall|k: int| p <= k < r@.len() ==> !lex_le(#[trigger] r@[k]@, x@),
            decreases p,
        {
            p = p - 1;
        }
        let ghost before = views(r@);
        proof {
            assert forall|k: int| p <= k < before.len() implies lex_le(x@, #[trigger] before[k]) by {
                lemma_lex_le_total(x@, r@[k]@);
            }
            assert forall|k: int| 0 <= k < p implies lex_le(#[trigger] before[k], x@) by {
                assert(lex_le(before[p - 1], x@));
                if k < p - 1 {
                    assert(leq(before[k], before[p - 1]));
                    lemma_lex_le_transitive(before[k], before[p - 1], x@);
                }
            }
            lemma_insert_keeps_sorted(before, p as int, x@);
        }
        r.insert(p, x);
        proof {
            let after = views(r@);
            assert(after =~= before.insert(p as int, v@[i as int]@));
            assert(views(v@).subrange(0, i + 1) =~= views(v@).subrange(0, i as int).insert(i as int, v@[i as int]@));
            vstd::seq_lib::to_multiset_insert(before, p as int, v@[i as int]@);
            vstd::seq_lib::to_multiset_insert(views(v@).subrange(0, i as int), i as int, v@[i as int]@);
        }
        i = i + 1;
    }
    proof {
        assert(views(v@).subrange(0, n as int) =~= views(v@));
        views(v@).lemma_sort_by_ensures(leq);
        vstd::seq_lib::lemma_sorted_unique(views(r@), views(v@).sort_by(leq), leq);
    }
    r
}

} // verus!
