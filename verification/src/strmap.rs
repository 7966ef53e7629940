//! `StrMap`: a small map from strings to strings, kept as a list of unique keys. It holds the
//! free-form key/value pairs of object metadata and the command origin's variables. Verus's
//! specification of std's `HashMap` says what a lookup or an insert does only for keys whose
//! hashing it models (integers), not for `String` keys, so the map is a vector of pairs with
//! uniqueness of keys as its invariant, and its view is the `Map` those pairs spell out.

use vstd::prelude::*;
use crate::order::{sort_strings, views, lex_le};
use vstd::relations::sorted_by;

verus! {

/// The views of a list of string pairs.
pub open spec fn pair_views(s: Seq<(String, String)>) -> Seq<(Seq<char>, Seq<char>)> {
    s.map_values(|p: (String, String)| (p.0@, p.1@))
}

/// The value recorded for `k` in `s`, the last entry for `k` winning.
pub open spec fn lookup(s: Seq<(Seq<char>, Seq<char>)>, k: Seq<char>) -> Option<Seq<char>>
    decreases s.len(),
{
    if s.len() == 0 {
        None
    } else if s.last().0 == k {
        Some(s.last().1)
    } else {
        lookup(s.drop_last(), k)
    }
}

/// No key occurs twice in `s`.
pub open spec fn keys_unique(s: Seq<(Seq<char>, Seq<char>)>) -> bool {
    forall|i: int, j: int| 0 <= i < j < s.len() ==> s[i].0 != s[j].0
}

/// The map that `s` describes.
pub open spec fn as_map(s: Seq<(Seq<char>, Seq<char>)>) -> Map<Seq<char>, Seq<char>> {
    Map::new(|k: Seq<char>| lookup(s, k) is Some, |k: Seq<char>| lookup(s, k)->Some_0)
}

proof fn lemma_lookup_by_index(s: Seq<(Seq<char>, Seq<char>)>, k: Seq<char>)
    requires
        keys_unique(s),
    ensures
        lookup(s, k) is None <==> forall|i: int| 0 <= i < s.len() ==> s[i].0 != k,
        forall|i: int| 0 <= i < s.len() && s[i].0 == k ==> lookup(s, k) == Some(s[i].1),
    decreases s.len(),
{
    if s.len() > 0 {
        let t = s.drop_last();
        assert(keys_unique(t)) by {
            assert forall|i: int, j: int| 0 <= i < j < t.len() implies t[i].0 != t[j].0 by {
                assert(s[i].0 != s[j].0);
            }
        }
        lemma_lookup_by_index(t, k);
        if s.last().0 == k {
            assert forall|i: int| 0 <= i < s.len() && s[i].0 == k implies lookup(s, k) == Some(s[i].1) by {
                if i < s.len() - 1 {
                    assert(s[i].0 != s[s.len() - 1].0);
                }
            }
        } else {
            assert forall|i: int| 0 <= i < s.len() && s[i].0 == k implies lookup(s, k) == Some(s[i].1) by {
                assert(i < s.len() - 1);
                assert(t[i] == s[i]);
            }
            if lookup(s, k) is None {
                assert forall|i: int| 0 <= i < s.len() implies s[i].0 != k by {
                    if i < s.len() - 1 {
                        assert(t[i] == s[i]);
                    }
                }
            }
        }
    }
}


/// A list of unique keys describes a map with as many keys.
proof fn lemma_map_len(s: Seq<(Seq<char>, Seq<char>)>)
    requires
        keys_unique(s),
    ensures
        as_map(s).dom().finite(),
        as_map(s).dom().len() == s.len(),
    decreases s.len(),
{
    if s.len() == 0 {
        assert(as_map(s).dom() =~= Set::<Seq<char>>::empty());
    } else {
        let t = s.drop_last();
        assert(keys_unique(t)) by {
            assert forall|i: int, j: int| 0 <= i < j < t.len() implies t[i].0 != t[j].0 by {
                assert(s[i].0 != s[j].0);
            }
        }
        lemma_map_len(t);
        lemma_lookup_by_index(t, s.last().0);
        assert forall|i: int| 0 <= i < t.len() implies t[i].0 != s.last().0 by {
            assert(s[i].0 != s[s.len() - 1].0);
        }
        assert(as_map(s).dom() =~= as_map(t).dom().insert(s.last().0));
        assert(!as_map(t).dom().contains(s.last().0));
    }
}

/// The keys of `m` in ascending order, each once.
pub open spec fn canonical_keys(m: Map<Seq<char>, Seq<char>>) -> Seq<Seq<char>> {
    choose|s: Seq<Seq<char>>| s.to_set() == m.dom() && sorted_by(s, |a: Seq<char>, b: Seq<char>| lex_le(a, b)) && s.no_duplicates()
}

/// The entries of `m`, in ascending key order.
pub open spec fn canonical_entries(m: Map<Seq<char>, Seq<char>>) -> Seq<(Seq<char>, Seq<char>)> {
    canonical_keys(m).map_values(|k: Seq<char>| (k, m[k]))
}

/// Two ascending, duplicate-free key lists with the same keys are the same list.
pub proof fn lemma_sorted_keys_unique(a: Seq<Seq<char>>, b: Seq<Seq<char>>)
    requires
        a.to_set() == b.to_set(),
        sorted_by(a, |x: Seq<char>, y: Seq<char>| lex_le(x, y)),
        sorted_by(b, |x: Seq<char>, y: Seq<char>| lex_le(x, y)),
        a.no_duplicates(),
        b.no_duplicates(),
    ensures
        a == b,
{
    broadcast use vstd::seq_lib::group_to_multiset_ensures;
    let leq = |x: Seq<char>, y: Seq<char>| lex_le(x, y);
    crate::order::lemma_lex_le_total_ordering();
    a.lemma_multiset_has_no_duplicates();
    b.lemma_multiset_has_no_duplicates();
    assert forall|x: Seq<char>| a.to_multiset().count(x) == b.to_multiset().count(x) by {
        assert(a.contains(x) <==> a.to_set().contains(x));
        assert(b.contains(x) <==> b.to_set().contains(x));
        if a.contains(x) {
            assert(a.to_multiset().contains(x));
            assert(b.to_multiset().contains(x));
        } else {
            assert(!b.contains(x));
        }
    }
    assert(a.to_multiset() =~= b.to_multiset());
    vstd::seq_lib::lemma_sorted_unique(a, b, leq);
}

/// A map from strings to strings.
pub struct StrMap {
    entries: Vec<(String, String)>,
}

impl View for StrMap {
    type V = Map<Seq<char>, Seq<char>>;

    closed spec fn view(&self) -> Map<Seq<char>, Seq<char>> {
        as_map(pair_views(self.entries@))
    }
}

impl StrMap {
    #[verifier::type_invariant]
    closed spec fn inv(self) -> bool {
        keys_unique(pair_views(self.entries@))
    }

    /// An empty map.
    pub fn new() -> (r: StrMap)
        ensures
            r@ == Map::<Seq<char>, Seq<char>>::empty(),
    {
        let r = StrMap { entries: Vec::new() };
        assert(r@ =~= Map::<Seq<char>, Seq<char>>::empty());
        r
    }

    fn index_of(&self, k: &String) -> (r: Option<usize>)
        ensures
            match r {
                Some(i) => i < self.entries@.len() && self.entries@[i as int].0@ == k@,
                None => forall|i: int| 0 <= i < self.entries@.len() ==> self.entries@[i].0@ != k@,
            },
    {
        let mut i: usize = 0;
        while i < self.entries.len()
            invariant
                i <= self.entries@.len(),
                forall|j: int| 0 <= j < i ==> self.entries@[j].0@ != k@,
            decreases self.entries.len() - i,
        {
            if self.entries[i].0 == *k {
                return Some(i);
            }
            i = i + 1;
        }
        None
    }

    /// The value recorded for `k`.
    pub fn get(&self, k: &String) -> (r: Option<String>)
        ensures
            match r {
                Some(v) => self@.contains_key(k@) && v@ == self@[k@],
                None => !self@.contains_key(k@),
            },
    {
        proof {
            use_type_invariant(self);
            lemma_lookup_by_index(pair_views(self.entries@), k@);
        }
        match self.index_of(k) {
            Some(i) => {
                assert(pair_views(self.entries@)[i as int].0 == k@);
                Some(self.entries[i].1.clone())
            },
            None => {
                assert forall|j: int| 0 <= j < pair_views(self.entries@).len() implies pair_views(self.entries@)[j].0 != k@ by {
                    assert(self.entries@[j].0@ != k@);
                }
                None
            },
        }
    }

    /// Whether `k` has a value.
    pub fn contains_key(&self, k: &String) -> (b: bool)
        ensures
            b == self@.contains_key(k@),
    {
        self.get(k).is_some()
    }

    /// Records `v` for `k`, replacing any earlier value.
    pub fn insert(&mut self, k: String, v: String)
        ensures
            final(self)@ == old(self)@.insert(k@, v@),
    {
        proof {
            use_type_invariant(&*self);
        }
        let ghost old_views = pair_views(self.entries@);
        let ghost kv = k@;
        let ghost vv = v@;
        match self.index_of(&k) {
            Some(i) => {
                let mut entries: Vec<(String, String)> = Vec::new();
                std::mem::swap(&mut entries, &mut self.entries);
                entries.set(i, (k, v));
                let ghost new_views = pair_views(entries@);
                assert(new_views =~= old_views.update(i as int, (kv, vv)));
                assert(keys_unique(new_views)) by {
                    assert forall|a: int, b: int| 0 <= a < b < new_views.len() implies new_views[a].0 != new_views[b].0 by {
                        if a != i && b != i {
                            assert(old_views[a].0 != old_views[b].0);
                        } else if a == i {
                            assert(old_views[i as int].0 != old_views[b].0);
                        } else {
                            assert(old_views[a].0 != old_views[i as int].0);
                        }
                    }
                }
                proof {
                    lemma_lookup_by_index(old_views, kv);
                    assert forall|x: Seq<char>| #![auto] lookup(new_views, x) == (if x == kv { Some(vv) } else { lookup(old_views, x) }) by {
                        lemma_lookup_by_index(old_views, x);
                        lemma_lookup_by_index(new_views, x);
                        if x == kv {
                            assert(new_views[i as int].0 == x);
                        } else {
                            if lookup(old_views, x) is Some {
                                let j = choose|j: int| 0 <= j < old_views.len() && old_views[j].0 == x;
                                assert(new_views[j] == old_views[j]);
                            } else {
                                assert forall|j: int| 0 <= j < new_views.len() implies new_views[j].0 != x by {
                                    if j != i {
                                        assert(new_views[j] == old_views[j]);
                                    }
                                }
                            }
                        }
                    }
                }
                self.entries = entries;
                assert(self@ =~= old(self)@.insert(kv, vv));
            },
            None => {
                let mut entries: Vec<(String, String)> = Vec::new();
                std::mem::swap(&mut entries, &mut self.entries);
                entries.push((k, v));
                let ghost new_views = pair_views(entries@);
                assert(new_views =~= old_views.push((kv, vv)));
                assert forall|j: int| 0 <= j < old_views.len() implies old_views[j].0 != kv by {
                    assert(self.entries@.len() == 0 || true);
                }
                assert(keys_unique(new_views)) by {
                    assert forall|a: int, b: int| 0 <= a < b < new_views.len() implies new_views[a].0 != new_views[b].0 by {
                        if b < old_views.len() {
                            assert(old_views[a].0 != old_views[b].0);
                        } else {
                            assert(old_views[a].0 != kv);
                        }
                    }
                }
                assert forall|x: Seq<char>| #![auto] lookup(new_views, x) == (if x == kv { Some(vv) } else { lookup(old_views, x) }) by {
                    assert(new_views.drop_last() =~= old_views);
                }
                self.entries = entries;
                assert(self@ =~= old(self)@.insert(kv, vv));
            },
        }
    }

    /// Drops `k` and its value.
    pub fn remove(&mut self, k: &String)
        ensures
            final(self)@ == old(self)@.remove(k@),
    {
        proof {
            use_type_invariant(&*self);
        }
        let ghost old_views = pair_views(self.entries@);
        let ghost kv = k@;
        match self.index_of(k) {
            Some(i) => {
                let mut entries: Vec<(String, String)> = Vec::new();
                std::mem::swap(&mut entries, &mut self.entries);
                entries.remove(i);
                let ghost new_views = pair_views(entries@);
                assert(new_views =~= old_views.remove(i as int));
                assert(keys_unique(new_views)) by {
                    assert forall|a: int, b: int| 0 <= a < b < new_views.len() implies new_views[a].0 != new_views[b].0 by {
                        let a2 = if a < i { a } else { a + 1 };
                        let b2 = if b < i { b } else { b + 1 };
                        assert(new_views[a] == old_views[a2]);
                        assert(new_views[b] == old_views[b2]);
                        assert(old_views[a2].0 != old_views[b2].0);
                    }
                }
                assert forall|x: Seq<char>| #![auto] lookup(new_views, x) == (if x == kv { None } else { lookup(old_views, x) }) by {
                    lemma_lookup_by_index(old_views, x);
                    lemma_lookup_by_index(new_views, x);
                    if x == kv {
                        assert forall|j: int| 0 <= j < new_views.len() implies new_views[j].0 != x by {
                            let j2 = if j < i { j } else { j + 1 };
                            assert(new_views[j] == old_views[j2]);
                            assert(old_views[i as int].0 == kv);
                            assert(j2 != i);
                        }
                    } else {
                        if lookup(old_views, x) is Some {
                            let j = choose|j: int| 0 <= j < old_views.len() && old_views[j].0 == x;
                            assert(j != i);
                            let j2 = if j < i { j } else { j - 1 };
                            assert(new_views[j2] == old_views[j]);
                        } else {
                            assert forall|j: int| 0 <= j < new_views.len() implies new_views[j].0 != x by {
                                let j2 = if j < i { j } else { j + 1 };
                                assert(new_views[j] == old_views[j2]);
                            }
                        }
                    }
                }
                self.entries = entries;
                assert(self@ =~= old(self)@.remove(kv));
            },
            None => {
                proof {
                    lemma_lookup_by_index(old_views, kv);
                    assert forall|j: int| 0 <= j < old_views.len() implies old_views[j].0 != kv by {
                        assert(self.entries@[j].0@ != kv);
                    }
                }
                assert(self@ =~= old(self)@.remove(kv));
            },
        }
    }

    /// The keys, sorted.
    pub fn sorted_keys(&self) -> (r: Vec<String>)
        ensures
            views(r@).to_set() == self@.dom(),
            views(r@) == views(r@).sort_by(|a: Seq<char>, b: Seq<char>| lex_le(a, b)),
            views(r@).no_duplicates(),
    {
        proof {
            use_type_invariant(self);
        }
        let mut keys: Vec<String> = Vec::new();
        let mut i: usize = 0;
        while i < self.entries.len()
            invariant
                i <= self.entries@.len(),
                views(keys@) == pair_views(self.entries@).subrange(0, i as int).map_values(|p: (Seq<char>, Seq<char>)| p.0),
            decreases self.entries.len() - i,
        {
            let ghost before = views(keys@);
            let key = self.entries[i].0.clone();
            keys.push(key);
            assert(views(keys@) =~= before.push(pair_views(self.entries@)[i as int].0));
            i = i + 1;
            assert(views(keys@) =~= pair_views(self.entries@).subrange(0, i as int).map_values(|p: (Seq<char>, Seq<char>)| p.0));
        }
        let ghost ks = views(keys@);
        let ghost pv = pair_views(self.entries@);
        assert(pv.subrange(0, pv.len() as int) =~= pv);
        let r = sort_strings(keys);
        proof {
            crate::order::lemma_lex_le_total_ordering();
            let leq = |a: Seq<char>, b: Seq<char>| lex_le(a, b);
            ks.lemma_sort_by_ensures(leq);
            let sorted = ks.sort_by(leq);
            assert(ks.no_duplicates()) by {
                assert forall|a: int, b: int| 0 <= a < ks.len() && 0 <= b < ks.len() && a != b implies ks[a] != ks[b] by {
                    if a < b {
                        assert(pv[a].0 != pv[b].0);
                    } else {
                        assert(pv[b].0 != pv[a].0);
                    }
                }
            }
            ks.lemma_multiset_has_no_duplicates();
            assert(sorted.to_multiset() == ks.to_multiset());
            sorted.lemma_multiset_has_no_duplicates_conv();
            assert forall|x: Seq<char>| #![auto] sorted.contains(x) <==> self@.contains_key(x) by {
                broadcast use vstd::seq_lib::group_to_multiset_ensures;
                lemma_lookup_by_index(pv, x);
                assert(sorted.contains(x) <==> sorted.to_multiset().count(x) > 0);
                assert(ks.contains(x) <==> ks.to_multiset().count(x) > 0);
                if ks.contains(x) {
                    let j = choose|j: int| 0 <= j < ks.len() && ks[j] == x;
                    assert(pv[j].0 == x);
                }
                if self@.contains_key(x) {
                    let j = choose|j: int| 0 <= j < pv.len() && pv[j].0 == x;
                    assert(ks[j] == x);
                }
            }
            assert(sorted.to_set() =~= self@.dom());
            lemma_sort_idempotent(sorted);
        }
        r
    }
}

impl StrMap {
    /// How many keys have a value.
    pub fn len(&self) -> (r: usize)
        ensures
            r == self@.dom().len(),
    {
        proof {
            use_type_invariant(self);
            lemma_map_len(pair_views(self.entries@));
        }
        self.entries.len()
    }

    /// Whether no key has a value.
    pub fn is_empty(&self) -> (b: bool)
        ensures
            b == (self@.dom().len() == 0),
    {
        self.len() == 0
    }

    /// A copy of the map.
    pub fn duplicate(&self) -> (r: StrMap)
        ensures
            r@ == self@,
    {
        proof {
            use_type_invariant(self);
        }
        let mut entries: Vec<(String, String)> = Vec::new();
        let mut i: usize = 0;
        while i < self.entries.len()
            invariant
                i <= self.entries@.len(),
                pair_views(entries@) == pair_views(self.entries@).subrange(0, i as int),
            decreases self.entries.len() - i,
        {
            let ghost before = pair_views(entries@);
            let k = self.entries[i].0.clone();
            let v = self.entries[i].1.clone();
            entries.push((k, v));
            assert(pair_views(entries@) =~= before.push(pair_views(self.entries@)[i as int]));
            i = i + 1;
            assert(pair_views(entries@) =~= pair_views(self.entries@).subrange(0, i as int));
        }
        assert(pair_views(self.entries@).subrange(0, i as int) =~= pair_views(self.entries@));
        StrMap { entries }
    }

    /// The entries, in ascending key order.
    pub fn sorted_entries(&self) -> (r: Vec<(String, String)>)
        ensures
            pair_views(r@) == canonical_entries(self@),
    {
        let keys = self.sorted_keys();
        let ghost kv = views(keys@);
        proof {
            lemma_sort_idempotent(kv);
            crate::order::lemma_lex_le_total_ordering();
            kv.lemma_sort_by_ensures(|a: Seq<char>, b: Seq<char>| lex_le(a, b));
            let c = canonical_keys(self@);
            assert(kv.to_set() == self@.dom() && sorted_by(kv, |a: Seq<char>, b: Seq<char>| lex_le(a, b)) && kv.no_duplicates());
            lemma_sorted_keys_unique(kv, c);
        }
        let mut out: Vec<(String, String)> = Vec::new();
        let mut i: usize = 0;
        while i < keys.len()
            invariant
                i <= keys@.len(),
                kv == views(keys@),
                kv == canonical_keys(self@),
                kv.to_set() == self@.dom(),
                pair_views(out@) == canonical_entries(self@).subrange(0, i as int),
            decreases keys.len() - i,
        {
            assert(kv.to_set().contains(kv[i as int]));
            let v = match self.get(&keys[i]) {
                Some(v) => v,
                None => {
                    assert(false);
                    String::new()
                },
            };
            let ghost before = pair_views(out@);
            out.push((keys[i].clone(), v));
            assert(pair_views(out@) =~= before.push((kv[i as int], self@[kv[i as int]])));
            i = i + 1;
            assert(pair_views(out@) =~= canonical_entries(self@).subrange(0, i as int));
        }
        assert(canonical_entries(self@).subrange(0, i as int) =~= canonical_entries(self@));
        out
    }
}

/// Sorting a sorted sequence leaves it as it is.
proof fn lemma_sort_idempotent(s: Seq<Seq<char>>)
    requires
        s == s.sort_by(|a: Seq<char>, b: Seq<char>| lex_le(a, b)) || vstd::relations::sorted_by(s, |a: Seq<char>, b: Seq<char>| lex_le(a, b)),
    ensures
        s == s.sort_by(|a: Seq<char>, b: Seq<char>| lex_le(a, b)),
{
    let leq = |a: Seq<char>, b: Seq<char>| lex_le(a, b);
    crate::order::lemma_lex_le_total_ordering();
    s.lemma_sort_by_ensures(leq);
    if !(s == s.sort_by(leq)) {
        vstd::seq_lib::lemma_sorted_unique(s, s.sort_by(leq), leq);
    }
}

} // verus!
