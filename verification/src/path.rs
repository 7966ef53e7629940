//! `/`-separated vault paths: splitting into segments, normalising `.` and `..`, and
//! resolving a path typed by the user against the current directory.
//!
//! A path is read as its segments between `/` characters. Normalising walks them in order:
//! empty segments (from `//` or a leading or trailing `/`) and `.` are skipped, `..` drops the
//! last kept segment (and stays put at the root), anything else is kept. The result is written
//! back with a leading `/` before every kept segment, or as `/` alone when nothing is kept.

use vstd::prelude::*;
use crate::text::{chars_eq, copy_chars, push_all};

verus! {

/// The segments of `s` between `/` characters, empty ones included (`"/a//b"` has the
/// segments `""`, `"a"`, `""`, `"b"`).
pub open spec fn segments(s: Seq<char>) -> Seq<Seq<char>>
    decreases s.len(),
{
    if s.len() == 0 {
        seq![Seq::<char>::empty()]
    } else if s.last() == '/' {
        segments(s.drop_last()).push(Seq::<char>::empty())
    } else {
        let p = segments(s.drop_last());
        p.update(p.len() - 1, p.last().push(s.last()))
    }
}

/// The segment `..`.
pub open spec fn dot_dot() -> Seq<char> {
    seq!['.', '.']
}

/// Whether a segment is skipped by normalisation: empty, or `.`.
pub open spec fn is_skipped(seg: Seq<char>) -> bool {
    seg.len() == 0 || seg == seq!['.']
}

/// One step of normalisation: what the kept segments become after reading `seg`.
pub open spec fn step(stack: Seq<Seq<char>>, seg: Seq<char>) -> Seq<Seq<char>> {
    if is_skipped(seg) {
        stack
    } else if seg == dot_dot() {
        if stack.len() > 0 {
            stack.drop_last()
        } else {
            stack
        }
    } else {
        stack.push(seg)
    }
}

/// Reads `segs` in order starting from the kept segments `base`.
pub open spec fn walk(base: Seq<Seq<char>>, segs: Seq<Seq<char>>) -> Seq<Seq<char>>
    decreases segs.len(),
{
    if segs.len() == 0 {
        base
    } else {
        step(walk(base, segs.drop_last()), segs.last())
    }
}

/// `/seg` for every segment, in order.
pub open spec fn render_tail(stack: Seq<Seq<char>>) -> Seq<char>
    decreases stack.len(),
{
    if stack.len() == 0 {
        Seq::<char>::empty()
    } else {
        render_tail(stack.drop_last()) + seq!['/'] + stack.last()
    }
}

/// Writes kept segments back as an absolute path.
pub open spec fn render(stack: Seq<Seq<char>>) -> Seq<char> {
    if stack.len() == 0 {
        seq!['/']
    } else {
        render_tail(stack)
    }
}

/// The kept segments of `p`.
pub open spec fn kept_segments(p: Seq<char>) -> Seq<Seq<char>> {
    walk(Seq::empty(), segments(p))
}

/// `p` normalised.
pub open spec fn normalized(p: Seq<char>) -> Seq<char> {
    render(kept_segments(p))
}

/// Whether `p` starts with `/`.
pub open spec fn is_absolute(p: Seq<char>) -> bool {
    p.len() > 0 && p[0] == '/'
}

/// Where `input` leads from the directory `current`: an absolute `input` is normalised on its
/// own; a relative one is appended to `current` and the whole normalised.
pub open spec fn resolved(current: Seq<char>, input: Seq<char>) -> Seq<char> {
    if is_absolute(input) {
        normalized(input)
    } else {
        normalized(current + seq!['/'] + input)
    }
}

/// A segment that normalisation keeps as it is.
pub open spec fn is_clean_segment(seg: Seq<char>) -> bool {
    &&& !is_skipped(seg)
    &&& seg != dot_dot()
    &&& !seg.contains('/')
}

/// Every segment of `stack` is clean.
pub open spec fn all_clean(stack: Seq<Seq<char>>) -> bool {
    forall|i: int| 0 <= i < stack.len() ==> is_clean_segment(#[trigger] stack[i])
}

/// Splits `p` into its segments.
pub fn split_segments(p: &Vec<char>) -> (r: Vec<Vec<char>>)
    ensures
        r@.len() == segments(p@).len(),
        forall|i: int| 0 <= i < r@.len() ==> #[trigger] r@[i]@ == segments(p@)[i],
{
    let n = p.len();
    let mut out: Vec<Vec<char>> = Vec::new();
    let mut cur: Vec<char> = Vec::new();
    let mut i: usize = 0;
    proof {
        assert(p@.subrange(0, 0) =~= Seq::<char>::empty());
    }
    while i < n
        invariant
            n == p@.len(),
            i <= n,
            out@.len() + 1 == segments(p@.subrange(0, i as int)).len(),
            forall|j: int| 0 <= j < out@.len() ==> #[trigger] out@[j]@ == segments(p@.subrange(0, i as int))[j],
            cur@ == segments(p@.subrange(0, i as int)).last(),
        decreases n - i,
    {
        let ghost prev = p@.subrange(0, i as int);
        let c = p[i];
        assert(p@.subrange(0, i + 1).drop_last() =~= prev);
        if c == '/' {
            out.push(cur);
            cur = Vec::new();
        } else {
            cur.push(c);
        }
        i = i + 1;
    }
    assert(p@.subrange(0, n as int) =~= p@);
    out.push(cur);
    out
}

/// Reads `segs` in order, starting from the kept segments `stack`.
pub fn walk_segments(stack: &mut Vec<Vec<char>>, segs: &Vec<Vec<char>>)
    ensures
        final(stack)@.len() == walk(old(stack)@.map_values(|v: Vec<char>| v@), segs@.map_values(|v: Vec<char>| v@)).len(),
        forall|j: int| 0 <= j < final(stack)@.len() ==> #[trigger] final(stack)@[j]@
            == walk(old(stack)@.map_values(|v: Vec<char>| v@), segs@.map_values(|v: Vec<char>| v@))[j],
{
    let ghost base = old(stack)@.map_values(|v: Vec<char>| v@);
    let ghost all = segs@.map_values(|v: Vec<char>| v@);
    let n = segs.len();
    let mut i: usize = 0;
    assert(all.subrange(0, 0) =~= Seq::<Seq<char>>::empty());
    assert(stack@.map_values(|v: Vec<char>| v@) =~= base);
    while i < n
        invariant
            n == segs@.len(),
            i <= n,
            all == segs@.map_values(|v: Vec<char>| v@),
            stack@.map_values(|v: Vec<char>| v@) == walk(base, all.subrange(0, i as int)),
        decreases n - i,
    {
        let ghost before = stack@.map_values(|v: Vec<char>| v@);
        assert(all.subrange(0, i + 1).drop_last() =~= all.subrange(0, i as int));
        assert(all.subrange(0, i + 1).last() == segs@[i as int]@);
        let seg = &segs[i];
        let skipped = seg.len() == 0 || (seg.len() == 1 && seg[0] == '.');
        let up = seg.len() == 2 && seg[0] == '.' && seg[1] == '.';
        proof {
            if seg@.len() == 1 && seg@[0] == '.' {
                assert(seg@ =~= seq!['.']);
            }
            if seg@ == seq!['.'] {
                assert(seg@.len() == 1);
            }
            if up {
                assert(seg@ =~= dot_dot());
            }
        }
        if skipped {
        } else if up {
            if stack.len() > 0 {
                stack.pop();
                assert(stack@.map_values(|v: Vec<char>| v@) =~= before.drop_last());
            }
        } else {
            stack.push(copy_chars(seg));
            assert(stack@.map_values(|v: Vec<char>| v@) =~= before.push(seg@));
        }
        i = i + 1;
    }
    assert(all.subrange(0, n as int) =~= all);
}

/// Writes kept segments back as an absolute path.
pub fn render_stack(stack: &Vec<Vec<char>>) -> (r: Vec<char>)
    ensures
        r@ == render(stack@.map_values(|v: Vec<char>| v@)),
{
    let ghost st = stack@.map_values(|v: Vec<char>| v@);
    if stack.len() == 0 {
        return vec!['/'];
    }
    let n = stack.len();
    let mut out: Vec<char> = Vec::new();
    let mut i: usize = 0;
    assert(st.subrange(0, 0) =~= Seq::<Seq<char>>::empty());
    while i < n
        invariant
            n == stack@.len(),
            i <= n,
            st == stack@.map_values(|v: Vec<char>| v@),
            out@ == render_tail(st.subrange(0, i as int)),
        decreases n - i,
    {
        assert(st.subrange(0, i + 1).drop_last() =~= st.subrange(0, i as int));
        assert(st.subrange(0, i + 1).last() == stack@[i as int]@);
        out.push('/');
        push_all(&mut out, &stack[i]);
        i = i + 1;
    }
    assert(st.subrange(0, n as int) =~= st);
    out
}

/// `p` normalised.
pub fn normalize(p: &Vec<char>) -> (r: Vec<char>)
    ensures
        r@ == normalized(p@),
{
    let segs = split_segments(p);
    assert(segs@.map_values(|v: Vec<char>| v@) =~= segments(p@));
    let mut stack: Vec<Vec<char>> = Vec::new();
    assert(stack@.map_values(|v: Vec<char>| v@) =~= Seq::<Seq<char>>::empty());
    walk_segments(&mut stack, &segs);
    assert(stack@.map_values(|v: Vec<char>| v@) =~= kept_segments(p@));
    render_stack(&stack)
}

/// Where `input` leads from the directory `current` (see `resolved`).
pub fn resolve_relative(current: &Vec<char>, input: &Vec<char>) -> (r: Vec<char>)
    ensures
        r@ == resolved(current@, input@),
{
    if input.len() > 0 && input[0] == '/' {
        normalize(input)
    } else {
        let mut combined = copy_chars(current);
        combined.push('/');
        push_all(&mut combined, input);
        assert(combined@ =~= current@ + seq!['/'] + input@);
        normalize(&combined)
    }
}


/// No segment of `s` holds a `/`.
proof fn lemma_segments_have_no_slash(s: Seq<char>)
    ensures
        forall|i: int| 0 <= i < segments(s).len() ==> !(#[trigger] segments(s)[i]).contains('/'),
        segments(s).len() > 0,
    decreases s.len(),
{
    if s.len() > 0 {
        lemma_segments_have_no_slash(s.drop_last());
        let p = segments(s.drop_last());
        if s.last() != '/' {
            let q = p.update(p.len() - 1, p.last().push(s.last()));
            assert forall|i: int| 0 <= i < q.len() implies !(#[trigger] q[i]).contains('/') by {
                if i == p.len() - 1 {
                    if q[i].contains('/') {
                        let k = choose|k: int| 0 <= k < q[i].len() && q[i][k] == '/';
                        assert(p.last().contains('/') || k == p.last().len());
                        if k < p.last().len() {
                            assert(p.last()[k] == '/');
                        }
                    }
                }
            }
        } else {
            let q = p.push(Seq::<char>::empty());
            assert forall|i: int| 0 <= i < q.len() implies !(#[trigger] q[i]).contains('/') by {
                if i == p.len() {
                    assert(q[i] =~= Seq::<char>::empty());
                }
            }
        }
    }
}

/// Walking segments free of `/` from clean kept segments keeps them clean.
proof fn lemma_walk_stays_clean(base: Seq<Seq<char>>, segs: Seq<Seq<char>>)
    requires
        all_clean(base),
        forall|i: int| 0 <= i < segs.len() ==> !(#[trigger] segs[i]).contains('/'),
    ensures
        all_clean(walk(base, segs)),
    decreases segs.len(),
{
    if segs.len() > 0 {
        assert forall|i: int| 0 <= i < segs.drop_last().len() implies !(#[trigger] segs.drop_last()[i]).contains('/') by {
            assert(segs.drop_last()[i] == segs[i]);
        }
        lemma_walk_stays_clean(base, segs.drop_last());
        let w = walk(base, segs.drop_last());
        let seg = segs.last();
        assert(!seg.contains('/'));
        if !is_skipped(seg) && seg != dot_dot() {
            assert(w.push(seg)[w.len() as int] == seg);
        }
    }
}

/// Law: a normalised path keeps only clean segments — none empty, `.`, `..`, or holding `/`.
pub proof fn lemma_normalized_segments_are_clean(p: Seq<char>)
    ensures
        all_clean(kept_segments(p)),
{
    lemma_segments_have_no_slash(p);
    lemma_walk_stays_clean(Seq::empty(), segments(p));
}

/// Law: a normalised path is absolute.
pub proof fn lemma_normalized_is_absolute(p: Seq<char>)
    ensures
        is_absolute(normalized(p)),
{
    lemma_render_is_absolute(kept_segments(p));
}

proof fn lemma_render_is_absolute(stack: Seq<Seq<char>>)
    ensures
        is_absolute(render(stack)),
{
    if stack.len() > 0 {
        lemma_render_tail_starts_with_slash(stack);
    }
}

proof fn lemma_render_tail_starts_with_slash(stack: Seq<Seq<char>>)
    requires
        stack.len() > 0,
    ensures
        render_tail(stack).len() > 0,
        render_tail(stack)[0] == '/',
    decreases stack.len(),
{
    if stack.len() > 1 {
        lemma_render_tail_starts_with_slash(stack.drop_last());
    } else {
        assert(render_tail(stack.drop_last()) =~= Seq::<char>::empty());
    }
}

/// Appending characters free of `/` extends the last segment.
proof fn lemma_segments_extend_last(x: Seq<char>, c: Seq<char>)
    requires
        !c.contains('/'),
    ensures
        segments(x + c) == segments(x).update(segments(x).len() - 1, segments(x).last() + c),
    decreases c.len(),
{
    lemma_segments_have_no_slash(x);
    if c.len() == 0 {
        assert(x + c =~= x);
        assert(segments(x).last() + c =~= segments(x).last());
        assert(segments(x).update(segments(x).len() - 1, segments(x).last()) =~= segments(x));
    } else {
        let c0 = c.drop_last();
        assert(!c0.contains('/')) by {
            if c0.contains('/') {
                let k = choose|k: int| 0 <= k < c0.len() && c0[k] == '/';
                assert(c[k] == '/');
            }
        }
        lemma_segments_extend_last(x, c0);
        assert((x + c).drop_last() =~= x + c0);
        assert((x + c).last() == c.last());
        assert(c.last() != '/') by {
            assert(c[c.len() - 1] == c.last());
        }
        lemma_segments_have_no_slash(x + c0);
        let p = segments(x);
        assert(p.last() + c0 + seq![c.last()] =~= p.last() + c);
        assert((p.last() + c0).push(c.last()) =~= p.last() + c);
        assert(p.update(p.len() - 1, p.last() + c0).update(p.len() - 1, (p.last() + c0).push(c.last()))
            =~= p.update(p.len() - 1, p.last() + c));
    }
}

/// The segments of a rendered path: the empty one before the leading `/`, then the kept ones.
proof fn lemma_segments_of_render_tail(stack: Seq<Seq<char>>)
    requires
        forall|i: int| 0 <= i < stack.len() ==> !(#[trigger] stack[i]).contains('/'),
    ensures
        segments(render_tail(stack)) == seq![Seq::<char>::empty()] + stack,
    decreases stack.len(),
{
    if stack.len() == 0 {
        assert(seq![Seq::<char>::empty()] + stack =~= seq![Seq::<char>::empty()]);
    } else {
        let init = stack.drop_last();
        assert forall|i: int| 0 <= i < init.len() implies !(#[trigger] init[i]).contains('/') by {
            assert(init[i] == stack[i]);
        }
        lemma_segments_of_render_tail(init);
        let a = render_tail(init) + seq!['/'];
        assert(a.drop_last() =~= render_tail(init));
        assert(a.last() == '/');
        assert(segments(a) == segments(render_tail(init)).push(Seq::<char>::empty()));
        assert(!stack.last().contains('/')) by {
            assert(stack[stack.len() - 1] == stack.last());
        }
        lemma_segments_extend_last(a, stack.last());
        assert(render_tail(stack) == a + stack.last());
        let q = segments(a);
        assert(q.last() =~= Seq::<char>::empty());
        assert(q.last() + stack.last() =~= stack.last());
        assert(q.update(q.len() - 1, stack.last()) =~= seq![Seq::<char>::empty()] + stack);
    }
}

/// Walking is a left fold: the first segment is read first.
proof fn lemma_walk_first(base: Seq<Seq<char>>, x: Seq<char>, s: Seq<Seq<char>>)
    ensures
        walk(base, seq![x] + s) == walk(step(base, x), s),
    decreases s.len(),
{
    if s.len() == 0 {
        assert((seq![x] + s).drop_last() =~= Seq::<Seq<char>>::empty());
        assert(walk(base, Seq::<Seq<char>>::empty()) == base);
    } else {
        lemma_walk_first(base, x, s.drop_last());
        assert((seq![x] + s).drop_last() =~= seq![x] + s.drop_last());
        assert((seq![x] + s).last() == s.last());
    }
}

/// Walking clean segments from nothing keeps all of them.
proof fn lemma_walk_clean_is_identity(stack: Seq<Seq<char>>)
    requires
        all_clean(stack),
    ensures
        walk(Seq::empty(), stack) == stack,
    decreases stack.len(),
{
    if stack.len() > 0 {
        let init = stack.drop_last();
        assert forall|i: int| 0 <= i < init.len() implies is_clean_segment(#[trigger] init[i]) by {
            assert(init[i] == stack[i]);
        }
        lemma_walk_clean_is_identity(init);
        assert(is_clean_segment(stack[stack.len() - 1]));
        assert(init.push(stack.last()) =~= stack);
    }
}

/// Law: normalising is idempotent — a normalised path normalises to itself.
pub proof fn lemma_normalize_idempotent(p: Seq<char>)
    ensures
        normalized(normalized(p)) == normalized(p),
{
    let stack = kept_segments(p);
    lemma_normalized_segments_are_clean(p);
    if stack.len() == 0 {
        let slash = seq!['/'];
        assert(slash.drop_last() =~= Seq::<char>::empty());
        assert(slash.last() == '/');
        assert(segments(Seq::<char>::empty()) == seq![Seq::<char>::empty()]);
        assert(segments(slash) == segments(Seq::<char>::empty()).push(Seq::<char>::empty()));
        let segs = segments(slash);
        assert(segs =~= seq![Seq::<char>::empty(), Seq::<char>::empty()]);
        assert(segs.drop_last() =~= seq![Seq::<char>::empty()]);
        assert(segs.drop_last().drop_last() =~= Seq::<Seq<char>>::empty());
        let e = Seq::<Seq<char>>::empty();
        assert(is_skipped(Seq::<char>::empty()));
        assert(walk(e, segs.drop_last().drop_last()) == e);
        assert(walk(e, segs.drop_last()) == step(e, Seq::<char>::empty()));
        assert(walk(e, segs) == step(walk(e, segs.drop_last()), Seq::<char>::empty()));
        assert(walk(e, segs) =~= Seq::<Seq<char>>::empty());
    } else {
        assert forall|i: int| 0 <= i < stack.len() implies !(#[trigger] stack[i]).contains('/') by {
            assert(is_clean_segment(stack[i]));
        }
        lemma_segments_of_render_tail(stack);
        lemma_walk_first(Seq::empty(), Seq::<char>::empty(), stack);
        lemma_walk_clean_is_identity(stack);
    }
}

/// Law: an absolute path resolves to itself normalised, wherever the user is standing.
pub proof fn lemma_absolute_input_ignores_current(c1: Seq<char>, c2: Seq<char>, input: Seq<char>)
    requires
        is_absolute(input),
    ensures
        resolved(c1, input) == resolved(c2, input),
        resolved(c1, input) == normalized(input),
{
}

/// Law: whatever is typed, the directory it resolves to is absolute and normalised.
pub proof fn lemma_resolved_is_normal(current: Seq<char>, input: Seq<char>)
    ensures
        is_absolute(resolved(current, input)),
        normalized(resolved(current, input)) == resolved(current, input),
{
    if is_absolute(input) {
        lemma_normalized_is_absolute(input);
        lemma_normalize_idempotent(input);
    } else {
        lemma_normalized_is_absolute(current + seq!['/'] + input);
        lemma_normalize_idempotent(current + seq!['/'] + input);
    }
}


/// The parent of the normalised path `p`: `None` for the root.
pub open spec fn parent_of(p: Seq<char>) -> Option<Seq<char>> {
    let st = kept_segments(p);
    if st.len() == 0 {
        None
    } else {
        Some(render(st.drop_last()))
    }
}

/// The last component of the normalised path `p`: `None` for the root.
pub open spec fn file_name_of(p: Seq<char>) -> Option<Seq<char>> {
    let st = kept_segments(p);
    if st.len() == 0 {
        None
    } else {
        Some(st.last())
    }
}

/// Whether the normalised path `p` lies at or under the normalised path `base`, comparing
/// whole components (so `/docs2` is not under `/docs`).
pub open spec fn within(p: Seq<char>, base: Seq<char>) -> bool {
    let a = kept_segments(p);
    let b = kept_segments(base);
    b.len() <= a.len() && a.subrange(0, b.len() as int) == b
}

/// `name` as a child of the directory `parent`.
pub open spec fn joined(parent: Seq<char>, name: Seq<char>) -> Seq<char> {
    if parent.len() > 0 && parent.last() == '/' {
        parent + name
    } else {
        parent + seq!['/'] + name
    }
}

/// The kept segments of `p`.
pub fn kept(p: &Vec<char>) -> (r: Vec<Vec<char>>)
    ensures
        r@.len() == kept_segments(p@).len(),
        forall|j: int| 0 <= j < r@.len() ==> #[trigger] r@[j]@ == kept_segments(p@)[j],
{
    let segs = split_segments(p);
    assert(segs@.map_values(|v: Vec<char>| v@) =~= segments(p@));
    let mut stack: Vec<Vec<char>> = Vec::new();
    assert(stack@.map_values(|v: Vec<char>| v@) =~= Seq::<Seq<char>>::empty());
    walk_segments(&mut stack, &segs);
    stack
}

/// The parent of the normalised path `p`.
pub fn parent(p: &Vec<char>) -> (r: Option<Vec<char>>)
    ensures
        match r {
            Some(q) => parent_of(p@) == Some(q@),
            None => parent_of(p@) is None,
        },
{
    let mut st = kept(p);
    if st.len() == 0 {
        None
    } else {
        let ghost full = st@.map_values(|v: Vec<char>| v@);
        assert(full =~= kept_segments(p@));
        st.pop();
        assert(st@.map_values(|v: Vec<char>| v@) =~= kept_segments(p@).drop_last());
        Some(render_stack(&st))
    }
}

/// The last component of the normalised path `p`.
pub fn file_name(p: &Vec<char>) -> (r: Option<Vec<char>>)
    ensures
        match r {
            Some(q) => file_name_of(p@) == Some(q@),
            None => file_name_of(p@) is None,
        },
{
    let st = kept(p);
    if st.len() == 0 {
        None
    } else {
        let last = st.len() - 1;
        Some(copy_chars(&st[last]))
    }
}

/// Whether the normalised path `p` lies at or under `base` (see `within`).
pub fn is_within(p: &Vec<char>, base: &Vec<char>) -> (b: bool)
    ensures
        b == within(p@, base@),
{
    let a = kept(p);
    let c = kept(base);
    let ghost av = a@.map_values(|v: Vec<char>| v@);
    let ghost cv = c@.map_values(|v: Vec<char>| v@);
    assert(av =~= kept_segments(p@));
    assert(cv =~= kept_segments(base@));
    if c.len() > a.len() {
        return false;
    }
    let mut i: usize = 0;
    while i < c.len()
        invariant
            c@.len() <= a@.len(),
            i <= c@.len(),
            av == a@.map_values(|v: Vec<char>| v@),
            cv == c@.map_values(|v: Vec<char>| v@),
            forall|j: int| 0 <= j < i ==> av[j] == cv[j],
            av == kept_segments(p@),
            cv == kept_segments(base@),
        decreases c.len() - i,
    {
        if !chars_eq(&a[i], &c[i]) {
            assert(av[i as int] == a@[i as int]@ && cv[i as int] == c@[i as int]@);
            assert(av.subrange(0, cv.len() as int)[i as int] != cv[i as int]);
            return false;
        }
        i = i + 1;
    }
    assert(av.subrange(0, cv.len() as int) =~= cv);
    true
}

/// `name` as a child of the directory `parent`.
pub fn join_name(parent: &Vec<char>, name: &Vec<char>) -> (r: Vec<char>)
    ensures
        r@ == joined(parent@, name@),
{
    let mut out = copy_chars(parent);
    if !(parent.len() > 0 && parent[parent.len() - 1] == '/') {
        out.push('/');
    }
    push_all(&mut out, name);
    out
}

} // verus!
