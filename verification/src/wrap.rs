//! Greedy word wrapping for the message and help panes.

use vstd::prelude::*;
use crate::order::views;
use crate::text::{chars_of, push_all, string_of};
use crate::widgets::{push_repeated, repeated};
use crate::text::copy_chars;

verus! {

/// Whether `c` is a Unicode white-space character (the `White_Space` property).
pub open spec fn is_space(c: char) -> bool {
    let n = c as u32;
    (9 <= n <= 13) || n == 32 || n == 0x85 || n == 0xA0 || n == 0x1680 || (0x2000 <= n <= 0x200A)
        || n == 0x2028 || n == 0x2029 || n == 0x202F || n == 0x205F || n == 0x3000
}

/// Scanning state after `s`: the words already closed, and the word being read.
pub open spec fn scan_words(s: Seq<char>) -> (Seq<Seq<char>>, Seq<char>)
    decreases s.len(),
{
    if s.len() == 0 {
        (Seq::empty(), Seq::empty())
    } else {
        let (done, cur) = scan_words(s.drop_last());
        let c = s.last();
        if is_space(c) {
            if cur.len() > 0 {
                (done.push(cur), Seq::empty())
            } else {
                (done, cur)
            }
        } else {
            (done, cur.push(c))
        }
    }
}

/// The words of `s`: its maximal runs of non-white-space characters, in order.
pub open spec fn words(s: Seq<char>) -> Seq<Seq<char>> {
    let (done, cur) = scan_words(s);
    if cur.len() > 0 {
        done.push(cur)
    } else {
        done
    }
}

/// `w` cut into pieces of `n` characters (the last one possibly shorter); a word that already
/// fits is its own single piece.
pub open spec fn pieces(w: Seq<char>, n: nat) -> Seq<Seq<char>>
    decreases w.len(),
{
    if w.len() <= n || n == 0 {
        seq![w]
    } else {
        seq![w.subrange(0, n as int)] + pieces(w.subrange(n as int, w.len() as int), n)
    }
}

/// The lines closed so far and the line being filled, after placing `piece` greedily on a
/// line of `avail` columns whose finished form carries `prefix`.
pub open spec fn place(
    st: (Seq<Seq<char>>, Seq<char>),
    piece: Seq<char>,
    prefix: Seq<char>,
    avail: nat,
) -> (Seq<Seq<char>>, Seq<char>) {
    let (lines, cur) = st;
    let extra = if cur.len() == 0 {
        piece.len()
    } else {
        piece.len() + 1
    };
    if cur.len() > 0 && cur.len() + extra > avail {
        (lines.push(prefix + cur), piece)
    } else if cur.len() > 0 {
        (lines, cur + seq![' '] + piece)
    } else {
        (lines, cur + piece)
    }
}

/// Places each of `ps` in turn.
pub open spec fn place_all(
    st: (Seq<Seq<char>>, Seq<char>),
    ps: Seq<Seq<char>>,
    prefix: Seq<char>,
    avail: nat,
) -> (Seq<Seq<char>>, Seq<char>)
    decreases ps.len(),
{
    if ps.len() == 0 {
        st
    } else {
        place(place_all(st, ps.drop_last(), prefix, avail), ps.last(), prefix, avail)
    }
}

/// Places the pieces of each of `ws` in turn.
pub open spec fn place_words(
    st: (Seq<Seq<char>>, Seq<char>),
    ws: Seq<Seq<char>>,
    prefix: Seq<char>,
    avail: nat,
) -> (Seq<Seq<char>>, Seq<char>)
    decreases ws.len(),
{
    if ws.len() == 0 {
        st
    } else {
        place_all(place_words(st, ws.drop_last(), prefix, avail), pieces(ws.last(), avail), prefix, avail)
    }
}

/// The columns a line's text may use: `width - indent`, and never less than one.
pub open spec fn available(indent: nat, width: nat) -> nat {
    if width > indent {
        (width - indent) as nat
    } else {
        1
    }
}

/// `text` wrapped greedily to `width` columns, every line prefixed with `indent` spaces.
pub open spec fn wrapped(text: Seq<char>, indent: nat, width: nat) -> Seq<Seq<char>> {
    let avail = available(indent, width);
    let prefix = repeated(' ', indent);
    let (lines, cur) = place_words((Seq::empty(), Seq::empty()), words(text), prefix, avail);
    if cur.len() > 0 {
        lines.push(prefix + cur)
    } else {
        lines
    }
}

/// The words of `s`.
pub fn split_words(s: &Vec<char>) -> (r: Vec<Vec<char>>)
    ensures
        r@.len() == words(s@).len(),
        forall|j: int| 0 <= j < r@.len() ==> #[trigger] r@[j]@ == words(s@)[j],
        forall|j: int| 0 <= j < r@.len() ==> #[trigger] r@[j]@.len() > 0,
{
    let mut done: Vec<Vec<char>> = Vec::new();
    let mut cur: Vec<char> = Vec::new();
    let mut i: usize = 0;
    while i < s.len()
        invariant
            i <= s@.len(),
            done@.len() == scan_words(s@.subrange(0, i as int)).0.len(),
            forall|j: int| 0 <= j < done@.len() ==> #[trigger] done@[j]@ == scan_words(s@.subrange(0, i as int)).0[j],
            forall|j: int| 0 <= j < done@.len() ==> #[trigger] done@[j]@.len() > 0,
            cur@ == scan_words(s@.subrange(0, i as int)).1,
        decreases s.len() - i,
    {
        assert(s@.subrange(0, i + 1).drop_last() =~= s@.subrange(0, i as int));
        let c = s[i];
        let n = c as u32;
        let space = (9 <= n && n <= 13) || n == 32 || n == 0x85 || n == 0xA0 || n == 0x1680 || (
        0x2000 <= n && n <= 0x200A) || n == 0x2028 || n == 0x2029 || n == 0x202F || n == 0x205F
            || n == 0x3000;
        if space {
            if cur.len() > 0 {
                let mut w: Vec<char> = Vec::new();
                std::mem::swap(&mut w, &mut cur);
                done.push(w);
            }
        } else {
            cur.push(c);
        }
        i = i + 1;
    }
    assert(s@.subrange(0, s@.len() as int) =~= s@);
    if cur.len() > 0 {
        done.push(cur);
    }
    done
}

/// Splits `word` into pieces that each fit within `width` columns. Anything already short
/// enough comes back as a single piece, so ordinary prose is untouched.
pub fn split_to_width(word: &str, width: usize) -> (r: Vec<String>)
    requires
        width > 0 || word@.len() == 0,
    ensures
        views(r@) == pieces(word@, width as nat),
{
    let w = chars_of(word);
    if w.len() <= width {
        let out = vec![string_of(&w)];
        assert(views(out@) =~= pieces(word@, width as nat));
        return out;
    }
    let ps = split_pieces(&w, width);
    let mut out: Vec<String> = Vec::new();
    let mut i: usize = 0;
    while i < ps.len()
        invariant
            i <= ps@.len(),
            views(out@) == pieces(word@, width as nat).subrange(0, i as int),
            ps@.map_values(|v: Vec<char>| v@) == pieces(w@, width as nat),
            w@ == word@,
        decreases ps.len() - i,
    {
        let s = string_of(&ps[i]);
        assert(s@ == ps@.map_values(|v: Vec<char>| v@)[i as int]);
        let ghost before = views(out@);
        out.push(s);
        assert(views(out@) =~= before.push(s@));
        i = i + 1;
        assert(views(out@) =~= pieces(word@, width as nat).subrange(0, i as int));
    }
    assert(pieces(word@, width as nat).subrange(0, i as int) =~= pieces(word@, width as nat));
    out
}

/// The pieces of `w` (see `pieces`).
fn split_pieces(w: &Vec<char>, n: usize) -> (r: Vec<Vec<char>>)
    requires
        n > 0,
    ensures
        r@.map_values(|v: Vec<char>| v@) == pieces(w@, n as nat),
{
    let mut out: Vec<Vec<char>> = Vec::new();
    let mut start: usize = 0;
    assert(w@.subrange(0, w@.len() as int) =~= w@);
    while w.len() - start > n
        invariant
            n > 0,
            start <= w@.len(),
            out@.map_values(|v: Vec<char>| v@) + pieces(w@.subrange(start as int, w@.len() as int), n as nat)
                == pieces(w@, n as nat),
        decreases w.len() - start,
    {
        let ghost sub = w@.subrange(start as int, w@.len() as int);
        let ghost old_out = out@.map_values(|v: Vec<char>| v@);
        assert(sub.subrange(n as int, sub.len() as int) =~= w@.subrange(start + n, w@.len() as int));
        assert(sub.subrange(0, n as int) =~= w@.subrange(start as int, start + n));
        out.push(copy_range(w, start, start + n));
        start = start + n;
        assert(out@.map_values(|v: Vec<char>| v@) =~= old_out.push(sub.subrange(0, n as int)));
        assert(old_out.push(sub.subrange(0, n as int)) + pieces(w@.subrange(start as int, w@.len() as int), n as nat)
            =~= old_out + pieces(sub, n as nat));
    }
    let ghost old_out = out@.map_values(|v: Vec<char>| v@);
    out.push(copy_range(w, start, w.len()));
    assert(out@.map_values(|v: Vec<char>| v@) =~= old_out + pieces(w@.subrange(start as int, w@.len() as int), n as nat));
    out
}

/// The characters of `w` from `a` up to `b`.
fn copy_range(w: &Vec<char>, a: usize, b: usize) -> (r: Vec<char>)
    requires
        a <= b <= w@.len(),
    ensures
        r@ == w@.subrange(a as int, b as int),
{
    let mut r: Vec<char> = Vec::new();
    let mut i = a;
    while i < b
        invariant
            a <= i <= b,
            b <= w@.len(),
            r@ == w@.subrange(a as int, i as int),
        decreases b - i,
    {
        r.push(w[i]);
        i = i + 1;
        assert(r@ =~= w@.subrange(a as int, i as int));
    }
    r
}


/// Every piece of `w` fits in `n` columns.
proof fn lemma_pieces_fit(w: Seq<char>, n: nat)
    requires
        n > 0,
    ensures
        forall|k: int| 0 <= k < pieces(w, n).len() ==> #[trigger] pieces(w, n)[k].len() <= n,
    decreases w.len(),
{
    if w.len() > n {
        lemma_pieces_fit(w.subrange(n as int, w.len() as int), n);
        let rest = pieces(w.subrange(n as int, w.len() as int), n);
        assert forall|k: int| 0 <= k < pieces(w, n).len() implies #[trigger] pieces(w, n)[k].len() <= n by {
            if k > 0 {
                assert(pieces(w, n)[k] == rest[k - 1]);
            }
        }
    }
}

/// The line views of `lines`.
pub open spec fn line_views(lines: Seq<Vec<char>>) -> Seq<Seq<char>> {
    lines.map_values(|v: Vec<char>| v@)
}

/// Whether every line of `lines` is `prefix` followed by at most `avail` characters.
pub open spec fn lines_fit(lines: Seq<Seq<char>>, prefix: Seq<char>, avail: nat) -> bool {
    forall|k: int| 0 <= k < lines.len() ==> #[trigger] lines[k].len() <= prefix.len() + avail
        && lines[k].subrange(0, prefix.len() as int) == prefix
}

/// Greedily wraps `text` to `width` columns, prefixing every resulting line with `indent`
/// spaces so continuations stay visually attached to what they belong to.
///
/// A word too long to fit on a line of its own is broken across lines rather than left to
/// overflow, so an unbroken path or id in an error message stays visible in full.
pub fn wrap_indented(text: &str, indent: usize, width: usize) -> (r: Vec<String>)
    ensures
        views(r@) == wrapped(text@, indent as nat, width as nat),
        lines_fit(views(r@), repeated(' ', indent as nat), available(indent as nat, width as nat)),
{
    let avail: usize = if width > indent {
        width - indent
    } else {
        1
    };
    let ghost av = available(indent as nat, width as nat);
    let mut prefix: Vec<char> = Vec::new();
    push_repeated(&mut prefix, ' ', indent);
    assert(prefix@ =~= repeated(' ', indent as nat));
    let chars = chars_of(text);
    let ws = split_words(&chars);
    let ghost wv = words(text@);
    let mut lines: Vec<Vec<char>> = Vec::new();
    let mut cur: Vec<char> = Vec::new();
    let mut i: usize = 0;
    while i < ws.len()
        invariant
            avail == av,
            avail > 0,
            prefix@ == repeated(' ', indent as nat),
            chars@ == text@,
            wv == words(text@),
            ws@.len() == wv.len(),
            forall|j: int| 0 <= j < ws@.len() ==> #[trigger] ws@[j]@ == wv[j],
            i <= ws@.len(),
            (line_views(lines@), cur@) == place_words((Seq::empty(), Seq::empty()), wv.subrange(0, i as int), prefix@, av),
            cur@.len() <= av,
            lines_fit(line_views(lines@), prefix@, av),
        decreases ws.len() - i,
    {
        let ps = split_pieces(&ws[i], avail);
        proof {
            lemma_pieces_fit(ws@[i as int]@, av);
        }
        let ghost st0 = (line_views(lines@), cur@);
        let mut j: usize = 0;
        while j < ps.len()
            invariant
                avail == av,
                avail > 0,
                prefix@ == repeated(' ', indent as nat),
                ps@.map_values(|v: Vec<char>| v@) == pieces(ws@[i as int]@, av),
                forall|k: int| 0 <= k < pieces(ws@[i as int]@, av).len() ==> #[trigger] pieces(ws@[i as int]@, av)[k].len() <= av,
                j <= ps@.len(),
                (line_views(lines@), cur@) == place_all(st0, pieces(ws@[i as int]@, av).subrange(0, j as int), prefix@, av),
                cur@.len() <= av,
                lines_fit(line_views(lines@), prefix@, av),
            decreases ps.len() - j,
        {
            let ghost ps_v = pieces(ws@[i as int]@, av);
            assert(ps_v.subrange(0, j + 1).drop_last() =~= ps_v.subrange(0, j as int));
            let p = &ps[j];
            assert(p@ == ps_v[j as int]);
            let ghost before = line_views(lines@);
            if cur.len() > 0 && p.len() >= avail - cur.len() {
                let mut line = copy_chars(&prefix);
                push_all(&mut line, &cur);
                assert(line@.subrange(0, indent as int) =~= prefix@);
                lines.push(line);
                assert(line_views(lines@) =~= before.push(prefix@ + cur@));
                cur = copy_chars(p);
            } else {
                if cur.len() > 0 {
                    cur.push(' ');
                }
                push_all(&mut cur, p);
            }
            j = j + 1;
        }
        assert(pieces(ws@[i as int]@, av).subrange(0, j as int) =~= pieces(ws@[i as int]@, av));
        assert(wv.subrange(0, i + 1).drop_last() =~= wv.subrange(0, i as int));
        i = i + 1;
    }
    assert(wv.subrange(0, i as int) =~= wv);
    if cur.len() > 0 {
        let mut line = copy_chars(&prefix);
        push_all(&mut line, &cur);
        assert(line@.subrange(0, indent as int) =~= prefix@);
        let ghost before = line_views(lines@);
        lines.push(line);
        assert(line_views(lines@) =~= before.push(prefix@ + cur@));
    }
    let mut out: Vec<String> = Vec::new();
    let mut k: usize = 0;
    while k < lines.len()
        invariant
            k <= lines@.len(),
            views(out@) == line_views(lines@).subrange(0, k as int),
        decreases lines.len() - k,
    {
        let s = string_of(&lines[k]);
        let ghost before = views(out@);
        out.push(s);
        assert(views(out@) =~= before.push(s@));
        k = k + 1;
        assert(views(out@) =~= line_views(lines@).subrange(0, k as int));
    }
    assert(line_views(lines@).subrange(0, k as int) =~= line_views(lines@));
    out
}

} // verus!
