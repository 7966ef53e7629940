//! Tab completion at the command-line prompt: subcommand names as the first word of the
//! line, and the first argument of `cd` (whose candidates the session supplies).

use vstd::prelude::*;
use crate::daemon::is_space_char;
use crate::text::{chars_of, string_of};
use crate::wrap::{is_space, split_words, words};

verus! {

/// The prompt's subcommands, in the order they are offered.
pub open spec fn subcommand_names() -> Seq<Seq<char>> {
    seq![
        "ls"@, "vaults"@, "select"@, "new"@, "cd"@, "put"@, "get"@, "delete"@, "cp"@, "mv"@,
        "push"@, "pull"@, "exit"@,
    ]
}

/// The prompt's subcommands.
pub fn subcommands() -> (r: Vec<&'static str>)
    ensures
        r@.map_values(|s: &'static str| s@) == subcommand_names(),
{
    let r = vec![
        "ls", "vaults", "select", "new", "cd", "put", "get", "delete", "cp", "mv", "push", "pull",
        "exit",
    ];
    assert(r@.map_values(|s: &'static str| s@) =~= subcommand_names());
    r
}

/// Where the word ending at the end of `s` starts: just after the last white space in `s`.
pub open spec fn word_start(s: Seq<char>) -> int
    decreases s.len(),
{
    if s.len() == 0 {
        0
    } else if is_space(s.last()) {
        s.len() as int
    } else {
        word_start(s.drop_last())
    }
}

/// What is offered at the cursor.
#[derive(Debug, PartialEq, Eq)]
pub enum Completion {
    /// These subcommand names, which start with the word under the cursor.
    Commands(Vec<String>),
    /// The first argument of `cd`, which is this far typed: the session lists what it can be.
    CdArgument(String),
    /// Nothing is completed here.
    Nothing,
}

/// What completing `line` with the cursor after `pos` characters offers, and from which
/// character on the candidates replace the line: the word under the cursor runs from just
/// after the last white space before the cursor up to the cursor. As the first word it
/// completes to the subcommands it starts; as the first argument of `cd`, to what the session
/// finds; anywhere else, to nothing. What follows the cursor plays no part.
pub open spec fn completion_at(line: Seq<char>, pos: int) -> (int, CompletionView) {
    let head = line.subrange(0, pos);
    let start = word_start(head);
    let before = head.subrange(0, start);
    let word = head.subrange(start, pos);
    if words(before).len() == 0 {
        (start, CompletionView::Commands(subcommand_names().filter(|c: Seq<char>| word.is_prefix_of(c))))
    } else if words(before) == seq!["cd"@] {
        (start, CompletionView::CdArgument(word))
    } else {
        (start, CompletionView::Nothing)
    }
}

/// A `Completion` as plain values.
pub enum CompletionView {
    Commands(Seq<Seq<char>>),
    CdArgument(Seq<char>),
    Nothing,
}

impl Completion {
    /// This completion as plain values.
    pub open spec fn view_of(&self) -> CompletionView {
        match self {
            Completion::Commands(v) => CompletionView::Commands(v@.map_values(|s: String| s@)),
            Completion::CdArgument(w) => CompletionView::CdArgument(w@),
            Completion::Nothing => CompletionView::Nothing,
        }
    }
}

/// Whether `p` begins `s`.
fn begins(s: &Vec<char>, p: &Vec<char>) -> (b: bool)
    ensures
        b == p@.is_prefix_of(s@),
{
    if p.len() > s.len() {
        return false;
    }
    let mut i: usize = 0;
    while i < p.len()
        invariant
            p@.len() <= s@.len(),
            i <= p@.len(),
            forall|j: int| 0 <= j < i ==> p@[j] == s@[j],
        decreases p.len() - i,
    {
        if p[i] != s[i] {
            assert(s@.subrange(0, p@.len() as int)[i as int] != p@[i as int]);
            return false;
        }
        i = i + 1;
    }
    assert(p@ =~= s@.subrange(0, p@.len() as int));
    true
}

/// Where the word before `k` starts in `v`.
fn find_word_start(v: &Vec<char>, k: usize) -> (r: usize)
    requires
        k <= v@.len(),
    ensures
        r as int == word_start(v@.subrange(0, k as int)),
        r <= k,
    decreases k,
{
    if k == 0 {
        0
    } else {
        assert(v@.subrange(0, k as int).drop_last() =~= v@.subrange(0, k - 1));
        if is_space_char(v[k - 1]) {
            k
        } else {
            find_word_start(v, k - 1)
        }
    }
}

/// The characters of `v` from `a` up to `b`.
fn chars_between(v: &Vec<char>, a: usize, b: usize) -> (r: Vec<char>)
    requires
        a <= b <= v@.len(),
    ensures
        r@ == v@.subrange(a as int, b as int),
{
    let mut out: Vec<char> = Vec::new();
    let mut i = a;
    while i < b
        invariant
            a <= i <= b <= v@.len(),
            out@ == v@.subrange(a as int, i as int),
        decreases b - i,
    {
        out.push(v[i]);
        i = i + 1;
        assert(out@ =~= v@.subrange(a as int, i as int));
    }
    out
}

/// The subcommands that start with `word`, in order.
fn commands_starting(word: &Vec<char>) -> (r: Vec<String>)
    ensures
        r@.map_values(|s: String| s@) == subcommand_names().filter(|c: Seq<char>| word@.is_prefix_of(c)),
{
    let all = subcommands();
    let ghost names = subcommand_names();
    let ghost pred = |c: Seq<char>| word@.is_prefix_of(c);
    let mut out: Vec<String> = Vec::new();
    let mut i: usize = 0;
    proof {
        reveal_with_fuel(Seq::filter, 1);
        assert(names.take(0) =~= Seq::<Seq<char>>::empty());
        assert(out@.map_values(|s: String| s@) =~= names.take(0).filter(pred));
    }
    while i < all.len()
        invariant
            i <= all@.len(),
            all@.len() == names.len(),
            all@.map_values(|s: &'static str| s@) == names,
            names == subcommand_names(),
            pred == (|c: Seq<char>| word@.is_prefix_of(c)),
            out@.map_values(|s: String| s@) == names.take(i as int).filter(pred),
        decreases all.len() - i,
    {
        let c = chars_of(all[i]);
        assert(c@ == names[i as int]);
        let ghost before = out@.map_values(|s: String| s@);
        proof {
            assert(names.take(i + 1) =~= names.take(i as int).push(names[i as int]));
            names.take(i as int).lemma_filter_push(names[i as int], pred);
        }
        if begins(&c, word) {
            out.push(string_of(&c));
            assert(out@.map_values(|s: String| s@) =~= before.push(names[i as int]));
        } else {
            assert(out@.map_values(|s: String| s@) =~= before);
        }
        i = i + 1;
    }
    assert(names.take(names.len() as int) =~= names);
    out
}

/// What completing `line` with the cursor after `pos` characters offers, and the character
/// where the candidates start (see `completion_at`).
pub fn complete_at(line: &str, pos: usize) -> (r: (usize, Completion))
    requires
        pos <= line@.len(),
    ensures
        (r.0 as int, r.1.view_of()) == completion_at(line@, pos as int),
{
    let v = chars_of(line);
    let head = chars_between(&v, 0, pos);
    let start = find_word_start(&v, pos);
    assert(v@.subrange(0, pos as int) == head@);
    let before = chars_between(&head, 0, start);
    let word = chars_between(&head, start, pos);
    let ws = split_words(&before);
    if ws.len() == 0 {
        let cmds = commands_starting(&word);
        return (start, Completion::Commands(cmds));
    }
    if ws.len() == 1 && ws[0].len() == 2 && ws[0][0] == 'c' && ws[0][1] == 'd' {
        proof {
            reveal_strlit("cd");
            assert(words(before@) =~= seq!["cd"@]) by {
                assert(ws@[0]@ =~= "cd"@);
            }
        }
        return (start, Completion::CdArgument(string_of(&word)));
    }
    proof {
        reveal_strlit("cd");
        if words(before@) == seq!["cd"@] {
            assert(ws@[0]@ == "cd"@);
            assert(ws@[0]@[0] == 'c' && ws@[0]@[1] == 'd');
        }
    }
    (start, Completion::Nothing)
}

} // verus!
