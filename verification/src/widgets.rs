//! Column-fitting helpers for the object list: byte counts in short units, and names padded
//! or elided to a fixed width.

use vstd::prelude::*;
use crate::text::{chars_of, decimal, decimal_chars, digit_char, push_all, string_of};

verus! {

/// `1024` raised to `u`.
pub open spec fn pow1024(u: nat) -> nat
    decreases u,
{
    if u == 0 {
        1
    } else {
        1024 * pow1024((u - 1) as nat)
    }
}

/// The unit a byte count is shown in: the largest power of 1024 (up to the fourth, `T`) that
/// does not exceed it.
pub open spec fn unit_of(bytes: nat) -> nat {
    if bytes >= pow1024(4) {
        4
    } else if bytes >= pow1024(3) {
        3
    } else if bytes >= pow1024(2) {
        2
    } else if bytes >= pow1024(1) {
        1
    } else {
        0
    }
}

/// The letter of unit `u` (`K`, `M`, `G`, `T` for one to four).
pub open spec fn unit_letter(u: nat) -> char {
    if u == 1 {
        'K'
    } else if u == 2 {
        'M'
    } else if u == 3 {
        'G'
    } else {
        'T'
    }
}

/// `n / d` rounded to the nearest integer, ties going to the even neighbour.
pub open spec fn round_half_even(n: nat, d: nat) -> nat {
    let q = n / d;
    let r = n % d;
    if 2 * r < d {
        q
    } else if 2 * r > d {
        q + 1
    } else if q % 2 == 0 {
        q
    } else {
        q + 1
    }
}

/// A byte count in the largest unit that keeps it short: plain bytes below a kilobyte, one
/// decimal while the value is under ten, none from there on.
pub open spec fn human_size_text(bytes: nat) -> Seq<char> {
    let u = unit_of(bytes);
    if u == 0 {
        decimal(bytes) + seq!['B']
    } else if bytes < 10 * pow1024(u) {
        let tenths = round_half_even(bytes * 10, pow1024(u));
        decimal(tenths / 10) + seq!['.', digit_char((tenths % 10) as int), unit_letter(u)]
    } else {
        decimal(round_half_even(bytes, pow1024(u))) + seq![unit_letter(u)]
    }
}

proof fn lemma_pow1024_values()
    ensures
        pow1024(0) == 1,
        pow1024(1) == 1024,
        pow1024(2) == 1048576,
        pow1024(3) == 1073741824,
        pow1024(4) == 1099511627776,
{
    reveal_with_fuel(pow1024, 5);
}

/// Exact rounding of `n / d`, ties to even, for `d > 0`.
fn div_round_half_even(n: u64, d: u64) -> (r: u64)
    requires
        d > 0,
        d <= 1099511627776,
    ensures
        r == round_half_even(n as nat, d as nat),
{
    let q = n / d;
    let rem = n % d;
    if 2 * rem < d {
        q
    } else if 2 * rem > d {
        assert(q < u64::MAX) by (nonlinear_arith)
            requires
                q == n / d,
                d > 1,
                n <= u64::MAX,
        ;
        q + 1
    } else if q % 2 == 0 {
        q
    } else {
        assert(q < u64::MAX) by (nonlinear_arith)
            requires
                q == n / d,
                d > 1,
                n <= u64::MAX,
        ;
        q + 1
    }
}

/// Renders a byte count in the largest unit that keeps it short.
pub fn human_size(bytes: u64) -> (r: String)
    ensures
        r@ == human_size_text(bytes as nat),
{
    proof {
        lemma_pow1024_values();
    }
    let mut unit: u64 = 0;
    let mut d: u64 = 1;
    if bytes >= 1099511627776 {
        unit = 4;
        d = 1099511627776;
    } else if bytes >= 1073741824 {
        unit = 3;
        d = 1073741824;
    } else if bytes >= 1048576 {
        unit = 2;
        d = 1048576;
    } else if bytes >= 1024 {
        unit = 1;
        d = 1024;
    }
    assert(unit == unit_of(bytes as nat) && d == pow1024(unit as nat));
    let mut out: Vec<char>;
    if unit == 0 {
        out = decimal_chars(bytes);
        out.push('B');
    } else {
        let letter = if unit == 1 {
            'K'
        } else if unit == 2 {
            'M'
        } else if unit == 3 {
            'G'
        } else {
            'T'
        };
        if bytes < 10 * d {
            let tenths = div_round_half_even(bytes * 10, d);
            out = decimal_chars(tenths / 10);
            out.push('.');
            let digit = (48u8 + (tenths % 10) as u8) as char;
            out.push(digit);
            out.push(letter);
        } else {
            out = decimal_chars(div_round_half_even(bytes, d));
            out.push(letter);
        }
    }
    assert(out@ =~= human_size_text(bytes as nat));
    string_of(&out)
}

/// `n` copies of `c`.
pub open spec fn repeated(c: char, n: nat) -> Seq<char> {
    Seq::new(n, |i: int| c)
}

/// `text` fitted to exactly `width` characters: padded with spaces when short, otherwise
/// elided in the middle with `…`, keeping the head (rounded up) and the tail of what fits.
pub open spec fn fitted(text: Seq<char>, width: nat) -> Seq<char> {
    let count = text.len();
    if count <= width {
        text + repeated(' ', (width - count) as nat)
    } else if width <= 1 {
        repeated('…', width)
    } else {
        let keep = (width - 1) as nat;
        let head = (keep + 1) / 2;
        let tail = (keep - head) as nat;
        text.subrange(0, head as int) + seq!['…'] + text.subrange(count - tail, count as int)
    }
}

/// Appends `n` copies of `c` to `out`.
pub fn push_repeated(out: &mut Vec<char>, c: char, n: usize)
    ensures
        final(out)@ == old(out)@ + repeated(c, n as nat),
{
    let mut i: usize = 0;
    while i < n
        invariant
            i <= n,
            out@ == old(out)@ + repeated(c, i as nat),
        decreases n - i,
    {
        out.push(c);
        i = i + 1;
        assert(out@ =~= old(out)@ + repeated(c, i as nat));
    }
}

/// Fits `text` to exactly `width` columns, eliding the middle of anything too long: the tail
/// of a filename (its extension, a trailing version) is usually as informative as the head.
pub fn pad_or_truncate(text: &str, width: usize) -> (r: String)
    ensures
        r@ == fitted(text@, width as nat),
        r@.len() == width,
{
    let chars = chars_of(text);
    let count = chars.len();
    let mut out: Vec<char> = Vec::new();
    if count <= width {
        push_all(&mut out, &chars);
        push_repeated(&mut out, ' ', width - count);
    } else if width <= 1 {
        push_repeated(&mut out, '…', width);
    } else {
        let keep = width - 1;
        let head = (keep + 1) / 2;
        let tail = keep - head;
        let mut i: usize = 0;
        while i < head
            invariant
                head <= count,
                count == chars@.len(),
                i <= head,
                out@ == chars@.subrange(0, i as int),
            decreases head - i,
        {
            out.push(chars[i]);
            i = i + 1;
            assert(out@ =~= chars@.subrange(0, i as int));
        }
        out.push('…');
        let ghost mid = out@;
        let mut j: usize = count - tail;
        while j < count
            invariant
                tail <= count,
                count - tail <= j <= count,
                count == chars@.len(),
                out@ == mid + chars@.subrange(count - tail, j as int),
            decreases count - j,
        {
            out.push(chars[j]);
            j = j + 1;
            assert(out@ =~= mid + chars@.subrange(count - tail, j as int));
        }
        assert(out@ =~= fitted(text@, width as nat));
    }
    assert(out@ =~= fitted(text@, width as nat));
    string_of(&out)
}

} // verus!
