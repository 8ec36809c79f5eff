//! Integer formatting with thousands separators.

use vstd::prelude::*;
use crate::text::push_char;

verus! {

/// The ASCII digit for `d` (0 through 9).
pub open spec fn digit_char(d: int) -> char {
    if d == 0 {
        '0'
    } else if d == 1 {
        '1'
    } else if d == 2 {
        '2'
    } else if d == 3 {
        '3'
    } else if d == 4 {
        '4'
    } else if d == 5 {
        '5'
    } else if d == 6 {
        '6'
    } else if d == 7 {
        '7'
    } else if d == 8 {
        '8'
    } else {
        '9'
    }
}

/// Decimal representation of `n`, most significant digit first, no leading zeros.
pub open spec fn decimal(n: nat) -> Seq<char>
    decreases n,
{
    if n < 10 {
        seq![digit_char(n as int)]
    } else {
        decimal(n / 10).push(digit_char((n % 10) as int))
    }
}

/// `d` with a comma inserted before every group of three characters,
/// counted from the right.
pub open spec fn group_thousands(d: Seq<char>) -> Seq<char>
    decreases d.len(),
{
    if d.len() <= 3 {
        d
    } else {
        group_thousands(d.take(d.len() - 3)).push(',') + d.skip(d.len() - 3)
    }
}

/// `s` with every comma removed.
pub open spec fn strip_commas(s: Seq<char>) -> Seq<char>
    decreases s.len(),
{
    if s.len() == 0 {
        s
    } else if s.last() == ',' {
        strip_commas(s.drop_last())
    } else {
        strip_commas(s.drop_last()).push(s.last())
    }
}

/// The number that a string of ASCII digits denotes.
pub open spec fn digits_value(d: Seq<char>) -> int
    decreases d.len(),
{
    if d.len() == 0 {
        0
    } else {
        digits_value(d.drop_last()) * 10 + ((d.last() as int) - 48)
    }
}

fn digit(d: u64) -> (c: char)
    requires
        d < 10,
    ensures
        c == digit_char(d as int),
{
    if d == 0 {
        '0'
    } else if d == 1 {
        '1'
    } else if d == 2 {
        '2'
    } else if d == 3 {
        '3'
    } else if d == 4 {
        '4'
    } else if d == 5 {
        '5'
    } else if d == 6 {
        '6'
    } else if d == 7 {
        '7'
    } else if d == 8 {
        '8'
    } else {
        '9'
    }
}

/// Decimal text of `n`, as `n.to_string()`.
pub fn decimal_string(n: u64) -> (r: String)
    ensures
        r@ == decimal(n as nat),
    decreases n,
{
    let c = digit(n % 10);
    let mut s = if n < 10 {
        String::new()
    } else {
        decimal_string(n / 10)
    };
    push_char(&mut s, c);
    s
}

fn push_range(s: &mut String, d: &str, from: usize, to: usize)
    requires
        from <= to <= d@.len(),
    ensures
        final(s)@ == old(s)@ + d@.subrange(from as int, to as int),
{
    let mut i: usize = from;
    while i < to
        invariant
            from <= i <= to <= d@.len(),
            s@ == old(s)@ + d@.subrange(from as int, i as int),
        decreases to - i,
    {
        let c = d.get_char(i);
        push_char(s, c);
        assert(d@.subrange(from as int, i + 1) =~= d@.subrange(from as int, i as int).push(c));
        i += 1;
    }
}

fn group_prefix(d: &str, len: usize) -> (r: String)
    requires
        len <= d@.len(),
    ensures
        r@ == group_thousands(d@.take(len as int)),
    decreases len,
{
    if len <= 3 {
        let mut s = String::new();
        push_range(&mut s, d, 0, len);
        assert(d@.subrange(0, len as int) =~= d@.take(len as int));
        s
    } else {
        let mut s = group_prefix(d, len - 3);
        push_char(&mut s, ',');
        push_range(&mut s, d, len - 3, len);
        let ghost t = d@.take(len as int);
        assert(t.take(t.len() - 3) =~= d@.take(len - 3));
        assert(t.skip(t.len() - 3) =~= d@.subrange(len - 3, len as int));
        s
    }
}

/// Formats `n` in decimal with a comma between groups of three digits,
/// e.g. `1234567` as `1,234,567`.
pub fn fmt_num(n: u64) -> (r: String)
    ensures
        r@ == group_thousands(decimal(n as nat)),
{
    let d = decimal_string(n);
    let len = d.as_str().unicode_len();
    let r = group_prefix(d.as_str(), len);
    assert(d@.take(len as int) =~= d@);
    r
}

proof fn lemma_decimal_has_no_commas(n: nat)
    ensures
        forall|i: int| 0 <= i < decimal(n).len() ==> decimal(n)[i] != ',',
        decimal(n).len() >= 1,
    decreases n,
{
    if n >= 10 {
        lemma_decimal_has_no_commas(n / 10);
    }
}

proof fn lemma_digit_char_value(k: int)
    requires
        0 <= k <= 9,
    ensures
        digit_char(k) as int == k + 48,
{
}

proof fn lemma_decimal_value(n: nat)
    ensures
        digits_value(decimal(n)) == n,
    decreases n,
{
    lemma_digit_char_value((n % 10) as int);
    let d = decimal(n);
    if n >= 10 {
        lemma_decimal_value(n / 10);
        assert(d.drop_last() =~= decimal(n / 10));
        assert(d.last() == digit_char((n % 10) as int));
        assert((n / 10) * 10 + n % 10 == n) by (nonlinear_arith);
        assert(digits_value(d) == digits_value(decimal(n / 10)) * 10 + (n % 10));
    } else {
        assert(d.drop_last() =~= Seq::<char>::empty());
        assert(n % 10 == n);
        assert(digits_value(d) == digits_value(d.drop_last()) * 10 + ((d.last() as int) - 48));
    }
}

proof fn lemma_strip_commas_concat(a: Seq<char>, b: Seq<char>)
    ensures
        strip_commas(a + b) == strip_commas(a) + strip_commas(b),
    decreases b.len(),
{
    if b.len() == 0 {
        assert(a + b =~= a);
        assert(strip_commas(a) + strip_commas(b) =~= strip_commas(a));
    } else {
        lemma_strip_commas_concat(a, b.drop_last());
        assert((a + b).drop_last() =~= a + b.drop_last());
        if b.last() != ',' {
            assert(strip_commas(a) + strip_commas(b.drop_last()).push(b.last()) =~= (strip_commas(
                a,
            ) + strip_commas(b.drop_last())).push(b.last()));
        }
    }
}

proof fn lemma_strip_commas_no_commas(s: Seq<char>)
    requires
        forall|i: int| 0 <= i < s.len() ==> s[i] != ',',
    ensures
        strip_commas(s) == s,
    decreases s.len(),
{
    if s.len() > 0 {
        lemma_strip_commas_no_commas(s.drop_last());
        assert(s.drop_last().push(s.last()) =~= s);
    }
}

proof fn lemma_strip_group(d: Seq<char>)
    requires
        forall|i: int| 0 <= i < d.len() ==> d[i] != ',',
    ensures
        strip_commas(group_thousands(d)) == d,
    decreases d.len(),
{
    if d.len() <= 3 {
        lemma_strip_commas_no_commas(d);
    } else {
        let head = d.take(d.len() - 3);
        let tail = d.skip(d.len() - 3);
        lemma_strip_group(head);
        lemma_strip_commas_concat(group_thousands(head).push(','), tail);
        assert(group_thousands(head).push(',').drop_last() =~= group_thousands(head));
        lemma_strip_commas_no_commas(tail);
        assert(head + tail =~= d);
    }
}

/// Reading the text of `fmt_num(n)` as a number, with the separators
/// dropped, gives back `n`.
pub proof fn fmt_num_reads_back(n: u64)
    ensures
        digits_value(strip_commas(group_thousands(decimal(n as nat)))) == n,
{
    lemma_decimal_has_no_commas(n as nat);
    lemma_strip_group(decimal(n as nat));
    lemma_decimal_value(n as nat);
}

} // verus!
