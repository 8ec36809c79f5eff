//! Character-level string helpers shared by the rest of the library.

use vstd::prelude::*;

verus! {

/// `pat` occurs in `s` starting at character position `i`.
pub open spec fn occurs_at(s: Seq<char>, pat: Seq<char>, i: int) -> bool {
    &&& 0 <= i
    &&& i + pat.len() <= s.len()
    &&& s.subrange(i, i + pat.len()) == pat
}

/// `pat` occurs somewhere in `s` (the empty pattern occurs everywhere).
pub open spec fn contains_seq(s: Seq<char>, pat: Seq<char>) -> bool {
    exists|i: int| occurs_at(s, pat, i)
}

/// Strict lexicographic order on character sequences, which is the order
/// of `str` in Rust (UTF-8 byte order agrees with code point order).
pub open spec fn seq_less(a: Seq<char>, b: Seq<char>) -> bool {
    exists|k: int|
        #![trigger a.take(k), b.take(k)]
        0 <= k <= a.len() && k <= b.len() && a.take(k) == b.take(k) && ((k == a.len() && k
            < b.len()) || (k < a.len() && k < b.len() && (a[k] as u32) < (b[k] as u32)))
}

/// What `str::to_lowercase` returns for a string: its Unicode lowercase
/// mapping.
pub uninterp spec fn lowercase_of(text: Seq<char>) -> Seq<char>;

/// ASCII case folding of one character: `A`..`Z` become `a`..`z`.
pub open spec fn ascii_lower(c: char) -> char {
    if 'A' <= c && c <= 'Z' {
        ((c as u32) + 32) as char
    } else {
        c
    }
}

/// `str::to_lowercase`. Its result is named by `lowercase_of`; on ASCII text
/// the Unicode mapping lowers exactly the letters `A`..`Z`, which the
/// contract states. What it does to other characters is left to the name.
#[verifier::external_body]
pub(crate) fn to_lowercase(s: &str) -> (r: String)
    ensures
        r@ == lowercase_of(s@),
        vstd::string::is_ascii(s) ==> r@ == s@.map_values(|c: char| ascii_lower(c)),
{
    s.to_lowercase()
}

/// Appends one character to a `String`.
#[verifier::external_body]
pub(crate) fn push_char(s: &mut String, c: char)
    ensures
        final(s)@ == old(s)@.push(c),
{
    s.push(c);
}

/// Copies a string slice into a new `String`.
pub fn to_owned_string(s: &str) -> (r: String)
    ensures
        r@ == s@,
{
    let mut r = String::new();
    r.append(s);
    r
}

fn occurs_at_exec(s: &str, pat: &str, i: usize) -> (r: bool)
    requires
        i + pat@.len() <= s@.len(),
    ensures
        r == occurs_at(s@, pat@, i as int),
{
    let plen = pat.unicode_len();
    let slen = s.unicode_len();
    let mut j: usize = 0;
    while j < plen
        invariant
            plen == pat@.len(),
            slen == s@.len(),
            i + plen <= s@.len(),
            j <= plen,
            forall|k: int| 0 <= k < j ==> s@[i + k] == pat@[k],
        decreases plen - j,
    {
        if s.get_char(i + j) != pat.get_char(j) {
            assert(s@.subrange(i as int, i + plen)[j as int] != pat@[j as int]);
            return false;
        }
        j += 1;
    }
    assert(s@.subrange(i as int, i + plen) =~= pat@);
    true
}

/// Whether two string slices hold the same characters (`==` on `str`).
pub fn str_equals(a: &str, b: &str) -> (r: bool)
    ensures
        r == (a@ == b@),
{
    let alen = a.unicode_len();
    let blen = b.unicode_len();
    if alen != blen {
        return false;
    }
    let r = occurs_at_exec(a, b, 0);
    proof {
        assert(a@.subrange(0, alen as int) =~= a@);
    }
    r
}

/// Whether `pat` occurs in `s`, as `str::contains` with a string pattern.
pub fn str_contains(s: &str, pat: &str) -> (r: bool)
    ensures
        r == contains_seq(s@, pat@),
{
    let slen = s.unicode_len();
    let plen = pat.unicode_len();
    if plen > slen {
        assert forall|k: int| !occurs_at(s@, pat@, k) by {}
        return false;
    }
    let last = slen - plen;
    let mut i: usize = 0;
    while i < last
        invariant
            slen == s@.len(),
            plen == pat@.len(),
            last == slen - plen,
            i <= last,
            forall|k: int| 0 <= k < i ==> !occurs_at(s@, pat@, k),
        decreases last - i,
    {
        if occurs_at_exec(s, pat, i) {
            assert(occurs_at(s@, pat@, i as int));
            return true;
        }
        i += 1;
    }
    let r = occurs_at_exec(s, pat, last);
    assert forall|k: int| !occurs_at(s@, pat@, k) || r by {
        if k == last {
        }
    }
    r
}

/// Whether `s` begins with `pat`, as `str::starts_with` with a string pattern.
pub fn str_starts_with(s: &str, pat: &str) -> (r: bool)
    ensures
        r == pat@.is_prefix_of(s@),
{
    let slen = s.unicode_len();
    let plen = pat.unicode_len();
    if plen > slen {
        return false;
    }
    let r = occurs_at_exec(s, pat, 0);
    proof {
        if r {
            assert(s@.subrange(0, plen as int) == pat@);
            assert forall|k: int| 0 <= k < pat@.len() implies pat@[k] == s@[k] by {
                assert(s@.subrange(0, plen as int)[k] == s@[k]);
            }
        } else {
            if pat@.is_prefix_of(s@) {
                assert(s@.subrange(0, plen as int) =~= pat@);
            }
        }
    }
    r
}

/// Whether `a` sorts strictly before `b` (`a < b` on `str`).
pub fn str_less(a: &str, b: &str) -> (r: bool)
    ensures
        r == seq_less(a@, b@),
{
    let alen = a.unicode_len();
    let blen = b.unicode_len();
    let mut i: usize = 0;
    while i < alen && i < blen && a.get_char(i) == b.get_char(i)
        invariant
            alen == a@.len(),
            blen == b@.len(),
            i <= alen,
            i <= blen,
            a@.take(i as int) == b@.take(i as int),
        decreases alen - i,
    {
        assert(a@.take(i + 1) =~= a@.take(i as int).push(a@[i as int]));
        assert(b@.take(i + 1) =~= b@.take(i as int).push(b@[i as int]));
        i += 1;
    }
    let r = if i < alen && i < blen {
        (a.get_char(i) as u32) < (b.get_char(i) as u32)
    } else {
        i == alen && i < blen
    };
    proof {
        let k = i as int;
        if r {
            assert(a@.take(k) == b@.take(k));
        } else {
            assert forall|m: int|
                #![trigger a@.take(m), b@.take(m)]
                0 <= m <= a@.len() && m <= b@.len() && a@.take(m) == b@.take(m) implies !((m
                    == a@.len() && m < b@.len()) || (m < a@.len() && m < b@.len() && (a@[m] as u32)
                < (b@[m] as u32))) by {
                if m > k {
                    assert(a@.take(m)[k] == b@.take(m)[k]);
                } else if m < k {
                    assert(a@.take(k)[m] == b@.take(k)[m]);
                }
            }
        }
    }
    r
}

} // verus!

verus! {

/// `seq_less` never holds both ways.
pub proof fn lemma_seq_less_asymmetric(a: Seq<char>, b: Seq<char>)
    ensures
        !(seq_less(a, b) && seq_less(b, a)),
{
    if seq_less(a, b) && seq_less(b, a) {
        let k = choose|k: int|
            #![trigger a.take(k), b.take(k)]
            0 <= k <= a.len() && k <= b.len() && a.take(k) == b.take(k) && ((k == a.len() && k
                < b.len()) || (k < a.len() && k < b.len() && (a[k] as u32) < (b[k] as u32)));
        let m = choose|m: int|
            #![trigger b.take(m), a.take(m)]
            0 <= m <= b.len() && m <= a.len() && b.take(m) == a.take(m) && ((m == b.len() && m
                < a.len()) || (m < b.len() && m < a.len() && (b[m] as u32) < (a[m] as u32)));
        if k < m {
            assert(a.take(m)[k] == b.take(m)[k]);
        } else if m < k {
            assert(a.take(k)[m] == b.take(k)[m]);
        }
    }
}

/// `seq_less` is transitive.
pub proof fn lemma_seq_less_transitive(a: Seq<char>, b: Seq<char>, c: Seq<char>)
    requires
        seq_less(a, b),
        seq_less(b, c),
    ensures
        seq_less(a, c),
{
    let k = choose|k: int|
        #![trigger a.take(k), b.take(k)]
        0 <= k <= a.len() && k <= b.len() && a.take(k) == b.take(k) && ((k == a.len() && k
            < b.len()) || (k < a.len() && k < b.len() && (a[k] as u32) < (b[k] as u32)));
    let m = choose|m: int|
        #![trigger b.take(m), c.take(m)]
        0 <= m <= b.len() && m <= c.len() && b.take(m) == c.take(m) && ((m == b.len() && m
            < c.len()) || (m < b.len() && m < c.len() && (b[m] as u32) < (c[m] as u32)));
    let j = if k < m {
        k
    } else {
        m
    };
    assert forall|i: int| 0 <= i < j implies a[i] == c[i] by {
        assert(a.take(k)[i] == b.take(k)[i]);
        assert(b.take(m)[i] == c.take(m)[i]);
    }
    assert(a.take(j) =~= c.take(j));
    if k < m {
        assert(b.take(m)[k] == c.take(m)[k]);
    } else if m < k {
        assert(a.take(k)[m] == b.take(k)[m]);
    }
    assert(a.take(j) == c.take(j));
}

proof fn lemma_seq_less_total_from(a: Seq<char>, b: Seq<char>, i: int)
    requires
        0 <= i <= a.len(),
        i <= b.len(),
        a.take(i) == b.take(i),
    ensures
        a == b || seq_less(a, b) || seq_less(b, a),
    decreases a.len() - i,
{
    if i == a.len() || i == b.len() {
        if a.len() == b.len() {
            assert(a =~= a.take(i));
            assert(b =~= b.take(i));
        } else if i == a.len() {
            assert(a.take(i) == b.take(i));
        } else {
            assert(b.take(i) == a.take(i));
        }
    } else if a[i] == b[i] {
        assert(a.take(i + 1) =~= a.take(i).push(a[i]));
        assert(b.take(i + 1) =~= b.take(i).push(b[i]));
        lemma_seq_less_total_from(a, b, i + 1);
    } else if (a[i] as u32) < (b[i] as u32) {
        assert(a.take(i) == b.take(i));
    } else {
        vstd::utf8::char_u32_cast(a[i], a[i] as u32);
        vstd::utf8::char_u32_cast(b[i], b[i] as u32);
        assert((a[i] as u32) != (b[i] as u32));
        assert(b.take(i) == a.take(i));
    }
}

/// Any two character sequences are equal or ordered one way.
pub proof fn lemma_seq_less_total(a: Seq<char>, b: Seq<char>)
    ensures
        a == b || seq_less(a, b) || seq_less(b, a),
{
    assert(a.take(0) =~= b.take(0));
    lemma_seq_less_total_from(a, b, 0);
}

/// `seq_less` is lexicographic order: at the first position where two
/// texts differ, the smaller character decides, whatever their lengths; a
/// proper prefix sorts first; and these are the only ways to be smaller.
pub proof fn seq_less_is_lexicographic(a: Seq<char>, b: Seq<char>, k: int)
    ensures
        0 <= k < a.len() && k < b.len() && a.take(k) == b.take(k) && (a[k] as u32) < (
        b[k] as u32) ==> seq_less(a, b),
        a.len() < b.len() && a == b.take(a.len() as int) ==> seq_less(a, b),
        seq_less(a, b) ==> exists|m: int|
            0 <= m <= a.len() && m <= b.len() && #[trigger] a.take(m) == b.take(m) && ((m
                == a.len() && m < b.len()) || (m < a.len() && m < b.len() && (a[m] as u32) < (
            b[m] as u32))),
{
    if a.len() < b.len() && a == b.take(a.len() as int) {
        assert(a.take(a.len() as int) =~= a);
        assert(a.take(a.len() as int) == b.take(a.len() as int));
    }
    if 0 <= k < a.len() && k < b.len() && a.take(k) == b.take(k) && (a[k] as u32) < (
    b[k] as u32) {
        assert(a.take(k) == b.take(k));
    }
}

} // verus!
