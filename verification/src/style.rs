//! Terminal styling of the command's summary lines, and small text checks
//! on rendered output.

use std::io::IsTerminal;
use vstd::prelude::*;
use crate::text::{contains_seq, str_contains};

verus! {

/// `s` wrapped in the ANSI escape sequence `code` when `tty` holds, and `s`
/// unchanged otherwise.
pub open spec fn styled(code: Seq<char>, s: Seq<char>, tty: bool) -> Seq<char> {
    if tty {
        seq!['\x1b', '['] + code + seq!['m'] + s + seq!['\x1b', '[', '0', 'm']
    } else {
        s
    }
}

/// Whether standard output is a terminal (`std::io::IsTerminal` on
/// `std::io::stdout()`). The answer depends on how the process was started,
/// so nothing is stated of it.
#[verifier::external_body]
fn is_tty() -> bool {
    std::io::stdout().is_terminal()
}

/// Styles `s` with the escape `code`, given whether output goes to a terminal.
pub fn ansi_for(code: &str, s: &str, tty: bool) -> (r: String)
    ensures
        r@ == styled(code@, s@, tty),
{
    let mut r = String::new();
    if tty {
        r.append("\x1b[");
        r.append(code);
        r.append("m");
        r.append(s);
        r.append("\x1b[0m");
        proof {
            reveal_strlit("\x1b[");
            reveal_strlit("m");
            reveal_strlit("\x1b[0m");
            assert(r@ =~= styled(code@, s@, tty));
        }
    } else {
        r.append(s);
        assert(r@ =~= s@);
    }
    r
}

/// Styles `s` with the escape `code` when standard output is a terminal.
pub fn ansi(code: &str, s: &str) -> (r: String)
    ensures
        r@ == styled(code@, s@, true) || r@ == styled(code@, s@, false),
{
    let tty = is_tty();
    ansi_for(code, s, tty)
}

/// Bold text (escape code 1).
pub fn bold(s: &str) -> (r: String)
    ensures
        r@ == styled("1"@, s@, true) || r@ == s@,
{
    ansi("1", s)
}

/// Dim text (escape code 2).
pub fn dim(s: &str) -> (r: String)
    ensures
        r@ == styled("2"@, s@, true) || r@ == s@,
{
    ansi("2", s)
}

/// Green text (escape code 32).
pub fn green(s: &str) -> (r: String)
    ensures
        r@ == styled("32"@, s@, true) || r@ == s@,
{
    ansi("32", s)
}

/// Cyan text (escape code 36).
pub fn cyan(s: &str) -> (r: String)
    ensures
        r@ == styled("36"@, s@, true) || r@ == s@,
{
    ansi("36", s)
}

/// The plural ending for a count: empty for exactly one, `s` otherwise.
pub fn plural_suffix(n: usize) -> (r: &'static str)
    ensures
        r@ == (if n == 1 {
            ""@
        } else {
            "s"@
        }),
{
    if n == 1 {
        ""
    } else {
        "s"
    }
}

/// A page is self-contained when it names no `http://` or `https://` URL.
pub open spec fn self_contained(html: Seq<char>) -> bool {
    !contains_seq(html, "http://"@) && !contains_seq(html, "https://"@)
}

/// Whether rendered HTML references no external URL.
pub fn is_self_contained(html: &str) -> (r: bool)
    ensures
        r == self_contained(html@),
{
    !str_contains(html, "http://") && !str_contains(html, "https://")
}

} // verus!
