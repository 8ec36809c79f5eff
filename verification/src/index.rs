//! The master index page: one card per project and the totals shown above
//! them.

use vstd::prelude::*;
use vstd::string::StringSliceAdditionalSpecFns;
use crate::format::digit_char;
use crate::dates::chrono_ymd;
use crate::text::{push_char, to_owned_string};

verus! {

/// Version of the exporter, shown on the index page.
pub const VERSION: &'static str = "1.2.0";

/// What the batch export gathered for one project.
#[derive(Debug, Clone, PartialEq, Eq)]
pub struct IndexProjectData {
    pub name: String,
    pub session_count: u32,
    pub message_count: u32,
    pub total_tokens: u64,
    pub short_name: String,
    pub display_name: String,
    /// RFC 3339 timestamp of the project's latest session activity.
    pub last_activity: Option<String>,
}

/// One project card of the index page.
#[derive(Debug, Clone, PartialEq, Eq)]
pub struct ProjectCard {
    pub name: String,
    pub short_name: String,
    pub display_name: String,
    pub session_count: u32,
    pub message_count: u32,
    /// Token total as displayed (for example `15.0k`).
    pub token_total: String,
    /// Token total as a number, for sorting.
    pub token_total_raw: u64,
    pub last_activity: Option<String>,
    pub last_activity_display: String,
}

/// Aggregate token counts across all projects.
#[derive(Debug, Clone, Copy, PartialEq, Eq)]
pub struct TokenTotals {
    pub total: u64,
    pub input: u64,
    pub output: u64,
    pub cache_creation: u64,
    pub cache_read: u64,
}

/// Everything the master `index.html` shows.
#[derive(Debug, Clone, PartialEq, Eq)]
pub struct IndexContext {
    pub css: String,
    pub index_js: String,
    pub version: String,
    pub total_projects: usize,
    pub total_sessions: u32,
    pub total_messages: u32,
    pub total_tokens_display: String,
    pub total_input_tokens_display: String,
    pub total_output_tokens_display: String,
    pub total_cache_read_display: String,
    pub total_cache_write_display: String,
    pub date_range: String,
    pub projects: Vec<ProjectCard>,
}

/// English abbreviation of month `m` (1 is `Jan`).
pub open spec fn month_abbrev(m: u32) -> Seq<char> {
    if m == 1 {
        "Jan"@
    } else if m == 2 {
        "Feb"@
    } else if m == 3 {
        "Mar"@
    } else if m == 4 {
        "Apr"@
    } else if m == 5 {
        "May"@
    } else if m == 6 {
        "Jun"@
    } else if m == 7 {
        "Jul"@
    } else if m == 8 {
        "Aug"@
    } else if m == 9 {
        "Sep"@
    } else if m == 10 {
        "Oct"@
    } else if m == 11 {
        "Nov"@
    } else {
        "Dec"@
    }
}

/// Months are written as chrono's `%b` writes them: the English
/// three-letter abbreviations, January to December, all different.
pub proof fn month_abbreviations(m: u32, n: u32)
    ensures
        month_abbrev(1) == seq!['J', 'a', 'n'],
        month_abbrev(2) == seq!['F', 'e', 'b'],
        month_abbrev(3) == seq!['M', 'a', 'r'],
        month_abbrev(4) == seq!['A', 'p', 'r'],
        month_abbrev(5) == seq!['M', 'a', 'y'],
        month_abbrev(6) == seq!['J', 'u', 'n'],
        month_abbrev(7) == seq!['J', 'u', 'l'],
        month_abbrev(8) == seq!['A', 'u', 'g'],
        month_abbrev(9) == seq!['S', 'e', 'p'],
        month_abbrev(10) == seq!['O', 'c', 't'],
        month_abbrev(11) == seq!['N', 'o', 'v'],
        month_abbrev(12) == seq!['D', 'e', 'c'],
        1 <= m <= 12 && 1 <= n <= 12 && m != n ==> month_abbrev(m) != month_abbrev(n),
{
    reveal_strlit("Jan");
    reveal_strlit("Feb");
    reveal_strlit("Mar");
    reveal_strlit("Apr");
    reveal_strlit("May");
    reveal_strlit("Jun");
    reveal_strlit("Jul");
    reveal_strlit("Aug");
    reveal_strlit("Sep");
    reveal_strlit("Oct");
    reveal_strlit("Nov");
    reveal_strlit("Dec");
    assert(month_abbrev(1) =~= seq!['J', 'a', 'n']);
    assert(month_abbrev(2) =~= seq!['F', 'e', 'b']);
    assert(month_abbrev(3) =~= seq!['M', 'a', 'r']);
    assert(month_abbrev(4) =~= seq!['A', 'p', 'r']);
    assert(month_abbrev(5) =~= seq!['M', 'a', 'y']);
    assert(month_abbrev(6) =~= seq!['J', 'u', 'n']);
    assert(month_abbrev(7) =~= seq!['J', 'u', 'l']);
    assert(month_abbrev(8) =~= seq!['A', 'u', 'g']);
    assert(month_abbrev(9) =~= seq!['S', 'e', 'p']);
    assert(month_abbrev(10) =~= seq!['O', 'c', 't']);
    assert(month_abbrev(11) =~= seq!['N', 'o', 'v']);
    assert(month_abbrev(12) =~= seq!['D', 'e', 'c']);
    if 1 <= m <= 12 && 1 <= n <= 12 && m != n {
        let a = month_abbrev(m);
        let b = month_abbrev(n);
        assert(a[0] != b[0] || a[1] != b[1] || a[2] != b[2]);
    }
}

fn month_name(m: u32) -> (r: &'static str)
    ensures
        r@ == month_abbrev(m),
{
    if m == 1 {
        "Jan"
    } else if m == 2 {
        "Feb"
    } else if m == 3 {
        "Mar"
    } else if m == 4 {
        "Apr"
    } else if m == 5 {
        "May"
    } else if m == 6 {
        "Jun"
    } else if m == 7 {
        "Jul"
    } else if m == 8 {
        "Aug"
    } else if m == 9 {
        "Sep"
    } else if m == 10 {
        "Oct"
    } else if m == 11 {
        "Nov"
    } else {
        "Dec"
    }
}

/// A date shown as `Mon DD`: month abbreviation, a space, and the
/// zero-padded day of the month.
pub open spec fn month_day_text(m: u32, d: u32) -> Seq<char> {
    month_abbrev(m) + seq![' ', digit_char((d / 10) as int), digit_char((d % 10) as int)]
}

fn digit_of(d: u32) -> (c: char)
    requires
        d < 10,
    ensures
        c == digit_char(d as int),
{
    if d == 0 {
        '0'
    } else if d == 1 {
        '1'
    } else if d == 2 {
        '2'
    } else if d == 3 {
        '3'
    } else if d == 4 {
        '4'
    } else if d == 5 {
        '5'
    } else if d == 6 {
        '6'
    } else if d == 7 {
        '7'
    } else if d == 8 {
        '8'
    } else {
        '9'
    }
}

/// The short date shown for a timestamp, given chrono's reading of its
/// first ten bytes: `Mon DD` for a parsed date, else the text unchanged.
pub fn short_date_text(text: &str, parsed: Option<(i32, u32, u32, i32)>) -> (r: String)
    requires
        parsed matches Some(p) ==> 1 <= p.2 <= 31,
    ensures
        r@ == (match parsed {
            Some(p) => month_day_text(p.1, p.2),
            None => text@,
        }),
{
    match parsed {
        Some((_, m, d, _)) => {
            let mut r = String::new();
            r.append(month_name(m));
            push_char(&mut r, ' ');
            push_char(&mut r, digit_of(d / 10));
            push_char(&mut r, digit_of(d % 10));
            proof {
                assert(r@ =~= month_day_text(m, d));
            }
            r
        },
        None => to_owned_string(text),
    }
}

/// The first ten bytes of the UTF-8 text `v`, read as characters.
pub open spec fn date_prefix(v: Seq<char>) -> Seq<char> {
    vstd::utf8::decode_utf8(vstd::utf8::encode_utf8(v).subrange(0, 10))
}

/// A timestamp can be shortened when its tenth byte, if it has one, ends a
/// character (its byte length fits `usize`, as that of every `str` does).
pub open spec fn shortenable(v: Seq<char>) -> bool {
    &&& vstd::utf8::encode_utf8(v).len() <= usize::MAX
    &&& vstd::utf8::encode_utf8(v).len() >= 10 ==> vstd::utf8::is_char_boundary(
        vstd::utf8::encode_utf8(v),
        10,
    )
}

/// The short date of a timestamp: `Mon DD` when its first ten bytes are a
/// `YYYY-MM-DD` date that chrono reads, else the text unchanged.
pub open spec fn short_date(v: Seq<char>) -> Seq<char> {
    if vstd::utf8::encode_utf8(v).len() >= 10 {
        match chrono_ymd(date_prefix(v)) {
            Some(p) => month_day_text(p.1, p.2),
            None => v,
        }
    } else {
        v
    }
}

/// Shortens a timestamp such as `2025-06-15T12:00:00Z` to `Jun 15`.
pub fn format_short_date(s: &str) -> (r: String)
    requires
        shortenable(s@),
    ensures
        r@ == short_date(s@),
{
    if s.len() >= 10 {
        let (date_part, _) = s.split_at(10);
        proof {
            vstd::utf8::encode_utf8_decode_utf8(date_part@);
            assert(date_part@ == date_prefix(s@));
        }
        let parsed = crate::dates::parse_ymd(date_part);
        return short_date_text(s, parsed);
    }
    to_owned_string(s)
}

/// The span of activity shown on the index: `first – last` when both ends
/// are known, the first alone when only it is, and a dash otherwise.
pub open spec fn date_range_text(earliest: Option<String>, latest: Option<String>) -> Seq<char> {
    match (earliest, latest) {
        (Some(e), Some(l)) => short_date(e@) + seq![' ', '\u{2013}', ' '] + short_date(l@),
        (Some(e), None) => short_date(e@),
        _ => seq!['\u{2014}'],
    }
}

/// Sum of the session counts of `ps`.
pub open spec fn session_total(ps: Seq<IndexProjectData>) -> int
    decreases ps.len(),
{
    if ps.len() == 0 {
        0
    } else {
        session_total(ps.drop_last()) + ps.last().session_count
    }
}

/// The card shown for project `p`, with the token total formatted by
/// `fmt` and the last activity described by `rel`.
pub open spec fn card_for<F: Fn(u64) -> String, G: Fn(&str) -> String>(
    card: ProjectCard,
    p: IndexProjectData,
    fmt: F,
    rel: G,
) -> bool {
    &&& card.name == p.name
    &&& card.short_name == p.short_name
    &&& card.display_name == p.display_name
    &&& card.session_count == p.session_count
    &&& card.message_count == p.message_count
    &&& call_ensures(fmt, (p.total_tokens,), card.token_total)
    &&& card.token_total_raw == p.total_tokens
    &&& card.last_activity == p.last_activity
    &&& match p.last_activity {
        Some(a) => exists|x: &str| x@ == a@ && call_ensures(rel, (x,), card.last_activity_display),
        None => card.last_activity_display@ == seq!['\u{2014}'],
    }
}

fn dash() -> (r: String)
    ensures
        r@ == seq!['\u{2014}'],
{
    let mut r = String::new();
    push_char(&mut r, '\u{2014}');
    r
}

/// Builds the master index from the projects gathered by the batch export.
/// Token counts are displayed with `format_token_count` and the latest
/// activity of each project with `format_relative_time`.
pub fn build_context<F: Fn(u64) -> String, G: Fn(&str) -> String>(
    css: String,
    index_js: String,
    projects: Vec<IndexProjectData>,
    total_messages: u32,
    tokens: TokenTotals,
    earliest: Option<String>,
    latest: Option<String>,
    format_token_count: &F,
    format_relative_time: &G,
) -> (ctx: IndexContext)
    requires
        forall|n: u64| format_token_count.requires((n,)),
        forall|x: &str| format_relative_time.requires((x,)),
        session_total(projects@) <= u32::MAX,
        earliest matches Some(e) ==> shortenable(e@),
        latest matches Some(l) ==> shortenable(l@),
    ensures
        ctx.css == css,
        ctx.index_js == index_js,
        ctx.version@ == VERSION@,
        ctx.total_projects == projects@.len(),
        ctx.total_sessions == session_total(projects@),
        ctx.total_messages == total_messages,
        call_ensures(*format_token_count, (tokens.total,), ctx.total_tokens_display),
        call_ensures(*format_token_count, (tokens.input,), ctx.total_input_tokens_display),
        call_ensures(*format_token_count, (tokens.output,), ctx.total_output_tokens_display),
        call_ensures(*format_token_count, (tokens.cache_read,), ctx.total_cache_read_display),
        call_ensures(
            *format_token_count,
            (tokens.cache_creation,),
            ctx.total_cache_write_display,
        ),
        ctx.date_range@ == date_range_text(earliest, latest),
        ctx.projects@.len() == projects@.len(),
        forall|i: int|
            0 <= i < projects@.len() ==> card_for(
                #[trigger] ctx.projects@[i],
                projects@[i],
                *format_token_count,
                *format_relative_time,
            ),
{
    let date_range = match (&earliest, &latest) {
        (Some(e), Some(l)) => {
            let mut r = format_short_date(e.as_str());
            push_char(&mut r, ' ');
            push_char(&mut r, '\u{2013}');
            push_char(&mut r, ' ');
            r.append(format_short_date(l.as_str()).as_str());
            r
        },
        (Some(e), None) => format_short_date(e.as_str()),
        _ => dash(),
    };
    assert(date_range@ =~= date_range_text(earliest, latest));
    let ghost all = projects@;
    let mut cards: Vec<ProjectCard> = Vec::new();
    for p in it: projects
        invariant
            it.seq() == all,
            forall|n: u64| format_token_count.requires((n,)),
            forall|x: &str| format_relative_time.requires((x,)),
            cards@.len() == it.index(),
            forall|i: int|
                0 <= i < it.index() ==> card_for(
                    #[trigger] cards@[i],
                    all[i],
                    *format_token_count,
                    *format_relative_time,
                ),
    {
        let token_total = format_token_count(p.total_tokens);
        let last_activity_display = match &p.last_activity {
            Some(a) => format_relative_time(a.as_str()),
            None => dash(),
        };
        let card = ProjectCard {
            name: p.name,
            short_name: p.short_name,
            display_name: p.display_name,
            session_count: p.session_count,
            message_count: p.message_count,
            token_total: token_total,
            token_total_raw: p.total_tokens,
            last_activity: p.last_activity,
            last_activity_display: last_activity_display,
        };
        cards.push(card);
    }
    let total_projects = cards.len();
    let mut total_sessions: u32 = 0;
    let mut i: usize = 0;
    while i < cards.len()
        invariant
            cards@.len() == all.len(),
            forall|k: int| 0 <= k < all.len() ==> #[trigger] cards@[k].session_count == all[k].session_count,
            session_total(all) <= u32::MAX,
            i <= all.len(),
            total_sessions == session_total(all.take(i as int)),
        decreases all.len() - i,
    {
        proof {
            assert(all.take(i + 1).drop_last() =~= all.take(i as int));
            lemma_session_total_prefix(all, i + 1);
        }
        total_sessions = total_sessions + cards[i].session_count;
        i += 1;
    }
    assert(all.take(all.len() as int) =~= all);
    IndexContext {
        css,
        index_js,
        version: to_owned_string(VERSION),
        total_projects,
        total_sessions,
        total_messages,
        total_tokens_display: format_token_count(tokens.total),
        total_input_tokens_display: format_token_count(tokens.input),
        total_output_tokens_display: format_token_count(tokens.output),
        total_cache_read_display: format_token_count(tokens.cache_read),
        total_cache_write_display: format_token_count(tokens.cache_creation),
        date_range,
        projects: cards,
    }
}

proof fn lemma_session_total_prefix(ps: Seq<IndexProjectData>, n: int)
    requires
        0 <= n <= ps.len(),
    ensures
        session_total(ps.take(n)) <= session_total(ps),
    decreases ps.len(),
{
    if n < ps.len() {
        assert(ps.drop_last().take(n) =~= ps.take(n));
        lemma_session_total_prefix(ps.drop_last(), n);
    } else {
        assert(ps.take(n) =~= ps);
    }
}

} // verus!
