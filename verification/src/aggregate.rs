//! Per-session aggregates and the totals that the batch export gathers for
//! each project and for the master index.

use vstd::prelude::*;
use crate::dates::UtcTime;
use crate::index::IndexProjectData;
use crate::text::{lemma_seq_less_asymmetric, lemma_seq_less_total, lemma_seq_less_transitive, seq_less, str_less};

verus! {

/// What the exporter reads from a parsed session: message count, token
/// totals, timestamps of its first and last entries, and its summaries.
#[derive(Debug, Clone, PartialEq, Eq)]
pub struct SessionAggregate {
    pub message_count: usize,
    pub total_input_tokens: u64,
    pub total_output_tokens: u64,
    pub total_cache_creation_tokens: u64,
    pub total_cache_read_tokens: u64,
    pub first_timestamp: Option<UtcTime>,
    pub last_timestamp: Option<UtcTime>,
    pub summaries: Vec<String>,
}


/// What the batch export knows of one session, from the cache or from
/// parsing its transcript. Timestamps are RFC 3339 text.
#[derive(Debug, Clone, PartialEq, Eq)]
pub struct SessionStats {
    pub title: Option<String>,
    pub message_count: u32,
    pub input_tokens: u64,
    pub output_tokens: u64,
    pub cache_creation_tokens: u64,
    pub cache_read_tokens: u64,
    pub first_timestamp: Option<String>,
    pub last_timestamp: Option<String>,
    pub first_user_prompt: Option<String>,
}

/// The RFC 3339 text of an optional instant, as chrono writes it.
pub open spec fn stored_text(t: Option<UtcTime>) -> Option<Seq<char>> {
    match t {
        Some(x) => crate::dates::chrono_rfc3339_text(x.secs, x.nanos),
        None => None,
    }
}

fn timestamp_text(t: Option<UtcTime>) -> (r: Option<String>)
    ensures
        opt_view(r) == stored_text(t),
{
    match t {
        Some(x) => crate::dates::rfc3339_text(x),
        None => None,
    }
}

impl SessionStats {
    /// What the batch export records of a parsed session: its first
    /// summary as title, its message count as `u32` (truncating, as `as`
    /// does), its token totals, and its first and last timestamps as
    /// RFC 3339 text.
    pub fn from_aggregate(agg: SessionAggregate, first_user_prompt: Option<String>) -> (r: Self)
        ensures
            r.title == (if agg.summaries@.len() > 0 {
                Some(agg.summaries@[0])
            } else {
                None
            }),
            r.message_count == agg.message_count as u32,
            r.input_tokens == agg.total_input_tokens,
            r.output_tokens == agg.total_output_tokens,
            r.cache_creation_tokens == agg.total_cache_creation_tokens,
            r.cache_read_tokens == agg.total_cache_read_tokens,
            opt_view(r.first_timestamp) == stored_text(agg.first_timestamp),
            opt_view(r.last_timestamp) == stored_text(agg.last_timestamp),
            r.first_user_prompt == first_user_prompt,
    {
        let title = if agg.summaries.len() > 0 {
            Some(agg.summaries[0].clone())
        } else {
            None
        };
        SessionStats {
            title,
            message_count: agg.message_count as u32,
            input_tokens: agg.total_input_tokens,
            output_tokens: agg.total_output_tokens,
            cache_creation_tokens: agg.total_cache_creation_tokens,
            cache_read_tokens: agg.total_cache_read_tokens,
            first_timestamp: timestamp_text(agg.first_timestamp),
            last_timestamp: timestamp_text(agg.last_timestamp),
            first_user_prompt,
        }
    }
}

/// One session row of a project's combined page.
#[derive(Debug, Clone, PartialEq, Eq)]
pub struct ProjectSessionData {
    pub id: String,
    pub title: Option<String>,
    pub message_count: u32,
    pub total_tokens: u64,
    pub first_user_prompt: Option<String>,
    pub started_at: Option<String>,
}

/// All tokens a session used: input, output, cache writes and cache reads.
pub open spec fn session_tokens(s: SessionStats) -> int {
    s.input_tokens + s.output_tokens + s.cache_creation_tokens + s.cache_read_tokens
}

/// The characters of an optional string.
pub open spec fn opt_view(o: Option<String>) -> Option<Seq<char>> {
    match o {
        Some(s) => Some(s@),
        None => None,
    }
}

/// The later of a running latest timestamp and a new one; a new timestamp
/// replaces the running one only when it sorts strictly after it.
pub open spec fn later_of(cur: Option<Seq<char>>, ts: Option<Seq<char>>) -> Option<Seq<char>> {
    match ts {
        None => cur,
        Some(t) => match cur {
            None => Some(t),
            Some(c) => if seq_less(c, t) {
                Some(t)
            } else {
                cur
            },
        },
    }
}

/// The earlier of a running earliest timestamp and a new one; a new
/// timestamp replaces the running one only when it sorts strictly before it.
pub open spec fn earlier_of(cur: Option<Seq<char>>, ts: Option<Seq<char>>) -> Option<Seq<char>> {
    match ts {
        None => cur,
        Some(t) => match cur {
            None => Some(t),
            Some(c) => if seq_less(t, c) {
                Some(t)
            } else {
                cur
            },
        },
    }
}

fn later_timestamp(cur: Option<String>, ts: &Option<String>) -> (r: Option<String>)
    ensures
        opt_view(r) == later_of(opt_view(cur), opt_view(*ts)),
{
    match ts {
        None => cur,
        Some(t) => match cur {
            None => Some(t.clone()),
            Some(c) => if str_less(c.as_str(), t.as_str()) {
                Some(t.clone())
            } else {
                Some(c)
            },
        },
    }
}

fn earlier_timestamp(cur: Option<String>, ts: &Option<String>) -> (r: Option<String>)
    ensures
        opt_view(r) == earlier_of(opt_view(cur), opt_view(*ts)),
{
    match ts {
        None => cur,
        Some(t) => match cur {
            None => Some(t.clone()),
            Some(c) => if str_less(t.as_str(), c.as_str()) {
                Some(t.clone())
            } else {
                Some(c)
            },
        },
    }
}

/// Sum of the message counts of session rows.
pub open spec fn rows_messages(rows: Seq<ProjectSessionData>) -> int
    decreases rows.len(),
{
    if rows.len() == 0 {
        0
    } else {
        rows_messages(rows.drop_last()) + rows.last().message_count
    }
}

/// Sum of the token totals of session rows.
pub open spec fn rows_tokens(rows: Seq<ProjectSessionData>) -> int
    decreases rows.len(),
{
    if rows.len() == 0 {
        0
    } else {
        rows_tokens(rows.drop_last()) + rows.last().total_tokens
    }
}

/// Running totals of one project while its sessions are exported.
#[derive(Debug, Clone, PartialEq, Eq)]
pub struct ProjectTotals {
    pub messages: u32,
    pub tokens: u64,
    pub input_tokens: u64,
    pub output_tokens: u64,
    pub cache_creation_tokens: u64,
    pub cache_read_tokens: u64,
    /// Latest `last_timestamp` of the sessions added so far.
    pub last_activity: Option<String>,
    /// One row per session added, in order.
    pub sessions: Vec<ProjectSessionData>,
}

impl ProjectTotals {
    /// The message and token totals agree with the session rows.
    pub open spec fn wf(self) -> bool {
        &&& self.messages == rows_messages(self.sessions@)
        &&& self.tokens == rows_tokens(self.sessions@)
    }

    /// Totals of a project with no session yet.
    pub fn new() -> (r: Self)
        ensures
            r.wf(),
            r.messages == 0,
            r.tokens == 0,
            r.input_tokens == 0,
            r.output_tokens == 0,
            r.cache_creation_tokens == 0,
            r.cache_read_tokens == 0,
            r.last_activity is None,
            r.sessions@.len() == 0,
    {
        ProjectTotals {
            messages: 0,
            tokens: 0,
            input_tokens: 0,
            output_tokens: 0,
            cache_creation_tokens: 0,
            cache_read_tokens: 0,
            last_activity: None,
            sessions: Vec::new(),
        }
    }

    /// Adds an exported session: its row, its counts, and its last
    /// timestamp to the project's latest activity.
    pub fn add_session(&mut self, id: &str, stats: SessionStats)
        requires
            old(self).messages + stats.message_count <= u32::MAX,
            session_tokens(stats) <= u64::MAX,
            old(self).tokens + session_tokens(stats) <= u64::MAX,
            old(self).input_tokens + stats.input_tokens <= u64::MAX,
            old(self).output_tokens + stats.output_tokens <= u64::MAX,
            old(self).cache_creation_tokens + stats.cache_creation_tokens <= u64::MAX,
            old(self).cache_read_tokens + stats.cache_read_tokens <= u64::MAX,
        ensures
            old(self).wf() ==> final(self).wf(),
            final(self).messages == old(self).messages + stats.message_count,
            final(self).tokens == old(self).tokens + session_tokens(stats),
            final(self).input_tokens == old(self).input_tokens + stats.input_tokens,
            final(self).output_tokens == old(self).output_tokens + stats.output_tokens,
            final(self).cache_creation_tokens == old(self).cache_creation_tokens
                + stats.cache_creation_tokens,
            final(self).cache_read_tokens == old(self).cache_read_tokens + stats.cache_read_tokens,
            opt_view(final(self).last_activity) == later_of(
                opt_view(old(self).last_activity),
                opt_view(stats.last_timestamp),
            ),
            final(self).sessions@.len() == old(self).sessions@.len() + 1,
            final(self).sessions@.drop_last() == old(self).sessions@,
            ({
                let row = final(self).sessions@.last();
                &&& row.id@ == id@
                &&& row.title == stats.title
                &&& row.message_count == stats.message_count
                &&& row.total_tokens == session_tokens(stats)
                &&& row.first_user_prompt == stats.first_user_prompt
                &&& row.started_at == stats.first_timestamp
            }),
    {
        let total: u64 = stats.input_tokens + stats.output_tokens + stats.cache_creation_tokens
            + stats.cache_read_tokens;
        self.messages = self.messages + stats.message_count;
        self.tokens = self.tokens + total;
        self.input_tokens = self.input_tokens + stats.input_tokens;
        self.output_tokens = self.output_tokens + stats.output_tokens;
        self.cache_creation_tokens = self.cache_creation_tokens + stats.cache_creation_tokens;
        self.cache_read_tokens = self.cache_read_tokens + stats.cache_read_tokens;
        let last = self.last_activity.take();
        self.last_activity = later_timestamp(last, &stats.last_timestamp);
        let row = ProjectSessionData {
            id: crate::text::to_owned_string(id),
            title: stats.title,
            message_count: stats.message_count,
            total_tokens: total,
            first_user_prompt: stats.first_user_prompt,
            started_at: stats.first_timestamp,
        };
        let ghost before = self.sessions@;
        self.sessions.push(row);
        proof {
            assert(self.sessions@.drop_last() =~= before);
        }
    }
}

/// Sum of the message counts of index entries.
pub open spec fn entries_messages(ps: Seq<IndexProjectData>) -> int
    decreases ps.len(),
{
    if ps.len() == 0 {
        0
    } else {
        entries_messages(ps.drop_last()) + ps.last().message_count
    }
}

/// Sum of the token totals of index entries.
pub open spec fn entries_tokens(ps: Seq<IndexProjectData>) -> int
    decreases ps.len(),
{
    if ps.len() == 0 {
        0
    } else {
        entries_tokens(ps.drop_last()) + ps.last().total_tokens
    }
}

/// A count as `u32`, saturating at `u32::MAX`.
pub fn saturating_u32(n: usize) -> (r: u32)
    ensures
        r == (if n <= u32::MAX {
            n as int
        } else {
            u32::MAX as int
        }),
{
    if n <= 0xffff_ffffusize {
        n as u32
    } else {
        u32::MAX
    }
}

/// Running totals of the whole batch export, behind the master index.
#[derive(Debug, Clone, PartialEq, Eq)]
pub struct IndexTotals {
    pub messages: u32,
    pub tokens: u64,
    pub input_tokens: u64,
    pub output_tokens: u64,
    pub cache_creation_tokens: u64,
    pub cache_read_tokens: u64,
    /// Earliest first timestamp of the sessions exported so far.
    pub earliest: Option<String>,
    /// Latest last timestamp of the sessions exported so far.
    pub latest: Option<String>,
    /// Number of sessions exported so far.
    pub exported: usize,
    /// One entry per project with an exported session, in order.
    pub projects: Vec<IndexProjectData>,
}

impl IndexTotals {
    /// The message and token totals agree with the project entries.
    pub open spec fn wf(self) -> bool {
        &&& self.messages == entries_messages(self.projects@)
        &&& self.tokens == entries_tokens(self.projects@)
    }

    /// Totals before any project is exported.
    pub fn new() -> (r: Self)
        ensures
            r.wf(),
            r.messages == 0,
            r.tokens == 0,
            r.input_tokens == 0,
            r.output_tokens == 0,
            r.cache_creation_tokens == 0,
            r.cache_read_tokens == 0,
            r.earliest is None,
            r.latest is None,
            r.exported == 0,
            r.projects@.len() == 0,
    {
        IndexTotals {
            messages: 0,
            tokens: 0,
            input_tokens: 0,
            output_tokens: 0,
            cache_creation_tokens: 0,
            cache_read_tokens: 0,
            earliest: None,
            latest: None,
            exported: 0,
            projects: Vec::new(),
        }
    }

    /// Counts an exported session and widens the overall time span by its
    /// first and last timestamps.
    pub fn note_session(&mut self, first: &Option<String>, last: &Option<String>)
        requires
            old(self).exported < usize::MAX,
        ensures
            final(self).exported == old(self).exported + 1,
            opt_view(final(self).earliest) == earlier_of(
                opt_view(old(self).earliest),
                opt_view(*first),
            ),
            opt_view(final(self).latest) == later_of(opt_view(old(self).latest), opt_view(*last)),
            final(self).messages == old(self).messages,
            final(self).tokens == old(self).tokens,
            final(self).input_tokens == old(self).input_tokens,
            final(self).output_tokens == old(self).output_tokens,
            final(self).cache_creation_tokens == old(self).cache_creation_tokens,
            final(self).cache_read_tokens == old(self).cache_read_tokens,
            final(self).projects == old(self).projects,
    {
        self.exported = self.exported + 1;
        let e = self.earliest.take();
        self.earliest = earlier_timestamp(e, first);
        let l = self.latest.take();
        self.latest = later_timestamp(l, last);
    }

    /// Closes a project: a project with no exported session is left out;
    /// otherwise its index entry is added and its totals join the overall
    /// ones. `session_files` is the number of transcript files the project
    /// has. The project's session rows are handed back for its combined page.
    pub fn add_project(
        &mut self,
        name: String,
        short_name: String,
        display_name: String,
        session_files: usize,
        project: ProjectTotals,
    ) -> (rows: Vec<ProjectSessionData>)
        requires
            old(self).messages + project.messages <= u32::MAX,
            old(self).tokens + project.tokens <= u64::MAX,
            old(self).input_tokens + project.input_tokens <= u64::MAX,
            old(self).output_tokens + project.output_tokens <= u64::MAX,
            old(self).cache_creation_tokens + project.cache_creation_tokens <= u64::MAX,
            old(self).cache_read_tokens + project.cache_read_tokens <= u64::MAX,
        ensures
            rows@ == project.sessions@,
            project.sessions@.len() == 0 ==> *final(self) == *old(self),
            project.sessions@.len() > 0 ==> {
                &&& old(self).wf() ==> final(self).wf()
                &&& final(self).messages == old(self).messages + project.messages
                &&& final(self).tokens == old(self).tokens + project.tokens
                &&& final(self).input_tokens == old(self).input_tokens + project.input_tokens
                &&& final(self).output_tokens == old(self).output_tokens + project.output_tokens
                &&& final(self).cache_creation_tokens == old(self).cache_creation_tokens
                    + project.cache_creation_tokens
                &&& final(self).cache_read_tokens == old(self).cache_read_tokens
                    + project.cache_read_tokens
                &&& final(self).earliest == old(self).earliest
                &&& final(self).latest == old(self).latest
                &&& final(self).exported == old(self).exported
                &&& final(self).projects@.drop_last() == old(self).projects@
                &&& final(self).projects@.len() == old(self).projects@.len() + 1
                &&& final(self).projects@.last() == IndexProjectData {
                    name,
                    session_count: (if session_files <= u32::MAX {
                        session_files as int
                    } else {
                        u32::MAX as int
                    }) as u32,
                    message_count: project.messages,
                    total_tokens: project.tokens,
                    short_name,
                    display_name,
                    last_activity: project.last_activity,
                }
            },
    {
        if project.sessions.len() == 0 {
            return project.sessions;
        }
        let entry = IndexProjectData {
            name,
            session_count: saturating_u32(session_files),
            message_count: project.messages,
            total_tokens: project.tokens,
            short_name,
            display_name,
            last_activity: project.last_activity,
        };
        self.messages = self.messages + project.messages;
        self.tokens = self.tokens + project.tokens;
        self.input_tokens = self.input_tokens + project.input_tokens;
        self.output_tokens = self.output_tokens + project.output_tokens;
        self.cache_creation_tokens = self.cache_creation_tokens + project.cache_creation_tokens;
        self.cache_read_tokens = self.cache_read_tokens + project.cache_read_tokens;
        let ghost before = self.projects@;
        self.projects.push(entry);
        proof {
            assert(self.projects@.drop_last() =~= before);
        }
        project.sessions
    }
}

/// The number of exported sessions as `u64` (every `usize` fits).
pub fn count_as_u64(n: usize) -> (r: u64)
    ensures
        r == n,
{
    n as u64
}

/// The latest of a run of optional timestamps, folded with `later_of`
/// from the left, as the exporter folds session after session.
pub open spec fn latest_in(ts: Seq<Option<Seq<char>>>) -> Option<Seq<char>>
    decreases ts.len(),
{
    if ts.len() == 0 {
        None
    } else {
        later_of(latest_in(ts.drop_last()), ts.last())
    }
}

/// The earliest of a run of optional timestamps, folded with `earlier_of`.
pub open spec fn earliest_in(ts: Seq<Option<Seq<char>>>) -> Option<Seq<char>>
    decreases ts.len(),
{
    if ts.len() == 0 {
        None
    } else {
        earlier_of(earliest_in(ts.drop_last()), ts.last())
    }
}

/// The latest activity that the exporter keeps is the greatest of the
/// timestamps it was given: no given timestamp sorts after it, it is one of
/// them, and it is absent only when none was given.
pub proof fn latest_in_is_greatest(ts: Seq<Option<Seq<char>>>)
    ensures
        forall|i: int|
            0 <= i < ts.len() && #[trigger] ts[i] is Some ==> latest_in(ts) is Some && !seq_less(
                latest_in(ts)->0,
                ts[i]->0,
            ),
        latest_in(ts) is Some ==> exists|i: int| 0 <= i < ts.len() && #[trigger] ts[i] == latest_in(ts),
        latest_in(ts) is None ==> forall|i: int| 0 <= i < ts.len() ==> #[trigger] ts[i] is None,
    decreases ts.len(),
{
    if ts.len() > 0 {
        let prev = ts.drop_last();
        latest_in_is_greatest(prev);
        let r0 = latest_in(prev);
        let r = latest_in(ts);
        assert forall|i: int|
            0 <= i < ts.len() && #[trigger] ts[i] is Some implies r is Some && !seq_less(
                r->0,
                ts[i]->0,
            ) by {
            if i < ts.len() - 1 {
                assert(prev[i] == ts[i]);
                let x = ts[i]->0;
                let c = r0->0;
                lemma_seq_less_asymmetric(c, x);
                if ts.last() is Some {
                    let t = ts.last()->0;
                    if seq_less(c, t) {
                        lemma_seq_less_total(c, x);
                        if seq_less(x, c) {
                            lemma_seq_less_transitive(x, c, t);
                        }
                        lemma_seq_less_asymmetric(x, t);
                    }
                }
            } else {
                let t = ts.last()->0;
                if r0 is Some {
                    let c = r0->0;
                    lemma_seq_less_asymmetric(c, t);
                    if !seq_less(c, t) {
                        lemma_seq_less_total(c, t);
                        if c == t {
                            lemma_seq_less_asymmetric(t, t);
                        }
                    }
                } else {
                    lemma_seq_less_asymmetric(t, t);
                }
            }
        }
        if r is Some {
            if r == ts.last() {
                assert(ts[ts.len() - 1] == r);
            } else {
                assert(r == r0);
                let i = choose|i: int| 0 <= i < prev.len() && #[trigger] prev[i] == r0;
                assert(ts[i] == r);
            }
        } else {
            assert forall|i: int| 0 <= i < ts.len() implies #[trigger] ts[i] is None by {
                if i < ts.len() - 1 {
                    assert(prev[i] == ts[i]);
                }
            }
        }
    }
}

/// The earliest time the exporter keeps is the least of the timestamps it
/// was given: it sorts after none of them, it is one of them, and it is
/// absent only when none was given.
pub proof fn earliest_in_is_least(ts: Seq<Option<Seq<char>>>)
    ensures
        forall|i: int|
            0 <= i < ts.len() && #[trigger] ts[i] is Some ==> earliest_in(ts) is Some && !seq_less(
                ts[i]->0,
                earliest_in(ts)->0,
            ),
        earliest_in(ts) is Some ==> exists|i: int| 0 <= i < ts.len() && #[trigger] ts[i] == earliest_in(ts),
        earliest_in(ts) is None ==> forall|i: int| 0 <= i < ts.len() ==> #[trigger] ts[i] is None,
    decreases ts.len(),
{
    if ts.len() > 0 {
        let prev = ts.drop_last();
        earliest_in_is_least(prev);
        let r0 = earliest_in(prev);
        let r = earliest_in(ts);
        assert forall|i: int|
            0 <= i < ts.len() && #[trigger] ts[i] is Some implies r is Some && !seq_less(
                ts[i]->0,
                r->0,
            ) by {
            if i < ts.len() - 1 {
                assert(prev[i] == ts[i]);
                let x = ts[i]->0;
                let c = r0->0;
                lemma_seq_less_asymmetric(x, c);
                if ts.last() is Some {
                    let t = ts.last()->0;
                    if seq_less(t, c) {
                        lemma_seq_less_total(c, x);
                        if seq_less(c, x) {
                            lemma_seq_less_transitive(t, c, x);
                        }
                        lemma_seq_less_asymmetric(t, x);
                    }
                }
            } else {
                let t = ts.last()->0;
                if r0 is Some {
                    let c = r0->0;
                    lemma_seq_less_asymmetric(t, c);
                    if !seq_less(t, c) {
                        lemma_seq_less_total(c, t);
                        if c == t {
                            lemma_seq_less_asymmetric(t, t);
                        }
                    }
                } else {
                    lemma_seq_less_asymmetric(t, t);
                }
            }
        }
        if r is Some {
            if r == ts.last() {
                assert(ts[ts.len() - 1] == r);
            } else {
                assert(r == r0);
                let i = choose|i: int| 0 <= i < prev.len() && #[trigger] prev[i] == r0;
                assert(ts[i] == r);
            }
        } else {
            assert forall|i: int| 0 <= i < ts.len() implies #[trigger] ts[i] is None by {
                if i < ts.len() - 1 {
                    assert(prev[i] == ts[i]);
                }
            }
        }
    }
}

} // verus!
