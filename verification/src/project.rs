//! Projects found under the projects directory, and the selection of
//! projects and sessions that the batch export works on.

use vstd::prelude::*;
use crate::text::{contains_seq, lowercase_of, str_contains, str_starts_with, to_lowercase, to_owned_string};

verus! {

/// One transcript file of a project.
#[derive(Debug, Clone, PartialEq, Eq)]
pub struct SessionFile {
    /// Session id (the file name without its extension).
    pub id: String,
    /// Path of the JSONL file.
    pub path: String,
}

/// A project directory and its sessions.
#[derive(Debug, Clone, PartialEq, Eq)]
pub struct Project {
    /// Directory name, as found under the projects directory.
    pub name: String,
    /// Path of the project directory.
    pub path: String,
    /// Human-readable name shown for the project.
    pub display_name: String,
    /// The project's transcript files.
    pub sessions: Vec<SessionFile>,
}

/// Why a selection of projects or sessions was refused.
#[derive(Debug, Clone, PartialEq, Eq)]
pub enum SelectionError {
    /// No project name or display name contains the query.
    NoProjectMatch { query: String },
    /// More than one session id starts with the prefix; `matches` lists the
    /// project name and session id of each, in discovery order.
    AmbiguousSession { prefix: String, matches: Vec<(String, String)> },
}

/// A project is selected by `query` when its name or its display name
/// contains the query, all compared in lowercase.
pub open spec fn project_matches(p: Project, query: Seq<char>) -> bool {
    contains_seq(lowercase_of(p.name@), lowercase_of(query)) || contains_seq(
        lowercase_of(p.display_name@),
        lowercase_of(query),
    )
}

/// The projects of `ps` that `query` selects, in their given order.
pub open spec fn projects_matching(ps: Seq<Project>, query: Seq<char>) -> Seq<Project> {
    ps.filter(|p: Project| project_matches(p, query))
}

/// Keeps the projects whose name or display name contains `query`,
/// ignoring case; refuses when none does.
pub fn filter_by_project_name(projects: Vec<Project>, query: &str) -> (r: Result<
    Vec<Project>,
    SelectionError,
>)
    ensures
        projects_matching(projects@, query@).len() == 0 ==> (r matches Err(
            SelectionError::NoProjectMatch { query: q },
        ) && q@ == query@),
        projects_matching(projects@, query@).len() > 0 ==> (r matches Ok(v) && v@
            == projects_matching(projects@, query@)),
{
    let q = to_lowercase(query);
    let ghost all = projects@;
    let mut matching: Vec<Project> = Vec::new();
    for p in it: projects
        invariant
            q@ == lowercase_of(query@),
            it.seq() == all,
            matching@ == projects_matching(all.take(it.index() as int), query@),
    {
        let ghost k = it.index() as int;
        let keep = str_contains(to_lowercase(p.name.as_str()).as_str(), q.as_str()) || str_contains(
            to_lowercase(p.display_name.as_str()).as_str(),
            q.as_str(),
        );
        proof {
            assert(all.take(k + 1) =~= all.take(k).push(p));
            all.take(k).lemma_filter_push(p, |x: Project| project_matches(x, query@));
        }
        if keep {
            matching.push(p);
        }
    }
    proof {
        assert(all.take(all.len() as int) =~= all);
    }
    if matching.len() == 0 {
        return Err(SelectionError::NoProjectMatch { query: to_owned_string(query) });
    }
    Ok(matching)
}

/// A project is selected exactly when its directory name or its display
/// name contains the query, all three lowercased.
pub proof fn project_selected_by_name_or_display_name(p: Project, query: Seq<char>)
    ensures
        contains_seq(lowercase_of(p.name@), lowercase_of(query)) ==> project_matches(p, query),
        contains_seq(lowercase_of(p.display_name@), lowercase_of(query)) ==> project_matches(
            p,
            query,
        ),
        project_matches(p, query) ==> contains_seq(lowercase_of(p.name@), lowercase_of(query))
            || contains_seq(lowercase_of(p.display_name@), lowercase_of(query)),
{
}

/// Selecting projects again with the same query keeps them all: the
/// selection is idempotent.
pub proof fn project_selection_idempotent(ps: Seq<Project>, query: Seq<char>)
    ensures
        projects_matching(projects_matching(ps, query), query) == projects_matching(ps, query),
    decreases ps.len(),
{
    let pred = |p: Project| project_matches(p, query);
    if ps.len() > 0 {
        let prev = ps.drop_last();
        project_selection_idempotent(prev, query);
        assert(prev.push(ps.last()) =~= ps);
        prev.lemma_filter_push(ps.last(), pred);
        let f = prev.filter(pred);
        if pred(ps.last()) {
            f.lemma_filter_push(ps.last(), pred);
        }
    } else {
        reveal(Seq::filter);
    }
}

/// Every project the selection keeps matches the query, and every project
/// that matches is kept.
pub proof fn project_selection_keeps_exactly_matches(ps: Seq<Project>, query: Seq<char>)
    ensures
        forall|i: int|
            0 <= i < projects_matching(ps, query).len() ==> project_matches(
                #[trigger] projects_matching(ps, query)[i],
                query,
            ),
        forall|i: int|
            0 <= i < ps.len() && project_matches(ps[i], query) ==> #[trigger] projects_matching(
                ps,
                query,
            ).contains(ps[i]),
{
    broadcast use vstd::seq_lib::group_filter_ensures;

}

/// The positions `(i, j)`, in order, of the sessions `j` of project `i`
/// (the first `n` sessions of it) whose id starts with `prefix`.
pub open spec fn session_hits_in(ps: Seq<Project>, prefix: Seq<char>, i: int, n: int) -> Seq<
    (int, int),
>
    decreases n,
{
    if n <= 0 {
        Seq::empty()
    } else {
        let before = session_hits_in(ps, prefix, i, n - 1);
        if prefix.is_prefix_of(ps[i].sessions@[n - 1].id@) {
            before.push((i, n - 1))
        } else {
            before
        }
    }
}

/// The positions of all sessions of the first `n` projects whose id starts
/// with `prefix`, in discovery order.
pub open spec fn session_hits(ps: Seq<Project>, prefix: Seq<char>, n: int) -> Seq<(int, int)>
    decreases n,
{
    if n <= 0 {
        Seq::empty()
    } else {
        session_hits(ps, prefix, n - 1) + session_hits_in(
            ps,
            prefix,
            n - 1,
            ps[n - 1].sessions@.len() as int,
        )
    }
}

/// Every session of `projects` whose id starts with `prefix`.
pub open spec fn all_session_hits(projects: Seq<Project>, prefix: Seq<char>) -> Seq<(int, int)> {
    session_hits(projects, prefix, projects.len() as int)
}

proof fn lemma_hits_in_bounds(ps: Seq<Project>, prefix: Seq<char>, i: int, n: int)
    requires
        0 <= i < ps.len(),
        n <= ps[i].sessions@.len(),
    ensures
        forall|k: int|
            0 <= k < session_hits_in(ps, prefix, i, n).len() ==> {
                let h = #[trigger] session_hits_in(ps, prefix, i, n)[k];
                h.0 == i && 0 <= h.1 < n && prefix.is_prefix_of(ps[i].sessions@[h.1].id@)
            },
    decreases n,
{
    if n > 0 {
        lemma_hits_in_bounds(ps, prefix, i, n - 1);
        let before = session_hits_in(ps, prefix, i, n - 1);
        let cur = session_hits_in(ps, prefix, i, n);
        assert forall|k: int| 0 <= k < cur.len() implies {
            let h = #[trigger] cur[k];
            h.0 == i && 0 <= h.1 < n && prefix.is_prefix_of(ps[i].sessions@[h.1].id@)
        } by {
            if k < before.len() {
                assert(cur[k] == before[k]);
            }
        }
    }
}

proof fn lemma_hits_bounds(ps: Seq<Project>, prefix: Seq<char>, n: int)
    requires
        n <= ps.len(),
    ensures
        forall|k: int|
            0 <= k < session_hits(ps, prefix, n).len() ==> {
                let h = #[trigger] session_hits(ps, prefix, n)[k];
                0 <= h.0 < n && 0 <= h.1 < ps[h.0].sessions@.len() && prefix.is_prefix_of(
                    ps[h.0].sessions@[h.1].id@,
                )
            },
    decreases n,
{
    if n > 0 {
        lemma_hits_bounds(ps, prefix, n - 1);
        lemma_hits_in_bounds(ps, prefix, n - 1, ps[n - 1].sessions@.len() as int);
        let a = session_hits(ps, prefix, n - 1);
        let b = session_hits_in(ps, prefix, n - 1, ps[n - 1].sessions@.len() as int);
        assert forall|k: int| 0 <= k < (a + b).len() implies {
            let h = #[trigger] (a + b)[k];
            0 <= h.0 < n && 0 <= h.1 < ps[h.0].sessions@.len() && prefix.is_prefix_of(
                ps[h.0].sessions@[h.1].id@,
            )
        } by {
            if k < a.len() {
                assert((a + b)[k] == a[k]);
            } else {
                assert((a + b)[k] == b[k - a.len()]);
            }
        }
    }
}

proof fn lemma_hits_in_complete(ps: Seq<Project>, prefix: Seq<char>, i: int, n: int, j: int)
    requires
        0 <= i < ps.len(),
        0 <= j < n <= ps[i].sessions@.len(),
        prefix.is_prefix_of(ps[i].sessions@[j].id@),
    ensures
        session_hits_in(ps, prefix, i, n).contains((i, j)),
    decreases n,
{
    let before = session_hits_in(ps, prefix, i, n - 1);
    if j == n - 1 {
        assert(session_hits_in(ps, prefix, i, n) == before.push((i, j)));
        assert(session_hits_in(ps, prefix, i, n)[before.len() as int] == (i, j));
    } else {
        lemma_hits_in_complete(ps, prefix, i, n - 1, j);
        let k = choose|k: int| 0 <= k < before.len() && before[k] == (i, j);
        if prefix.is_prefix_of(ps[i].sessions@[n - 1].id@) {
            assert(session_hits_in(ps, prefix, i, n)[k] == before.push((i, n - 1))[k]);
        }
        assert(session_hits_in(ps, prefix, i, n)[k] == (i, j));
    }
}

proof fn lemma_hits_complete(ps: Seq<Project>, prefix: Seq<char>, n: int, i: int, j: int)
    requires
        0 <= i < n <= ps.len(),
        0 <= j < ps[i].sessions@.len(),
        prefix.is_prefix_of(ps[i].sessions@[j].id@),
    ensures
        session_hits(ps, prefix, n).contains((i, j)),
    decreases n,
{
    let a = session_hits(ps, prefix, n - 1);
    let b = session_hits_in(ps, prefix, n - 1, ps[n - 1].sessions@.len() as int);
    assert(session_hits(ps, prefix, n) == a + b);
    if i == n - 1 {
        lemma_hits_in_complete(ps, prefix, i, ps[i].sessions@.len() as int, j);
        let k = choose|k: int| 0 <= k < b.len() && b[k] == (i, j);
        assert((a + b)[a.len() + k] == (i, j));
    } else {
        lemma_hits_complete(ps, prefix, n - 1, i, j);
        let k = choose|k: int| 0 <= k < a.len() && a[k] == (i, j);
        assert((a + b)[k] == (i, j));
    }
}

/// The hits of a session-id prefix are exactly the sessions whose id
/// starts with it: every such session of every project is a hit, and every
/// hit is such a session. So two matching sessions, in one project or in
/// two, make the prefix ambiguous.
pub proof fn session_hits_are_exactly_prefix_matches(ps: Seq<Project>, prefix: Seq<char>)
    ensures
        forall|i: int, j: int|
            0 <= i < ps.len() && 0 <= j < ps[i].sessions@.len() && prefix.is_prefix_of(
                #[trigger] ps[i].sessions@[j].id@,
            ) ==> all_session_hits(ps, prefix).contains((i, j)),
        forall|k: int|
            0 <= k < all_session_hits(ps, prefix).len() ==> {
                let h = #[trigger] all_session_hits(ps, prefix)[k];
                0 <= h.0 < ps.len() && 0 <= h.1 < ps[h.0].sessions@.len() && prefix.is_prefix_of(
                    ps[h.0].sessions@[h.1].id@,
                )
            },
{
    assert forall|i: int, j: int|
        0 <= i < ps.len() && 0 <= j < ps[i].sessions@.len() && prefix.is_prefix_of(
            #[trigger] ps[i].sessions@[j].id@,
        ) implies all_session_hits(ps, prefix).contains((i, j)) by {
        lemma_hits_complete(ps, prefix, ps.len() as int, i, j);
    }
    lemma_hits_bounds(ps, prefix, ps.len() as int);
}

/// Narrows the projects to the one session whose id starts with `prefix`.
/// No match gives an empty list; more than one match is refused as
/// ambiguous, listing the matches.
pub fn filter_by_session_id(projects: Vec<Project>, prefix: &str) -> (r: Result<
    Vec<Project>,
    SelectionError,
>)
    ensures
        ({
            let hits = all_session_hits(projects@, prefix@);
            &&& hits.len() == 0 ==> (r matches Ok(v) && v@.len() == 0)
            &&& hits.len() > 1 ==> (r matches Err(
                SelectionError::AmbiguousSession { prefix: p, matches: m },
            ) && p@ == prefix@ && m@.len() == hits.len() && forall|k: int|
                0 <= k < hits.len() ==> #[trigger] m@[k].0@ == projects@[hits[k].0].name@
                    && m@[k].1@ == projects@[hits[k].0].sessions@[hits[k].1].id@)
            &&& hits.len() == 1 ==> (r matches Ok(v) && v@.len() == 1 && {
                let src = projects@[hits[0].0];
                &&& v@[0].name == src.name
                &&& v@[0].path == src.path
                &&& v@[0].display_name == src.display_name
                &&& v@[0].sessions@ == seq![src.sessions@[hits[0].1]]
            })
        }),
{
    let ghost ps = projects@;
    let mut hits: Vec<(usize, usize)> = Vec::new();
    let mut i: usize = 0;
    while i < projects.len()
        invariant
            ps == projects@,
            i <= ps.len(),
            hits@.len() == session_hits(ps, prefix@, i as int).len(),
            forall|k: int|
                0 <= k < hits@.len() ==> (#[trigger] hits@[k].0 as int, hits@[k].1 as int)
                    == session_hits(ps, prefix@, i as int)[k],
        decreases ps.len() - i,
    {
        let sessions = &projects[i].sessions;
        let ghost before = hits@;
        let mut j: usize = 0;
        while j < sessions.len()
            invariant
                ps == projects@,
                i < ps.len(),
                sessions@ == ps[i as int].sessions@,
                j <= sessions@.len(),
                before.len() == session_hits(ps, prefix@, i as int).len(),
                forall|k: int|
                    0 <= k < before.len() ==> (#[trigger] before[k].0 as int, before[k].1 as int)
                        == session_hits(ps, prefix@, i as int)[k],
                hits@.len() == before.len() + session_hits_in(ps, prefix@, i as int, j as int).len(),
                forall|k: int| 0 <= k < before.len() ==> #[trigger] hits@[k] == before[k],
                forall|k: int|
                    0 <= k < session_hits_in(ps, prefix@, i as int, j as int).len() ==> (
                    #[trigger] hits@[before.len() + k].0 as int,
                    hits@[before.len() + k].1 as int,
                ) == session_hits_in(ps, prefix@, i as int, j as int)[k],
            decreases sessions@.len() - j,
        {
            if str_starts_with(sessions[j].id.as_str(), prefix) {
                hits.push((i, j));
            }
            j += 1;
        }
        proof {
            let a = session_hits(ps, prefix@, i as int);
            let b = session_hits_in(ps, prefix@, i as int, sessions@.len() as int);
            assert(session_hits(ps, prefix@, i + 1) == a + b);
            assert forall|k: int| 0 <= k < hits@.len() implies (#[trigger] hits@[k].0 as int,
                hits@[k].1 as int) == (a + b)[k] by {
                if k < a.len() {
                    assert(hits@[k] == before[k]);
                } else {
                    assert(hits@[before.len() + (k - a.len())] == hits@[k]);
                }
            }
        }
        i += 1;
    }
    proof {
        lemma_hits_bounds(ps, prefix@, ps.len() as int);
    }
    if hits.len() == 0 {
        return Ok(Vec::new());
    }
    if hits.len() > 1 {
        let mut matches: Vec<(String, String)> = Vec::new();
        let mut k: usize = 0;
        while k < hits.len()
            invariant
                ps == projects@,
                k <= hits@.len(),
                hits@.len() == all_session_hits(ps, prefix@).len(),
                forall|m: int|
                    0 <= m < hits@.len() ==> (#[trigger] hits@[m].0 as int, hits@[m].1 as int)
                        == all_session_hits(ps, prefix@)[m],
                forall|m: int|
                    0 <= m < all_session_hits(ps, prefix@).len() ==> {
                        let h = #[trigger] all_session_hits(ps, prefix@)[m];
                        0 <= h.0 < ps.len() && 0 <= h.1 < ps[h.0].sessions@.len()
                    },
                matches@.len() == k,
                forall|m: int|
                    0 <= m < k ==> #[trigger] matches@[m].0@ == ps[hits@[m].0 as int].name@
                        && matches@[m].1@ == ps[hits@[m].0 as int].sessions@[hits@[m].1 as int].id@,
            decreases hits@.len() - k,
        {
            let (pi, si) = hits[k];
            assert((pi as int, si as int) == all_session_hits(ps, prefix@)[k as int]);
            let name = projects[pi].name.clone();
            let id = projects[pi].sessions[si].id.clone();
            matches.push((name, id));
            k += 1;
        }
        return Err(
            SelectionError::AmbiguousSession { prefix: to_owned_string(prefix), matches: matches },
        );
    }
    let (pi, si) = hits[0];
    assert((pi as int, si as int) == all_session_hits(ps, prefix@)[0]);
    let p = &projects[pi];
    let s = &p.sessions[si];
    let session = SessionFile { id: s.id.clone(), path: s.path.clone() };
    let project = Project {
        name: p.name.clone(),
        path: p.path.clone(),
        display_name: p.display_name.clone(),
        sessions: vec![session],
    };
    let r = vec![project];
    Ok(r)
}

/// The short name shown for a project: its directory name, which is what
/// discovery already stores as the project's name.
pub fn project_name_short(name: &str, _path: &str) -> (r: String)
    ensures
        r@ == name@,
{
    to_owned_string(name)
}

} // verus!
