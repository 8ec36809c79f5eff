use weavr::aggregate::{count_as_u64, saturating_u32, IndexTotals, ProjectSessionData, ProjectTotals, SessionStats};
use weavr::index::IndexProjectData;
use weavr::aggregate::SessionAggregate;
use weavr::dates::UtcTime;

fn stats(msgs: u32, tokens: [u64; 4], first: Option<&str>, last: Option<&str>) -> SessionStats {
    SessionStats {
        title: Some(format!("title {msgs}")),
        message_count: msgs,
        input_tokens: tokens[0],
        output_tokens: tokens[1],
        cache_creation_tokens: tokens[2],
        cache_read_tokens: tokens[3],
        first_timestamp: first.map(String::from),
        last_timestamp: last.map(String::from),
        first_user_prompt: Some("hi".into()),
    }
}

#[test]
fn project_totals_add_up() {
    let mut p = ProjectTotals::new();
    p.add_session("s1", stats(10, [1, 2, 3, 4], Some("2025-06-01T00:00:00Z"), Some("2025-06-02T00:00:00Z")));
    p.add_session("s2", stats(5, [10, 20, 30, 40], Some("2025-05-01T00:00:00Z"), Some("2025-05-03T00:00:00Z")));
    p.add_session("s3", stats(1, [0, 0, 0, 0], None, None));
    assert_eq!(p.messages, 16);
    assert_eq!(p.tokens, 110);
    assert_eq!(p.input_tokens, 11);
    assert_eq!(p.output_tokens, 22);
    assert_eq!(p.cache_creation_tokens, 33);
    assert_eq!(p.cache_read_tokens, 44);
    assert_eq!(p.last_activity.as_deref(), Some("2025-06-02T00:00:00Z"));
    assert_eq!(p.sessions.len(), 3);
    assert_eq!(
        p.sessions[1],
        ProjectSessionData {
            id: "s2".into(),
            title: Some("title 5".into()),
            message_count: 5,
            total_tokens: 100,
            first_user_prompt: Some("hi".into()),
            started_at: Some("2025-05-01T00:00:00Z".into()),
        }
    );
}

#[test]
fn later_timestamp_replaces_only_when_strictly_later() {
    let mut p = ProjectTotals::new();
    p.add_session("a", stats(0, [0; 4], None, Some("2025-06-02")));
    p.add_session("b", stats(0, [0; 4], None, Some("2025-06-10")));
    p.add_session("c", stats(0, [0; 4], None, Some("2025-06-05")));
    assert_eq!(p.last_activity.as_deref(), Some("2025-06-10"));
}

#[test]
fn index_totals_span_and_projects() {
    let mut g = IndexTotals::new();
    g.note_session(&Some("2025-06-03T00:00:00Z".into()), &Some("2025-06-04T00:00:00Z".into()));
    g.note_session(&Some("2025-06-01T00:00:00Z".into()), &Some("2025-06-02T00:00:00Z".into()));
    g.note_session(&None, &None);
    assert_eq!(g.exported, 3);
    assert_eq!(g.earliest.as_deref(), Some("2025-06-01T00:00:00Z"));
    assert_eq!(g.latest.as_deref(), Some("2025-06-04T00:00:00Z"));

    let mut p = ProjectTotals::new();
    p.add_session("s1", stats(7, [1, 1, 1, 1], None, Some("2025-06-04T00:00:00Z")));
    let rows = g.add_project("dir".into(), "dir".into(), "Dir".into(), 9, p);
    assert_eq!(rows.len(), 1);
    assert_eq!(g.messages, 7);
    assert_eq!(g.tokens, 4);
    assert_eq!(g.input_tokens, 1);
    assert_eq!(
        g.projects,
        vec![IndexProjectData {
            name: "dir".into(),
            session_count: 9,
            message_count: 7,
            total_tokens: 4,
            short_name: "dir".into(),
            display_name: "Dir".into(),
            last_activity: Some("2025-06-04T00:00:00Z".into()),
        }]
    );

    let before = g.clone();
    let rows = g.add_project("empty".into(), "empty".into(), "Empty".into(), 2, ProjectTotals::new());
    assert!(rows.is_empty());
    assert_eq!(g, before);
}

#[test]
fn count_conversions() {
    assert_eq!(saturating_u32(5), 5);
    assert_eq!(saturating_u32(u32::MAX as usize), u32::MAX);
    assert_eq!(saturating_u32(u32::MAX as usize + 10), u32::MAX);
    assert_eq!(count_as_u64(162), 162);
}

#[test]
fn stats_from_aggregate() {
    let agg = SessionAggregate {
        message_count: 12,
        total_input_tokens: 100,
        total_output_tokens: 200,
        total_cache_creation_tokens: 3,
        total_cache_read_tokens: 4,
        first_timestamp: Some(UtcTime { secs: 1_749_981_600, nanos: 0 }),
        last_timestamp: Some(UtcTime { secs: 1_749_988_800, nanos: 500_000_000 }),
        summaries: vec!["Fix the build".into(), "Second".into()],
    };
    let s = SessionStats::from_aggregate(agg, Some("hello".into()));
    assert_eq!(s.title.as_deref(), Some("Fix the build"));
    assert_eq!(s.message_count, 12);
    assert_eq!(s.first_timestamp.as_deref(), Some("2025-06-15T10:00:00+00:00"));
    assert_eq!(s.last_timestamp.as_deref(), Some("2025-06-15T12:00:00.500+00:00"));
    assert_eq!(s.first_user_prompt.as_deref(), Some("hello"));
    let empty = SessionStats::from_aggregate(
        SessionAggregate {
            message_count: (u32::MAX as usize) + 3,
            total_input_tokens: 0,
            total_output_tokens: 0,
            total_cache_creation_tokens: 0,
            total_cache_read_tokens: 0,
            first_timestamp: None,
            last_timestamp: None,
            summaries: vec![],
        },
        None,
    );
    assert_eq!(empty.title, None);
    assert_eq!(empty.message_count, 2);
    assert_eq!(empty.first_timestamp, None);
}
