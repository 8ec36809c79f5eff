use weavr::index::{build_context, format_short_date, IndexProjectData, TokenTotals};
use weavr::style::is_self_contained;

fn format_token_count(n: u64) -> String {
    if n >= 1_000_000 {
        format!("{:.1}M", n as f64 / 1_000_000.0)
    } else if n >= 1_000 {
        format!("{:.1}k", n as f64 / 1_000.0)
    } else {
        n.to_string()
    }
}

fn relative_time(s: &str) -> String {
    format_short_date(s)
}

fn sample_project() -> IndexProjectData {
    IndexProjectData {
        name: "test-proj".into(),
        session_count: 3,
        message_count: 45,
        total_tokens: 15000,
        short_name: "test-proj".into(),
        display_name: "test-proj".into(),
        last_activity: Some("2025-06-15T12:00:00Z".into()),
    }
}

fn sample_totals() -> TokenTotals {
    TokenTotals { total: 15000, input: 5000, output: 3000, cache_creation: 4000, cache_read: 3000 }
}

#[test]
fn build_index_context_is_self_contained() {
    let css = String::from("body { color: black; }");
    let ctx = build_context(
        css.clone(),
        String::new(),
        vec![sample_project()],
        45,
        sample_totals(),
        Some("2025-06-15T10:00:00Z".into()),
        Some("2025-06-15T12:00:00Z".into()),
        &format_token_count,
        &relative_time,
    );
    let card = &ctx.projects[0];
    assert!(card.name.contains("test-proj"));
    assert!(card.token_total.contains("15.0k"));
    assert!(card.token_total_raw.to_string().contains("15000"), "raw token count for sorting");
    let shown = &card.last_activity_display;
    assert!(
        shown.contains("h ago") || shown.contains("m ago") || shown.contains("Jun") || shown.contains("—"),
        "relative time should be present"
    );
    let all_text = format!(
        "{}{}{}{}{}{}{}{}{}{}{}{}",
        ctx.css,
        ctx.index_js,
        ctx.version,
        ctx.total_tokens_display,
        ctx.total_input_tokens_display,
        ctx.total_output_tokens_display,
        ctx.total_cache_read_display,
        ctx.total_cache_write_display,
        ctx.date_range,
        card.name,
        card.token_total,
        card.last_activity_display
    );
    assert!(!all_text.contains("http://"));
    assert!(!all_text.contains("https://"));
    assert!(is_self_contained(&all_text));
}

#[test]
fn index_totals_and_date_range() {
    let ctx = build_context(
        String::new(),
        String::new(),
        vec![sample_project(), IndexProjectData { session_count: 4, ..sample_project() }],
        90,
        sample_totals(),
        Some("2025-06-15T10:00:00Z".into()),
        Some("2025-07-01T12:00:00Z".into()),
        &format_token_count,
        &relative_time,
    );
    assert_eq!(ctx.total_projects, 2);
    assert_eq!(ctx.total_sessions, 7);
    assert_eq!(ctx.total_messages, 90);
    assert_eq!(ctx.version, "1.2.0");
    assert_eq!(ctx.date_range, "Jun 15 – Jul 01");
    assert_eq!(ctx.total_tokens_display, "15.0k");
    assert_eq!(ctx.total_input_tokens_display, "5.0k");
    assert_eq!(ctx.total_cache_write_display, "4.0k");
    assert_eq!(ctx.total_cache_read_display, "3.0k");
    assert_eq!(ctx.projects[1].session_count, 4);
}

#[test]
fn index_date_range_with_only_earliest_or_none() {
    let only_first = build_context(
        String::new(),
        String::new(),
        Vec::new(),
        0,
        sample_totals(),
        Some("2024-12-03T00:00:00Z".into()),
        None,
        &format_token_count,
        &relative_time,
    );
    assert_eq!(only_first.date_range, "Dec 03");
    assert_eq!(only_first.total_projects, 0);
    assert_eq!(only_first.total_sessions, 0);
    let neither = build_context(
        String::new(),
        String::new(),
        Vec::new(),
        0,
        sample_totals(),
        None,
        Some("2024-12-03T00:00:00Z".into()),
        &format_token_count,
        &relative_time,
    );
    assert_eq!(neither.date_range, "—");
}

#[test]
fn card_without_activity_shows_dash() {
    let ctx = build_context(
        String::new(),
        String::new(),
        vec![IndexProjectData { last_activity: None, total_tokens: 999, ..sample_project() }],
        0,
        sample_totals(),
        None,
        None,
        &format_token_count,
        &relative_time,
    );
    assert_eq!(ctx.projects[0].last_activity_display, "—");
    assert_eq!(ctx.projects[0].token_total, "999");
    assert_eq!(ctx.projects[0].last_activity, None);
}

#[test]
fn short_dates() {
    assert_eq!(format_short_date("2025-06-15T12:00:00Z"), "Jun 15");
    assert_eq!(format_short_date("2025-01-05"), "Jan 05");
    assert_eq!(format_short_date("2025-12-31T23:59:59+02:00"), "Dec 31");
    assert_eq!(format_short_date("2025-06"), "2025-06");
    assert_eq!(format_short_date("not a date at all"), "not a date at all");
    assert_eq!(format_short_date("2025-13-01T00:00:00Z"), "2025-13-01T00:00:00Z");
}
