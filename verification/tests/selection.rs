use weavr::project::{filter_by_project_name, filter_by_session_id, project_name_short, Project, SelectionError, SessionFile};

fn session(id: &str) -> SessionFile {
    SessionFile { id: id.into(), path: format!("/p/{id}.jsonl") }
}

fn project(name: &str, display: &str, ids: &[&str]) -> Project {
    Project {
        name: name.into(),
        path: format!("/projects/{name}"),
        display_name: display.into(),
        sessions: ids.iter().map(|i| session(i)).collect(),
    }
}

fn projects() -> Vec<Project> {
    vec![
        project("-Users-me-addyosmaniskills", "addyosmaniskills", &["6162c547", "aaaa1111"]),
        project("-Users-me-cclog", "CCLog", &["6162d000"]),
        project("-Users-me-addy-osmani", "addy-osmani", &["bbbb2222"]),
    ]
}

#[test]
fn project_filter_is_case_insensitive_partial_match() {
    let kept = filter_by_project_name(projects(), "ADDY").unwrap();
    let names: Vec<&str> = kept.iter().map(|p| p.name.as_str()).collect();
    assert_eq!(names, vec!["-Users-me-addyosmaniskills", "-Users-me-addy-osmani"]);
}

#[test]
fn project_filter_matches_display_name() {
    let kept = filter_by_project_name(vec![project("dir-x", "CCLog", &[])], "cclog").unwrap();
    assert_eq!(kept.len(), 1);
    assert_eq!(kept[0].display_name, "CCLog");
}

#[test]
fn project_filter_refuses_when_nothing_matches() {
    let err = filter_by_project_name(projects(), "nothing-here").unwrap_err();
    assert_eq!(err, SelectionError::NoProjectMatch { query: "nothing-here".into() });
}

#[test]
fn session_prefix_unique() {
    let kept = filter_by_session_id(projects(), "6162c").unwrap();
    assert_eq!(kept.len(), 1);
    assert_eq!(kept[0].name, "-Users-me-addyosmaniskills");
    assert_eq!(kept[0].path, "/projects/-Users-me-addyosmaniskills");
    assert_eq!(kept[0].sessions, vec![session("6162c547")]);
}

#[test]
fn session_prefix_without_match_gives_nothing() {
    assert_eq!(filter_by_session_id(projects(), "zzz").unwrap(), Vec::<Project>::new());
}

#[test]
fn session_prefix_ambiguous() {
    let err = filter_by_session_id(projects(), "6162").unwrap_err();
    assert_eq!(
        err,
        SelectionError::AmbiguousSession {
            prefix: "6162".into(),
            matches: vec![
                ("-Users-me-addyosmaniskills".into(), "6162c547".into()),
                ("-Users-me-cclog".into(), "6162d000".into()),
            ],
        }
    );
}

#[test]
fn short_name_is_the_directory_name() {
    assert_eq!(project_name_short("my-project", "/home/me/projects/my-project"), "my-project");
}

#[test]
fn project_filter_twice_keeps_the_same() {
    let once = filter_by_project_name(projects(), "Addy").unwrap();
    let twice = filter_by_project_name(once.clone(), "Addy").unwrap();
    assert_eq!(once, twice);
}
