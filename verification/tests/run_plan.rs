use weavr::cli::{
    batch_mode_label, html_base_stem, html_output_path, markdown_output_path, Cli, Command, DetailLevel,
    ExportConfig, Format, RunPlan,
};

fn cli() -> Cli {
    Cli {
        command: None,
        input: None,
        projects_dir: None,
        all_projects: false,
        no_individual_sessions: false,
        no_cache: false,
        clear_cache: false,
        session_id: None,
        project: None,
        clear_output: false,
        output_dir: None,
        from_date: Some("yesterday".into()),
        to_date: None,
        page_size: Some(50),
        open_browser: true,
        debug: false,
    }
}

#[test]
fn default_mode_is_all_projects() {
    assert_eq!(cli().plan(), RunPlan::AllProjects);
}

#[test]
fn input_shorthand_is_full_html_export() {
    let c = Cli { input: Some("session.jsonl".into()), output_dir: Some("/tmp/out".into()), ..cli() };
    assert_eq!(
        c.plan(),
        RunPlan::Export {
            config: ExportConfig {
                input: "session.jsonl".into(),
                output: None,
                format: Format::Html,
                detail: DetailLevel::Full,
                compact: false,
                open_browser: true,
                from_date: Some("yesterday".into()),
                to_date: None,
                page_size: Some(50),
            },
            output_dir: Some("/tmp/out".into()),
        }
    );
}

#[test]
fn subcommands_come_first() {
    let export = Command::Export {
        input: "s.jsonl".into(),
        output: Some("context.md".into()),
        format: Format::Markdown,
        detail: DetailLevel::Low,
        compact: true,
        open_browser: false,
    };
    let c = Cli { command: Some(export), input: Some("ignored.jsonl".into()), ..cli() };
    match c.plan() {
        RunPlan::Export { config, output_dir } => {
            assert_eq!(config.input, "s.jsonl");
            assert_eq!(config.output.as_deref(), Some("context.md"));
            assert_eq!(config.format, Format::Markdown);
            assert_eq!(config.detail, DetailLevel::Low);
            assert!(config.compact);
            assert!(!config.open_browser);
            assert_eq!(config.page_size, Some(50));
            assert_eq!(output_dir, None);
        }
        other => panic!("unexpected plan {other:?}"),
    }
    assert_eq!(Cli { command: Some(Command::SelfUpdate), ..cli() }.plan(), RunPlan::SelfUpdate);
    assert_eq!(
        Cli { command: Some(Command::Stub { output: "weavr-stub.html".into() }), ..cli() }.plan(),
        RunPlan::Stub { output: "weavr-stub.html".into() }
    );
}

#[test]
fn output_paths() {
    assert_eq!(html_base_stem(Some("/tmp/review.html"), "session"), "/tmp/review");
    assert_eq!(html_base_stem(Some("/tmp/review"), "session"), "/tmp/review");
    assert_eq!(html_base_stem(Some(".html"), "session"), "");
    assert_eq!(html_base_stem(Some("html"), "session"), "html");
    assert_eq!(html_base_stem(None, "session"), "session");
    assert_eq!(html_output_path(None, "session"), "session.html");
    assert_eq!(html_output_path(Some("/tmp/review.html"), "/tmp/review"), "/tmp/review.html");
    assert_eq!(markdown_output_path(None, "session"), "session.md");
    assert_eq!(markdown_output_path(Some("context.md"), "session"), "context.md");
    let stem = html_base_stem(Some("out/page.html"), "x");
    assert_eq!(html_output_path(None, &stem), "out/page.html");
}

#[test]
fn batch_mode_names() {
    assert_eq!(batch_mode_label(true), "combined + index");
    assert_eq!(batch_mode_label(false), "full");
}
