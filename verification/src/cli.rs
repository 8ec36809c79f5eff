//! Command-line options and the decisions taken from them: which mode runs
//! and where an export is written.

use vstd::prelude::*;
use crate::text::to_owned_string;

verus! {

/// Output format for the export command.
#[derive(Debug, Clone, Copy, PartialEq, Eq, Structural)]
pub enum Format {
    /// Self-contained HTML (default).
    Html,
    /// Markdown.
    Markdown,
}

/// How much of a session the Markdown export includes.
#[derive(Debug, Clone, Copy, PartialEq, Eq, Structural)]
pub enum DetailLevel {
    /// Everything: thinking, system entries, all tool calls (default).
    Full,
    /// Messages and all tool calls, without thinking blocks and system metadata.
    High,
    /// Messages and key tool signals only.
    Low,
    /// User and assistant text only.
    Minimal,
    /// User prompts only.
    UserOnly,
}

/// Subcommands.
#[allow(inconsistent_fields)]
#[derive(Debug, Clone, PartialEq, Eq)]
pub enum Command {
    /// Emit a stub transcript HTML file for design verification.
    Stub { output: String },
    /// Export a JSONL session file to HTML or Markdown.
    Export {
        input: String,
        output: Option<String>,
        format: Format,
        detail: DetailLevel,
        compact: bool,
        open_browser: bool,
    },
    /// Update weavr to the latest version from GitHub Releases.
    SelfUpdate,
}

/// The exporter's command-line options.
#[derive(Debug, Clone, PartialEq, Eq)]
pub struct Cli {
    pub command: Option<Command>,
    /// Input JSONL file path (shorthand for `export <INPUT>`).
    pub input: Option<String>,
    /// Projects directory (the transcript store in the home directory by default).
    pub projects_dir: Option<String>,
    /// Export all projects (default when no input is given).
    pub all_projects: bool,
    /// Skip per-session HTML files; only produce combined and index pages.
    pub no_individual_sessions: bool,
    /// Disable cache reads and writes.
    pub no_cache: bool,
    /// Clear the cache and rebuild from scratch.
    pub clear_cache: bool,
    /// Filter to a single session by id or unique prefix.
    pub session_id: Option<String>,
    /// Export only the projects whose name contains this string (ignoring case).
    pub project: Option<String>,
    /// Wipe the output directory before writing.
    pub clear_output: bool,
    /// Output directory (default: ./weavr-out/).
    pub output_dir: Option<String>,
    /// Filter sessions starting on or after this date.
    pub from_date: Option<String>,
    /// Filter sessions ending on or before this date.
    pub to_date: Option<String>,
    /// Messages per page when splitting long sessions.
    pub page_size: Option<usize>,
    /// Open the exported file in the default browser.
    pub open_browser: bool,
    /// Enable verbose debug logging.
    pub debug: bool,
}

/// Everything a single-file export needs to know.
#[derive(Debug, Clone, PartialEq, Eq)]
pub struct ExportConfig {
    pub input: String,
    pub output: Option<String>,
    pub format: Format,
    pub detail: DetailLevel,
    pub compact: bool,
    pub open_browser: bool,
    pub from_date: Option<String>,
    pub to_date: Option<String>,
    pub page_size: Option<usize>,
}

/// What a run of the command does.
#[derive(Debug, Clone, PartialEq, Eq)]
pub enum RunPlan {
    /// Update the binary.
    SelfUpdate,
    /// Write the stub page to `output`.
    Stub { output: String },
    /// Export one session. With `output_dir`, the output is `<stem>.html`
    /// inside that directory, where `<stem>` is the input's file stem.
    Export { config: ExportConfig, output_dir: Option<String> },
    /// Export every project into a static site.
    AllProjects,
}

impl Cli {
    /// Chooses the mode: a subcommand first; else `--input`, as an HTML
    /// export at full detail that takes the global flags; else the
    /// all-projects export.
    pub fn plan(self) -> (r: RunPlan)
        ensures
            match self.command {
                Some(Command::SelfUpdate) => r == RunPlan::SelfUpdate,
                Some(Command::Stub { output }) => r == RunPlan::Stub { output },
                Some(Command::Export { input, output, format, detail, compact, open_browser }) => r
                    == RunPlan::Export {
                    config: ExportConfig {
                        input,
                        output,
                        format,
                        detail,
                        compact,
                        open_browser,
                        from_date: self.from_date,
                        to_date: self.to_date,
                        page_size: self.page_size,
                    },
                    output_dir: None,
                },
                None => match self.input {
                    Some(input) => r == RunPlan::Export {
                        config: ExportConfig {
                            input,
                            output: None,
                            format: Format::Html,
                            detail: DetailLevel::Full,
                            compact: false,
                            open_browser: self.open_browser,
                            from_date: self.from_date,
                            to_date: self.to_date,
                            page_size: self.page_size,
                        },
                        output_dir: self.output_dir,
                    },
                    None => r == RunPlan::AllProjects,
                },
            },
    {
        match self.command {
            Some(Command::SelfUpdate) => RunPlan::SelfUpdate,
            Some(Command::Stub { output }) => RunPlan::Stub { output },
            Some(Command::Export { input, output, format, detail, compact, open_browser }) => {
                RunPlan::Export {
                    config: ExportConfig {
                        input,
                        output,
                        format,
                        detail,
                        compact,
                        open_browser,
                        from_date: self.from_date,
                        to_date: self.to_date,
                        page_size: self.page_size,
                    },
                    output_dir: None,
                }
            },
            None => match self.input {
                Some(input) => RunPlan::Export {
                    config: ExportConfig {
                        input,
                        output: None,
                        format: Format::Html,
                        detail: DetailLevel::Full,
                        compact: false,
                        open_browser: self.open_browser,
                        from_date: self.from_date,
                        to_date: self.to_date,
                        page_size: self.page_size,
                    },
                    output_dir: self.output_dir,
                },
                None => RunPlan::AllProjects,
            },
        }
    }
}

/// `o` without a trailing `.html`, when it has one.
pub open spec fn without_html_suffix(o: Seq<char>) -> Seq<char> {
    if ".html"@.is_suffix_of(o) {
        o.take(o.len() - 5)
    } else {
        o
    }
}

/// The stem that HTML output files are named from: the requested output
/// without its `.html`, or else the input's file stem.
pub open spec fn html_stem(output: Option<Seq<char>>, input_stem: Seq<char>) -> Seq<char> {
    match output {
        Some(o) => without_html_suffix(o),
        None => input_stem,
    }
}

/// The view of an optional string slice.
pub open spec fn opt_str(o: Option<&str>) -> Option<Seq<char>> {
    match o {
        Some(s) => Some(s@),
        None => None,
    }
}

/// Computes the base stem of HTML output files (pages are named from it).
pub fn html_base_stem(output: Option<&str>, input_stem: &str) -> (r: String)
    ensures
        r@ == html_stem(opt_str(output), input_stem@),
{
    match output {
        Some(o) => {
            let n = o.unicode_len();
            let mut r = String::new();
            if n >= 5 && o.get_char(n - 5) == '.' && o.get_char(n - 4) == 'h' && o.get_char(n - 3)
                == 't' && o.get_char(n - 2) == 'm' && o.get_char(n - 1) == 'l' {
                r.append(o.substring_char(0, n - 5));
                proof {
                    reveal_strlit(".html");
                    assert(".html"@ =~= o@.skip(n - 5));
                    assert(".html"@.is_suffix_of(o@));
                }
            } else {
                r.append(o);
                proof {
                    reveal_strlit(".html");
                    if ".html"@.is_suffix_of(o@) {
                        assert(o@[n - 5] == ".html"@[0]);
                        assert(o@[n - 4] == ".html"@[1]);
                        assert(o@[n - 3] == ".html"@[2]);
                        assert(o@[n - 2] == ".html"@[3]);
                        assert(o@[n - 1] == ".html"@[4]);
                    }
                }
            }
            assert(r@ =~= html_stem(opt_str(output), input_stem@));
            r
        },
        None => to_owned_string(input_stem),
    }
}

/// Where a non-paginated HTML export is written: the requested output, or
/// `<stem>.html`.
pub fn html_output_path(output: Option<&str>, base_stem: &str) -> (r: String)
    ensures
        r@ == (match output {
            Some(o) => o@,
            None => base_stem@ + ".html"@,
        }),
{
    match output {
        Some(o) => to_owned_string(o),
        None => {
            let mut r = to_owned_string(base_stem);
            r.append(".html");
            r
        },
    }
}

/// Where a Markdown export is written: the requested output, or
/// `<stem>.md` from the input's file stem.
pub fn markdown_output_path(output: Option<&str>, input_stem: &str) -> (r: String)
    ensures
        r@ == (match output {
            Some(o) => o@,
            None => input_stem@ + ".md"@,
        }),
{
    match output {
        Some(o) => to_owned_string(o),
        None => {
            let mut r = to_owned_string(input_stem);
            r.append(".md");
            r
        },
    }
}

/// A requested HTML output that ends in `.html` is where the export lands:
/// the default path built from its stem is that output again.
pub proof fn html_stem_round_trip(o: Seq<char>, input_stem: Seq<char>)
    requires
        ".html"@.is_suffix_of(o),
    ensures
        html_stem(Some(o), input_stem) + ".html"@ == o,
{
    reveal_strlit(".html");
    assert(o.take(o.len() - 5) + ".html"@ =~= o);
}

/// Name of the batch export mode shown in its summary.
pub fn batch_mode_label(no_individual_sessions: bool) -> (r: &'static str)
    ensures
        r@ == (if no_individual_sessions {
            "combined + index"@
        } else {
            "full"@
        }),
{
    if no_individual_sessions {
        "combined + index"
    } else {
        "full"
    }
}

} // verus!
