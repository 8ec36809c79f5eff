# weavr (verified core)

The library under `src/` holds the decisions of the weavr transcript
exporter, each with a Verus contract:

- `text`: substring, prefix, equality and order on strings; lowercase via std.
- `format`: decimal numbers with thousands separators (`fmt_num`).
- `style`: ANSI styling of summary lines, plural endings, the self-contained check.
- `dates`: UTC instants, day ends, reading date filters, and the date-range
  filter for parsed and cached sessions (chrono parses dates and RFC 3339 text).
- `project`: selecting projects by name and sessions by id prefix.
- `aggregate`: per-project and overall totals of the batch export.
- `index`: the master index context (`build_context`) and short dates.
- `cli`: the options, the choice of mode and the output paths.

`app/` holds the command-line definitions (clap), file and terminal output,
the floating-point number formats, and the batch loop; parsing transcripts
and rendering templates are reached through its `Transcripts` trait.
