//! Verified core of the weavr transcript exporter: text helpers, number and
//! date formatting, date-range filtering, project selection, export
//! planning and the aggregation behind the master index page.

pub mod text;
pub mod format;
pub mod style;
pub mod project;
pub mod dates;
pub mod aggregate;
pub mod index;
pub mod cli;
