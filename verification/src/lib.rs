//! A line-oriented text search engine: it finds the first match of a regular
//! expression in each line of a file and renders the matching lines, with
//! their line number, character column and the match highlighted, under the
//! file's path.

pub mod config;
pub mod error;
pub mod line;
pub mod lines;
pub mod matcher;
pub mod paint;
pub mod scan;

pub use config::{scan_target, GrepConfig, Target};
pub use error::{ErrorKind, GrepError};
pub use line::{assemble_line, format_line, is_match_range};
pub use lines::{read_chunk, split_lines};
pub use scan::{collect_entries, default_strategy, render_block, scan_lines};
