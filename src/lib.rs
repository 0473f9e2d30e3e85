//! Literal find-and-replace over file contents: the decisions that a
//! directory-walking command line tool takes for each file it visits.
pub mod binary;
pub mod cli;
pub mod text;

pub use binary::is_binary_sample;
pub use cli::{parse_arguments, same_text, version_line, CommandArgs, HELP_MESSAGE};
pub use text::{contains_bytes, find_replace_content, matches_at, replace_bytes};
