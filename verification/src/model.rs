use vstd::prelude::*;

use crate::text::str_eq;

verus! {

/// The output format selector. Only the markdown-style list item exists
/// today; adding a format means adding a variant and a rendering function.
#[derive(Clone, Copy, Debug)]
pub enum OutputFormat {
    Markdown,
}

impl OutputFormat {
    /// Decodes a format selector from its textual spelling. Only "markdown"
    /// is recognized; any other value is a configuration error.
    pub fn from_name(s: &str) -> (r: Option<OutputFormat>)
        ensures
            s@ == "markdown"@ ==> r == Some(OutputFormat::Markdown),
            s@ != "markdown"@ ==> r is None,
    {
        if str_eq(s, "markdown") {
            Some(OutputFormat::Markdown)
        } else {
            None
        }
    }
}

/// Presentation options, fixed for the whole run.
#[derive(Clone, Debug)]
pub struct Config {
    pub output_format: OutputFormat,
    pub repo_name: Option<String>,
    pub omit_author: bool,
}

/// One pull request, as recorded in a merge commit's message header: its
/// number, the owner of the source branch, the source branch, and the title
/// (the message body, which may be empty).
#[derive(Clone, Debug)]
pub struct PullRequestInfo {
    pub id: u32,
    pub author: String,
    pub branch: String,
    pub name: String,
}

/// Why a merge commit's message could not be parsed.
#[derive(Clone, Debug)]
pub enum ExtractionReason {
    /// The commit has no (UTF-8) message at all.
    MissingMessage,
    /// The message is empty, so there is no header line.
    EmptyMessage,
    /// The header line does not have the recognized merge form; carries the
    /// offending header text.
    InvalidHeader(String),
    /// The pull request number does not fit the id type; carries the digit
    /// text.
    InvalidId(String),
}

/// A per-commit extraction failure: the commit it concerns and the reason.
#[derive(Clone, Debug)]
pub struct ExtractionError {
    pub commit_id: String,
    pub reason: ExtractionReason,
}

} // verus!
