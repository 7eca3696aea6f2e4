//! Error taxonomy for the pipeline. Parsing an empty input is the only
//! structural failure the core itself produces; the other variants exist for
//! the surrounding host's error channel.

use vstd::prelude::*;
use vstd::string::StringExecFns;

verus! {

/// Browser operation errors.
#[derive(Debug, Clone)]
pub enum BrowserError {
    /// HTML parsing error.
    Parse(String),
    /// CSS parsing error.
    Css(String),
    /// JavaScript error.
    Script(String),
    /// Rendering error.
    Render(String),
    /// Network error.
    Network(String),
    /// Navigation error.
    Navigation(String),
}

/// The human-readable rendering of an error: a category prefix followed by
/// the carried message.
pub open spec fn error_text(e: BrowserError) -> Seq<char> {
    match e {
        BrowserError::Parse(m) => "Parse error: "@ + m@,
        BrowserError::Css(m) => "CSS error: "@ + m@,
        BrowserError::Script(m) => "Script error: "@ + m@,
        BrowserError::Render(m) => "Render error: "@ + m@,
        BrowserError::Network(m) => "Network error: "@ + m@,
        BrowserError::Navigation(m) => "Navigation error: "@ + m@,
    }
}

impl BrowserError {
    /// Render the error as a message string: a category prefix followed by
    /// the carried detail.
    pub fn message(&self) -> (m: String)
        ensures
            m@ == error_text(*self),
    {
        match self {
            BrowserError::Parse(s) => String::from_str("Parse error: ").concat(s.as_str()),
            BrowserError::Css(s) => String::from_str("CSS error: ").concat(s.as_str()),
            BrowserError::Script(s) => String::from_str("Script error: ").concat(s.as_str()),
            BrowserError::Render(s) => String::from_str("Render error: ").concat(s.as_str()),
            BrowserError::Network(s) => String::from_str("Network error: ").concat(s.as_str()),
            BrowserError::Navigation(s) => String::from_str("Navigation error: ").concat(
                s.as_str(),
            ),
        }
    }
}

/// Result type for browser operations.
pub type BrowserResult<T> = Result<T, BrowserError>;

} // verus!
