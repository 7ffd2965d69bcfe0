//! Suggestions about the use of the context window, and how severe they are.
use vstd::prelude::*;

verus! {

/// How urgent a suggestion is.
#[derive(Debug, Clone, Copy, PartialEq, Eq, Structural)]
pub enum SuggestionSeverity {
    /// Informational, no immediate action needed.
    Info,
    /// Warning, action recommended soon.
    Warning,
    /// Critical, action should be taken immediately.
    Critical,
}

impl SuggestionSeverity {
    /// The short label of a severity.
    pub fn label(&self) -> (r: &'static str)
        ensures
            r@ == match *self {
                SuggestionSeverity::Info => "INFO"@,
                SuggestionSeverity::Warning => "WARN"@,
                SuggestionSeverity::Critical => "CRIT"@,
            },
    {
        match self {
            SuggestionSeverity::Info => "INFO",
            SuggestionSeverity::Warning => "WARN",
            SuggestionSeverity::Critical => "CRIT",
        }
    }
}

/// A suggestion with an optional action.
#[derive(Debug, Clone)]
pub struct ContextSuggestion {
    pub message: String,
    pub severity: SuggestionSeverity,
    pub action: Option<String>,
}

} // verus!
