//! The error taxonomy of the crawling core. A selector or URL error
//! aborts only the board task that raised it; a fetch error is reported
//! the same way. Collaborator-level failures (I/O, deserialization)
//! stay outside the core.

use vstd::prelude::*;

verus! {

/// What can go wrong while crawling one board.
#[derive(Debug)]
pub enum CrawlerError {
    /// The fetch of a board's page failed; carries the reported cause.
    Fetch(String),
    /// A selector string does not compile.
    Selector { selector: String, message: String },
    /// A board URL cannot be used as a base for resolution.
    Url(String),
    /// A configuration value is unusable.
    Config(String),
}

/// The display text of an error.
pub open spec fn error_message_spec(e: CrawlerError) -> Seq<char> {
    match e {
        CrawlerError::Fetch(m) => "HTTP request failed: "@ + m@,
        CrawlerError::Selector { selector, message } => "Invalid selector '"@ + selector@ + "': "@
            + message@,
        CrawlerError::Url(u) => "URL parsing failed: "@ + u@,
        CrawlerError::Config(m) => "Configuration error: "@ + m@,
    }
}

impl CrawlerError {
    /// Render the error as text for reporting.
    pub fn message(&self) -> (r: String)
        ensures
            r@ == error_message_spec(*self),
    {
        match self {
            CrawlerError::Fetch(m) => {
                let mut out = String::from_str("HTTP request failed: ");
                out.append(m.as_str());
                out
            },
            CrawlerError::Selector { selector, message } => {
                let mut out = String::from_str("Invalid selector '");
                out.append(selector.as_str());
                out.append("': ");
                out.append(message.as_str());
                out
            },
            CrawlerError::Url(u) => {
                let mut out = String::from_str("URL parsing failed: ");
                out.append(u.as_str());
                out
            },
            CrawlerError::Config(m) => {
                let mut out = String::from_str("Configuration error: ");
                out.append(m.as_str());
                out
            },
        }
    }
}

} // verus!
