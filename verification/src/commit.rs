//! The commit data that patch generation and checking read.

use vstd::prelude::*;

verus! {

/// What the library reads of a commit: its id, author, time and message.
#[derive(Debug, Clone)]
pub struct CommitInfo {
    /// The commit id, as hexadecimal text.
    pub id: String,
    /// The author's name, when the repository records one as text.
    pub author_name: Option<String>,
    /// The author's e-mail address, when the repository records one as text.
    pub author_email: Option<String>,
    /// Commit time, in seconds since the Unix epoch.
    pub time_seconds: i64,
    /// The full commit message, when it is text.
    pub message: Option<String>,
}

/// The text held by an optional string.
pub open spec fn opt_view(o: Option<String>) -> Option<Seq<char>> {
    match o {
        Some(s) => Some(s@),
        None => None,
    }
}

} // verus!
