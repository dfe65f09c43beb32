//! The lifecycle status shared by jobs and payloads.

use crate::text::same;
use vstd::prelude::*;

verus! {

/// Where a job or a payload stands in its lifecycle.
#[derive(Debug, Clone, Copy, PartialEq, Eq, Structural)]
pub enum Status {
    Unknown,
    Queued,
    Processing,
    Submitted,
    Completed,
    Failed,
    Cleaned,
    Prepared,
}

/// What `str::to_lowercase` makes of a string.
pub uninterp spec fn lowercase(s: Seq<char>) -> Seq<char>;

/// `str::to_lowercase`: the lowercase equivalent of the string, as a new
/// `String`; a function of the characters alone.
#[verifier::external_body]
fn to_lowercase(s: &str) -> (r: String)
    ensures
        r@ == lowercase(s@),
{
    s.to_lowercase()
}

impl Status {
    /// The name under which the status is stored: its variant's name in
    /// lower case.
    pub open spec fn name(self) -> Seq<char> {
        match self {
            Status::Unknown => "unknown"@,
            Status::Queued => "queued"@,
            Status::Processing => "processing"@,
            Status::Submitted => "submitted"@,
            Status::Completed => "completed"@,
            Status::Failed => "failed"@,
            Status::Cleaned => "cleaned"@,
            Status::Prepared => "prepared"@,
        }
    }

    /// The status that a stored name stands for; any other text is `Unknown`.
    pub open spec fn of_name(name: Seq<char>) -> Status {
        if name == "queued"@ {
            Status::Queued
        } else if name == "processing"@ {
            Status::Processing
        } else if name == "submitted"@ {
            Status::Submitted
        } else if name == "completed"@ {
            Status::Completed
        } else if name == "failed"@ {
            Status::Failed
        } else if name == "cleaned"@ {
            Status::Cleaned
        } else if name == "prepared"@ {
            Status::Prepared
        } else {
            Status::Unknown
        }
    }

    /// No scheduler task moves a job out of a terminal status; only the
    /// janitor may still mark it cleaned.
    pub open spec fn is_terminal(self) -> bool {
        self == Status::Completed || self == Status::Failed || self == Status::Unknown || self
            == Status::Cleaned
    }

    /// Whether the status is final for the scheduler.
    pub fn terminal(&self) -> (b: bool)
        ensures
            b == self.is_terminal(),
    {
        match self {
            Status::Completed | Status::Failed | Status::Unknown | Status::Cleaned => true,
            _ => false,
        }
    }

    /// The stored name of the status.
    pub fn as_str(&self) -> (s: &'static str)
        ensures
            s@ == self.name(),
    {
        match self {
            Status::Unknown => "unknown",
            Status::Queued => "queued",
            Status::Processing => "processing",
            Status::Submitted => "submitted",
            Status::Completed => "completed",
            Status::Failed => "failed",
            Status::Cleaned => "cleaned",
            Status::Prepared => "prepared",
        }
    }

    /// The stored name of the status, owned.
    pub fn to_string(&self) -> (s: String)
        ensures
            s@ == self.name(),
    {
        self.as_str().to_owned()
    }

    /// Reads a stored name, exactly as written.
    pub fn from_name(name: &str) -> (r: Status)
        ensures
            r == Status::of_name(name@),
    {
        if same(name, "queued") {
            Status::Queued
        } else if same(name, "processing") {
            Status::Processing
        } else if same(name, "submitted") {
            Status::Submitted
        } else if same(name, "completed") {
            Status::Completed
        } else if same(name, "failed") {
            Status::Failed
        } else if same(name, "cleaned") {
            Status::Cleaned
        } else if same(name, "prepared") {
            Status::Prepared
        } else {
            Status::Unknown
        }
    }

    /// Reads a status from text in any letter case: the text is put in lower
    /// case and then read as a stored name.
    pub fn from_string(s: &str) -> (r: Status)
        ensures
            r == Status::of_name(lowercase(s@)),
    {
        let lower = to_lowercase(s);
        Status::from_name(lower.as_str())
    }
}

/// Every status is read back from its own stored name.
pub proof fn lemma_name_round_trip(s: Status)
    ensures
        Status::of_name(s.name()) == s,
{
    reveal_strlit("unknown");
    reveal_strlit("queued");
    reveal_strlit("processing");
    reveal_strlit("submitted");
    reveal_strlit("completed");
    reveal_strlit("failed");
    reveal_strlit("cleaned");
    reveal_strlit("prepared");
    assert("unknown"@.len() == 7);
    assert("queued"@.len() == 6);
    assert("processing"@.len() == 10);
    assert("submitted"@.len() == 9);
    assert("completed"@.len() == 9);
    assert("failed"@.len() == 6);
    assert("cleaned"@.len() == 7);
    assert("prepared"@.len() == 8);
    assert("submitted"@[0] == 's' && "completed"@[0] == 'c');
    assert("queued"@[0] == 'q' && "failed"@[0] == 'f');
    assert("unknown"@[0] == 'u' && "cleaned"@[0] == 'c');
}

} // verus!
