//! The orchestrator's unit of work.

use crate::path::{file_name, has_separator, join, joined, lemma_joined_file_name};
use crate::path::{sanitize_filename, sanitized};
use crate::status::{lowercase, Status};
use vstd::prelude::*;

verus! {

/// Whether `c` is a digit or one of the letters `a` to `f`.
pub open spec fn is_lower_hex(c: char) -> bool {
    ('0' <= c <= '9') || ('a' <= c <= 'f')
}

/// The shape of an identifier in its hyphenated form: thirty-six
/// characters, hyphens at four fixed places, lower-case hexadecimal digits
/// everywhere else.
pub open spec fn is_hyphenated_id(s: Seq<char>) -> bool {
    &&& s.len() == 36
    &&& forall|i: int|
        0 <= i < 36 ==> if i == 8 || i == 13 || i == 18 || i == 23 {
            #[trigger] s[i] == '-'
        } else {
            is_lower_hex(s[i])
        }
}

/// `uuid::Uuid::new_v4` and the identifier's `to_string`: a random
/// identifier in its hyphenated lower-case form. Nothing is claimed of which
/// one comes back, only of its shape.
#[verifier::external_body]
pub(crate) fn fresh_id() -> (s: String)
    ensures
        is_hyphenated_id(s@),
{
    uuid::Uuid::new_v4().to_string()
}

/// One request on its way through the orchestrator.
#[derive(Debug)]
pub struct Job {
    /// Zero until the job is stored.
    pub id: i32,
    pub user_id: i32,
    pub service: String,
    pub status: Status,
    /// The job's own directory.
    pub loc: String,
    /// What the destination called the job; empty until it is uploaded.
    pub dest_id: String,
}

/// A job as the store holds it.
#[derive(Debug)]
pub struct JobRow {
    pub id: i32,
    pub user_id: i32,
    pub service: String,
    /// The status by its stored name.
    pub status: String,
    pub loc: String,
    pub dest_id: Option<String>,
}

/// A job as the contracts see it.
pub struct JobView {
    pub id: i32,
    pub user_id: i32,
    pub service: Seq<char>,
    pub status: Status,
    pub loc: Seq<char>,
    pub dest_id: Seq<char>,
}

impl View for Job {
    type V = JobView;

    open spec fn view(&self) -> JobView {
        JobView {
            id: self.id,
            user_id: self.user_id,
            service: self.service@,
            status: self.status,
            loc: self.loc@,
            dest_id: self.dest_id@,
        }
    }
}

impl Clone for Job {
    fn clone(&self) -> (r: Self)
        ensures
            r@ == self@,
    {
        Job {
            id: self.id,
            user_id: self.user_id,
            service: self.service.clone(),
            status: self.status,
            loc: self.loc.clone(),
            dest_id: self.dest_id.clone(),
        }
    }
}

impl JobView {
    /// A job that was never stored, has no owner yet and lives in `loc`.
    pub open spec fn blank(loc: Seq<char>) -> JobView {
        JobView {
            id: 0,
            user_id: 0,
            service: Seq::empty(),
            status: Status::Unknown,
            loc,
            dest_id: Seq::empty(),
        }
    }

    /// What holds of every job at rest: a submitted job carries the
    /// destination's identifier, and a stored job has a directory.
    pub open spec fn well_formed(self) -> bool {
        &&& self.status == Status::Submitted ==> self.dest_id.len() > 0
        &&& self.id != 0 ==> self.loc.len() > 0
    }
}

impl Job {
    /// What holds of every job at rest.
    pub open spec fn well_formed(&self) -> bool {
        self@.well_formed()
    }

    /// A new job whose directory is `loc`.
    pub fn at(loc: String) -> (job: Job)
        ensures
            job@ == JobView::blank(loc@),
    {
        Job {
            id: 0,
            user_id: 0,
            service: String::new(),
            status: Status::Unknown,
            loc,
            dest_id: String::new(),
        }
    }

    /// A new job with a directory of its own below `data_path`, named by a
    /// fresh identifier. The directory is not made here.
    pub fn new(data_path: &str) -> (job: Job)
        ensures
            exists|id: Seq<char>|
                is_hyphenated_id(id) && job@ == JobView::blank(#[trigger] joined(data_path@, id)),
            job@.loc.len() > 0,
            file_name(job@.loc) matches Some(name) && is_hyphenated_id(name),
            job.well_formed(),
    {
        let id = fresh_id();
        proof {
            lemma_hyphenated_id_is_plain(id@);
            lemma_joined_file_name(data_path@, id@);
        }
        Job::at(join(data_path, id.as_str()))
    }

    /// The job that a stored row describes. The status is read from its
    /// name in any letter case; a row without an identifier of the
    /// destination gives a job with an empty one.
    pub fn from_row(row: JobRow) -> (job: Job)
        ensures
            job@ == (JobView {
                id: row.id,
                user_id: row.user_id,
                service: row.service@,
                status: Status::of_name(lowercase(row.status@)),
                loc: row.loc@,
                dest_id: match row.dest_id {
                    Some(d) => d@,
                    None => Seq::empty(),
                },
            }),
    {
        let status = Status::from_string(row.status.as_str());
        Job {
            id: row.id,
            user_id: row.user_id,
            service: row.service,
            status,
            loc: row.loc,
            dest_id: match row.dest_id {
                Some(d) => d,
                None => String::new(),
            },
        }
    }

    /// Records that the job was stored under `id` and now waits in the
    /// queue.
    pub fn enqueue(&mut self, id: i32)
        ensures
            final(self)@ == (JobView { id, status: Status::Queued, ..old(self)@ }),
            old(self)@.loc.len() > 0 ==> final(self).well_formed(),
    {
        self.id = id;
        self.status = Status::Queued;
    }

    /// Where an uploaded file called `filename` is stored: under its
    /// sanitized name in the job's directory.
    pub fn file_path(&self, filename: &str) -> (path: String)
        ensures
            path@ == joined(self@.loc, sanitized(filename@)),
    {
        let name = sanitize_filename(filename);
        join(self.loc.as_str(), name.as_str())
    }

    /// Names the service that the job is for.
    pub fn set_service(&mut self, service: String)
        ensures
            final(self)@ == (JobView { service: service@, ..old(self)@ }),
            old(self).well_formed() ==> final(self).well_formed(),
    {
        self.service = service
    }

    /// Names the user who owns the job.
    pub fn set_user_id(&mut self, user_id: i32)
        ensures
            final(self)@ == (JobView { user_id, ..old(self)@ }),
            old(self).well_formed() ==> final(self).well_formed(),
    {
        self.user_id = user_id;
    }
}

/// A hyphenated identifier is a plain file name.
pub proof fn lemma_hyphenated_id_is_plain(id: Seq<char>)
    requires
        is_hyphenated_id(id),
    ensures
        id.len() > 0,
        !has_separator(id),
        id != seq!['.'],
        id != seq!['.', '.'],
{
    assert forall|i: int| 0 <= i < id.len() implies id[i] != '/' by {
        assert(if i == 8 || i == 13 || i == 18 || i == 23 {
            id[i] == '-'
        } else {
            is_lower_hex(id[i])
        });
    }
}

} // verus!
