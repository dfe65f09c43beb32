//! What the request handlers decide: how an upload is validated, and what
//! is answered to a request for a result.

use crate::config::Config;
use crate::job::{Job, JobView};
use crate::path::{join, joined};
use crate::payload::Payload;
use crate::status::Status;
use crate::text::{parse_i32, parse_signed, same};
use crate::transfer::Destinations;
use vstd::prelude::*;

verus! {

/// Bytes that a request to the orchestrator may hold: 400 MiB.
pub const BODY_SIZE_LIMIT: usize = 419430400;

/// The owner and the service of an upload.
#[derive(Debug)]
pub struct UploadPayload {
    pub user_id: i32,
    pub service: String,
}

/// The answer to a liveness probe.
#[derive(Debug)]
pub struct Ping {
    pub message: String,
}

/// The answer to a health probe.
#[derive(Debug)]
pub struct Health {
    pub status: String,
    pub database: String,
}

/// Why an upload is turned down.
#[derive(Debug, Clone, Copy, PartialEq, Eq, Structural)]
pub enum Rejection {
    MissingUserId,
    InvalidUserId,
    MissingService,
    /// The service is not configured.
    UnknownService,
}

/// What is answered to a request for a result.
#[derive(Debug, Clone, Copy, PartialEq, Eq, Structural)]
pub enum Answer {
    /// The artifact is there and is sent.
    Artifact,
    /// The job failed or was cleaned: there is nothing to send.
    NoContent,
    /// The job is on its way.
    Accepted,
    /// No such job.
    NotFound,
}

impl Rejection {
    /// The status of the response that turns the upload down.
    pub open spec fn status_code(self) -> u16 {
        if self == Rejection::UnknownService {
            503
        } else {
            400
        }
    }

    /// The status of the response: 503 where the service is not
    /// configured, 400 for everything else.
    pub fn code(&self) -> (c: u16)
        ensures
            c == self.status_code(),
            c == 400 || c == 503,
    {
        match self {
            Rejection::UnknownService => 503,
            _ => 400,
        }
    }

    /// The text of the response.
    pub fn message(&self) -> (m: &'static str)
        ensures
            m@ == match *self {
                Rejection::MissingUserId => "Missing user_id"@,
                Rejection::InvalidUserId => "Invalid user_id"@,
                Rejection::MissingService => "Missing service"@,
                Rejection::UnknownService => "Invalid service"@,
            },
    {
        match self {
            Rejection::MissingUserId => "Missing user_id",
            Rejection::InvalidUserId => "Invalid user_id",
            Rejection::MissingService => "Missing service",
            Rejection::UnknownService => "Invalid service",
        }
    }
}

impl Answer {
    /// The status of the response that carries the answer.
    pub open spec fn status_code(self) -> u16 {
        match self {
            Answer::Artifact => 200,
            Answer::NoContent => 204,
            Answer::Accepted => 202,
            Answer::NotFound => 404,
        }
    }

    /// The status of the response.
    pub fn code(&self) -> (c: u16)
        ensures
            c == self.status_code(),
            c == 200 || c == 202 || c == 204 || c == 404,
    {
        match self {
            Answer::Artifact => 200,
            Answer::NoContent => 204,
            Answer::Accepted => 202,
            Answer::NotFound => 404,
        }
    }
}

/// What is answered for a job or payload in `status`, or for none at
/// all.
pub open spec fn answer_for(status: Option<Status>) -> Answer {
    match status {
        None => Answer::NotFound,
        Some(Status::Completed) => Answer::Artifact,
        Some(Status::Failed) => Answer::NoContent,
        Some(Status::Cleaned) => Answer::NoContent,
        Some(_) => Answer::Accepted,
    }
}

/// The answer for a job or payload in `status`, or for none at all: the
/// artifact where it is completed, no content where it failed or was
/// cleaned, accepted in every other status, not found where there is
/// none.
pub fn answer(status: Option<Status>) -> (a: Answer)
    ensures
        a == answer_for(status),
{
    match status {
        None => Answer::NotFound,
        Some(Status::Completed) => Answer::Artifact,
        Some(Status::Failed) => Answer::NoContent,
        Some(Status::Cleaned) => Answer::NoContent,
        Some(_) => Answer::Accepted,
    }
}

/// The file of a job's directory that holds its result, by the adapter that
/// fetched it.
pub fn artifact_name(destination: Destinations) -> (name: &'static str)
    ensures
        name@ == match destination {
            Destinations::Jobd => "output.zip"@,
            Destinations::Client => "download.zip"@,
        },
{
    match destination {
        Destinations::Jobd => "output.zip",
        Destinations::Client => "download.zip",
    }
}

/// The answer to a request for the result of a job; `job` is missing where
/// no job has the number that was asked for. With the artifact comes the
/// path of the file to send.
pub fn download(job: Option<&Job>, destination: Destinations) -> (r: (Answer, Option<String>))
    ensures
        r.0 == answer_for(
            match job {
                Some(j) => Some(j@.status),
                None => None,
            },
        ),
        r.1 is Some <==> r.0 == Answer::Artifact,
        r.1 matches Some(path) ==> (job matches Some(j) && path@ == joined(
            j@.loc,
            match destination {
                Destinations::Jobd => "output.zip"@,
                Destinations::Client => "download.zip"@,
            },
        )),
{
    match job {
        None => (Answer::NotFound, None),
        Some(j) => {
            let a = answer(Some(j.status));
            match a {
                Answer::Artifact => (a, Some(join(j.loc.as_str(), artifact_name(destination)))),
                _ => (a, None),
            }
        },
    }
}

/// The answer to a request for the output of a payload; `payload` is
/// missing where no payload has the number that was asked for. With the
/// artifact comes the path of the archive to send, `output.zip` in the
/// payload's directory, which is made of the directory if it is not there
/// yet.
pub fn retrieve(payload: Option<&Payload>) -> (r: (Answer, Option<String>))
    ensures
        r.0 == answer_for(
            match payload {
                Some(p) => Some(p@.status),
                None => None,
            },
        ),
        r.1 is Some <==> r.0 == Answer::Artifact,
        r.1 matches Some(path) ==> (payload matches Some(p) && path@ == joined(
            p@.loc,
            "output.zip"@,
        )),
{
    match payload {
        None => (Answer::NotFound, None),
        Some(p) => {
            let a = answer(Some(p.status));
            match a {
                Answer::Artifact => (a, Some(join(p.loc.as_str(), "output.zip"))),
                _ => (a, None),
            }
        },
    }
}

/// The answer to a liveness probe.
pub fn ping() -> (p: Ping)
    ensures
        p.message@ == "pong"@,
{
    Ping { message: "pong".to_owned() }
}

/// The answer to a health probe: healthy where the store answered, and
/// status 503 where it did not.
pub fn health(store_answers: bool) -> (r: Result<Health, u16>)
    ensures
        match r {
            Ok(h) => store_answers && h.status@ == "ok"@ && h.database@ == "ok"@,
            Err(code) => !store_answers && code == 503,
        },
{
    if store_answers {
        Ok(Health { status: "ok".to_owned(), database: "ok".to_owned() })
    } else {
        Err(503)
    }
}

/// The value of the last field called `name`.
pub open spec fn last_value(fields: Seq<(Seq<char>, Seq<char>)>, name: Seq<char>) -> Option<
    Seq<char>,
>
    decreases fields.len(),
{
    if fields.len() == 0 {
        None
    } else if fields.last().0 == name {
        Some(fields.last().1)
    } else {
        last_value(fields.drop_last(), name)
    }
}

/// The fields of a form as pairs of texts.
pub open spec fn field_views(fields: Seq<(String, String)>) -> Seq<(Seq<char>, Seq<char>)> {
    Seq::new(fields.len(), |i: int| (fields[i].0@, fields[i].1@))
}

/// What the text fields of an upload say of its owner and service, or why
/// the upload is turned down. The first fault in this order decides: no
/// `user_id`, a `user_id` that is no 32-bit number, no `service`, a
/// service that is not configured.
pub open spec fn validated(fields: Seq<(Seq<char>, Seq<char>)>, config: &Config) -> Result<
    (i32, Seq<char>),
    Rejection,
> {
    match last_value(fields, "user_id"@) {
        None => Err(Rejection::MissingUserId),
        Some(text) => match parse_signed(text, i32::MIN as int, i32::MAX as int) {
            None => Err(Rejection::InvalidUserId),
            Some(user_id) => match last_value(fields, "service"@) {
                None => Err(Rejection::MissingService),
                Some(service) => if config.service(service) is Some {
                    Ok((user_id as i32, service))
                } else {
                    Err(Rejection::UnknownService)
                },
            },
        },
    }
}

/// The last field called `name`.
fn field<'a>(fields: &'a Vec<(String, String)>, name: &str) -> (r: Option<&'a str>)
    ensures
        r matches Some(v) ==> last_value(field_views(fields@), name@) == Some(v@),
        r is None ==> last_value(field_views(fields@), name@) is None,
{
    let ghost all = field_views(fields@);
    let mut i: usize = fields.len();
    assert(all.take(i as int) =~= all);
    while i > 0
        invariant
            i <= fields.len(),
            all == field_views(fields@),
            last_value(all, name@) == last_value(all.take(i as int), name@),
        decreases i,
    {
        assert(all.take(i as int).drop_last() =~= all.take(i - 1));
        assert(all.take(i as int).last() == (fields@[i - 1].0@, fields@[i - 1].1@));
        if same(fields[i - 1].0.as_str(), name) {
            return Some(fields[i - 1].1.as_str());
        }
        i -= 1;
    }
    None
}

/// Validates the text fields of an upload, given as pairs of name and
/// value in the order in which they came, and says who owns the upload and
/// which service it is for.
pub fn validate(fields: &Vec<(String, String)>, config: &Config) -> (r: Result<
    UploadPayload,
    Rejection,
>)
    ensures
        match r {
            Ok(p) => validated(field_views(fields@), config) == Ok::<(i32, Seq<char>), Rejection>(
                (p.user_id, p.service@),
            ),
            Err(e) => validated(field_views(fields@), config) == Err::<(i32, Seq<char>), Rejection>(
                e,
            ),
        },
{
    let user_id = match field(fields, "user_id") {
        None => {
            return Err(Rejection::MissingUserId);
        },
        Some(text) => match parse_i32(text) {
            None => {
                return Err(Rejection::InvalidUserId);
            },
            Some(n) => n,
        },
    };
    let service = match field(fields, "service") {
        None => {
            return Err(Rejection::MissingService);
        },
        Some(s) => s,
    };
    if !config.has_service(service) {
        return Err(Rejection::UnknownService);
    }
    Ok(UploadPayload { user_id, service: service.to_owned() })
}

/// Takes an upload in: where its fields are valid the job gets its owner
/// and service; where they are not the job stays as it is, and is never
/// stored.
pub fn upload(job: &mut Job, fields: &Vec<(String, String)>, config: &Config) -> (r: Result<
    (),
    Rejection,
>)
    ensures
        match r {
            Ok(()) => validated(field_views(fields@), config) matches Ok((user_id, service))
                && final(job)@ == (JobView { user_id, service, ..old(job)@ }),
            Err(e) => validated(field_views(fields@), config) == Err::<(i32, Seq<char>), Rejection>(
                e,
            ) && final(job)@ == old(job)@,
        },
        r is Ok ==> config.service(final(job)@.service) is Some,
{
    match validate(fields, config) {
        Ok(p) => {
            job.set_user_id(p.user_id);
            job.set_service(p.service);
            Ok(())
        },
        Err(e) => Err(e),
    }
}

} // verus!
