//! The adapter for a client process, which takes a job's files as a
//! multipart form, and the client's own runner.

use crate::json::{field, found_view, json_field, Field, FieldView};
use crate::path::{join, joined, relative_to, sanitize_filename, sanitized, strip_root};
use crate::text::{decimal, decimal_text, lemma_decimal_text_len};
use crate::transfer::{
    body_text, truncate, truncated, DownloadError, DownloadFailure, UploadError, UploadFailure,
    BODY_LIMIT,
};
use vstd::prelude::*;

verus! {

/// The adapter for a client process.
#[derive(Debug, Clone, Copy)]
pub struct Client;

/// Why a payload did not run to a good end.
#[derive(Debug, Clone, Copy, PartialEq, Eq, Structural)]
pub enum ClientError {
    /// The script could not be started.
    Execution,
    /// The script ended with a status other than zero.
    Script,
    /// The payload holds no `run.sh`.
    NoExecScript,
}

/// One file of a job as a part of the form that is sent.
#[derive(Debug)]
pub struct Part {
    /// The part's name: the file's path below the job's directory.
    pub name: String,
    /// The file's own name.
    pub file_name: String,
    /// Where the file is read from.
    pub path: String,
}

/// The name of the part for the file at `path` of the job in `loc`: the
/// path below `loc`, or the whole path where it is not below `loc`.
pub open spec fn part_name(path: Seq<char>, loc: Seq<char>) -> Seq<char> {
    match relative_to(path, loc) {
        Some(rest) => rest,
        None => path,
    }
}

/// Whether the status of a response means success.
pub open spec fn is_success(status: u16) -> bool {
    200 <= status < 300
}

/// What an upload comes to, given the response's status, whether its body
/// could be read, and what was found in the body under `id`.
pub open spec fn upload_outcome(status: u16, body_read: bool, id: Option<Option<FieldView>>) -> Result<
    Seq<char>,
    UploadFailure,
> {
    if !is_success(status) {
        Err(UploadFailure::UnexpectedStatus)
    } else if !body_read {
        Err(UploadFailure::ResponseReadFailed)
    } else {
        match id {
            Some(Some(FieldView::Number(n))) => if n <= u32::MAX {
                Ok(decimal_text(n as nat))
            } else {
                Err(UploadFailure::DeserializationFailed)
            },
            _ => Err(UploadFailure::DeserializationFailed),
        }
    }
}

/// What a download comes to, given the response's status: on 200 the path
/// at which the body is to be stored.
pub open spec fn download_outcome(loc: Seq<char>, status: u16) -> Result<
    Seq<char>,
    DownloadFailure,
> {
    if status == 200 {
        Ok(joined(loc, "download.zip"@))
    } else if status == 202 {
        Err(DownloadFailure::NotReady)
    } else if status == 204 {
        Err(DownloadFailure::JobFailedOrCleaned)
    } else if status == 404 {
        Err(DownloadFailure::JobNotFound)
    } else {
        Err(DownloadFailure::UnexpectedStatus)
    }
}

impl Client {
    /// The parts of the form for a job in `loc` whose regular files are
    /// `files`, one part for each file and in their order.
    pub fn upload_parts(loc: &str, files: &Vec<String>) -> (parts: Vec<Part>)
        ensures
            parts@.len() == files@.len(),
            forall|i: int|
                0 <= i < parts@.len() ==> {
                    let p = #[trigger] parts@[i];
                    &&& p.path@ == files@[i]@
                    &&& p.name@ == part_name(files@[i]@, loc@)
                    &&& p.file_name@ == sanitized(files@[i]@)
                },
    {
        let mut parts: Vec<Part> = Vec::new();
        let mut i: usize = 0;
        while i < files.len()
            invariant
                i <= files.len(),
                parts@.len() == i,
                forall|k: int|
                    0 <= k < i ==> {
                        let p = #[trigger] parts@[k];
                        &&& p.path@ == files@[k]@
                        &&& p.name@ == part_name(files@[k]@, loc@)
                        &&& p.file_name@ == sanitized(files@[k]@)
                    },
            decreases files.len() - i,
        {
            let path = files[i].as_str();
            let name = match strip_root(path, loc) {
                Some(rest) => rest,
                None => path.to_owned(),
            };
            parts.push(Part { name, file_name: sanitize_filename(path), path: path.to_owned() });
            i += 1;
        }
        parts
    }

    /// What an upload comes to once the body was looked into: `id` is what
    /// was found in it under `id`, or the parser's message. On success the
    /// destination's number for the job, which fits 32 bits, in decimal
    /// digits; on a status that means no success an error that keeps the
    /// status and the start of the body.
    pub fn upload_result(
        status: u16,
        body: Result<String, String>,
        id: Result<Option<Field>, String>,
    ) -> (r: Result<String, UploadError>)
        ensures
            match r {
                Ok(dest_id) => upload_outcome(status, body is Ok, found_view(id)) == Ok::<
                    Seq<char>,
                    UploadFailure,
                >(dest_id@) && dest_id@.len() > 0,
                Err(e) => upload_outcome(status, body is Ok, found_view(id)) == Err::<
                    Seq<char>,
                    UploadFailure,
                >(e.failure()),
            },
            r matches Err(UploadError::UnexpectedStatus { status: s, body: b }) ==> s == status && b@
                == (match body {
                Ok(t) => truncated(t@, BODY_LIMIT as int),
                Err(_) => "Unable to read body"@,
            }),
            r matches Err(UploadError::ResponseReadFailed(why)) ==> (body matches Err(e) && why@
                == e@),
            r matches Err(UploadError::DeserializationFailed(why)) ==> (id matches Err(e) ==> why@
                == e@),
    {
        if !(200 <= status && status < 300) {
            let kept = match body {
                Ok(t) => truncate(t.as_str()),
                Err(_) => "Unable to read body".to_owned(),
            };
            return Err(UploadError::UnexpectedStatus { status, body: kept });
        }
        match body {
            Err(e) => Err(UploadError::ResponseReadFailed(e)),
            Ok(_) => match id {
                Err(e) => Err(UploadError::DeserializationFailed(e)),
                Ok(None) => Err(UploadError::DeserializationFailed("missing field `id`".to_owned())),
                Ok(Some(Field::Number(n))) => {
                    if n <= 4294967295 {
                        proof {
                            lemma_decimal_text_len(n as nat);
                        }
                        Ok(decimal(n))
                    } else {
                        Err(
                            UploadError::DeserializationFailed(
                                "invalid value for field `id`".to_owned(),
                            ),
                        )
                    }
                },
                Ok(Some(_)) => Err(
                    UploadError::DeserializationFailed("invalid type for field `id`".to_owned()),
                ),
            },
        }
    }

    /// What an upload comes to, given the response's status and its body,
    /// or why the body could not be read. On success the body is JSON with
    /// the destination's number for the job under `id`. On a status that
    /// means no success an error that keeps the status and the start of the
    /// body.
    pub fn handle_upload_response(status: u16, body: Result<String, String>) -> (r: Result<
        String,
        UploadError,
    >)
        ensures
            match r {
                Ok(dest_id) => upload_outcome(status, body is Ok, json_field(body_text(body), "id"@))
                    == Ok::<Seq<char>, UploadFailure>(dest_id@) && dest_id@.len() > 0,
                Err(e) => upload_outcome(status, body is Ok, json_field(body_text(body), "id"@))
                    == Err::<Seq<char>, UploadFailure>(e.failure()),
            },
            r matches Err(UploadError::UnexpectedStatus { status: s, body: b }) ==> s == status && b@
                == (match body {
                Ok(t) => truncated(t@, BODY_LIMIT as int),
                Err(_) => "Unable to read body"@,
            }),
            r matches Err(UploadError::ResponseReadFailed(why)) ==> (body matches Err(e) && why@
                == e@),
    {
        let id = match &body {
            Ok(text) => field(text.as_str(), "id"),
            Err(_) => Ok(None),
        };
        Client::upload_result(status, body, id)
    }

    /// What a download comes to, given the response's status and, where the
    /// status is not 200, its body if it could be read. On 200 the path at
    /// which the response's body is to be stored: `download.zip` in the
    /// job's directory `loc`. On a status that no rule covers an error that
    /// keeps the status and the whole body.
    pub fn handle_download_response(loc: &str, status: u16, body: Option<String>) -> (r: Result<
        String,
        DownloadError,
    >)
        ensures
            match r {
                Ok(path) => download_outcome(loc@, status) == Ok::<Seq<char>, DownloadFailure>(
                    path@,
                ),
                Err(e) => download_outcome(loc@, status) == Err::<Seq<char>, DownloadFailure>(
                    e.failure(),
                ),
            },
            r matches Err(DownloadError::UnexpectedStatus { status: s, body: b }) ==> s == status
                && b@ == (match body {
                Some(t) => t@,
                None => "Unable to read response body"@,
            }),
    {
        if status == 200 {
            Ok(join(loc, "download.zip"))
        } else if status == 202 {
            Err(DownloadError::NotReady)
        } else if status == 204 {
            Err(DownloadError::JobFailedOrCleaned)
        } else if status == 404 {
            Err(DownloadError::JobNotFound)
        } else {
            let kept = match body {
                Some(t) => t,
                None => "Unable to read response body".to_owned(),
            };
            Err(DownloadError::UnexpectedStatus { status, body: kept })
        }
    }
}

/// How the run of a payload ended: `has_script` says whether its directory
/// holds `run.sh`, `exit` whether the script, once started, ended with
/// status zero, or nothing where it could not be started.
pub open spec fn run_outcome(has_script: bool, exit: Option<bool>) -> Result<(), ClientError> {
    if !has_script {
        Err(ClientError::NoExecScript)
    } else {
        match exit {
            None => Err(ClientError::Execution),
            Some(false) => Err(ClientError::Script),
            Some(true) => Ok(()),
        }
    }
}

/// Judges the run of a payload. A payload without a script fails whatever
/// else is reported of it.
pub fn execute_payload(has_script: bool, exit: Option<bool>) -> (r: Result<(), ClientError>)
    ensures
        r == run_outcome(has_script, exit),
{
    if !has_script {
        return Err(ClientError::NoExecScript);
    }
    match exit {
        None => Err(ClientError::Execution),
        Some(false) => Err(ClientError::Script),
        Some(true) => Ok(()),
    }
}

} // verus!
