//! What a destination adapter can answer, and the part of a transfer that
//! does not depend on the destination.

use crate::config::Config;
use crate::job::Job;
use crate::text::{chars_of, string_of};
use vstd::prelude::*;
use vstd::string::StringExecFns;

verus! {

/// Characters of a response body that are kept in an error.
pub const BODY_LIMIT: usize = 1024;

/// The destinations that jobs can be sent to.
#[derive(Debug, Clone, Copy, PartialEq, Eq, Structural)]
pub enum Destinations {
    /// The legacy service that takes JSON with the input in base64.
    Jobd,
    /// A client process that takes the files as a multipart form.
    Client,
}

/// Why an upload gave no identifier.
#[derive(Debug)]
pub enum UploadError {
    /// The job's service is not configured.
    InvalidService,
    /// The job's directory or input cannot be named.
    InvalidPath,
    /// The job's input could not be read or encoded.
    EncodingFailed(String),
    /// The request could not be sent.
    RequestFailed(String),
    /// The response's body could not be read.
    ResponseReadFailed(String),
    /// The response's body is not what the destination promises.
    DeserializationFailed(String),
    /// The destination answered with a status that means no success.
    UnexpectedStatus { status: u16, body: String },
}

/// Why a download gave no artifact.
#[derive(Debug)]
pub enum DownloadError {
    /// The job's service is not configured.
    InvalidService,
    /// The job was never stored.
    NotFound,
    /// The artifact could not be decoded or written in the job's directory.
    InvalidPath,
    /// The request could not be sent.
    RequestFailed(String),
    /// The destination has not finished the job.
    NotReady,
    /// The destination failed the job or has cleaned it away.
    JobFailedOrCleaned,
    /// The destination does not know the job.
    JobNotFound,
    /// The response's body is not what the destination promises.
    DeserializationFailed(String),
    /// The response's body could not be read.
    ResponseReadFailed(String),
    /// The destination answered with a status that no rule covers.
    UnexpectedStatus { status: u16, body: String },
}

/// An upload error without its details.
#[derive(Debug, Clone, Copy, PartialEq, Eq, Structural)]
pub enum UploadFailure {
    InvalidService,
    InvalidPath,
    EncodingFailed,
    RequestFailed,
    ResponseReadFailed,
    DeserializationFailed,
    UnexpectedStatus,
}

/// A download error without its details.
#[derive(Debug, Clone, Copy, PartialEq, Eq, Structural)]
pub enum DownloadFailure {
    InvalidService,
    NotFound,
    InvalidPath,
    RequestFailed,
    NotReady,
    JobFailedOrCleaned,
    JobNotFound,
    DeserializationFailed,
    ResponseReadFailed,
    UnexpectedStatus,
}

impl UploadError {
    /// The error without its details.
    pub open spec fn failure(self) -> UploadFailure {
        match self {
            UploadError::InvalidService => UploadFailure::InvalidService,
            UploadError::InvalidPath => UploadFailure::InvalidPath,
            UploadError::EncodingFailed(_) => UploadFailure::EncodingFailed,
            UploadError::RequestFailed(_) => UploadFailure::RequestFailed,
            UploadError::ResponseReadFailed(_) => UploadFailure::ResponseReadFailed,
            UploadError::DeserializationFailed(_) => UploadFailure::DeserializationFailed,
            UploadError::UnexpectedStatus { .. } => UploadFailure::UnexpectedStatus,
        }
    }

    /// Which error this is.
    pub fn kind(&self) -> (k: UploadFailure)
        ensures
            k == self.failure(),
    {
        match self {
            UploadError::InvalidService => UploadFailure::InvalidService,
            UploadError::InvalidPath => UploadFailure::InvalidPath,
            UploadError::EncodingFailed(_) => UploadFailure::EncodingFailed,
            UploadError::RequestFailed(_) => UploadFailure::RequestFailed,
            UploadError::ResponseReadFailed(_) => UploadFailure::ResponseReadFailed,
            UploadError::DeserializationFailed(_) => UploadFailure::DeserializationFailed,
            UploadError::UnexpectedStatus { .. } => UploadFailure::UnexpectedStatus,
        }
    }
}

impl DownloadError {
    /// The error without its details.
    pub open spec fn failure(self) -> DownloadFailure {
        match self {
            DownloadError::InvalidService => DownloadFailure::InvalidService,
            DownloadError::NotFound => DownloadFailure::NotFound,
            DownloadError::InvalidPath => DownloadFailure::InvalidPath,
            DownloadError::RequestFailed(_) => DownloadFailure::RequestFailed,
            DownloadError::NotReady => DownloadFailure::NotReady,
            DownloadError::JobFailedOrCleaned => DownloadFailure::JobFailedOrCleaned,
            DownloadError::JobNotFound => DownloadFailure::JobNotFound,
            DownloadError::DeserializationFailed(_) => DownloadFailure::DeserializationFailed,
            DownloadError::ResponseReadFailed(_) => DownloadFailure::ResponseReadFailed,
            DownloadError::UnexpectedStatus { .. } => DownloadFailure::UnexpectedStatus,
        }
    }

    /// Which error this is.
    pub fn kind(&self) -> (k: DownloadFailure)
        ensures
            k == self.failure(),
    {
        match self {
            DownloadError::InvalidService => DownloadFailure::InvalidService,
            DownloadError::NotFound => DownloadFailure::NotFound,
            DownloadError::InvalidPath => DownloadFailure::InvalidPath,
            DownloadError::RequestFailed(_) => DownloadFailure::RequestFailed,
            DownloadError::NotReady => DownloadFailure::NotReady,
            DownloadError::JobFailedOrCleaned => DownloadFailure::JobFailedOrCleaned,
            DownloadError::JobNotFound => DownloadFailure::JobNotFound,
            DownloadError::DeserializationFailed(_) => DownloadFailure::DeserializationFailed,
            DownloadError::ResponseReadFailed(_) => DownloadFailure::ResponseReadFailed,
            DownloadError::UnexpectedStatus { .. } => DownloadFailure::UnexpectedStatus,
        }
    }
}

/// The text of a response's body, or of why it could not be read.
pub open spec fn body_text(body: Result<String, String>) -> Seq<char> {
    match body {
        Ok(t) => t@,
        Err(e) => e@,
    }
}

/// The first `limit` characters of `s`, or all of it where it is shorter.
pub open spec fn truncated(s: Seq<char>, limit: int) -> Seq<char> {
    if s.len() <= limit {
        s
    } else {
        s.take(limit)
    }
}

/// Cuts a response body down to what an error keeps of it.
pub fn truncate(body: &str) -> (r: String)
    ensures
        r@ == truncated(body@, BODY_LIMIT as int),
        r@.len() <= BODY_LIMIT,
{
    let v = chars_of(body);
    if v.len() <= BODY_LIMIT {
        body.to_owned()
    } else {
        let r = string_of(&v, 0, BODY_LIMIT);
        assert(v@.subrange(0, BODY_LIMIT as int) =~= v@.take(BODY_LIMIT as int));
        r
    }
}

/// The address under which a destination keeps what it made of an upload.
pub open spec fn download_url(base_url: Seq<char>, dest_id: Seq<char>) -> Seq<char> {
    base_url + seq!['/'] + dest_id
}

/// The address to ask for the result of the upload that the destination
/// called `dest_id`: the base address, a slash, and the identifier.
pub fn construct_download_url(base_url: &str, dest_id: &str) -> (url: String)
    ensures
        url@ == download_url(base_url@, dest_id@),
{
    let mut url = base_url.to_owned();
    url.push('/');
    assert(url@ =~= base_url@ + seq!['/']);
    url.concat(dest_id)
}

/// Where to upload `job`: the upload address of its service. A job whose
/// service is not configured is not sent.
pub fn send<'a>(job: &Job, config: &'a Config) -> (r: Result<&'a str, UploadError>)
    ensures
        match r {
            Ok(url) => config.service(job@.service) matches Some(s) && url@ == s.upload_url,
            Err(e) => e.failure() == UploadFailure::InvalidService && config.service(job@.service)
                is None,
        },
{
    match config.get_upload_url(job.service.as_str()) {
        Some(url) => Ok(url),
        None => Err(UploadError::InvalidService),
    }
}

/// Where to ask for the result of `job`: the download address of its
/// service. A job that was never stored has no result, and one whose
/// service is not configured cannot be asked for.
pub fn retrieve<'a>(job: &Job, config: &'a Config) -> (r: Result<&'a str, DownloadError>)
    ensures
        match r {
            Ok(url) => job@.id != 0 && (config.service(job@.service) matches Some(s) && url@
                == s.download_url),
            Err(e) => if job@.id == 0 {
                e.failure() == DownloadFailure::NotFound
            } else {
                e.failure() == DownloadFailure::InvalidService && config.service(job@.service)
                    is None
            },
        },
{
    if job.id == 0 {
        Err(DownloadError::NotFound)
    } else {
        match config.get_download_url(job.service.as_str()) {
            Some(url) => Ok(url),
            None => Err(DownloadError::InvalidService),
        }
    }
}

} // verus!
