//! The adapter for the legacy service, which takes and gives JSON with the
//! archive in base64.

use crate::base64::{base64_decode, base64_encode, decoded, encoded};
use crate::job::{fresh_id, is_hyphenated_id};
use crate::json::{field, found_view, json_field, Field, FieldView};
use crate::path::{join, joined};
use crate::transfer::{body_text, DownloadError, DownloadFailure, UploadError, UploadFailure};
use vstd::prelude::*;

verus! {

/// The adapter for the legacy service.
#[derive(Debug, Clone, Copy)]
pub struct Jobd;

/// What is posted to the service to start a job.
#[derive(Debug)]
pub struct JobdRequest {
    /// A fresh identifier for the request.
    pub id: String,
    /// The job's archive in base64.
    pub input: String,
    pub slurml: bool,
}

/// What the service answers with: its identifier for the job and, once the
/// job is done, the job's output in base64.
#[derive(Debug)]
pub struct JobdResponse {
    pub id: String,
    pub output: String,
}

/// The identifier and the output of a response, given what was found in its
/// body under `ID` and under `Output`: there is a response only where both
/// are there and both are strings.
pub open spec fn response_of(
    id: Option<Option<FieldView>>,
    output: Option<Option<FieldView>>,
) -> Option<(Seq<char>, Seq<char>)> {
    match (id, output) {
        (Some(Some(FieldView::Text(i))), Some(Some(FieldView::Text(o)))) => Some((i, o)),
        _ => None,
    }
}

/// What an upload comes to, given the response's status, whether its body
/// could be read, and what was found in the body under `ID` and under
/// `Output`.
pub open spec fn upload_outcome(
    status: u16,
    body_read: bool,
    id: Option<Option<FieldView>>,
    output: Option<Option<FieldView>>,
) -> Result<Seq<char>, UploadFailure> {
    if status != 201 {
        Err(UploadFailure::UnexpectedStatus)
    } else if !body_read {
        Err(UploadFailure::ResponseReadFailed)
    } else {
        match response_of(id, output) {
            Some((i, _)) => Ok(i),
            None => Err(UploadFailure::DeserializationFailed),
        }
    }
}

/// What asking for a result comes to, before the body is looked into.
pub open spec fn download_outcome(status: u16, body: Result<Seq<char>, Seq<char>>) -> Result<
    Seq<char>,
    DownloadFailure,
> {
    if status == 200 {
        match body {
            Ok(t) => Ok(t),
            Err(_) => Err(DownloadFailure::ResponseReadFailed),
        }
    } else if status == 202 {
        Err(DownloadFailure::NotReady)
    } else {
        Err(DownloadFailure::UnexpectedStatus)
    }
}

/// Where the archive of the job in `loc` is read from.
pub fn payload_path(loc: &str) -> (path: String)
    ensures
        path@ == joined(loc@, "payload.zip"@),
{
    join(loc, "payload.zip")
}

/// The request that starts a job whose archive holds `archive`: under a
/// fresh identifier, with the archive in base64.
pub fn prepare_upload_data(archive: &Vec<u8>) -> (request: JobdRequest)
    ensures
        is_hyphenated_id(request.id@),
        request.input@ == encoded(archive@),
        decoded(request.input@) == Some(archive@),
        !request.slurml,
{
    JobdRequest { id: fresh_id(), input: base64_encode(archive), slurml: false }
}

/// The response that a body holds, given what was found in it under `ID`
/// and under `Output`, or the parser's message. Where the body is no JSON
/// the parser's message comes back; where a field is missing or is no
/// string, a message that names the field.
pub fn read_response(id: Result<Option<Field>, String>, output: Result<Option<Field>, String>) -> (r:
    Result<JobdResponse, String>)
    ensures
        match r {
            Ok(response) => response_of(found_view(id), found_view(output)) == Some(
                (response.id@, response.output@),
            ),
            Err(why) => response_of(found_view(id), found_view(output)) is None,
        },
        r matches Err(why) ==> (id matches Err(e) ==> why@ == e@),
        r matches Err(why) ==> (id is Ok ==> (output matches Err(e) ==> why@ == e@)),
{
    let id = match id {
        Err(e) => {
            return Err(e);
        },
        Ok(found) => found,
    };
    let output = match output {
        Err(e) => {
            return Err(e);
        },
        Ok(found) => found,
    };
    let id = match id {
        Some(Field::Text(t)) => t,
        Some(_) => {
            return Err("invalid type for field `ID`".to_owned());
        },
        None => {
            return Err("missing field `ID`".to_owned());
        },
    };
    match output {
        Some(Field::Text(t)) => Ok(JobdResponse { id, output: t }),
        Some(_) => Err("invalid type for field `Output`".to_owned()),
        None => Err("missing field `Output`".to_owned()),
    }
}

/// What an upload comes to once the body was looked into: `id` and `output`
/// are what was found in it under `ID` and under `Output`, or the parser's
/// message. On 201 the service's identifier for the job, as long as the body
/// holds a whole response; on any other status an error that keeps the
/// status.
pub fn upload_result(
    status: u16,
    body: Result<String, String>,
    id: Result<Option<Field>, String>,
    output: Result<Option<Field>, String>,
) -> (r: Result<String, UploadError>)
    ensures
        match r {
            Ok(dest_id) => upload_outcome(status, body is Ok, found_view(id), found_view(output))
                == Ok::<Seq<char>, UploadFailure>(dest_id@),
            Err(e) => upload_outcome(status, body is Ok, found_view(id), found_view(output))
                == Err::<Seq<char>, UploadFailure>(e.failure()),
        },
        r matches Err(UploadError::UnexpectedStatus { status: s, body: b }) ==> s == status && b@.len()
            == 0,
        r matches Err(UploadError::ResponseReadFailed(why)) ==> (body matches Err(e) && why@ == e@),
        r matches Err(UploadError::DeserializationFailed(why)) ==> (id matches Err(e) ==> why@
            == e@),
{
    if status != 201 {
        return Err(UploadError::UnexpectedStatus { status, body: String::new() });
    }
    match body {
        Err(e) => Err(UploadError::ResponseReadFailed(e)),
        Ok(_) => match read_response(id, output) {
            Ok(response) => Ok(response.id),
            Err(why) => Err(UploadError::DeserializationFailed(why)),
        },
    }
}

/// What an upload comes to, given the response's status and its body, or
/// why the body could not be read. On 201 the body is JSON with the
/// service's identifier for the job under `ID` and a string under `Output`;
/// on any other status an error that keeps the status.
pub fn handle_upload_response(status: u16, body: Result<String, String>) -> (r: Result<
    String,
    UploadError,
>)
    ensures
        match r {
            Ok(dest_id) => upload_outcome(
                status,
                body is Ok,
                json_field(body_text(body), "ID"@),
                json_field(body_text(body), "Output"@),
            ) == Ok::<Seq<char>, UploadFailure>(dest_id@),
            Err(e) => upload_outcome(
                status,
                body is Ok,
                json_field(body_text(body), "ID"@),
                json_field(body_text(body), "Output"@),
            ) == Err::<Seq<char>, UploadFailure>(e.failure()),
        },
        r matches Err(UploadError::UnexpectedStatus { status: s, body: b }) ==> s == status && b@.len()
            == 0,
        r matches Err(UploadError::ResponseReadFailed(why)) ==> (body matches Err(e) && why@ == e@),
{
    let (id, output) = match &body {
        Ok(text) => (field(text.as_str(), "ID"), field(text.as_str(), "Output")),
        Err(_) => (Ok(None), Ok(None)),
    };
    upload_result(status, body, id, output)
}

/// What asking for a result comes to, given the response's status and its
/// body, or why the body could not be read: on 200 the body.
pub fn handle_download_response(status: u16, body: Result<String, String>) -> (r: Result<
    String,
    DownloadError,
>)
    ensures
        match r {
            Ok(text) => download_outcome(
                status,
                match body {
                    Ok(t) => Ok(t@),
                    Err(e) => Err(e@),
                },
            ) == Ok::<Seq<char>, DownloadFailure>(text@),
            Err(e) => download_outcome(
                status,
                match body {
                    Ok(t) => Ok(t@),
                    Err(e) => Err(e@),
                },
            ) == Err::<Seq<char>, DownloadFailure>(e.failure()),
        },
        r matches Err(DownloadError::UnexpectedStatus { status: s, body: b }) ==> s == status
            && b@.len() == 0,
        r matches Err(DownloadError::ResponseReadFailed(why)) ==> (body matches Err(e) && why@
            == e@),
{
    if status == 200 {
        match body {
            Ok(t) => Ok(t),
            Err(e) => Err(DownloadError::ResponseReadFailed(e)),
        }
    } else if status == 202 {
        Err(DownloadError::NotReady)
    } else {
        Err(DownloadError::UnexpectedStatus { status, body: String::new() })
    }
}

/// The output in a response, given what was found in its body under `ID`
/// and under `Output`, or the parser's message. A body that holds no whole
/// response is refused.
pub fn output_of(id: Result<Option<Field>, String>, output: Result<Option<Field>, String>) -> (r:
    Result<String, DownloadError>)
    ensures
        match r {
            Ok(text) => response_of(found_view(id), found_view(output)) matches Some((_, o))
                && text@ == o,
            Err(e) => e.failure() == DownloadFailure::DeserializationFailed && response_of(
                found_view(id),
                found_view(output),
            ) is None,
        },
        r matches Err(DownloadError::DeserializationFailed(why)) ==> (id matches Err(e) ==> why@
            == e@),
{
    match read_response(id, output) {
        Ok(response) => Ok(response.output),
        Err(why) => Err(DownloadError::DeserializationFailed(why)),
    }
}

/// The output in a response's body: what the JSON holds under `Output`, as
/// long as it holds strings under `ID` and under `Output`.
pub fn parse_download_response(body: &str) -> (r: Result<String, DownloadError>)
    ensures
        match r {
            Ok(text) => response_of(json_field(body@, "ID"@), json_field(body@, "Output"@))
                matches Some((_, o)) && text@ == o,
            Err(e) => e.failure() == DownloadFailure::DeserializationFailed && response_of(
                json_field(body@, "ID"@),
                json_field(body@, "Output"@),
            ) is None,
        },
{
    output_of(field(body, "ID"), field(body, "Output"))
}

/// Where the output of a job belongs and what is to be written there:
/// `output.zip` in the job's directory, and the bytes that the base64 text
/// encodes. Text that encodes nothing is refused. Nothing is written here.
pub fn save_output_file(output_base64: &str, job_location: &str) -> (r: Result<
    (String, Vec<u8>),
    DownloadError,
>)
    ensures
        match r {
            Ok((path, bytes)) => path@ == joined(job_location@, "output.zip"@) && decoded(
                output_base64@,
            ) == Some(bytes@),
            Err(e) => e.failure() == DownloadFailure::InvalidPath && decoded(output_base64@)
                is None,
        },
{
    match base64_decode(output_base64) {
        Some(bytes) => Ok((join(job_location, "output.zip"), bytes)),
        None => Err(DownloadError::InvalidPath),
    }
}

} // verus!
