//! The scheduler's decisions: what the sender, the getter and the runner
//! make of a job and of what came back for it. The tasks themselves wait
//! for destinations and processes elsewhere; these functions say what
//! follows.

use crate::client::ClientError;
use crate::config::Config;
use crate::job::{Job, JobView};
use crate::payload::{Payload, PayloadView};
use crate::status::Status;
use crate::queue::{
    admitted, in_status, job_views, payload_views, payloads_in_status, PayloadQueue, Queue,
};
use crate::transfer::{
    construct_download_url, download_url, retrieve, send, DownloadError, DownloadFailure,
    UploadError, UploadFailure,
};
use vstd::prelude::*;

verus! {

/// Downloads that the getter has in flight at a time.
pub const GETTER_PARALLELISM: usize = 10;

/// Milliseconds between two runs of the sender, of the getter and of the
/// runner.
pub const TICK_MILLIS: u64 = 500;

/// Seconds between two runs of the janitor.
pub const JANITOR_SECS: u64 = 60;

/// Whether a failed download is worth asking again at the next tick: the
/// destination is not ready, or the network let the request down.
pub open spec fn is_transient(f: DownloadFailure) -> bool {
    f == DownloadFailure::NotReady || f == DownloadFailure::RequestFailed || f
        == DownloadFailure::ResponseReadFailed
}

/// The job after the sender has picked it: a queued job is now processed,
/// any other job is left alone.
pub open spec fn picked(job: JobView) -> JobView {
    if job.status == Status::Queued {
        JobView { status: Status::Processing, ..job }
    } else {
        job
    }
}

/// The job after its upload ended. A processed job is submitted under the
/// identifier that the destination gave; it stays as it is where the
/// destination answered with an unexpected status; it fails on any other
/// error. A job that is not processed is left alone.
pub open spec fn uploaded(job: JobView, outcome: Result<Seq<char>, UploadFailure>) -> JobView {
    if job.status != Status::Processing {
        job
    } else {
        match outcome {
            Ok(dest_id) => JobView { status: Status::Submitted, dest_id, ..job },
            Err(UploadFailure::UnexpectedStatus) => job,
            Err(_) => JobView { status: Status::Failed, ..job },
        }
    }
}

/// The job after its download ended. A submitted job is completed on
/// success, stays submitted where asking again is worth it, and is unknown
/// otherwise. A job that is not submitted is left alone.
pub open spec fn downloaded(job: JobView, outcome: Result<(), DownloadFailure>) -> JobView {
    if job.status != Status::Submitted {
        job
    } else {
        match outcome {
            Ok(()) => JobView { status: Status::Completed, ..job },
            Err(f) => if is_transient(f) {
                job
            } else {
                JobView { status: Status::Unknown, ..job }
            },
        }
    }
}

/// The payload after its run ended: a prepared payload is completed on
/// success and failed otherwise. A payload that is not prepared is left
/// alone.
pub open spec fn ran(payload: PayloadView, outcome: Result<(), ClientError>) -> PayloadView {
    if payload.status != Status::Prepared {
        payload
    } else {
        match outcome {
            Ok(()) => PayloadView { status: Status::Completed, ..payload },
            Err(_) => PayloadView { status: Status::Failed, ..payload },
        }
    }
}

/// How an upload ended, as the contracts see it.
pub open spec fn upload_view(outcome: Result<String, UploadError>) -> Result<
    Seq<char>,
    UploadFailure,
> {
    match outcome {
        Ok(id) => Ok(id@),
        Err(e) => Err(e.failure()),
    }
}

/// How a download ended, as the contracts see it.
pub open spec fn download_view(outcome: Result<(), DownloadError>) -> Result<(), DownloadFailure> {
    match outcome {
        Ok(()) => Ok(()),
        Err(e) => Err(e.failure()),
    }
}

/// The sender picks a job: a queued job is marked as processed, and the
/// address to upload it to comes back, or why there is none. For a job that
/// is not queued nothing happens and nothing comes back.
pub fn sender_pick<'a>(job: &mut Job, config: &'a Config) -> (r: Option<Result<&'a str, UploadError>>)
    ensures
        final(job)@ == picked(old(job)@),
        r is Some <==> old(job)@.status == Status::Queued,
        r matches Some(Ok(url)) ==> config.service(old(job)@.service) matches Some(s) && url@
            == s.upload_url,
        r matches Some(Err(e)) ==> e.failure() == UploadFailure::InvalidService && config.service(
            old(job)@.service,
        ) is None,
        old(job).well_formed() ==> final(job).well_formed(),
{
    if job.status != Status::Queued {
        return None;
    }
    job.status = Status::Processing;
    Some(send(job, config))
}

/// The sender learns how the upload of a job ended, and says whether the
/// job changed and is to be stored again.
pub fn sender_settle(job: &mut Job, outcome: Result<String, UploadError>) -> (changed: bool)
    ensures
        final(job)@ == uploaded(old(job)@, upload_view(outcome)),
        changed == (final(job)@ != old(job)@),
        old(job).well_formed() && !(outcome matches Ok(id) && id@.len() == 0) ==> final(job).well_formed(),
        final(job)@.status == Status::Submitted && old(job)@.status != Status::Submitted ==> (
        outcome matches Ok(id) && final(job)@.dest_id == id@),
{
    if job.status != Status::Processing {
        return false;
    }
    match outcome {
        Ok(dest_id) => {
            job.dest_id = dest_id;
            job.status = Status::Submitted;
            true
        },
        Err(UploadError::UnexpectedStatus { .. }) => false,
        Err(_) => {
            job.status = Status::Failed;
            true
        },
    }
}

/// The getter picks a submitted job: the address to ask for its result
/// comes back, or why there is none. Nothing comes back for a job that is
/// not submitted.
pub fn getter_pick<'a>(job: &Job, config: &'a Config) -> (r: Option<Result<&'a str, DownloadError>>)
    ensures
        r is Some <==> job@.status == Status::Submitted,
        r matches Some(Ok(url)) ==> job@.id != 0 && (config.service(job@.service) matches Some(s)
            && url@ == s.download_url),
        r matches Some(Err(e)) ==> if job@.id == 0 {
            e.failure() == DownloadFailure::NotFound
        } else {
            e.failure() == DownloadFailure::InvalidService && config.service(job@.service)
                is None
        },
{
    if job.status != Status::Submitted {
        return None;
    }
    Some(retrieve(job, config))
}

/// Whether asking again for a download that failed with `e` is worth
/// it.
pub fn retry_later(e: &DownloadError) -> (r: bool)
    ensures
        r == is_transient(e.failure()),
{
    match e {
        DownloadError::NotReady => true,
        DownloadError::RequestFailed(_) => true,
        DownloadError::ResponseReadFailed(_) => true,
        _ => false,
    }
}

/// The getter learns how the download of a job ended, and says whether the
/// job changed and is to be stored again.
pub fn getter_settle(job: &mut Job, outcome: Result<(), DownloadError>) -> (changed: bool)
    ensures
        final(job)@ == downloaded(old(job)@, download_view(outcome)),
        changed == (final(job)@ != old(job)@),
        old(job).well_formed() ==> final(job).well_formed(),
{
    if job.status != Status::Submitted {
        return false;
    }
    match outcome {
        Ok(()) => {
            job.status = Status::Completed;
            true
        },
        Err(e) => {
            if retry_later(&e) {
                false
            } else {
                job.status = Status::Unknown;
                true
            }
        },
    }
}

/// The runner learns how the run of a payload ended, and says whether the
/// payload changed and is to be stored again.
pub fn runner_settle(payload: &mut Payload, outcome: Result<(), ClientError>) -> (changed: bool)
    ensures
        final(payload)@ == ran(old(payload)@, outcome),
        changed == (old(payload)@.status == Status::Prepared),
{
    if payload.status != Status::Prepared {
        return false;
    }
    match outcome {
        Ok(()) => {
            payload.status = Status::Completed;
        },
        Err(_) => {
            payload.status = Status::Failed;
        },
    }
    true
}

/// Neither the sender nor the getter moves a job out of a status that is
/// final for the scheduler.
pub proof fn lemma_terminal_stays(
    job: JobView,
    upload: Result<Seq<char>, UploadFailure>,
    download: Result<(), DownloadFailure>,
)
    requires
        job.status.is_terminal(),
    ensures
        picked(job) == job,
        uploaded(job, upload) == job,
        downloaded(job, download) == job,
{
}

/// Each task takes jobs in one status only and moves them out of it: the
/// sender picks queued jobs and settles processed ones, the getter settles
/// submitted ones. So no two tasks ever change the same job.
pub proof fn lemma_one_source_status(
    job: JobView,
    upload: Result<Seq<char>, UploadFailure>,
    download: Result<(), DownloadFailure>,
)
    ensures
        picked(job) != job ==> job.status == Status::Queued && picked(job).status
            == Status::Processing,
        uploaded(job, upload) != job ==> job.status == Status::Processing && (uploaded(
            job,
            upload,
        ).status == Status::Submitted || uploaded(job, upload).status == Status::Failed),
        downloaded(job, download) != job ==> job.status == Status::Submitted && (downloaded(
            job,
            download,
        ).status == Status::Completed || downloaded(job, download).status == Status::Unknown),
{
}

/// A job becomes submitted only by an upload that succeeded, and then it
/// carries the identifier that the destination gave. So a job that the
/// sender submits has an identifier, as long as the destination gave one
/// that is not empty.
pub proof fn lemma_submitted_has_dest_id(job: JobView, outcome: Result<Seq<char>, UploadFailure>)
    requires
        job.well_formed(),
        !(outcome matches Ok(id) && id.len() == 0),
    ensures
        picked(job).well_formed(),
        uploaded(job, outcome).well_formed(),
        uploaded(job, outcome).status == Status::Submitted ==> uploaded(job, outcome).dest_id.len()
            > 0,
{
}

/// A job that the sender has picked, and where to upload it.
#[derive(Debug)]
pub struct Dispatch {
    pub job: Job,
    pub url: String,
}

/// A job that the getter has picked, and where to ask for its result, or
/// why it cannot be asked for.
#[derive(Debug)]
pub struct Fetch {
    pub job: Job,
    pub target: Result<String, DownloadError>,
}

/// Where the getter asks for the result of a job, or why it cannot.
pub open spec fn fetch_target(job: JobView, config: &Config) -> Result<Seq<char>, DownloadFailure> {
    if job.id == 0 {
        Err(DownloadFailure::NotFound)
    } else {
        match config.service(job.service) {
            Some(s) => Ok(download_url(s.download_url, job.dest_id)),
            None => Err(DownloadFailure::InvalidService),
        }
    }
}

/// One tick of the sender, as far as it decides: from the snapshot `rows`
/// of the jobs it picks those that may be advanced now, marks each as
/// processed and says where to upload it. What is picked is to be stored,
/// uploaded, and settled with `sender_settle`.
pub fn sender(rows: &Vec<Job>, config: &Config) -> (out: Vec<Dispatch>)
    ensures
        out@.len() == admitted(job_views(rows@), config@.services).len(),
        forall|i: int|
            0 <= i < out@.len() ==> {
                let d = #[trigger] out@[i];
                let j = admitted(job_views(rows@), config@.services)[i];
                &&& d.job@ == (JobView { status: Status::Processing, ..j })
                &&& j.status == Status::Queued
                &&& config.service(j.service) matches Some(s) && d.url@ == s.upload_url
            },
{
    let mut queue = Queue::new(config);
    queue.load(rows);
    let ghost picks = admitted(job_views(rows@), config@.services);
    let mut out: Vec<Dispatch> = Vec::new();
    let mut i: usize = 0;
    while i < queue.jobs.len()
        invariant
            i <= queue.jobs.len(),
            queue.config == config,
            job_views(queue.jobs@) == picks,
            forall|j: int|
                0 <= j < queue.jobs@.len() ==> (#[trigger] queue.jobs@[j]).status == Status::Queued,
            forall|j: int|
                0 <= j < queue.jobs@.len() ==> config.service((#[trigger] queue.jobs@[j]).service@)
                    is Some,
            out@.len() == i,
            forall|k: int|
                0 <= k < i ==> {
                    let d = #[trigger] out@[k];
                    let j = picks[k];
                    &&& d.job@ == (JobView { status: Status::Processing, ..j })
                    &&& j.status == Status::Queued
                    &&& config.service(j.service) matches Some(s) && d.url@ == s.upload_url
                },
        decreases queue.jobs.len() - i,
    {
        assert(picks[i as int] == queue.jobs@[i as int]@);
        let mut job = queue.jobs[i].clone();
        match sender_pick(&mut job, config) {
            Some(Ok(url)) => {
                out.push(Dispatch { job, url: url.to_owned() });
            },
            // what is let through is queued, and its service is configured
            _ => {
                assert(false);
            },
        }
        i += 1;
    }
    out
}

/// One tick of the getter, as far as it decides: from `rows` it picks the
/// submitted jobs and says for each where to ask for its result. What
/// comes of asking is settled with `getter_settle`.
pub fn getter(rows: &Vec<Job>, config: &Config) -> (out: Vec<Fetch>)
    ensures
        out@.len() == in_status(job_views(rows@), Status::Submitted).len(),
        forall|i: int|
            0 <= i < out@.len() ==> {
                let f = #[trigger] out@[i];
                let j = in_status(job_views(rows@), Status::Submitted)[i];
                &&& f.job@ == j
                &&& match f.target {
                    Ok(url) => fetch_target(j, config) == Ok::<Seq<char>, DownloadFailure>(url@),
                    Err(e) => fetch_target(j, config) == Err::<Seq<char>, DownloadFailure>(
                        e.failure(),
                    ),
                }
            },
{
    let mut queue = Queue::new(config);
    queue.list_per_status(Status::Submitted, rows);
    let ghost picks = in_status(job_views(rows@), Status::Submitted);
    let mut out: Vec<Fetch> = Vec::new();
    let mut i: usize = 0;
    while i < queue.jobs.len()
        invariant
            i <= queue.jobs.len(),
            job_views(queue.jobs@) == picks,
            out@.len() == i,
            forall|k: int|
                0 <= k < i ==> {
                    let f = #[trigger] out@[k];
                    let j = picks[k];
                    &&& f.job@ == j
                    &&& match f.target {
                        Ok(url) => fetch_target(j, config) == Ok::<Seq<char>, DownloadFailure>(
                            url@,
                        ),
                        Err(e) => fetch_target(j, config) == Err::<Seq<char>, DownloadFailure>(
                            e.failure(),
                        ),
                    }
                },
        decreases queue.jobs.len() - i,
    {
        assert(picks[i as int] == queue.jobs@[i as int]@);
        let job = queue.jobs[i].clone();
        let target = match retrieve(&job, config) {
            Ok(url) => Ok(construct_download_url(url, job.dest_id.as_str())),
            Err(e) => Err(e),
        };
        out.push(Fetch { job, target });
        i += 1;
    }
    out
}

/// One tick of the runner, as far as it decides: the prepared payloads of
/// `rows`, each to be run and settled with `runner_settle`.
pub fn runner(rows: &Vec<Payload>, config: &Config) -> (out: Vec<Payload>)
    ensures
        payload_views(out@) == payloads_in_status(payload_views(rows@), Status::Prepared),
{
    let mut queue = PayloadQueue::new(config);
    queue.list_per_status(Status::Prepared, rows);
    queue.jobs
}

} // verus!
