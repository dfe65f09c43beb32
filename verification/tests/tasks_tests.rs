use orchestrator::client::ClientError;
use orchestrator::config::{Config, Service};
use orchestrator::job::Job;
use orchestrator::payload::Payload;
use orchestrator::status::Status;
use orchestrator::tasks::{
    getter, getter_pick, getter_settle, retry_later, runner, runner_settle, sender, sender_pick,
    sender_settle, GETTER_PARALLELISM, JANITOR_SECS, TICK_MILLIS,
};
use orchestrator::transfer::{
    retrieve, send, Destinations, DownloadError, DownloadFailure, UploadError, UploadFailure,
};

const STATUSES: [Status; 8] = [
    Status::Unknown,
    Status::Queued,
    Status::Processing,
    Status::Submitted,
    Status::Completed,
    Status::Failed,
    Status::Cleaned,
    Status::Prepared,
];

fn config() -> Config {
    let mut config = Config::new(&Vec::new(), "/srv").unwrap();
    config.insert(Service {
        name: "A".to_string(),
        upload_url: "http://example.com/upload_a".to_string(),
        download_url: "http://example.com/download_a".to_string(),
        runs_per_user: 2,
    });
    config
}

fn job(id: i32, service: &str, status: Status) -> Job {
    Job {
        id,
        user_id: 1,
        service: service.to_string(),
        status,
        loc: format!("/data/{}", id),
        dest_id: if status == Status::Submitted { "42".to_string() } else { String::new() },
    }
}

fn upload_errors() -> Vec<UploadError> {
    vec![
        UploadError::InvalidService,
        UploadError::InvalidPath,
        UploadError::EncodingFailed("io".to_string()),
        UploadError::RequestFailed("refused".to_string()),
        UploadError::ResponseReadFailed("reset".to_string()),
        UploadError::DeserializationFailed("eof".to_string()),
        UploadError::UnexpectedStatus { status: 500, body: "oops".to_string() },
    ]
}

fn download_errors() -> Vec<DownloadError> {
    vec![
        DownloadError::InvalidService,
        DownloadError::NotFound,
        DownloadError::InvalidPath,
        DownloadError::RequestFailed("refused".to_string()),
        DownloadError::NotReady,
        DownloadError::JobFailedOrCleaned,
        DownloadError::JobNotFound,
        DownloadError::DeserializationFailed("eof".to_string()),
        DownloadError::ResponseReadFailed("reset".to_string()),
        DownloadError::UnexpectedStatus { status: 500, body: "oops".to_string() },
    ]
}

#[test]
fn test_send_ok() {
    let config = config();
    let result = send(&job(1, "A", Status::Processing), &config);
    assert!(result.is_ok());
    assert_eq!(result.unwrap(), "http://example.com/upload_a");
}

#[test]
fn test_send_err() {
    let config = config();
    let result = send(&job(1, "B", Status::Processing), &config);
    assert!(matches!(result, Err(UploadError::InvalidService)));
}

#[test]
fn test_retrieve_ok() {
    let config = config();
    let result = retrieve(&job(42, "A", Status::Submitted), &config);
    assert_eq!(result.unwrap(), "http://example.com/download_a");
}

#[test]
fn test_retrieve_err() {
    let config = config();
    let result = retrieve(&job(42, "B", Status::Submitted), &config);
    assert!(matches!(result, Err(DownloadError::InvalidService)));
}

#[test]
fn test_retrieve_err_empty_job() {
    let config = config();
    let result = retrieve(&Job::new(""), &config);
    assert!(result.is_err());
    assert!(matches!(result, Err(DownloadError::NotFound)));
}

#[test]
fn test_sender() {
    let config = config();
    let rows = vec![job(1, "A", Status::Queued)];
    let mut picked = sender(&rows, &config);
    assert_eq!(picked.len(), 1);
    assert_eq!(picked[0].url, "http://example.com/upload_a");
    assert_eq!(picked[0].job.status, Status::Processing);
    // the destination cannot be reached: the job fails
    let changed =
        sender_settle(&mut picked[0].job, Err(UploadError::RequestFailed("refused".to_string())));
    assert!(changed);
    assert_eq!(picked[0].job.status, Status::Failed);
}

#[test]
fn sender_picks_what_is_admissible() {
    let config = config();
    let rows = vec![
        job(1, "A", Status::Submitted),
        job(2, "A", Status::Queued),
        job(3, "A", Status::Queued),
        job(4, "B", Status::Queued),
        job(5, "A", Status::Processing),
    ];
    let picked = sender(&rows, &config);
    assert_eq!(picked.len(), 1);
    assert_eq!(picked[0].job.id, 2);
    assert_eq!(picked[0].job.status, Status::Processing);
    assert_eq!(picked[0].job.loc, "/data/2");
    assert!(sender(&Vec::new(), &config).is_empty());
}

#[test]
fn sender_submits_with_the_identifier() {
    let config = config();
    let mut j = job(1, "A", Status::Queued);
    let url = sender_pick(&mut j, &config).unwrap().unwrap();
    assert_eq!(url, "http://example.com/upload_a");
    assert_eq!(j.status, Status::Processing);
    assert!(sender_settle(&mut j, Ok("abc-1".to_string())));
    assert_eq!(j.status, Status::Submitted);
    assert_eq!(j.dest_id, "abc-1");
}

#[test]
fn sender_pick_of_an_unknown_service() {
    let config = config();
    let mut j = job(1, "B", Status::Queued);
    let r = sender_pick(&mut j, &config).unwrap();
    assert!(matches!(r, Err(UploadError::InvalidService)));
    assert_eq!(j.status, Status::Processing);
    assert!(sender_settle(&mut j, r.map(|u| u.to_string())));
    assert_eq!(j.status, Status::Failed);
}

#[test]
fn sender_settles_every_error() {
    for e in upload_errors() {
        let kind = e.kind();
        let mut j = job(1, "A", Status::Processing);
        let changed = sender_settle(&mut j, Err(e));
        if kind == UploadFailure::UnexpectedStatus {
            assert!(!changed);
            assert_eq!(j.status, Status::Processing);
        } else {
            assert!(changed, "for {:?}", kind);
            assert_eq!(j.status, Status::Failed, "for {:?}", kind);
        }
        assert_eq!(j.dest_id, "");
    }
}

#[test]
fn sender_leaves_other_jobs_alone() {
    let config = config();
    for status in STATUSES {
        if status != Status::Queued {
            let mut j = job(1, "A", status);
            assert!(sender_pick(&mut j, &config).is_none());
            assert_eq!(j.status, status);
        }
        if status != Status::Processing {
            let mut j = job(1, "A", status);
            let dest_id = j.dest_id.clone();
            assert!(!sender_settle(&mut j, Ok("new".to_string())));
            assert_eq!(j.status, status);
            assert_eq!(j.dest_id, dest_id);
            assert!(!sender_settle(&mut j, Err(UploadError::InvalidPath)));
            assert_eq!(j.status, status);
        }
    }
}

#[test]
fn test_getter() {
    let config = config();
    let rows = vec![job(1, "A", Status::Submitted)];
    let mut picked = getter(&rows, &config);
    assert_eq!(picked.len(), 1);
    assert_eq!(picked[0].target.as_ref().unwrap(), "http://example.com/download_a/42");
    // the destination does not know the job
    assert!(getter_settle(&mut picked[0].job, Err(DownloadError::JobNotFound)));
    assert_eq!(picked[0].job.status, Status::Unknown);
}

#[test]
fn getter_picks_what_is_submitted() {
    let config = config();
    let rows = vec![
        job(1, "A", Status::Queued),
        job(2, "A", Status::Submitted),
        job(3, "B", Status::Submitted),
        job(0, "A", Status::Submitted),
        job(5, "A", Status::Completed),
    ];
    let picked = getter(&rows, &config);
    assert_eq!(picked.len(), 3);
    assert_eq!(picked[0].job.id, 2);
    assert_eq!(picked[0].target.as_ref().unwrap(), "http://example.com/download_a/42");
    assert_eq!(picked[1].job.id, 3);
    assert!(matches!(picked[1].target, Err(DownloadError::InvalidService)));
    assert_eq!(picked[2].job.id, 0);
    assert!(matches!(picked[2].target, Err(DownloadError::NotFound)));
    assert_eq!(GETTER_PARALLELISM, 10);
    assert_eq!(TICK_MILLIS, 500);
    assert_eq!(JANITOR_SECS, 60);
}

#[test]
fn getter_pick_by_status() {
    let config = config();
    for status in STATUSES {
        let j = job(1, "A", status);
        let r = getter_pick(&j, &config);
        if status == Status::Submitted {
            assert_eq!(r.unwrap().unwrap(), "http://example.com/download_a");
        } else {
            assert!(r.is_none());
        }
    }
}

#[test]
fn getter_completes_on_success() {
    let mut j = job(1, "A", Status::Submitted);
    assert!(getter_settle(&mut j, Ok(())));
    assert_eq!(j.status, Status::Completed);
    assert_eq!(j.dest_id, "42");
}

#[test]
fn getter_settles_every_error() {
    for e in download_errors() {
        let kind = e.kind();
        let again = retry_later(&e);
        let mut j = job(1, "A", Status::Submitted);
        let changed = getter_settle(&mut j, Err(e));
        let transient = kind == DownloadFailure::NotReady
            || kind == DownloadFailure::RequestFailed
            || kind == DownloadFailure::ResponseReadFailed;
        assert_eq!(again, transient, "for {:?}", kind);
        if transient {
            assert!(!changed);
            assert_eq!(j.status, Status::Submitted, "for {:?}", kind);
        } else {
            assert!(changed);
            assert_eq!(j.status, Status::Unknown, "for {:?}", kind);
        }
    }
}

#[test]
fn getter_leaves_other_jobs_alone() {
    for status in STATUSES {
        if status != Status::Submitted {
            let mut j = job(1, "A", status);
            assert!(!getter_settle(&mut j, Ok(())));
            assert_eq!(j.status, status);
            assert!(!getter_settle(&mut j, Err(DownloadError::JobNotFound)));
            assert_eq!(j.status, status);
        }
    }
}

fn payload(id: u32, status: Status) -> Payload {
    let mut p = Payload::new();
    p.set_id(id);
    p.set_status(status);
    p.set_loc(format!("/data/{}", id));
    p
}

#[test]
fn test_runner() {
    let config = config();
    let rows = vec![payload(1, Status::Prepared)];
    let mut picked = runner(&rows, &config);
    assert_eq!(picked.len(), 1);
    assert!(runner_settle(&mut picked[0], Ok(())));
    assert_eq!(picked[0].status, Status::Completed);
    assert_eq!(picked[0].loc, "/data/1");
}

#[test]
fn test_runner_failure() {
    let config = config();
    let rows = vec![payload(1, Status::Prepared)];
    let mut picked = runner(&rows, &config);
    assert!(runner_settle(&mut picked[0], Err(ClientError::Script)));
    assert_eq!(picked[0].status, Status::Failed);
}

#[test]
fn runner_picks_what_is_prepared() {
    let config = config();
    let rows = vec![
        payload(1, Status::Unknown),
        payload(2, Status::Prepared),
        payload(3, Status::Completed),
        payload(4, Status::Prepared),
    ];
    let ids: Vec<u32> = runner(&rows, &config).iter().map(|p| p.id).collect();
    assert_eq!(ids, vec![2, 4]);
}

#[test]
fn runner_settles_every_error() {
    for e in [ClientError::Execution, ClientError::Script, ClientError::NoExecScript] {
        let mut p = payload(1, Status::Prepared);
        assert!(runner_settle(&mut p, Err(e)));
        assert_eq!(p.status, Status::Failed);
    }
    for status in STATUSES {
        if status != Status::Prepared {
            let mut p = payload(1, status);
            assert!(!runner_settle(&mut p, Ok(())));
            assert_eq!(p.status, status);
        }
    }
}

#[test]
fn destinations_differ() {
    assert_ne!(Destinations::Jobd, Destinations::Client);
}
