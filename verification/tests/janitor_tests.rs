use orchestrator::janitor::{cleaner, is_expired, retrieve_by_loc, Entry};
use orchestrator::job::Job;
use orchestrator::status::Status;

fn job(id: i32, loc: &str, status: Status) -> Job {
    Job {
        id,
        user_id: 1,
        service: "A".to_string(),
        status,
        loc: loc.to_string(),
        dest_id: String::new(),
    }
}

fn dir(path: &str, age: u128) -> Entry {
    Entry { path: path.to_string(), is_dir: true, age: Some(age) }
}

#[test]
fn test_cleaner() {
    // one job whose directory is older than a limit of one nanosecond
    let mut jobs = vec![job(1, "/data/one", Status::Unknown)];
    let entries = vec![dir("/data/one", 1_000_000)];
    let removed = cleaner(&entries, &mut jobs, 1);
    assert_eq!(removed, vec!["/data/one".to_string()]);
    assert_eq!(jobs[0].status, Status::Cleaned);
    assert_eq!(jobs[0].loc, "/data/one");
}

#[test]
fn cleaner_takes_what_has_aged_out() {
    let mut jobs = vec![
        job(1, "/data/a", Status::Completed),
        job(2, "/data/b", Status::Queued),
        job(3, "/data/c", Status::Submitted),
        job(4, "/data/d", Status::Failed),
    ];
    let entries = vec![
        dir("/data/a", 100),
        dir("/data/b", 99),
        dir("/data/c", 101),
        Entry { path: "/data/d".to_string(), is_dir: false, age: Some(1000) },
        Entry { path: "/data/d".to_string(), is_dir: true, age: None },
        dir("/data/stray", 1000),
    ];
    let removed = cleaner(&entries, &mut jobs, 100);
    assert_eq!(removed, vec!["/data/a".to_string(), "/data/c".to_string()]);
    let statuses: Vec<Status> = jobs.iter().map(|j| j.status).collect();
    assert_eq!(
        statuses,
        vec![Status::Cleaned, Status::Queued, Status::Cleaned, Status::Failed]
    );
    assert_eq!(jobs[2].id, 3);
}

#[test]
fn cleaner_run_again_finds_nothing() {
    let mut jobs = vec![job(1, "/data/a", Status::Completed), job(2, "/data/b", Status::Queued)];
    let entries = vec![dir("/data/a", 100), dir("/data/b", 1), dir("/data/stray", 1000)];
    let removed = cleaner(&entries, &mut jobs, 100);
    assert_eq!(removed, vec!["/data/a".to_string()]);

    // what is left of the listing once the directory is gone
    let left = vec![dir("/data/b", 1), dir("/data/stray", 1000)];
    let before: Vec<Status> = jobs.iter().map(|j| j.status).collect();
    let removed = cleaner(&left, &mut jobs, 100);
    assert!(removed.is_empty());
    let after: Vec<Status> = jobs.iter().map(|j| j.status).collect();
    assert_eq!(before, after);

    // and even over the same listing no job changes again
    cleaner(&entries, &mut jobs, 100);
    let again: Vec<Status> = jobs.iter().map(|j| j.status).collect();
    assert_eq!(before, again);
}

#[test]
fn cleaner_takes_the_first_job_of_a_directory() {
    let mut jobs = vec![
        job(1, "/data/x", Status::Queued),
        job(2, "/data/a", Status::Completed),
        job(3, "/data/a", Status::Failed),
    ];
    let entries = vec![dir("/data/a", 5), dir("/data/a", 5)];
    let removed = cleaner(&entries, &mut jobs, 5);
    assert_eq!(removed.len(), 2);
    assert_eq!(jobs[1].status, Status::Cleaned);
    assert_eq!(jobs[2].status, Status::Failed);
    assert_eq!(jobs[0].status, Status::Queued);
}

#[test]
fn cleaner_without_entries_or_jobs() {
    let mut jobs: Vec<Job> = Vec::new();
    assert!(cleaner(&vec![dir("/data/a", 5)], &mut jobs, 0).is_empty());
    let mut jobs = vec![job(1, "/data/a", Status::Queued)];
    assert!(cleaner(&Vec::new(), &mut jobs, 0).is_empty());
    assert_eq!(jobs[0].status, Status::Queued);
}

#[test]
fn age_at_the_limit_has_aged_out() {
    assert!(is_expired(100, 100));
    assert!(is_expired(101, 100));
    assert!(!is_expired(99, 100));
    assert!(is_expired(0, 0));
    assert!(is_expired(u128::MAX, u128::MAX));
}

#[test]
fn jobs_by_directory() {
    let jobs = vec![job(1, "/data/a", Status::Queued), job(2, "/data/b", Status::Queued)];
    assert_eq!(retrieve_by_loc(&jobs, "/data/b"), Some(1));
    assert_eq!(retrieve_by_loc(&jobs, "/data/a"), Some(0));
    assert_eq!(retrieve_by_loc(&jobs, "/data/a/"), None);
    assert_eq!(retrieve_by_loc(&Vec::new(), "/data/a"), None);
}
