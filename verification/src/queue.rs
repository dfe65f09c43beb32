//! The queue view: which jobs are in a status, and which queued jobs may
//! be advanced now under the limits per user and service.

use crate::config::{lookup, Config, ServiceView};
use crate::counting::{
    count_below, except, kept, lemma_count_except, lemma_count_implies, lemma_count_none,
    lemma_count_sum, lemma_count_same, lemma_kept, source_of,
};
use crate::job::{Job, JobView};
use crate::payload::{Payload, PayloadView};
use crate::status::Status;
use crate::text::same;
use vstd::prelude::*;

verus! {

/// The jobs picked for one tick, with the configuration they were picked
/// under.
#[derive(Debug)]
pub struct Queue<'a> {
    pub jobs: Vec<Job>,
    pub config: &'a Config,
}

/// The payloads picked for one tick.
#[derive(Debug)]
pub struct PayloadQueue<'a> {
    pub jobs: Vec<Payload>,
    pub config: &'a Config,
}

/// A list of jobs as the contracts see it.
pub open spec fn job_views(jobs: Seq<Job>) -> Seq<JobView> {
    Seq::new(jobs.len(), |i: int| jobs[i]@)
}

/// A list of payloads as the contracts see it.
pub open spec fn payload_views(payloads: Seq<Payload>) -> Seq<PayloadView> {
    Seq::new(payloads.len(), |i: int| payloads[i]@)
}

/// Whether job `j` belongs to the cell of `user` and `service`.
pub open spec fn in_cell(j: JobView, user: i32, service: Seq<char>) -> bool {
    j.user_id == user && j.service == service
}

/// Row `k` is a job of the cell that is in flight at the destination.
pub open spec fn is_submitted_in(rows: Seq<JobView>, user: i32, service: Seq<char>) -> spec_fn(
    int,
) -> bool {
    |k: int| 0 <= k < rows.len() && rows[k].status == Status::Submitted && in_cell(rows[k], user, service)
}

/// How many jobs of the cell are in flight at the destination.
pub open spec fn submitted_in(rows: Seq<JobView>, user: i32, service: Seq<char>) -> nat {
    count_below(is_submitted_in(rows, user, service), rows.len() as int)
}

/// Row `k` is served before row `i`: it has the smaller number, or the same
/// number and stands earlier.
pub open spec fn goes_before(rows: Seq<JobView>, k: int, i: int) -> bool {
    rows[k].id < rows[i].id || (rows[k].id == rows[i].id && k < i)
}

/// Row `k` is a queued job of the cell of row `i` that is served before
/// it.
pub open spec fn is_queued_ahead(rows: Seq<JobView>, i: int) -> spec_fn(int) -> bool {
    |k: int|
        0 <= k < rows.len() && rows[k].status == Status::Queued && in_cell(
            rows[k],
            rows[i].user_id,
            rows[i].service,
        ) && goes_before(rows, k, i)
}

/// How many queued jobs of its cell are served before row `i`.
pub open spec fn queued_ahead(rows: Seq<JobView>, i: int) -> nat {
    count_below(is_queued_ahead(rows, i), rows.len() as int)
}

/// How many jobs of one user a service runs at a time; none where the
/// service is not configured.
pub open spec fn limit_of(services: Seq<ServiceView>, service: Seq<char>) -> int {
    match lookup(services, service) {
        Some(s) => s.runs_per_user as int,
        None => 0,
    }
}

/// Row `i` may be advanced now: it is queued, its service is configured,
/// and the jobs of its cell in flight together with the queued ones served
/// before it leave a slot free.
pub open spec fn admissible(rows: Seq<JobView>, services: Seq<ServiceView>, i: int) -> bool {
    &&& 0 <= i < rows.len()
    &&& rows[i].status == Status::Queued
    &&& lookup(services, rows[i].service) is Some
    &&& submitted_in(rows, rows[i].user_id, rows[i].service) + queued_ahead(rows, i) < limit_of(
        services,
        rows[i].service,
    )
}

/// Whether a row may be advanced now, by the row's index.
pub open spec fn is_admissible(rows: Seq<JobView>, services: Seq<ServiceView>) -> spec_fn(
    int,
) -> bool {
    |i: int| admissible(rows, services, i)
}

/// The jobs of the snapshot `rows` that may be advanced now, in the order
/// of the snapshot.
pub open spec fn admitted(rows: Seq<JobView>, services: Seq<ServiceView>) -> Seq<JobView> {
    kept(rows, is_admissible(rows, services), rows.len() as int)
}

/// Whether a row is a job in `status`, by the row's index.
pub open spec fn has_status(rows: Seq<JobView>, status: Status) -> spec_fn(int) -> bool {
    |i: int| 0 <= i < rows.len() && rows[i].status == status
}

/// The jobs of `rows` that are in `status`, in the order of `rows`.
pub open spec fn in_status(rows: Seq<JobView>, status: Status) -> Seq<JobView> {
    kept(rows, has_status(rows, status), rows.len() as int)
}

/// Whether a row is a payload in `status`, by the row's index.
pub open spec fn payload_has_status(rows: Seq<PayloadView>, status: Status) -> spec_fn(int) -> bool {
    |i: int| 0 <= i < rows.len() && rows[i].status == status
}

/// The payloads of `rows` that are in `status`, in the order of `rows`.
pub open spec fn payloads_in_status(rows: Seq<PayloadView>, status: Status) -> Seq<PayloadView> {
    kept(rows, payload_has_status(rows, status), rows.len() as int)
}

impl<'a> Queue<'a> {
    /// An empty queue under `config`.
    pub fn new(config: &'a Config) -> (q: Queue<'a>)
        ensures
            q.jobs@.len() == 0,
            q.config == config,
    {
        Queue { jobs: Vec::new(), config }
    }

    /// Fills the queue with the jobs of `rows` that are in `status`, in the
    /// order of `rows`.
    pub fn list_per_status(&mut self, status: Status, rows: &Vec<Job>)
        ensures
            job_views(final(self).jobs@) == in_status(job_views(rows@), status),
            final(self).jobs@.len() == in_status(job_views(rows@), status).len(),
            final(self).config == old(self).config,
    {
        let ghost all = job_views(rows@);
        let mut found: Vec<Job> = Vec::new();
        let mut i: usize = 0;
        assert(job_views(found@) =~= kept(all, has_status(all, status), 0));
        while i < rows.len()
            invariant
                i <= rows.len(),
                all == job_views(rows@),
                job_views(found@) == kept(all, has_status(all, status), i as int),
            decreases rows.len() - i,
        {
            let ghost before = job_views(found@);
            assert(all[i as int] == rows@[i as int]@);
            if rows[i].status == status {
                found.push(rows[i].clone());
                assert(job_views(found@) =~= before.push(all[i as int]));
            }
            i += 1;
        }
        assert(job_views(found@).len() == found@.len());
        self.jobs = found;
    }

    /// How many jobs of the cell of row `i` are in flight, and how many
    /// queued jobs of that cell are served before row `i`.
    fn slots_taken(rows: &Vec<Job>, i: usize) -> (r: (usize, usize))
        requires
            i < rows.len(),
        ensures
            r.0 == submitted_in(
                job_views(rows@),
                job_views(rows@)[i as int].user_id,
                job_views(rows@)[i as int].service,
            ),
            r.1 == queued_ahead(job_views(rows@), i as int),
    {
        let ghost all = job_views(rows@);
        let ghost user = all[i as int].user_id;
        let ghost service = all[i as int].service;
        assert(all[i as int] == rows@[i as int]@);
        let mut submitted: usize = 0;
        let mut ahead: usize = 0;
        let mut k: usize = 0;
        while k < rows.len()
            invariant
                k <= rows.len(),
                i < rows.len(),
                all == job_views(rows@),
                user == all[i as int].user_id,
                service == all[i as int].service,
                all[i as int] == rows@[i as int]@,
                submitted == count_below(is_submitted_in(all, user, service), k as int),
                ahead == count_below(is_queued_ahead(all, i as int), k as int),
                submitted <= k,
                ahead <= k,
            decreases rows.len() - k,
        {
            assert(all[k as int] == rows@[k as int]@);
            let other = &rows[k];
            let me = &rows[i];
            if other.user_id == me.user_id && same(other.service.as_str(), me.service.as_str()) {
                if other.status == Status::Submitted {
                    submitted += 1;
                } else if other.status == Status::Queued && (other.id < me.id || (other.id == me.id
                    && k < i)) {
                    ahead += 1;
                }
            }
            k += 1;
        }
        (submitted, ahead)
    }

    /// Fills the queue with the jobs of the snapshot `rows` that may be
    /// advanced now. For each user and service these are the queued jobs
    /// with the smallest numbers, as many as the service's limit leaves free
    /// beside the jobs of that user and service in flight. They come in the
    /// order of the snapshot.
    pub fn load(&mut self, rows: &Vec<Job>)
        ensures
            job_views(final(self).jobs@) == admitted(job_views(rows@), old(self).config@.services),
            final(self).jobs@.len() == admitted(job_views(rows@), old(self).config@.services).len(),
            final(self).config == old(self).config,
            forall|j: int|
                0 <= j < final(self).jobs@.len() ==> (#[trigger] final(self).jobs@[j]).status
                    == Status::Queued,
            forall|j: int|
                0 <= j < final(self).jobs@.len() ==> (old(self).config.service(
                    (#[trigger] final(self).jobs@[j]).service@,
                ) matches Some(s) && s.runs_per_user > 0),
            forall|user: i32, service: Seq<char>|
                (#[trigger] cell_size(job_views(final(self).jobs@), user, service)) + submitted_in(
                    job_views(rows@),
                    user,
                    service,
                ) <= limit_of(old(self).config@.services, service) || cell_size(
                    job_views(final(self).jobs@),
                    user,
                    service,
                ) == 0,
    {
        let ghost all = job_views(rows@);
        let ghost services = self.config@.services;
        let mut found: Vec<Job> = Vec::new();
        let mut i: usize = 0;
        assert(job_views(found@) =~= kept(all, is_admissible(all, services), 0));
        while i < rows.len()
            invariant
                i <= rows.len(),
                all == job_views(rows@),
                services == self.config@.services,
                job_views(found@) == kept(all, is_admissible(all, services), i as int),
            decreases rows.len() - i,
        {
            let ghost before = job_views(found@);
            assert(all[i as int] == rows@[i as int]@);
            if rows[i].status == Status::Queued {
                match self.config.get_runs_per_user(rows[i].service.as_str()) {
                    Some(limit) => {
                        let (submitted, ahead) = Queue::slots_taken(rows, i);
                        if submitted < limit as usize && ahead < limit as usize - submitted {
                            found.push(rows[i].clone());
                            assert(job_views(found@) =~= before.push(all[i as int]));
                        }
                    },
                    None => {},
                }
            }
            i += 1;
        }
        proof {
            lemma_admitted_are_queued(all, services);
            lemma_admitted_have_room(all, services);
            assert forall|j: int| 0 <= j < found@.len() implies (#[trigger] found@[j]).status
                == Status::Queued && (lookup(services, found@[j].service@) matches Some(s)
                && s.runs_per_user > 0) by {
                assert(job_views(found@)[j] == found@[j]@);
            }
            assert(job_views(found@).len() == found@.len());
            assert forall|user: i32, service: Seq<char>|
                (#[trigger] cell_size(job_views(found@), user, service)) + submitted_in(
                    all,
                    user,
                    service,
                ) <= limit_of(services, service) || cell_size(job_views(found@), user, service)
                    == 0 by {
                lemma_admission_keeps_ceiling(all, services, user, service);
            }
        }
        self.jobs = found;
    }
}

impl<'a> PayloadQueue<'a> {
    /// An empty queue under `config`.
    pub fn new(config: &'a Config) -> (q: PayloadQueue<'a>)
        ensures
            q.jobs@.len() == 0,
            q.config == config,
    {
        PayloadQueue { jobs: Vec::new(), config }
    }

    /// Fills the queue with the payloads of `rows` that are in `status`, in
    /// the order of `rows`.
    pub fn list_per_status(&mut self, status: Status, rows: &Vec<Payload>)
        ensures
            payload_views(final(self).jobs@) == payloads_in_status(payload_views(rows@), status),
            final(self).jobs@.len() == payloads_in_status(payload_views(rows@), status).len(),
            final(self).config == old(self).config,
    {
        let ghost all = payload_views(rows@);
        let mut found: Vec<Payload> = Vec::new();
        let mut i: usize = 0;
        assert(payload_views(found@) =~= kept(all, payload_has_status(all, status), 0));
        while i < rows.len()
            invariant
                i <= rows.len(),
                all == payload_views(rows@),
                payload_views(found@) == kept(all, payload_has_status(all, status), i as int),
            decreases rows.len() - i,
        {
            let ghost before = payload_views(found@);
            assert(all[i as int] == rows@[i as int]@);
            if rows[i].status == status {
                found.push(rows[i].clone());
                assert(payload_views(found@) =~= before.push(all[i as int]));
            }
            i += 1;
        }
        assert(payload_views(found@).len() == found@.len());
        self.jobs = found;
    }
}

/// Index `i` satisfies `keep` and its row belongs to the cell.
pub open spec fn kept_in_cell(
    rows: Seq<JobView>,
    keep: spec_fn(int) -> bool,
    user: i32,
    service: Seq<char>,
) -> spec_fn(int) -> bool {
    |i: int| keep(i) && in_cell(rows[i], user, service)
}

/// The condition that every index satisfies.
pub open spec fn always() -> spec_fn(int) -> bool {
    |i: int| true
}

/// How many of `jobs` belong to the cell of `user` and `service`.
pub open spec fn cell_size(jobs: Seq<JobView>, user: i32, service: Seq<char>) -> nat {
    count_below(kept_in_cell(jobs, always(), user, service), jobs.len() as int)
}

/// How many jobs of the cell the snapshot lets advance now.
pub open spec fn admitted_in(
    rows: Seq<JobView>,
    services: Seq<ServiceView>,
    user: i32,
    service: Seq<char>,
) -> nat {
    count_below(kept_in_cell(rows, is_admissible(rows, services), user, service), rows.len() as int)
}

/// The index below `n` that satisfies `p` and is served last, or -1 where
/// none satisfies `p`.
pub open spec fn served_last(rows: Seq<JobView>, p: spec_fn(int) -> bool, n: int) -> int
    decreases n,
{
    if n <= 0 {
        -1
    } else {
        let r = served_last(rows, p, n - 1);
        if p(n - 1) && (r < 0 || goes_before(rows, r, n - 1)) {
            n - 1
        } else {
            r
        }
    }
}

proof fn lemma_served_last(rows: Seq<JobView>, p: spec_fn(int) -> bool, n: int)
    requires
        0 <= n <= rows.len(),
    ensures
        -1 <= served_last(rows, p, n) < n,
        served_last(rows, p, n) >= 0 ==> p(served_last(rows, p, n)),
        forall|k: int|
            0 <= k < n && #[trigger] p(k) && k != served_last(rows, p, n) ==> served_last(rows, p, n)
                >= 0 && goes_before(rows, k, served_last(rows, p, n)),
    decreases n,
{
    if n > 0 {
        lemma_served_last(rows, p, n - 1);
    }
}

/// Of one user and service, no more jobs are let through than the
/// service's limit leaves free beside those in flight.
pub proof fn lemma_admitted_in_bound(
    rows: Seq<JobView>,
    services: Seq<ServiceView>,
    user: i32,
    service: Seq<char>,
)
    ensures
        admitted_in(rows, services, user, service) > 0 ==> admitted_in(rows, services, user, service)
            + submitted_in(rows, user, service) <= limit_of(services, service),
{
    let n = rows.len() as int;
    let p = kept_in_cell(rows, is_admissible(rows, services), user, service);
    let m = served_last(rows, p, n);
    lemma_served_last(rows, p, n);
    if m < 0 {
        lemma_count_implies(p, |k: int| false, n);
        lemma_count_none(n);
    } else {
        lemma_count_except(p, m, n);
        let q = is_queued_ahead(rows, m);
        assert forall|k: int| 0 <= k < n && #[trigger] except(p, m)(k) implies q(k) by {
            assert(p(k));
        }
        lemma_count_implies(except(p, m), q, n);
        assert(admissible(rows, services, m));
    }
}

/// Counting the rows of a cell among the kept ones is counting the indices
/// that are kept and whose row is in the cell.
pub proof fn lemma_kept_cell_size(
    rows: Seq<JobView>,
    keep: spec_fn(int) -> bool,
    user: i32,
    service: Seq<char>,
    n: int,
)
    requires
        0 <= n <= rows.len(),
    ensures
        cell_size(kept(rows, keep, n), user, service) == count_below(
            kept_in_cell(rows, keep, user, service),
            n,
        ),
    decreases n,
{
    if n > 0 {
        lemma_kept_cell_size(rows, keep, user, service, n - 1);
        if keep(n - 1) {
            let front = kept(rows, keep, n - 1);
            let all = kept(rows, keep, n);
            assert(all == front.push(rows[n - 1]));
            lemma_count_same(
                kept_in_cell(front, always(), user, service),
                kept_in_cell(all, always(), user, service),
                front.len() as int,
            );
        }
    }
}

/// Every job that is let through is queued.
pub proof fn lemma_admitted_are_queued(rows: Seq<JobView>, services: Seq<ServiceView>)
    ensures
        forall|j: int|
            0 <= j < admitted(rows, services).len() ==> (#[trigger] admitted(
                rows,
                services,
            )[j]).status == Status::Queued,
{
    let keep = is_admissible(rows, services);
    lemma_kept(rows, keep, rows.len() as int);
    assert forall|j: int| 0 <= j < admitted(rows, services).len() implies (#[trigger] admitted(
        rows,
        services,
    )[j]).status == Status::Queued by {
        let i = source_of(keep, rows.len() as int, j);
        assert(keep(i));
    }
}

/// Every job that is let through belongs to a configured service whose
/// limit is not zero: a service that runs nothing lets nothing through, and
/// neither does a service that is not configured.
pub proof fn lemma_admitted_have_room(rows: Seq<JobView>, services: Seq<ServiceView>)
    ensures
        forall|j: int|
            0 <= j < admitted(rows, services).len() ==> (lookup(
                services,
                (#[trigger] admitted(rows, services)[j]).service,
            ) matches Some(s) && s.runs_per_user > 0),
{
    let keep = is_admissible(rows, services);
    lemma_kept(rows, keep, rows.len() as int);
    assert forall|j: int| 0 <= j < admitted(rows, services).len() implies (lookup(
        services,
        (#[trigger] admitted(rows, services)[j]).service,
    ) matches Some(s) && s.runs_per_user > 0) by {
        let i = source_of(keep, rows.len() as int, j);
        assert(keep(i));
    }
}

/// Letting jobs through never takes a user and service over the limit:
/// the jobs let through and the jobs in flight are together no more than
/// the service's limit, unless more than that were in flight already, and
/// then nothing is let through.
pub proof fn lemma_admission_keeps_ceiling(
    rows: Seq<JobView>,
    services: Seq<ServiceView>,
    user: i32,
    service: Seq<char>,
)
    ensures
        cell_size(admitted(rows, services), user, service) + submitted_in(rows, user, service)
            <= limit_of(services, service) || cell_size(admitted(rows, services), user, service)
            == 0,
{
    lemma_kept_cell_size(rows, is_admissible(rows, services), user, service, rows.len() as int);
    lemma_admitted_in_bound(rows, services, user, service);
}

/// Within one user and service, jobs are let through in the order in which
/// they are served: where a job is let through, so is every queued job of
/// its user and service that is served before it.
pub proof fn lemma_admission_is_fifo(rows: Seq<JobView>, services: Seq<ServiceView>, k: int, i: int)
    requires
        admissible(rows, services, i),
        0 <= k < rows.len(),
        rows[k].status == Status::Queued,
        in_cell(rows[k], rows[i].user_id, rows[i].service),
        goes_before(rows, k, i),
    ensures
        admissible(rows, services, k),
{
    let n = rows.len() as int;
    assert forall|j: int| 0 <= j < n && #[trigger] is_queued_ahead(rows, k)(j) implies is_queued_ahead(
        rows,
        i,
    )(j) by {}
    lemma_count_implies(is_queued_ahead(rows, k), is_queued_ahead(rows, i), n);
}

/// The snapshot once every job that was let through is in flight at its
/// destination.
pub open spec fn promoted(rows: Seq<JobView>, services: Seq<ServiceView>) -> Seq<JobView> {
    Seq::new(
        rows.len(),
        |i: int|
            if admissible(rows, services, i) {
                JobView { status: Status::Submitted, ..rows[i] }
            } else {
                rows[i]
            },
    )
}

/// The limit holds from one snapshot to the next: where no more jobs of a
/// user and service are in flight than the service's limit allows, that is
/// still so once all jobs that were let through are in flight too.
pub proof fn lemma_ceiling_is_kept(
    rows: Seq<JobView>,
    services: Seq<ServiceView>,
    user: i32,
    service: Seq<char>,
)
    requires
        submitted_in(rows, user, service) <= limit_of(services, service),
    ensures
        submitted_in(promoted(rows, services), user, service) == submitted_in(rows, user, service)
            + admitted_in(rows, services, user, service),
        submitted_in(promoted(rows, services), user, service) <= limit_of(services, service),
{
    let next = promoted(rows, services);
    let n = rows.len() as int;
    let p = is_submitted_in(rows, user, service);
    let q = kept_in_cell(rows, is_admissible(rows, services), user, service);
    let r = is_submitted_in(next, user, service);
    assert forall|k: int| 0 <= k < n implies (#[trigger] r(k) == (p(k) || q(k))) && !(p(k) && q(
        k,
    )) by {
        assert(next[k] == if admissible(rows, services, k) {
            JobView { status: Status::Submitted, ..rows[k] }
        } else {
            rows[k]
        });
    }
    lemma_count_sum(p, q, r, n);
    lemma_admitted_in_bound(rows, services, user, service);
}

} // verus!
