//! The janitor's decisions: which artifact directories have aged out, and
//! what becomes of their jobs.

use crate::job::{Job, JobView};
use crate::counting::{kept, lemma_none_kept};
use crate::queue::job_views;
use crate::status::Status;
use crate::text::same;
use vstd::prelude::*;

verus! {

/// One entry of the data directory, as it was listed. `age` is the time
/// since the entry was last modified, in nanoseconds; it is missing where
/// the time could not be read or lies ahead.
#[derive(Debug)]
pub struct Entry {
    pub path: String,
    pub is_dir: bool,
    pub age: Option<u128>,
}

/// An entry of the data directory as the contracts see it.
pub struct EntryView {
    pub path: Seq<char>,
    pub is_dir: bool,
    pub age: Option<u128>,
}

impl View for Entry {
    type V = EntryView;

    open spec fn view(&self) -> EntryView {
        EntryView { path: self.path@, is_dir: self.is_dir, age: self.age }
    }
}

impl Clone for Entry {
    fn clone(&self) -> (r: Self)
        ensures
            r@ == self@,
    {
        Entry { path: self.path.clone(), is_dir: self.is_dir, age: self.age }
    }
}

/// A listing as the contracts see it.
pub open spec fn entry_views(entries: Seq<Entry>) -> Seq<EntryView> {
    Seq::new(entries.len(), |i: int| entries[i]@)
}

/// A list of strings as a sequence of texts.
pub open spec fn text_views(texts: Seq<String>) -> Seq<Seq<char>> {
    Seq::new(texts.len(), |i: int| texts[i]@)
}

/// The entry is a directory that was last modified at least `max_age`
/// ago.
pub open spec fn expired(e: EntryView, max_age: u128) -> bool {
    e.is_dir && (e.age matches Some(a) && a >= max_age)
}

/// The position of the first job whose directory is `loc`, or the number
/// of jobs.
pub open spec fn first_at(jobs: Seq<JobView>, loc: Seq<char>) -> int
    decreases jobs.len(),
{
    if jobs.len() == 0 {
        0
    } else if jobs[0].loc == loc {
        0
    } else {
        1 + first_at(jobs.skip(1), loc)
    }
}

/// The janitor takes entry `i` away: it has aged out and a job is known
/// for it.
pub open spec fn taken(entries: Seq<EntryView>, jobs: Seq<JobView>, max_age: u128, i: int) -> bool {
    0 <= i < entries.len() && expired(entries[i], max_age) && first_at(jobs, entries[i].path)
        < jobs.len()
}

/// Job `k` is the job of one of the first `n` entries that are taken
/// away.
pub open spec fn hit_below(
    entries: Seq<EntryView>,
    jobs: Seq<JobView>,
    max_age: u128,
    k: int,
    n: int,
) -> bool
    decreases n,
{
    n > 0 && (hit_below(entries, jobs, max_age, k, n - 1) || (taken(entries, jobs, max_age, n - 1)
        && first_at(jobs, entries[n - 1].path) == k))
}

/// The job once its directory is gone.
pub open spec fn cleaned(job: JobView) -> JobView {
    JobView { status: Status::Cleaned, ..job }
}

/// The jobs after the janitor went through the first `n` entries: the job
/// of every entry taken away is cleaned, all others are as they were.
pub open spec fn swept_below(
    entries: Seq<EntryView>,
    jobs: Seq<JobView>,
    max_age: u128,
    n: int,
) -> Seq<JobView> {
    Seq::new(
        jobs.len(),
        |k: int|
            if hit_below(entries, jobs, max_age, k, n) {
                cleaned(jobs[k])
            } else {
                jobs[k]
            },
    )
}

/// The jobs after one run of the janitor over `entries`.
pub open spec fn swept(entries: Seq<EntryView>, jobs: Seq<JobView>, max_age: u128) -> Seq<JobView> {
    swept_below(entries, jobs, max_age, entries.len() as int)
}

/// Whether the janitor takes an entry away, by the entry's index.
pub open spec fn is_taken(entries: Seq<EntryView>, jobs: Seq<JobView>, max_age: u128) -> spec_fn(
    int,
) -> bool {
    |i: int| taken(entries, jobs, max_age, i)
}

/// Whether the janitor leaves an entry where it is, by the entry's index.
pub open spec fn is_left(entries: Seq<EntryView>, jobs: Seq<JobView>, max_age: u128) -> spec_fn(
    int,
) -> bool {
    |i: int| !taken(entries, jobs, max_age, i)
}

/// The paths of the entries of a listing.
pub open spec fn paths_of(entries: Seq<EntryView>) -> Seq<Seq<char>> {
    Seq::new(entries.len(), |i: int| entries[i].path)
}

/// The directories that one run of the janitor removes, in the order of
/// the listing.
pub open spec fn removed(entries: Seq<EntryView>, jobs: Seq<JobView>, max_age: u128) -> Seq<
    Seq<char>,
> {
    kept(paths_of(entries), is_taken(entries, jobs, max_age), entries.len() as int)
}

/// The listing after one run of the janitor: what it did not take away.
pub open spec fn left(entries: Seq<EntryView>, jobs: Seq<JobView>, max_age: u128) -> Seq<
    EntryView,
> {
    kept(entries, is_left(entries, jobs, max_age), entries.len() as int)
}

proof fn lemma_first_at(jobs: Seq<JobView>, loc: Seq<char>, i: int)
    requires
        0 <= i <= jobs.len(),
        forall|k: int| 0 <= k < i ==> (#[trigger] jobs[k]).loc != loc,
        i < jobs.len() ==> jobs[i].loc == loc,
    ensures
        first_at(jobs, loc) == i,
    decreases jobs.len(),
{
    if jobs.len() > 0 && i > 0 {
        let rest = jobs.skip(1);
        assert(jobs[0].loc != loc);
        assert forall|k: int| 0 <= k < i - 1 implies (#[trigger] rest[k]).loc != loc by {
            assert(rest[k] == jobs[k + 1]);
        }
        lemma_first_at(rest, loc, i - 1);
    }
}

/// Where a job is found depends on the directories of the jobs alone.
pub proof fn lemma_first_at_by_loc(a: Seq<JobView>, b: Seq<JobView>, loc: Seq<char>)
    requires
        a.len() == b.len(),
        forall|k: int| 0 <= k < a.len() ==> (#[trigger] a[k]).loc == b[k].loc,
    ensures
        first_at(a, loc) == first_at(b, loc),
        0 <= first_at(a, loc) <= a.len(),
    decreases a.len(),
{
    if a.len() > 0 {
        assert(a[0].loc == b[0].loc);
        if a[0].loc != loc {
            assert forall|k: int| 0 <= k < a.skip(1).len() implies (#[trigger] a.skip(1)[k]).loc
                == b.skip(1)[k].loc by {
                assert(a.skip(1)[k] == a[k + 1]);
                assert(b.skip(1)[k] == b[k + 1]);
            }
            lemma_first_at_by_loc(a.skip(1), b.skip(1), loc);
        }
    }
}

/// Whether something that was last modified `age` ago has aged out under
/// the limit `max_age`.
pub fn is_expired(age: u128, max_age: u128) -> (r: bool)
    ensures
        r == (age >= max_age),
{
    age >= max_age
}

/// Where the first job whose directory is `loc` stands among `jobs`.
pub fn retrieve_by_loc(jobs: &Vec<Job>, loc: &str) -> (r: Option<usize>)
    ensures
        r matches Some(k) ==> k < jobs.len() && first_at(job_views(jobs@), loc@) == k,
        r is None ==> first_at(job_views(jobs@), loc@) == jobs.len(),
{
    let ghost all = job_views(jobs@);
    let mut k: usize = 0;
    while k < jobs.len()
        invariant
            k <= jobs.len(),
            all == job_views(jobs@),
            forall|j: int| 0 <= j < k ==> (#[trigger] all[j]).loc != loc@,
        decreases jobs.len() - k,
    {
        assert(all[k as int] == jobs@[k as int]@);
        if same(jobs[k].loc.as_str(), loc) {
            proof {
                lemma_first_at(all, loc@, k as int);
            }
            return Some(k);
        }
        k += 1;
    }
    proof {
        lemma_first_at(all, loc@, k as int);
    }
    None
}

/// One run of the janitor, as far as it decides. `entries` is the listing
/// of the data directory and `jobs` the jobs that are stored. For every
/// entry that is a directory and has aged out, the first job that lives in
/// it is marked as cleaned and the directory is to be removed; where no job
/// lives in it, nothing happens. What comes back are the directories to
/// remove, in the order of the listing.
pub fn cleaner(entries: &Vec<Entry>, jobs: &mut Vec<Job>, max_age: u128) -> (out: Vec<String>)
    ensures
        job_views(final(jobs)@) == swept(entry_views(entries@), job_views(old(jobs)@), max_age),
        text_views(out@) == removed(entry_views(entries@), job_views(old(jobs)@), max_age),
{
    let ghost listing = entry_views(entries@);
    let ghost before = job_views(jobs@);
    let mut out: Vec<String> = Vec::new();
    let mut i: usize = 0;
    assert(job_views(jobs@) =~= swept_below(listing, before, max_age, 0));
    assert(text_views(out@) =~= kept(paths_of(listing), is_taken(listing, before, max_age), 0));
    while i < entries.len()
        invariant
            i <= entries.len(),
            listing == entry_views(entries@),
            before.len() == jobs@.len(),
            job_views(jobs@) == swept_below(listing, before, max_age, i as int),
            text_views(out@) == kept(
                paths_of(listing),
                is_taken(listing, before, max_age),
                i as int,
            ),
        decreases entries.len() - i,
    {
        let entry = &entries[i];
        assert(listing[i as int] == entry@);
        let aged = entry.is_dir && match entry.age {
            Some(a) => is_expired(a, max_age),
            None => false,
        };
        let ghost now = job_views(jobs@);
        let ghost names = text_views(out@);
        proof {
            assert forall|k: int| 0 <= k < now.len() implies (#[trigger] now[k]).loc
                == before[k].loc by {}
            lemma_first_at_by_loc(now, before, entry.path@);
        }
        if aged {
            match retrieve_by_loc(jobs, entry.path.as_str()) {
                Some(k) => {
                    let mut job = jobs[k].clone();
                    job.status = Status::Cleaned;
                    jobs.set(k, job);
                    out.push(entry.path.clone());
                    proof {
                        assert(taken(listing, before, max_age, i as int));
                        assert(job_views(jobs@) =~= swept_below(listing, before, max_age, i + 1))
                            by {
                            assert forall|j: int| 0 <= j < before.len() implies job_views(jobs@)[j]
                                == swept_below(listing, before, max_age, i + 1)[j] by {
                                assert(job_views(jobs@)[j] == jobs@[j]@);
                                assert(now[j] == swept_below(listing, before, max_age, i as int)[j]);
                                if j == k {
                                    assert(hit_below(listing, before, max_age, j, i + 1));
                                    assert(jobs@[j]@ == cleaned(now[j]));
                                } else {
                                    assert(jobs@[j]@ == now[j]);
                                }
                            }
                        }
                        assert(text_views(out@) =~= names.push(paths_of(listing)[i as int]));
                    }
                },
                None => {
                    assert(!taken(listing, before, max_age, i as int));
                    assert(job_views(jobs@) =~= swept_below(listing, before, max_age, i + 1));
                },
            }
        } else {
            assert(!taken(listing, before, max_age, i as int));
            assert(job_views(jobs@) =~= swept_below(listing, before, max_age, i + 1));
        }
        i += 1;
    }
    out
}

proof fn lemma_swept_keeps_locs(entries: Seq<EntryView>, jobs: Seq<JobView>, max_age: u128, n: int)
    ensures
        swept_below(entries, jobs, max_age, n).len() == jobs.len(),
        forall|k: int|
            0 <= k < jobs.len() ==> (#[trigger] swept_below(entries, jobs, max_age, n)[k]).loc
                == jobs[k].loc,
{
}

proof fn lemma_hit_by_loc(
    entries: Seq<EntryView>,
    a: Seq<JobView>,
    b: Seq<JobView>,
    max_age: u128,
    k: int,
    n: int,
)
    requires
        a.len() == b.len(),
        forall|j: int| 0 <= j < a.len() ==> (#[trigger] a[j]).loc == b[j].loc,
        0 <= n <= entries.len(),
    ensures
        hit_below(entries, a, max_age, k, n) == hit_below(entries, b, max_age, k, n),
    decreases n,
{
    if n > 0 {
        lemma_hit_by_loc(entries, a, b, max_age, k, n - 1);
        lemma_first_at_by_loc(a, b, entries[n - 1].path);
    }
}

/// The janitor leaves every job well formed that was well formed.
pub proof fn lemma_swept_well_formed(entries: Seq<EntryView>, jobs: Seq<JobView>, max_age: u128)
    ensures
        swept(entries, jobs, max_age).len() == jobs.len(),
        forall|k: int|
            0 <= k < jobs.len() && jobs[k].well_formed() ==> (#[trigger] swept(
                entries,
                jobs,
                max_age,
            )[k]).well_formed(),
{
}

/// A second run of the janitor over the same listing changes no job:
/// what the first run cleaned is cleaned, and nothing else is touched.
pub proof fn lemma_swept_twice(entries: Seq<EntryView>, jobs: Seq<JobView>, max_age: u128)
    ensures
        swept(entries, swept(entries, jobs, max_age), max_age) == swept(entries, jobs, max_age),
{
    let once = swept(entries, jobs, max_age);
    let twice = swept(entries, once, max_age);
    let n = entries.len() as int;
    lemma_swept_keeps_locs(entries, jobs, max_age, n);
    assert forall|k: int| 0 <= k < jobs.len() implies twice[k] == once[k] by {
        lemma_hit_by_loc(entries, once, jobs, max_age, k, n);
    }
    assert(twice =~= once);
}

proof fn lemma_no_hit(entries: Seq<EntryView>, jobs: Seq<JobView>, max_age: u128, k: int, n: int)
    requires
        0 <= n <= entries.len(),
        forall|i: int| 0 <= i < n ==> !#[trigger] taken(entries, jobs, max_age, i),
    ensures
        !hit_below(entries, jobs, max_age, k, n),
    decreases n,
{
    if n > 0 {
        lemma_no_hit(entries, jobs, max_age, k, n - 1);
    }
}

/// Every entry that is left after a run was in the listing and was not
/// taken away.
proof fn lemma_left(entries: Seq<EntryView>, jobs: Seq<JobView>, max_age: u128, n: int)
    requires
        0 <= n <= entries.len(),
    ensures
        forall|j: int|
            0 <= j < kept(entries, is_left(entries, jobs, max_age), n).len() ==> {
                let e = #[trigger] kept(entries, is_left(entries, jobs, max_age), n)[j];
                !(expired(e, max_age) && first_at(jobs, e.path) < jobs.len())
            },
    decreases n,
{
    if n > 0 {
        lemma_left(entries, jobs, max_age, n - 1);
        let front = kept(entries, is_left(entries, jobs, max_age), n - 1);
        let all = kept(entries, is_left(entries, jobs, max_age), n);
        assert forall|j: int| 0 <= j < all.len() implies {
            let e = #[trigger] all[j];
            !(expired(e, max_age) && first_at(jobs, e.path) < jobs.len())
        } by {
            if j < front.len() {
                assert(all[j] == front[j]);
            } else {
                assert(all[j] == entries[n - 1]);
                assert(!taken(entries, jobs, max_age, n - 1));
            }
        }
    }
}

/// Running the janitor again after a run is a no-op: among the entries
/// that the first run left there is none for it to take, so it removes no
/// directory and changes no job.
pub proof fn lemma_second_run_finds_nothing(
    entries: Seq<EntryView>,
    jobs: Seq<JobView>,
    max_age: u128,
)
    ensures
        removed(left(entries, jobs, max_age), swept(entries, jobs, max_age), max_age)
            == Seq::<Seq<char>>::empty(),
        swept(left(entries, jobs, max_age), swept(entries, jobs, max_age), max_age) == swept(
            entries,
            jobs,
            max_age,
        ),
{
    let rest = left(entries, jobs, max_age);
    let once = swept(entries, jobs, max_age);
    let m = rest.len() as int;
    lemma_left(entries, jobs, max_age, entries.len() as int);
    lemma_swept_keeps_locs(entries, jobs, max_age, entries.len() as int);
    assert forall|i: int| 0 <= i < m implies !#[trigger] taken(rest, once, max_age, i) by {
        lemma_first_at_by_loc(once, jobs, rest[i].path);
    }
    assert forall|i: int| 0 <= i < m implies !#[trigger] is_taken(rest, once, max_age)(i) by {
        assert(!taken(rest, once, max_age, i));
    }
    lemma_none_kept(paths_of(rest), is_taken(rest, once, max_age), m);
    let again = swept(rest, once, max_age);
    assert forall|k: int| 0 <= k < once.len() implies again[k] == once[k] by {
        lemma_no_hit(rest, once, max_age, k, m);
    }
    assert(again =~= once);
}

} // verus!
