//! The queue of background work.
//!
//! A job is handed to one worker at a time, for as long as its lease lasts. One
//! that keeps failing is given up rather than handed out for ever.

use vstd::prelude::*;

use crate::error::{outcome, StoreError, StoreErrorModel};
use crate::moment::{clock_text, on_the_clock, Moment, Span};
use crate::order::{
    lemma_text_lt_irreflexive, lemma_text_lt_total, lemma_text_lt_transitive, text_less, text_lt,
};
use crate::rows::{
    any_row, changed, first_row, is_first, lemma_first, lemma_no_first, lemma_tally_step, tally,
};
use crate::states::{JobStatus, WireName};
use crate::store::clock_out_of_range;
use crate::tables::{JobRow, JobRowModel, Store, StoreModel};
use crate::text::{copy_option, copy_text, same};

verus! {

/// Where a queued job currently stands.
#[derive(Debug, PartialEq, Eq)]
pub struct JobState {
    pub status: String,
    pub retry_remaining: i64,
    pub last_error: Option<String>,
}

/// The contents of a [`JobState`].
#[verifier::ext_equal]
pub struct JobStateModel {
    pub status: Seq<char>,
    pub retry_remaining: i64,
    pub last_error: Option<Seq<char>>,
}

impl View for JobState {
    type V = JobStateModel;

    open spec fn view(&self) -> JobStateModel {
        JobStateModel {
            status: self.status@,
            retry_remaining: self.retry_remaining,
            last_error: self.last_error.deep_view(),
        }
    }
}

impl DeepView for JobState {
    type V = JobStateModel;

    open spec fn deep_view(&self) -> JobStateModel {
        self@
    }
}

/// A job handed to a worker, already leased.
#[derive(Debug, PartialEq, Eq)]
pub struct Job {
    pub kind: String,
    pub job_key: String,
    pub payload_json: String,
    pub retry_remaining: i64,
}

/// The contents of a [`Job`].
#[verifier::ext_equal]
pub struct JobModel {
    pub kind: Seq<char>,
    pub job_key: Seq<char>,
    pub payload_json: Seq<char>,
    pub retry_remaining: i64,
}

impl View for Job {
    type V = JobModel;

    open spec fn view(&self) -> JobModel {
        JobModel {
            kind: self.kind@,
            job_key: self.job_key@,
            payload_json: self.payload_json@,
            retry_remaining: self.retry_remaining,
        }
    }
}

impl DeepView for Job {
    type V = JobModel;

    open spec fn deep_view(&self) -> JobModel {
        self@
    }
}

/// Being the job of a kind that has a key.
pub open spec fn is_job(kind: Seq<char>, key: Seq<char>) -> spec_fn(JobRowModel) -> bool {
    |j: JobRowModel| j.kind == kind && j.job_key == key
}

// --- queueing --------------------------------------------------------------

/// The store with a job in its queue. One that is there already stays as it is.
pub open spec fn with_job(
    s: StoreModel,
    kind: Seq<char>,
    key: Seq<char>,
    payload: Seq<char>,
    retries: i64,
    now: Seq<char>,
) -> StoreModel {
    if any_row(s.jobs, is_job(kind, key)) {
        s
    } else {
        StoreModel {
            jobs: s.jobs.push(
                JobRowModel {
                    kind,
                    job_key: key,
                    status: JobStatus::Pending,
                    payload_json: payload,
                    retry_remaining: retries,
                    retry_at: None,
                    lease_until: None,
                    worker_id: None,
                    last_error: None,
                    created_at: now,
                    updated_at: now,
                },
            ),
            ..s
        }
    }
}

impl Store {
    fn job_index(&self, kind: &str, key: &str) -> (r: Option<usize>)
        ensures
            match r {
                Some(i) => i < self.jobs@.len() && first_row(self@.jobs, is_job(kind@, key@))
                    == Some(self.jobs@[i as int]@) && any_row(self@.jobs, is_job(kind@, key@)),
                None => first_row(self@.jobs, is_job(kind@, key@)) is None && !any_row(
                    self@.jobs,
                    is_job(kind@, key@),
                ),
            },
    {
        let ghost p = is_job(kind@, key@);
        let mut i: usize = 0;
        while i < self.jobs.len()
            invariant
                i <= self.jobs@.len(),
                p == is_job(kind@, key@),
                forall|j: int| 0 <= j < i ==> !p(#[trigger] self@.jobs[j]),
            decreases self.jobs@.len() - i,
        {
            if same(self.jobs[i].kind.as_str(), kind) && same(self.jobs[i].job_key.as_str(), key) {
                proof {
                    assert(is_first(self@.jobs, p, i as int));
                    lemma_first(self@.jobs, p, i as int);
                }
                return Some(i);
            }
            i += 1;
        }
        proof {
            lemma_no_first(self@.jobs, p);
        }
        None
    }

    /// Enqueues background work at a given time.
    pub fn enqueue_job_at(
        &mut self,
        kind: &str,
        job_key: &str,
        payload_json: &str,
        retries: i64,
        now: &str,
    )
        ensures
            final(self)@ == with_job(
                old(self)@,
                kind@,
                job_key@,
                payload_json@,
                retries,
                now@,
            ),
    {
        if self.job_index(kind, job_key).is_some() {
            return ;
        }
        let ghost before = self@;
        let row = JobRow {
            kind: kind.to_owned(),
            job_key: job_key.to_owned(),
            status: JobStatus::Pending,
            payload_json: payload_json.to_owned(),
            retry_remaining: retries,
            retry_at: None,
            lease_until: None,
            worker_id: None,
            last_error: None,
            created_at: now.to_owned(),
            updated_at: now.to_owned(),
        };
        let ghost added = row@;
        self.jobs.push(row);
        assert(self@.jobs =~= before.jobs.push(added));
        assert(self@ =~= (StoreModel { jobs: before.jobs.push(added), ..before }));
    }

    /// Enqueues background work that may be tried `retries` times, deduplicating
    /// on its kind and key.
    pub fn enqueue_job(&mut self, kind: &str, job_key: &str, payload_json: &str, retries: i64)
        ensures
            exists|now: Seq<char>|
                clock_text(now) && final(self)@ == #[trigger] with_job(
                    old(self)@,
                    kind@,
                    job_key@,
                    payload_json@,
                    retries,
                    now,
                ),
    {
        let now = Moment::now().text();
        self.enqueue_job_at(kind, job_key, payload_json, retries, now.as_str());
    }
}

// --- claiming --------------------------------------------------------------

/// A job of that kind that may be handed out: it is waiting, or the lease of the
/// worker that had it has run out, and its next attempt is due.
pub open spec fn runnable(j: JobRowModel, kind: Seq<char>, now: Seq<char>) -> bool {
    &&& j.kind == kind
    &&& j.status == JobStatus::Pending || (j.status == JobStatus::Running && (j.lease_until matches
        Some(until) && text_lt(until, now)))
    &&& j.retry_at matches Some(at) ==> !text_lt(now, at)
}

/// Older first, then by key.
pub open spec fn older(a: JobRowModel, b: JobRowModel) -> bool {
    ||| text_lt(a.created_at, b.created_at)
    ||| a.created_at == b.created_at && text_lt(a.job_key, b.job_key)
}

/// Row `i` is handed out before row `j`.
pub open spec fn goes_first(jobs: Seq<JobRowModel>, i: int, j: int) -> bool {
    older(jobs[i], jobs[j]) || (!older(jobs[j], jobs[i]) && i < j)
}

/// Row `i` is the next job to hand out, of those before `bound`.
pub open spec fn is_next_before(
    jobs: Seq<JobRowModel>,
    kind: Seq<char>,
    now: Seq<char>,
    bound: int,
    i: int,
) -> bool {
    &&& 0 <= i < bound
    &&& runnable(jobs[i], kind, now)
    &&& forall|j: int|
        0 <= j < bound && j != i && runnable(#[trigger] jobs[j], kind, now) ==> goes_first(
            jobs,
            i,
            j,
        )
}

/// Row `i` is the next job to hand out.
pub open spec fn is_next(jobs: Seq<JobRowModel>, kind: Seq<char>, now: Seq<char>, i: int) -> bool {
    is_next_before(jobs, kind, now, jobs.len() as int, i)
}

/// The next job of a kind to hand out.
pub open spec fn next_job(jobs: Seq<JobRowModel>, kind: Seq<char>, now: Seq<char>) -> Option<
    JobRowModel,
> {
    if exists|i: int| is_next(jobs, kind, now, i) {
        Some(jobs[choose|i: int| is_next(jobs, kind, now, i)])
    } else {
        None
    }
}

proof fn lemma_older(a: JobRowModel, b: JobRowModel, c: JobRowModel)
    ensures
        !older(a, a),
        older(a, b) ==> !older(b, a),
        older(a, b) && older(b, c) ==> older(a, c),
        older(a, b) && !older(c, b) ==> older(a, c),
{
    lemma_text_lt_irreflexive(a.created_at);
    lemma_text_lt_irreflexive(a.job_key);
    lemma_text_lt_irreflexive(b.created_at);
    lemma_text_lt_irreflexive(b.job_key);
    lemma_text_lt_total(a.created_at, b.created_at);
    lemma_text_lt_total(b.created_at, c.created_at);
    lemma_text_lt_total(a.created_at, c.created_at);
    lemma_text_lt_total(a.job_key, b.job_key);
    lemma_text_lt_total(b.job_key, c.job_key);
    lemma_text_lt_total(a.job_key, c.job_key);
    if text_lt(a.created_at, b.created_at) && text_lt(b.created_at, c.created_at) {
        lemma_text_lt_transitive(a.created_at, b.created_at, c.created_at);
    }
    if text_lt(a.job_key, b.job_key) && text_lt(b.job_key, c.job_key) {
        lemma_text_lt_transitive(a.job_key, b.job_key, c.job_key);
    }
}

/// There is only one next job.
pub proof fn lemma_next(jobs: Seq<JobRowModel>, kind: Seq<char>, now: Seq<char>, i: int)
    requires
        is_next(jobs, kind, now, i),
    ensures
        next_job(jobs, kind, now) == Some(jobs[i]),
{
    let k = choose|k: int| is_next(jobs, kind, now, k);
    assert(is_next(jobs, kind, now, k));
    if k != i {
        assert(goes_first(jobs, i, k));
        assert(goes_first(jobs, k, i));
        lemma_older(jobs[i], jobs[k], jobs[i]);
    }
}

/// A job that was handed to a worker.
pub open spec fn leased(until: Seq<char>, worker: Seq<char>, now: Seq<char>) -> spec_fn(
    JobRowModel,
) -> JobRowModel {
    |j: JobRowModel|
        JobRowModel {
            status: JobStatus::Running,
            lease_until: Some(until),
            worker_id: Some(worker),
            updated_at: now,
            ..j
        }
}

/// The refusal of a stretch of time too long to be added to a moment.
pub open spec fn span_out_of_range() -> StoreErrorModel {
    StoreErrorModel::Database("Source duration value is out of range for the target type"@)
}

/// Claiming one runnable job of a kind.
pub open spec fn claim_step(
    s: StoreModel,
    kind: Seq<char>,
    lease: Span,
    worker: Seq<char>,
    now: Moment,
) -> (Result<Option<JobModel>, StoreErrorModel>, StoreModel) {
    match next_job(s.jobs, kind, now.written()) {
        None => (Ok(None), s),
        Some(job) => if !lease.addable() {
            (Err(span_out_of_range()), s)
        } else if !now.reaches(lease) {
            (Err(clock_out_of_range()), s)
        } else {
            (
                Ok(
                    Some(
                        JobModel {
                            kind,
                            job_key: job.job_key,
                            payload_json: job.payload_json,
                            retry_remaining: job.retry_remaining,
                        },
                    ),
                ),
                StoreModel {
                    jobs: changed(
                        s.jobs,
                        is_job(kind, job.job_key),
                        leased(now.plus(lease).written(), worker, now.written()),
                    ),
                    ..s
                },
            )
        },
    }
}

impl Store {
    fn is_runnable(&self, i: usize, kind: &str, now: &str) -> (r: bool)
        requires
            i < self.jobs@.len(),
        ensures
            r == runnable(self@.jobs[i as int], kind@, now@),
    {
        let row = &self.jobs[i];
        if !same(row.kind.as_str(), kind) {
            return false;
        }
        let lapsed = match &row.lease_until {
            Some(until) => text_less(until.as_str(), now),
            None => false,
        };
        let free = row.status == JobStatus::Pending || (row.status == JobStatus::Running && lapsed);
        let due = match &row.retry_at {
            Some(at) => !text_less(now, at.as_str()),
            None => true,
        };
        free && due
    }

    fn is_older(&self, i: usize, j: usize) -> (r: bool)
        requires
            i < self.jobs@.len(),
            j < self.jobs@.len(),
        ensures
            r == older(self@.jobs[i as int], self@.jobs[j as int]),
    {
        let a = &self.jobs[i];
        let b = &self.jobs[j];
        text_less(a.created_at.as_str(), b.created_at.as_str()) || (same(
            a.created_at.as_str(),
            b.created_at.as_str(),
        ) && text_less(a.job_key.as_str(), b.job_key.as_str()))
    }

    fn next_job_index(&self, kind: &str, now: &str) -> (r: Option<usize>)
        ensures
            match r {
                Some(i) => i < self.jobs@.len() && next_job(self@.jobs, kind@, now@) == Some(
                    self.jobs@[i as int]@,
                ) && runnable(self@.jobs[i as int], kind@, now@),
                None => next_job(self@.jobs, kind@, now@) is None,
            },
    {
        let mut best: Option<usize> = None;
        let mut i: usize = 0;
        while i < self.jobs.len()
            invariant
                i <= self.jobs@.len(),
                match best {
                    Some(b) => is_next_before(self@.jobs, kind@, now@, i as int, b as int),
                    None => forall|j: int|
                        0 <= j < i ==> !runnable(#[trigger] self@.jobs[j], kind@, now@),
                },
            decreases self.jobs@.len() - i,
        {
            if self.is_runnable(i, kind, now) {
                match best {
                    None => {
                        best = Some(i);
                    },
                    Some(b) => {
                        if self.is_older(i, b) {
                            proof {
                                let jobs = self@.jobs;
                                assert forall|j: int|
                                    0 <= j < i + 1 && j != i && runnable(
                                        #[trigger] jobs[j],
                                        kind@,
                                        now@,
                                    ) implies goes_first(jobs, i as int, j) by {
                                    lemma_older(jobs[i as int], jobs[b as int], jobs[j]);
                                    if j != b {
                                        assert(goes_first(jobs, b as int, j));
                                        lemma_older(jobs[b as int], jobs[j], jobs[i as int]);
                                    }
                                }
                            }
                            best = Some(i);
                        }
                    },
                }
            }
            i += 1;
        }
        proof {
            match best {
                Some(b) => {
                    lemma_next(self@.jobs, kind@, now@, b as int);
                },
                None => {
                    assert forall|k: int| !is_next(self@.jobs, kind@, now@, k) by {}
                },
            }
        }
        best
    }

    fn lease_rows(&mut self, kind: &str, key: &str, until: &str, worker: &str, now: &str)
        ensures
            final(self)@ == (StoreModel {
                jobs: changed(
                    old(self)@.jobs,
                    is_job(kind@, key@),
                    leased(until@, worker@, now@),
                ),
                ..old(self)@
            }),
    {
        let ghost before = self@;
        let ghost f = leased(until@, worker@, now@);
        let ghost after = changed(before.jobs, is_job(kind@, key@), f);
        let mut i: usize = 0;
        while i < self.jobs.len()
            invariant
                i <= self.jobs@.len(),
                self.jobs@.len() == before.jobs.len(),
                f == leased(until@, worker@, now@),
                after == changed(before.jobs, is_job(kind@, key@), f),
                self@ == (StoreModel { jobs: self@.jobs, ..before }),
                self@.jobs =~= after.take(i as int) + before.jobs.skip(i as int),
            decreases self.jobs@.len() - i,
        {
            let ghost rows = self@.jobs;
            assert(rows[i as int] == before.jobs[i as int]);
            if same(self.jobs[i].kind.as_str(), kind) && same(self.jobs[i].job_key.as_str(), key) {
                self.jobs[i].status = JobStatus::Running;
                self.jobs[i].lease_until = Some(until.to_owned());
                self.jobs[i].worker_id = Some(worker.to_owned());
                self.jobs[i].updated_at = now.to_owned();
            }
            assert(self@.jobs[i as int] == after[i as int]);
            assert(self@.jobs =~= rows.update(i as int, after[i as int]));
            i += 1;
        }
        assert(self@.jobs =~= after);
    }

    /// Claims one runnable job of `kind` at a given time, leasing it to `worker`
    /// for `lease`.
    ///
    /// A job whose lease has expired is reclaimable: a worker that died mid-job
    /// must not park the work forever.
    pub fn claim_job_at(&mut self, kind: &str, lease: Span, worker: &str, now: Moment) -> (r:
        Result<Option<Job>, StoreError>)
        requires
            now.regular(),
            lease.well_formed(),
        ensures
            (outcome(r), final(self)@) == claim_step(old(self)@, kind@, lease, worker@, now),
    {
        let written = now.text();
        match self.next_job_index(kind, written.as_str()) {
            None => Ok(None),
            Some(i) => {
                if !lease.is_addable() {
                    return Err(
                        StoreError::Database(
                            "Source duration value is out of range for the target type".to_owned(),
                        ),
                    );
                }
                if !now.can_reach(lease) {
                    return Err(StoreError::Database("the clock is out of range".to_owned()));
                }
                let job = Job {
                    kind: kind.to_owned(),
                    job_key: copy_text(&self.jobs[i].job_key),
                    payload_json: copy_text(&self.jobs[i].payload_json),
                    retry_remaining: self.jobs[i].retry_remaining,
                };
                let until = now.after(lease).text();
                self.lease_rows(
                    kind,
                    job.job_key.as_str(),
                    until.as_str(),
                    worker,
                    written.as_str(),
                );
                Ok(Some(job))
            },
        }
    }

    /// Claims one runnable job of `kind`, leasing it to `worker` for `lease`.
    pub fn claim_job(&mut self, kind: &str, lease: Span, worker: &str) -> (r: Result<
        Option<Job>,
        StoreError,
    >)
        requires
            lease.well_formed(),
        ensures
            exists|now: Moment|
                on_the_clock(now) && (outcome(r), final(self)@) == #[trigger] claim_step(
                    old(self)@,
                    kind@,
                    lease,
                    worker@,
                    now,
                ),
    {
        let now = Moment::now();
        self.claim_job_at(kind, lease, worker, now)
    }
}

// --- the outcome of a job --------------------------------------------------

/// One attempt less.
pub open spec fn one_less(remaining: i64) -> i64 {
    if remaining == i64::MIN {
        remaining
    } else {
        (remaining - 1) as i64
    }
}

/// A job whose attempt failed and which is to be tried again.
pub open spec fn retried(left: i64, at: Seq<char>, error: Seq<char>, now: Seq<char>) -> spec_fn(
    JobRowModel,
) -> JobRowModel {
    |j: JobRowModel|
        JobRowModel {
            status: JobStatus::Pending,
            retry_remaining: left,
            retry_at: Some(at),
            lease_until: None,
            worker_id: None,
            last_error: Some(error),
            updated_at: now,
            ..j
        }
}

/// A job that is given up.
pub open spec fn given_up(error: Seq<char>, now: Seq<char>) -> spec_fn(JobRowModel) -> JobRowModel {
    |j: JobRowModel|
        JobRowModel {
            status: JobStatus::Failed,
            retry_remaining: 0,
            retry_at: None,
            lease_until: None,
            worker_id: None,
            last_error: Some(error),
            updated_at: now,
            ..j
        }
}

/// Recording a failed attempt. A job that is not there is left alone.
pub open spec fn fail_step(
    s: StoreModel,
    kind: Seq<char>,
    key: Seq<char>,
    error: Seq<char>,
    backoff: Span,
    now: Moment,
) -> (Result<(), StoreErrorModel>, StoreModel) {
    match first_row(s.jobs, is_job(kind, key)) {
        None => (Ok(()), s),
        Some(job) => {
            let left = one_less(job.retry_remaining);
            if left > 0 && !backoff.addable() {
                (Err(span_out_of_range()), s)
            } else if left > 0 && !now.reaches(backoff) {
                (Err(clock_out_of_range()), s)
            } else {
                (
                    Ok(()),
                    StoreModel {
                        jobs: changed(
                            s.jobs,
                            is_job(kind, key),
                            if left > 0 {
                                retried(left, now.plus(backoff).written(), error, now.written())
                            } else {
                                given_up(error, now.written())
                            },
                        ),
                        ..s
                    },
                )
            }
        },
    }
}

/// A job that is done.
pub open spec fn done_job(now: Seq<char>) -> spec_fn(JobRowModel) -> JobRowModel {
    |j: JobRowModel|
        JobRowModel { status: JobStatus::Done, lease_until: None, updated_at: now, ..j }
}

/// The store with a job marked done.
pub open spec fn with_job_done(
    s: StoreModel,
    kind: Seq<char>,
    key: Seq<char>,
    now: Seq<char>,
) -> StoreModel {
    StoreModel { jobs: changed(s.jobs, is_job(kind, key), done_job(now)), ..s }
}

/// What is told of a queued job.
pub open spec fn told_job(jobs: Seq<JobRowModel>, kind: Seq<char>, key: Seq<char>) -> Option<
    JobStateModel,
> {
    match first_row(jobs, is_job(kind, key)) {
        Some(job) => Some(
            JobStateModel {
                status: job.status.wire(),
                retry_remaining: job.retry_remaining,
                last_error: job.last_error,
            },
        ),
        None => None,
    }
}

/// How many jobs wait, and how many were given up.
pub open spec fn counted_jobs(jobs: Seq<JobRowModel>) -> (nat, nat) {
    (tally(jobs, in_status(JobStatus::Pending)), tally(jobs, in_status(JobStatus::Failed)))
}

/// Being a job in a state.
pub open spec fn in_status(status: JobStatus) -> spec_fn(JobRowModel) -> bool {
    |j: JobRowModel| j.status == status
}

impl Store {
    fn retry_rows(
        &mut self,
        kind: &str,
        key: &str,
        left: i64,
        at: &str,
        error: &str,
        now: &str,
    )
        ensures
            final(self)@ == (StoreModel {
                jobs: changed(
                    old(self)@.jobs,
                    is_job(kind@, key@),
                    retried(left, at@, error@, now@),
                ),
                ..old(self)@
            }),
    {
        let ghost before = self@;
        let ghost f = retried(left, at@, error@, now@);
        let ghost after = changed(before.jobs, is_job(kind@, key@), f);
        let mut i: usize = 0;
        while i < self.jobs.len()
            invariant
                i <= self.jobs@.len(),
                self.jobs@.len() == before.jobs.len(),
                f == retried(left, at@, error@, now@),
                after == changed(before.jobs, is_job(kind@, key@), f),
                self@ == (StoreModel { jobs: self@.jobs, ..before }),
                self@.jobs =~= after.take(i as int) + before.jobs.skip(i as int),
            decreases self.jobs@.len() - i,
        {
            let ghost rows = self@.jobs;
            assert(rows[i as int] == before.jobs[i as int]);
            if same(self.jobs[i].kind.as_str(), kind) && same(self.jobs[i].job_key.as_str(), key) {
                self.jobs[i].status = JobStatus::Pending;
                self.jobs[i].retry_remaining = left;
                self.jobs[i].retry_at = Some(at.to_owned());
                self.jobs[i].lease_until = None;
                self.jobs[i].worker_id = None;
                self.jobs[i].last_error = Some(error.to_owned());
                self.jobs[i].updated_at = now.to_owned();
            }
            assert(self@.jobs[i as int] == after[i as int]);
            assert(self@.jobs =~= rows.update(i as int, after[i as int]));
            i += 1;
        }
        assert(self@.jobs =~= after);
    }

    fn give_up_rows(&mut self, kind: &str, key: &str, error: &str, now: &str)
        ensures
            final(self)@ == (StoreModel {
                jobs: changed(old(self)@.jobs, is_job(kind@, key@), given_up(error@, now@)),
                ..old(self)@
            }),
    {
        let ghost before = self@;
        let ghost f = given_up(error@, now@);
        let ghost after = changed(before.jobs, is_job(kind@, key@), f);
        let mut i: usize = 0;
        while i < self.jobs.len()
            invariant
                i <= self.jobs@.len(),
                self.jobs@.len() == before.jobs.len(),
                f == given_up(error@, now@),
                after == changed(before.jobs, is_job(kind@, key@), f),
                self@ == (StoreModel { jobs: self@.jobs, ..before }),
                self@.jobs =~= after.take(i as int) + before.jobs.skip(i as int),
            decreases self.jobs@.len() - i,
        {
            let ghost rows = self@.jobs;
            assert(rows[i as int] == before.jobs[i as int]);
            if same(self.jobs[i].kind.as_str(), kind) && same(self.jobs[i].job_key.as_str(), key) {
                self.jobs[i].status = JobStatus::Failed;
                self.jobs[i].retry_remaining = 0;
                self.jobs[i].retry_at = None;
                self.jobs[i].lease_until = None;
                self.jobs[i].worker_id = None;
                self.jobs[i].last_error = Some(error.to_owned());
                self.jobs[i].updated_at = now.to_owned();
            }
            assert(self@.jobs[i as int] == after[i as int]);
            assert(self@.jobs =~= rows.update(i as int, after[i as int]));
            i += 1;
        }
        assert(self@.jobs =~= after);
    }

    /// Records a failed attempt at a given time, scheduling a retry or giving up.
    pub fn fail_job_at(
        &mut self,
        kind: &str,
        job_key: &str,
        error: &str,
        backoff: Span,
        now: Moment,
    ) -> (r: Result<(), StoreError>)
        requires
            now.regular(),
            backoff.well_formed(),
        ensures
            (outcome(r), final(self)@) == fail_step(
                old(self)@,
                kind@,
                job_key@,
                error@,
                backoff,
                now,
            ),
    {
        let remaining: i64 = match self.job_index(kind, job_key) {
            Some(i) => self.jobs[i].retry_remaining,
            None => {
                return Ok(());
            },
        };
        let left: i64 = if remaining == i64::MIN {
            remaining
        } else {
            remaining - 1
        };
        let written = now.text();
        if left > 0 {
            if !backoff.is_addable() {
                return Err(
                    StoreError::Database(
                        "Source duration value is out of range for the target type".to_owned(),
                    ),
                );
            }
            if !now.can_reach(backoff) {
                return Err(StoreError::Database("the clock is out of range".to_owned()));
            }
            let at = now.after(backoff).text();
            self.retry_rows(kind, job_key, left, at.as_str(), error, written.as_str());
        } else {
            self.give_up_rows(kind, job_key, error, written.as_str());
        }
        Ok(())
    }

    /// Records a failed attempt, scheduling a retry or giving up.
    ///
    /// A job that can never succeed must stop being handed out. The reason is
    /// kept either way, because a job that failed silently is indistinguishable
    /// from one that never ran.
    pub fn fail_job(&mut self, kind: &str, job_key: &str, error: &str, backoff: Span) -> (r: Result<
        (),
        StoreError,
    >)
        requires
            backoff.well_formed(),
        ensures
            exists|now: Moment|
                on_the_clock(now) && (outcome(r), final(self)@) == #[trigger] fail_step(
                    old(self)@,
                    kind@,
                    job_key@,
                    error@,
                    backoff,
                    now,
                ),
    {
        let now = Moment::now();
        self.fail_job_at(kind, job_key, error, backoff, now)
    }

    /// Marks a job done at a given time.
    pub fn complete_job_at(&mut self, kind: &str, job_key: &str, now: &str)
        ensures
            final(self)@ == with_job_done(old(self)@, kind@, job_key@, now@),
    {
        let ghost before = self@;
        let ghost f = done_job(now@);
        let ghost after = changed(before.jobs, is_job(kind@, job_key@), f);
        let mut i: usize = 0;
        while i < self.jobs.len()
            invariant
                i <= self.jobs@.len(),
                self.jobs@.len() == before.jobs.len(),
                f == done_job(now@),
                after == changed(before.jobs, is_job(kind@, job_key@), f),
                self@ == (StoreModel { jobs: self@.jobs, ..before }),
                self@.jobs =~= after.take(i as int) + before.jobs.skip(i as int),
            decreases self.jobs@.len() - i,
        {
            let ghost rows = self@.jobs;
            assert(rows[i as int] == before.jobs[i as int]);
            if same(self.jobs[i].kind.as_str(), kind) && same(
                self.jobs[i].job_key.as_str(),
                job_key,
            ) {
                self.jobs[i].status = JobStatus::Done;
                self.jobs[i].lease_until = None;
                self.jobs[i].updated_at = now.to_owned();
            }
            assert(self@.jobs[i as int] == after[i as int]);
            assert(self@.jobs =~= rows.update(i as int, after[i as int]));
            i += 1;
        }
        assert(self@.jobs =~= after);
    }

    /// Marks a job done.
    pub fn complete_job(&mut self, kind: &str, job_key: &str)
        ensures
            exists|now: Seq<char>|
                clock_text(now)
                    && final(self)@ == #[trigger] with_job_done(old(self)@, kind@, job_key@, now),
    {
        let now = Moment::now().text();
        self.complete_job_at(kind, job_key, now.as_str());
    }

    /// Current state of a queued job.
    pub fn job_state(&self, kind: &str, job_key: &str) -> (r: Option<JobState>)
        ensures
            r.deep_view() == told_job(self@.jobs, kind@, job_key@),
    {
        match self.job_index(kind, job_key) {
            Some(i) => Some(
                JobState {
                    status: self.jobs[i].status.to_wire().to_owned(),
                    retry_remaining: self.jobs[i].retry_remaining,
                    last_error: copy_option(&self.jobs[i].last_error),
                },
            ),
            None => None,
        }
    }

    /// How many jobs are in a state.
    pub fn count_jobs(&self, status: JobStatus) -> (r: usize)
        ensures
            r == tally(self@.jobs, in_status(status)),
    {
        let ghost p = in_status(status);
        let mut count: usize = 0;
        let mut i: usize = 0;
        while i < self.jobs.len()
            invariant
                i <= self.jobs@.len(),
                p == in_status(status),
                count <= i,
                count == tally(self@.jobs.take(i as int), p),
            decreases self.jobs@.len() - i,
        {
            proof {
                lemma_tally_step(self@.jobs, p, i as int);
            }
            if self.jobs[i].status == status {
                count += 1;
            }
            i += 1;
        }
        assert(self@.jobs.take(i as int) =~= self@.jobs);
        count
    }

    /// How much background work is waiting, and how much gave up.
    pub fn job_counts(&self) -> (r: (usize, usize))
        ensures
            (r.0 as nat, r.1 as nat) == counted_jobs(self@.jobs),
    {
        (self.count_jobs(JobStatus::Pending), self.count_jobs(JobStatus::Failed))
    }
}

} // verus!
