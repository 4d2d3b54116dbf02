//! What holds of queued work, of the record of edited files and of proposed changes, row by
//! row.

use vstd::prelude::*;

use crate::domain::{FileLedgerEntryModel, ProposeCommandModel, ProposeResultModel};
use crate::error::StoreErrorModel;
use crate::facts::FactContextModel;
use crate::ids::{ChangeId, RunId, SessionId, WorkspaceId};
use crate::jobs::{
    claim_step, counted_jobs, fail_step, goes_first, is_job, is_next, is_next_before, next_job,
    runnable, told_job, with_job, with_job_done, JobModel, JobStateModel,
};
use crate::ledger::{
    append_step, at_most, edit_keys, edit_of, edit_order, first_declaring, held_by, held_by_others,
    later, latest_edit, latest_edits, lease_keys, ledger_listing, listed_edit, task_in_hand,
    trespass_of,
};
use crate::migrations::{installed_version, names_wal, pending, wal_step, WalStepModel};
use crate::moment::{Moment, Span};
use crate::operations::is_operation;
use crate::order::{
    arranged, law_arranged_lists_the_selected, lemma_text_lt_irreflexive, lemma_text_lt_total,
    lemma_text_lt_transitive, precedes, text_lt,
};
use crate::outside::json_list_parsed;
use crate::plan::{any_declares, latest_first};
use crate::resume_laws::unanswered;
use crate::rows::{is_first, lemma_first, lemma_no_first};
use crate::sdd::{is_in_flight, is_proposal_of, propose_step, same_set, stranded};
use crate::sessions::{bound_to, edit_behind_step, edits_behind, run_behind};
use crate::states::{ChangeStatus, JobStatus, WireName};
use crate::tables::{
    ChangeRowModel, DeltaRowModel, JobRowModel, LedgerRowModel, ProposalRowModel, StoreModel,
    TaskRowModel,
};
use crate::text::{ascii_lower, ascii_lowered};
use crate::values::{lemma_gathered_each, lemma_gathered_len, moment_of};

verus! {

// --- queued work -----------------------------------------------------------

/// Work that is new is queued as it was given, waiting and never tried; work that is queued is
/// left as it is.
pub proof fn law_new_work_is_queued_as_given(
    s: StoreModel,
    kind: Seq<char>,
    key: Seq<char>,
    payload: Seq<char>,
    retries: i64,
    now: Seq<char>,
)
    ensures
        (exists|i: int|
            0 <= i < s.jobs.len() && (#[trigger] s.jobs[i]).kind == kind && s.jobs[i].job_key == key)
            ==> with_job(s, kind, key, payload, retries, now) == s,
        (forall|i: int|
            0 <= i < s.jobs.len() ==> !((#[trigger] s.jobs[i]).kind == kind && s.jobs[i].job_key
                == key)) ==> with_job(s, kind, key, payload, retries, now) == (StoreModel {
            jobs: s.jobs.push(
                JobRowModel {
                    kind,
                    job_key: key,
                    status: JobStatus::Pending,
                    payload_json: payload,
                    retry_remaining: retries,
                    retry_at: None,
                    lease_until: None,
                    worker_id: None,
                    last_error: None,
                    created_at: now,
                    updated_at: now,
                },
            ),
            ..s
        }),
{
    if exists|i: int|
        0 <= i < s.jobs.len() && (#[trigger] s.jobs[i]).kind == kind && s.jobs[i].job_key == key {
        let i = choose|i: int|
            0 <= i < s.jobs.len() && (#[trigger] s.jobs[i]).kind == kind && s.jobs[i].job_key
                == key;
        assert(is_job(kind, key)(s.jobs[i]));
    }
}

/// Work that may be run at a moment: it waits, or whoever had it has held it past the lease;
/// and where it is to be tried again, its time has come.
pub open spec fn due(j: JobRowModel, kind: Seq<char>, at: Seq<char>) -> bool {
    let waits = j.status == JobStatus::Pending;
    let dropped = j.status == JobStatus::Running && j.lease_until is Some && text_lt(
        j.lease_until->0,
        at,
    );
    &&& j.kind == kind
    &&& waits || dropped
    &&& j.retry_at is None || j.retry_at == Some(at) || text_lt(j.retry_at->0, at)
}

proof fn lemma_due(j: JobRowModel, kind: Seq<char>, at: Seq<char>)
    ensures
        runnable(j, kind, at) <==> due(j, kind, at),
{
    if let Some(retry) = j.retry_at {
        lemma_text_lt_total(retry, at);
        lemma_text_lt_irreflexive(at);
    }
}

proof fn lemma_goes_first(jobs: Seq<JobRowModel>, i: int, j: int, k: int)
    ensures
        i != j ==> goes_first(jobs, i, j) || goes_first(jobs, j, i),
        goes_first(jobs, i, j) && goes_first(jobs, j, k) && i != k ==> goes_first(jobs, i, k),
{
    let (a, b, c) = (jobs[i], jobs[j], jobs[k]);
    lemma_text_lt_total(a.created_at, b.created_at);
    lemma_text_lt_total(b.created_at, c.created_at);
    lemma_text_lt_total(a.created_at, c.created_at);
    lemma_text_lt_total(a.job_key, b.job_key);
    lemma_text_lt_total(b.job_key, c.job_key);
    lemma_text_lt_total(a.job_key, c.job_key);
    lemma_text_lt_irreflexive(a.created_at);
    lemma_text_lt_irreflexive(a.job_key);
    lemma_text_lt_irreflexive(b.created_at);
    lemma_text_lt_irreflexive(b.job_key);
    if text_lt(a.created_at, b.created_at) && text_lt(b.created_at, c.created_at) {
        lemma_text_lt_transitive(a.created_at, b.created_at, c.created_at);
    }
    if text_lt(a.job_key, b.job_key) && text_lt(b.job_key, c.job_key) {
        lemma_text_lt_transitive(a.job_key, b.job_key, c.job_key);
    }
}

proof fn lemma_some_next(
    jobs: Seq<JobRowModel>,
    kind: Seq<char>,
    now: Seq<char>,
    bound: int,
    i: int,
) -> (k: int)
    requires
        0 <= i < bound <= jobs.len(),
        runnable(jobs[i], kind, now),
    ensures
        is_next_before(jobs, kind, now, bound, k),
    decreases bound,
{
    let last = bound - 1;
    if forall|j: int| 0 <= j < last ==> !runnable(#[trigger] jobs[j], kind, now) {
        assert(i == last);
        last
    } else {
        let j = choose|j: int| 0 <= j < last && runnable(#[trigger] jobs[j], kind, now);
        let best = lemma_some_next(jobs, kind, now, last, j);
        lemma_goes_first(jobs, best, last, best);
        if !runnable(jobs[last], kind, now) || goes_first(jobs, best, last) {
            best
        } else {
            assert forall|m: int|
                0 <= m < bound && m != last && runnable(
                    #[trigger] jobs[m],
                    kind,
                    now,
                ) implies goes_first(jobs, last, m) by {
                if m != best {
                    assert(goes_first(jobs, best, m));
                    lemma_goes_first(jobs, last, best, m);
                }
            }
            last
        }
    }
}

/// The work that is handed out is due, and none that is due was queued before it, or as early
/// and under a key that comes before; where any work is due some is handed out.
pub proof fn law_the_work_queued_first_is_handed_out(
    jobs: Seq<JobRowModel>,
    kind: Seq<char>,
    at: Seq<char>,
    i: int,
)
    ensures
        next_job(jobs, kind, at) matches Some(job) ==> {
            &&& jobs.contains(job)
            &&& due(job, kind, at)
            &&& 0 <= i < jobs.len() && due(jobs[i], kind, at) ==> {
                &&& !text_lt(jobs[i].created_at, job.created_at)
                &&& jobs[i].created_at == job.created_at ==> !text_lt(jobs[i].job_key, job.job_key)
            }
        },
        0 <= i < jobs.len() && due(jobs[i], kind, at) ==> next_job(jobs, kind, at) is Some,
{
    let there = 0 <= i < jobs.len() && due(jobs[i], kind, at);
    if there {
        lemma_due(jobs[i], kind, at);
        let k = lemma_some_next(jobs, kind, at, jobs.len() as int, i);
        assert(is_next(jobs, kind, at, k));
    }
    if exists|k: int| is_next(jobs, kind, at, k) {
        let k = choose|k: int| is_next(jobs, kind, at, k);
        assert(is_next(jobs, kind, at, k));
        lemma_due(jobs[k], kind, at);
        assert(jobs.contains(jobs[k]));
        if there {
            lemma_text_lt_irreflexive(jobs[k].created_at);
            lemma_text_lt_irreflexive(jobs[k].job_key);
            lemma_text_lt_total(jobs[i].created_at, jobs[k].created_at);
            lemma_text_lt_total(jobs[i].job_key, jobs[k].job_key);
            if i != k {
                assert(goes_first(jobs, k, i));
            }
        }
    }
}

/// Claiming hands out what is next, word for word, and marks it as held by the worker until the
/// lease has run; every other job stays as it is, and so does everything else.
pub proof fn law_a_claim_marks_just_its_job(
    s: StoreModel,
    kind: Seq<char>,
    lease: Span,
    worker: Seq<char>,
    now: Moment,
    i: int,
)
    requires
        next_job(s.jobs, kind, now.written()) is Some,
        claim_step(s, kind, lease, worker, now).0 is Ok,
        0 <= i < s.jobs.len(),
    ensures
        ({
            let (answer, after) = claim_step(s, kind, lease, worker, now);
            let job = next_job(s.jobs, kind, now.written())->0;
            &&& answer->Ok_0 == Some(
                JobModel {
                    kind,
                    job_key: job.job_key,
                    payload_json: job.payload_json,
                    retry_remaining: job.retry_remaining,
                },
            )
            &&& after == (StoreModel { jobs: after.jobs, ..s })
            &&& after.jobs.len() == s.jobs.len()
            &&& after.jobs[i] == if s.jobs[i].kind == kind && s.jobs[i].job_key == job.job_key {
                JobRowModel {
                    status: JobStatus::Running,
                    lease_until: Some(now.plus(lease).written()),
                    worker_id: Some(worker),
                    updated_at: now.written(),
                    ..s.jobs[i]
                }
            } else {
                s.jobs[i]
            }
        }),
{
}

/// Where nothing is due nothing is handed out, and nothing changes.
pub proof fn law_nothing_due_is_nothing_claimed(
    s: StoreModel,
    kind: Seq<char>,
    lease: Span,
    worker: Seq<char>,
    now: Moment,
)
    requires
        forall|i: int| 0 <= i < s.jobs.len() ==> !due(#[trigger] s.jobs[i], kind, now.written()),
    ensures
        claim_step(s, kind, lease, worker, now) == (
            Ok::<Option<JobModel>, StoreErrorModel>(None),
            s,
        ),
{
    let at = now.written();
    if exists|k: int| is_next(s.jobs, kind, at, k) {
        let k = choose|k: int| is_next(s.jobs, kind, at, k);
        assert(is_next(s.jobs, kind, at, k));
        lemma_due(s.jobs[k], kind, at);
    }
}

/// A failure leaves just its job changed: one attempt fewer and a time to try again, or, with
/// none left, given up for good. It says why, and nobody holds it.
pub proof fn law_a_failure_changes_just_its_job(
    s: StoreModel,
    kind: Seq<char>,
    key: Seq<char>,
    error: Seq<char>,
    backoff: Span,
    now: Moment,
    k: int,
    i: int,
)
    requires
        fail_step(s, kind, key, error, backoff, now).0 is Ok,
        0 <= k < s.jobs.len(),
        s.jobs[k].kind == kind && s.jobs[k].job_key == key,
        forall|j: int|
            0 <= j < k ==> !((#[trigger] s.jobs[j]).kind == kind && s.jobs[j].job_key == key),
        0 <= i < s.jobs.len(),
    ensures
        ({
            let after = fail_step(s, kind, key, error, backoff, now).1;
            let row = s.jobs[i];
            &&& after == (StoreModel { jobs: after.jobs, ..s })
            &&& after.jobs.len() == s.jobs.len()
            &&& after.jobs[i] == if !(row.kind == kind && row.job_key == key) {
                row
            } else if s.jobs[k].retry_remaining > 1 {
                JobRowModel {
                    status: JobStatus::Pending,
                    retry_remaining: (s.jobs[k].retry_remaining - 1) as i64,
                    retry_at: Some(now.plus(backoff).written()),
                    lease_until: None,
                    worker_id: None,
                    last_error: Some(error),
                    updated_at: now.written(),
                    ..row
                }
            } else {
                JobRowModel {
                    status: JobStatus::Failed,
                    retry_remaining: 0,
                    retry_at: None,
                    lease_until: None,
                    worker_id: None,
                    last_error: Some(error),
                    updated_at: now.written(),
                    ..row
                }
            }
        }),
{
    assert(is_first(s.jobs, is_job(kind, key), k));
    lemma_first(s.jobs, is_job(kind, key), k);
}

/// Finishing marks its job as done and frees it; every other stays as it is.
pub proof fn law_finishing_changes_just_its_job(
    s: StoreModel,
    kind: Seq<char>,
    key: Seq<char>,
    now: Seq<char>,
    i: int,
)
    requires
        0 <= i < s.jobs.len(),
    ensures
        ({
            let after = with_job_done(s, kind, key, now);
            let row = s.jobs[i];
            &&& after == (StoreModel { jobs: after.jobs, ..s })
            &&& after.jobs.len() == s.jobs.len()
            &&& after.jobs[i] == if row.kind == kind && row.job_key == key {
                JobRowModel { status: JobStatus::Done, lease_until: None, updated_at: now, ..row }
            } else {
                row
            }
        }),
{
}

/// A job is told as it stands; the counts grow by one for each job that waits, and for each
/// that was given up.
pub proof fn law_a_job_is_told_as_it_stands(
    jobs: Seq<JobRowModel>,
    kind: Seq<char>,
    key: Seq<char>,
    k: int,
    job: JobRowModel,
)
    ensures
        0 <= k < jobs.len() && jobs[k].kind == kind && jobs[k].job_key == key && (forall|j: int|
            0 <= j < k ==> !((#[trigger] jobs[j]).kind == kind && jobs[j].job_key == key))
            ==> told_job(jobs, kind, key) == Some(
            JobStateModel {
                status: jobs[k].status.wire(),
                retry_remaining: jobs[k].retry_remaining,
                last_error: jobs[k].last_error,
            },
        ),
        (forall|j: int|
            0 <= j < jobs.len() ==> !((#[trigger] jobs[j]).kind == kind && jobs[j].job_key == key))
            ==> told_job(jobs, kind, key) is None,
        counted_jobs(Seq::empty()) == (0nat, 0nat),
        counted_jobs(jobs.push(job)).0 == counted_jobs(jobs).0 + if job.status
            == JobStatus::Pending {
            1nat
        } else {
            0nat
        },
        counted_jobs(jobs.push(job)).1 == counted_jobs(jobs).1 + if job.status
            == JobStatus::Failed {
            1nat
        } else {
            0nat
        },
{
    let p = is_job(kind, key);
    if 0 <= k < jobs.len() && jobs[k].kind == kind && jobs[k].job_key == key && (forall|j: int|
        0 <= j < k ==> !((#[trigger] jobs[j]).kind == kind && jobs[j].job_key == key)) {
        assert(is_first(jobs, p, k));
        lemma_first(jobs, p, k);
    }
    if forall|j: int|
        0 <= j < jobs.len() ==> !((#[trigger] jobs[j]).kind == kind && jobs[j].job_key == key) {
        lemma_no_first(jobs, p);
    }
    assert(jobs.push(job).drop_last() =~= jobs);
}

// --- edited files ----------------------------------------------------------

/// A task a session holds at a moment.
pub open spec fn holds(t: TaskRowModel, session: SessionId, at: Seq<char>) -> bool {
    &&& t.claimed_by == Some(session)
    &&& t.lease_until is Some
    &&& text_lt(at, t.lease_until->0)
}

/// The task in hand is one the session holds, and it holds none for longer; it has one in hand
/// just where it holds one.
pub proof fn law_the_task_in_hand_is_held_the_longest(
    s: StoreModel,
    session: SessionId,
    at: Seq<char>,
    i: int,
)
    ensures
        task_in_hand(s, session, at) matches Some(task) ==> {
            &&& s.tasks.contains(task)
            &&& holds(task, session, at)
            &&& 0 <= i < s.tasks.len() && holds(s.tasks[i], session, at) ==> !text_lt(
                task.lease_until->0,
                s.tasks[i].lease_until->0,
            )
        },
        0 <= i < s.tasks.len() && holds(s.tasks[i], session, at) ==> task_in_hand(
            s,
            session,
            at,
        ) is Some,
{
    let keys = lease_keys(s.tasks);
    let marks = held_by(s.tasks, session, at);
    let order = arranged(keys, marks, latest_first());
    law_arranged_lists_the_selected(keys, marks, latest_first());
    let ours = 0 <= i < s.tasks.len() && holds(s.tasks[i], session, at);
    if ours {
        assert(marks[i]);
        assert(order.contains(i));
    }
    if order.len() > 0 {
        let k = order[0];
        assert(marks[k]);
        assert(holds(s.tasks[k], session, at));
        assert(s.tasks.contains(s.tasks[k]));
        if ours {
            let place = choose|n: int| 0 <= n < order.len() && order[n] == i;
            lemma_text_lt_irreflexive(s.tasks[k].lease_until->0);
            if place > 0 {
                assert(precedes(keys, latest_first(), order[0], order[place]));
                lemma_text_lt_total(s.tasks[k].lease_until->0, s.tasks[i].lease_until->0);
            }
        }
    }
}

/// A task declares a file by one of its paths.
pub open spec fn declared_by(t: TaskRowModel, edited: Seq<char>) -> bool {
    json_list_parsed(t.files_json) matches Ok(paths) && any_declares(paths, edited)
}

proof fn lemma_first_declaring(
    tasks: Seq<TaskRowModel>,
    order: Seq<int>,
    edited: Seq<char>,
    k: int,
)
    requires
        0 <= k,
    ensures
        first_declaring(tasks, order, edited, k) matches Ok(Some(number)) ==> exists|q: int|
            k <= q < order.len() && declared_by(tasks[#[trigger] order[q]], edited)
                && tasks[order[q]].number == number,
        first_declaring(tasks, order, edited, k) matches Ok(None) ==> forall|q: int|
            k <= q < order.len() ==> !declared_by(tasks[#[trigger] order[q]], edited),
    decreases order.len() - k,
{
    if k < order.len() {
        lemma_first_declaring(tasks, order, edited, k + 1);
        assert(order[k] == order[k]);
    }
}

/// An edit trespasses just where it lands on a file that a task of the same change declares
/// which another session holds, and it is that task that is named. A session with no task in
/// hand does not trespass.
pub proof fn law_an_edit_trespasses_on_anothers_task(
    s: StoreModel,
    session: SessionId,
    edited: Seq<char>,
    at: Seq<char>,
    other: SessionId,
    i: int,
)
    ensures
        task_in_hand(s, session, at) is None ==> trespass_of(s, session, edited, at) == Ok::<
            Option<Seq<char>>,
            StoreErrorModel,
        >(None),
        task_in_hand(s, session, at) matches Some(task) ==> (trespass_of(
            s,
            session,
            edited,
            at,
        ) matches Ok(Some(number)) ==> exists|k: int|
            {
                &&& 0 <= k < s.tasks.len()
                &&& (#[trigger] s.tasks[k]).number == number
                &&& s.tasks[k].change_id == task.change_id
                &&& s.tasks[k].claimed_by is Some && s.tasks[k].claimed_by != Some(session)
                &&& holds(s.tasks[k], s.tasks[k].claimed_by->0, at)
                &&& declared_by(s.tasks[k], edited)
            }),
        task_in_hand(s, session, at) matches Some(task) ==> (trespass_of(
            s,
            session,
            edited,
            at,
        ) matches Ok(None) ==> (0 <= i < s.tasks.len() && s.tasks[i].change_id == task.change_id
            && other != session && holds(s.tasks[i], other, at) ==> !declared_by(
            s.tasks[i],
            edited,
        ))),
{
    if let Some(task) = task_in_hand(s, session, at) {
        let keys = lease_keys(s.tasks);
        let marks = held_by_others(s.tasks, task.change_id, session, at);
        let order = arranged(keys, marks, latest_first());
        law_arranged_lists_the_selected(keys, marks, latest_first());
        lemma_first_declaring(s.tasks, order, edited, 0);
        if let Ok(Some(number)) = trespass_of(s, session, edited, at) {
            let q = choose|q: int|
                0 <= q < order.len() && declared_by(s.tasks[#[trigger] order[q]], edited)
                    && s.tasks[order[q]].number == number;
            let k = order[q];
            assert(marks[k]);
            assert(s.tasks[k].number == number);
        }
        if 0 <= i < s.tasks.len() && s.tasks[i].change_id == task.change_id && other != session
            && holds(s.tasks[i], other, at) {
            assert(marks[i]);
            assert(order.contains(i));
            let q = choose|q: int| 0 <= q < order.len() && order[q] == i;
            assert(order[q] == i);
        }
    }
}

/// An edit is written down as it was observed, with the task its session had in hand and the
/// one it trespassed on; nothing else changes.
pub proof fn law_an_edit_is_written_down(
    s: StoreModel,
    run: RunId,
    session: SessionId,
    entry: FileLedgerEntryModel,
)
    ensures
        ({
            let at = entry.observed_at.written();
            let trespass = trespass_of(s, session, entry.path, at);
            &&& append_step(s, run, session, entry) is Ok <==> trespass is Ok
            &&& trespass is Ok ==> append_step(s, run, session, entry)->Ok_0 == (StoreModel {
                ledger: s.ledger.push(
                    LedgerRowModel {
                        run_id: run,
                        session_id: session,
                        path: entry.path,
                        tool: entry.tool,
                        observed_at: at,
                        task_id: if task_in_hand(s, session, at) is Some {
                            Some(task_in_hand(s, session, at)->0.id)
                        } else {
                            None
                        },
                        trespass_on: trespass->Ok_0,
                    },
                ),
                ..s
            })
        }),
{
}

/// What is listed of an edited file is what was observed of it last in the run: no other edit of
/// it in the run was observed later, or as late and written down after.
pub proof fn law_a_file_is_listed_as_it_was_edited_last(
    s: StoreModel,
    run: RunId,
    limit: nat,
    i: int,
    j: int,
)
    requires
        ledger_listing(s, run, limit) matches Ok(listed) && 0 <= i < listed.len(),
    ensures
        ledger_listing(s, run, limit)->Ok_0.len() <= limit,
        ({
            let entry = ledger_listing(s, run, limit)->Ok_0[i];
            exists|k: int|
                {
                    &&& 0 <= k < s.ledger.len()
                    &&& (#[trigger] s.ledger[k]).run_id == run
                    &&& s.ledger[k].path == entry.path
                    &&& s.ledger[k].tool == entry.tool
                    &&& moment_of(s.ledger[k].observed_at) == Ok::<Moment, StoreErrorModel>(
                        entry.observed_at,
                    )
                    &&& 0 <= j < s.ledger.len() && s.ledger[j].run_id == run && s.ledger[j].path
                        == entry.path ==> {
                        &&& !text_lt(s.ledger[k].observed_at, s.ledger[j].observed_at)
                        &&& s.ledger[k].observed_at == s.ledger[j].observed_at ==> j <= k
                    }
                }
        }),
{
    let order = edit_order(s.ledger, run);
    let shown = at_most(order, limit);
    let readings = Seq::new(shown.len(), |i: int| listed_edit(s.ledger[shown[i]]));
    let marks = latest_edits(s.ledger, run);
    law_arranged_lists_the_selected(edit_keys(s.ledger), marks, latest_first());
    lemma_gathered_len(readings);
    lemma_gathered_each(readings, i);
    let k = shown[i];
    assert(k == order[i]);
    assert(marks[k]);
    assert(latest_edit(s.ledger, run, k));
    if 0 <= j < s.ledger.len() && s.ledger[j].run_id == run && s.ledger[j].path
        == s.ledger[k].path {
        assert(edit_of(s.ledger[j], run, s.ledger[k].path));
        assert(!later(s.ledger, j, k));
        lemma_text_lt_irreflexive(s.ledger[k].observed_at);
    }
}

/// What a harness session edits is recorded against, and listed of, the run it is bound to; one
/// that is bound to none has no run, records nothing and lists nothing.
pub proof fn law_a_harness_session_edits_for_its_run(
    s: StoreModel,
    hint: Seq<char>,
    entry: FileLedgerEntryModel,
    limit: nat,
)
    ensures
        bound_to(s, hint) is None ==> {
            &&& run_behind(s, hint) is None
            &&& edit_behind_step(s, hint, entry) == (Ok::<(), StoreErrorModel>(()), s)
            &&& edits_behind(s, hint, limit) == Ok::<Seq<FileLedgerEntryModel>, StoreErrorModel>(
                Seq::empty(),
            )
        },
        bound_to(s, hint) matches Some(binding) ==> {
            &&& run_behind(s, hint) == Some(binding.run_id)
            &&& edits_behind(s, hint, limit) == ledger_listing(s, binding.run_id, limit)
            &&& append_step(s, binding.run_id, binding.session_id, entry) matches Ok(after)
                ==> edit_behind_step(s, hint, entry) == (Ok::<(), StoreErrorModel>(()), after)
            &&& append_step(s, binding.run_id, binding.session_id, entry) matches Err(error)
                ==> edit_behind_step(s, hint, entry) == (Err::<(), StoreErrorModel>(error), s)
        },
{
}

// --- proposed changes ------------------------------------------------------

/// A change that is still worked on under a slug.
pub open spec fn worked_on(
    c: ChangeRowModel,
    workspace: WorkspaceId,
    namespace: Option<Seq<char>>,
    slug: Seq<char>,
) -> bool {
    &&& c.workspace_id == workspace
    &&& c.namespace == namespace
    &&& c.slug == slug
    &&& c.status != ChangeStatus::Archived
    &&& c.status != ChangeStatus::Abandoned
}

/// A change whose slug nothing is worked on under is drafted as it was proposed, and nothing
/// else changes.
pub proof fn law_a_new_change_is_drafted_as_proposed(
    s: StoreModel,
    command: ProposeCommandModel,
    context: FactContextModel,
    workspace: WorkspaceId,
    id: ChangeId,
    now: Seq<char>,
)
    requires
        context.workspace_id == Some(workspace),
        unanswered(s, command.operation_id),
        forall|i: int|
            0 <= i < s.changes.len() ==> !worked_on(
                #[trigger] s.changes[i],
                workspace,
                context.namespace,
                command.slug,
            ) && s.changes[i].id != id,
    ensures
        ({
            let (answer, after) = propose_step(s, command, None, context, id, now);
            &&& answer == Ok::<ProposeResultModel, StoreErrorModel>(
                ProposeResultModel {
                    id,
                    slug: command.slug,
                    status: ChangeStatus::Drafting,
                    rewritten: false,
                },
            )
            &&& after.changes == s.changes.push(
                ChangeRowModel {
                    id,
                    workspace_id: workspace,
                    namespace: context.namespace,
                    slug: command.slug,
                    title: command.title,
                    classification: command.classification,
                    skip_specs: command.skip_specs,
                    status: ChangeStatus::Drafting,
                    created_at: now,
                    updated_at: now,
                },
            )
            &&& after.proposals == s.proposals.push(
                ProposalRowModel {
                    change_id: id,
                    why: command.why,
                    what_changes: command.what_changes,
                    capabilities: command.capabilities,
                    impact: command.impact,
                    created_at: now,
                    updated_at: now,
                },
            )
            &&& after == (StoreModel {
                changes: after.changes,
                proposals: after.proposals,
                operations: after.operations,
                ..s
            })
        }),
{
    lemma_no_first(s.operations, is_operation(command.operation_id));
    lemma_no_first(s.changes, is_in_flight(workspace, context.namespace, command.slug));
}

/// A capability is left stranded just where the change has a delta for it and the proposal no
/// longer names it, and each is told once.
pub proof fn law_a_delta_without_its_capability_is_stranded(
    deltas: Seq<DeltaRowModel>,
    change: ChangeId,
    capabilities: Seq<Seq<char>>,
    path: Seq<char>,
)
    ensures
        stranded(deltas, change, capabilities).contains(path) <==> !capabilities.contains(path)
            && exists|i: int|
            0 <= i < deltas.len() && (#[trigger] deltas[i]).change_id == change
                && deltas[i].capability_path == path,
        stranded(deltas, change, capabilities).no_duplicates(),
    decreases deltas.len(),
{
    if deltas.len() > 0 {
        let front = deltas.drop_last();
        let n = deltas.len() - 1;
        let before = stranded(front, change, capabilities);
        let all = stranded(deltas, change, capabilities);
        let delta = deltas.last();
        law_a_delta_without_its_capability_is_stranded(front, change, capabilities, path);
        law_a_delta_without_its_capability_is_stranded(
            front,
            change,
            capabilities,
            delta.capability_path,
        );
        assert(deltas[n] == delta);
        if exists|i: int|
            0 <= i < deltas.len() && (#[trigger] deltas[i]).change_id == change
                && deltas[i].capability_path == path {
            let i = choose|i: int|
                0 <= i < deltas.len() && (#[trigger] deltas[i]).change_id == change
                    && deltas[i].capability_path == path;
            if i < n {
                assert(front[i] == deltas[i]);
            }
        }
        if exists|i: int|
            0 <= i < front.len() && (#[trigger] front[i]).change_id == change
                && front[i].capability_path == path {
            let i = choose|i: int|
                0 <= i < front.len() && (#[trigger] front[i]).change_id == change
                    && front[i].capability_path == path;
            assert(deltas[i] == front[i]);
        }
        if all.len() > before.len() {
            assert(all[before.len() as int] == delta.capability_path);
            if before.contains(path) {
                let k = choose|k: int| 0 <= k < before.len() && before[k] == path;
                assert(all[k] == path);
            }
            if all.contains(path) {
                let k = choose|k: int| 0 <= k < all.len() && all[k] == path;
                if k < before.len() {
                    assert(before[k] == path);
                }
            }
        }
    }
}

/// Proposing again under a slug that is worked on rewrites that change, as long as it is drafted
/// or specified and strands nothing. The words become those of the new proposal; the change
/// keeps its identity and, where the capabilities are the same ones, its status, and is drafted
/// anew where they are not.
pub proof fn law_proposing_anew_rewrites_the_change(
    s: StoreModel,
    command: ProposeCommandModel,
    context: FactContextModel,
    workspace: WorkspaceId,
    id: ChangeId,
    now: Seq<char>,
    k: int,
    p: int,
    i: int,
    j: int,
)
    requires
        context.workspace_id == Some(workspace),
        unanswered(s, command.operation_id),
        0 <= k < s.changes.len(),
        worked_on(s.changes[k], workspace, context.namespace, command.slug),
        forall|n: int|
            0 <= n < k ==> !worked_on(
                #[trigger] s.changes[n],
                workspace,
                context.namespace,
                command.slug,
            ),
        0 <= p < s.proposals.len(),
        s.proposals[p].change_id == s.changes[k].id,
        forall|n: int| 0 <= n < p ==> (#[trigger] s.proposals[n]).change_id != s.changes[k].id,
        0 <= i < s.changes.len(),
        0 <= j < s.proposals.len(),
    ensures
        ({
            let (answer, after) = propose_step(s, command, None, context, id, now);
            let c = s.changes[k];
            let left = stranded(s.deltas, c.id, command.capabilities);
            let open = c.status == ChangeStatus::Drafting || c.status == ChangeStatus::Specified;
            let unchanged = forall|x: Seq<char>|
                s.proposals[p].capabilities.contains(x) <==> #[trigger] command.capabilities.contains(
                    x,
                );
            let status = if unchanged {
                c.status
            } else {
                ChangeStatus::Drafting
            };
            &&& !open ==> (answer, after) == (
                Err::<ProposeResultModel, StoreErrorModel>(StoreErrorModel::SlugTaken(command.slug)),
                s,
            )
            &&& open && left.len() > 0 ==> (answer, after) == (
                Err::<ProposeResultModel, StoreErrorModel>(
                    StoreErrorModel::CapabilityDeltasStranded(left),
                ),
                s,
            )
            &&& open && left.len() == 0 ==> {
                &&& answer == Ok::<ProposeResultModel, StoreErrorModel>(
                    ProposeResultModel { id: c.id, slug: command.slug, status, rewritten: true },
                )
                &&& after.changes.len() == s.changes.len()
                &&& after.changes[i] == if s.changes[i].id == c.id {
                    ChangeRowModel {
                        title: command.title,
                        classification: command.classification,
                        skip_specs: command.skip_specs,
                        status,
                        updated_at: now,
                        ..s.changes[i]
                    }
                } else {
                    s.changes[i]
                }
                &&& after.proposals.len() == s.proposals.len()
                &&& after.proposals[j] == if s.proposals[j].change_id == c.id {
                    ProposalRowModel {
                        why: command.why,
                        what_changes: command.what_changes,
                        capabilities: command.capabilities,
                        impact: command.impact,
                        updated_at: now,
                        ..s.proposals[j]
                    }
                } else {
                    s.proposals[j]
                }
                &&& after == (StoreModel {
                    changes: after.changes,
                    proposals: after.proposals,
                    operations: after.operations,
                    ..s
                })
            }
        }),
{
    let flight = is_in_flight(workspace, context.namespace, command.slug);
    let c = s.changes[k];
    lemma_no_first(s.operations, is_operation(command.operation_id));
    assert forall|n: int| 0 <= n < k implies !flight(#[trigger] s.changes[n]) by {
        assert(!worked_on(s.changes[n], workspace, context.namespace, command.slug));
    }
    assert(is_first(s.changes, flight, k));
    lemma_first(s.changes, flight, k);
    assert(is_first(s.proposals, is_proposal_of(c.id), p));
    lemma_first(s.proposals, is_proposal_of(c.id), p);
    let (a, b) = (s.proposals[p].capabilities, command.capabilities);
    if same_set(a, b) {
        assert forall|x: Seq<char>| a.contains(x) <==> #[trigger] b.contains(x) by {
            if a.contains(x) {
                let n = choose|n: int| 0 <= n < a.len() && a[n] == x;
                assert(b.contains(a[n]));
            }
            if b.contains(x) {
                let n = choose|n: int| 0 <= n < b.len() && b[n] == x;
                assert(a.contains(b[n]));
            }
        }
    } else if forall|x: Seq<char>| a.contains(x) <==> #[trigger] b.contains(x) {
        assert forall|n: int| 0 <= n < a.len() implies b.contains(#[trigger] a[n]) by {
            assert(a.contains(a[n]));
        }
        assert forall|n: int| 0 <= n < b.len() implies a.contains(#[trigger] b[n]) by {
            assert(b.contains(b[n]));
        }
    }
}

/// Nothing is proposed outside a workspace.
pub proof fn law_nothing_is_proposed_nowhere(
    s: StoreModel,
    command: ProposeCommandModel,
    context: FactContextModel,
    id: ChangeId,
    now: Seq<char>,
)
    requires
        context.workspace_id is None,
    ensures
        propose_step(s, command, None, context, id, now) == (
            Err::<ProposeResultModel, StoreErrorModel>(StoreErrorModel::NoWorkspace),
            s,
        ),
{
}

// --- opening a store -------------------------------------------------------

/// The migrations a store lacks are those from the one after its version up to the seventeenth,
/// each once and in order; a store of a later version is refused by its version.
pub proof fn law_a_store_is_brought_up_one_version_at_a_time(installed: i64, i: int)
    ensures
        installed > 17 ==> pending(installed) == Err::<Seq<i64>, StoreErrorModel>(
            StoreErrorModel::UnsupportedSchema(installed),
        ),
        0 <= installed <= 17 ==> {
            &&& pending(installed) is Ok
            &&& pending(installed)->Ok_0.len() == 17 - installed
            &&& 0 <= i < 17 - installed ==> pending(installed)->Ok_0[i] == installed + 1 + i
        },
        installed < 0 ==> pending(installed) == pending(0),
        installed_version(false, Some(installed)) == 0,
        installed_version(true, None) == 0,
        installed_version(true, Some(installed)) == installed,
{
}

/// A journal is ready where it says that it is written ahead, in whatever case. Otherwise it is
/// asked again, until the time is up; then the refusal says what it stayed in, or why it failed.
pub proof fn law_a_journal_is_asked_until_the_time_is_up(mode: Seq<char>, reason: Seq<char>)
    ensures
        names_wal(mode) <==> ascii_lowered(mode) == "wal"@,
        ascii_lowered(mode) == "wal"@ ==> wal_step(Ok(mode), true) == WalStepModel::Ready
            && wal_step(Ok(mode), false) == WalStepModel::Ready,
        ascii_lowered(mode) != "wal"@ ==> wal_step(Ok(mode), false) == WalStepModel::Retry,
        ascii_lowered(mode) != "wal"@ ==> wal_step(Ok(mode), true) == WalStepModel::Refused(
            StoreErrorModel::Database("database stayed in "@ + mode + " mode; WAL is required"@),
        ),
        wal_step(Err(reason), false) == WalStepModel::Retry,
        wal_step(Err(reason), true) == WalStepModel::Refused(StoreErrorModel::Database(reason)),
{
    reveal_strlit("wal");
    let low = ascii_lowered(mode);
    if names_wal(mode) {
        assert(low =~= "wal"@);
    }
    if low == "wal"@ {
        assert(low.len() == mode.len());
        assert(low[0] == ascii_lower(mode[0]) && low[1] == ascii_lower(mode[1]) && low[2]
            == ascii_lower(mode[2]));
        assert(mode[0] == 'w' || mode[0] == 'W');
        assert(mode[1] == 'a' || mode[1] == 'A');
        assert(mode[2] == 'l' || mode[2] == 'L');
    }
}

/// A change under an identifier that a change has is refused, and nothing is written.
pub proof fn law_a_taken_identifier_proposes_nothing(
    s: StoreModel,
    command: ProposeCommandModel,
    context: FactContextModel,
    workspace: WorkspaceId,
    id: ChangeId,
    now: Seq<char>,
    k: int,
)
    requires
        context.workspace_id == Some(workspace),
        unanswered(s, command.operation_id),
        forall|i: int|
            0 <= i < s.changes.len() ==> !worked_on(
                #[trigger] s.changes[i],
                workspace,
                context.namespace,
                command.slug,
            ),
        0 <= k < s.changes.len() && s.changes[k].id == id,
    ensures
        propose_step(s, command, None, context, id, now) == (
            Err::<ProposeResultModel, StoreErrorModel>(
                StoreErrorModel::Database("UNIQUE constraint failed: "@ + "sdd_changes.id"@),
            ),
            s,
        ),
{
    lemma_no_first(s.operations, is_operation(command.operation_id));
    lemma_no_first(s.changes, is_in_flight(workspace, context.namespace, command.slug));
}

/// A lease, or a wait, that no moment can be told for is refused, and nothing changes.
pub proof fn law_a_moment_out_of_reach_is_refused(
    s: StoreModel,
    kind: Seq<char>,
    lease: Span,
    worker: Seq<char>,
    now: Moment,
)
    requires
        next_job(s.jobs, kind, now.written()) is Some,
    ensures
        lease.seconds > 9_223_372_036_854_775 ==> claim_step(s, kind, lease, worker, now) == (
            Err::<Option<JobModel>, StoreErrorModel>(
                StoreErrorModel::Database(
                    "Source duration value is out of range for the target type"@,
                ),
            ),
            s,
        ),
        lease.addable() && !now.reaches(lease) ==> claim_step(s, kind, lease, worker, now) == (
            Err::<Option<JobModel>, StoreErrorModel>(
                StoreErrorModel::Database("the clock is out of range"@),
            ),
            s,
        ),
        lease.addable() && now.reaches(lease) ==> claim_step(s, kind, lease, worker, now).0 is Ok,
{
}

/// A failure is refused just where there is an attempt left and no moment can be told for it;
/// giving up waits for nothing, and neither does a job that is not there.
pub proof fn law_giving_up_waits_for_nothing(
    s: StoreModel,
    kind: Seq<char>,
    key: Seq<char>,
    error: Seq<char>,
    backoff: Span,
    now: Moment,
    k: int,
)
    ensures
        (forall|j: int|
            0 <= j < s.jobs.len() ==> !((#[trigger] s.jobs[j]).kind == kind && s.jobs[j].job_key
                == key)) ==> fail_step(s, kind, key, error, backoff, now) == (
            Ok::<(), StoreErrorModel>(()),
            s,
        ),
        0 <= k < s.jobs.len() && s.jobs[k].kind == kind && s.jobs[k].job_key == key && (forall|
            j: int,
        |
            0 <= j < k ==> !((#[trigger] s.jobs[j]).kind == kind && s.jobs[j].job_key == key)) ==> {
            let answer = fail_step(s, kind, key, error, backoff, now);
            &&& s.jobs[k].retry_remaining <= 1 ==> answer.0 is Ok
            &&& s.jobs[k].retry_remaining > 1 && backoff.addable() && now.reaches(backoff)
                ==> answer.0 is Ok
            &&& s.jobs[k].retry_remaining > 1 && !backoff.addable() ==> answer == (
                Err::<(), StoreErrorModel>(
                    StoreErrorModel::Database(
                        "Source duration value is out of range for the target type"@,
                    ),
                ),
                s,
            )
            &&& s.jobs[k].retry_remaining > 1 && backoff.addable() && !now.reaches(backoff)
                ==> answer == (
                Err::<(), StoreErrorModel>(
                    StoreErrorModel::Database("the clock is out of range"@),
                ),
                s,
            )
        },
{
    let p = is_job(kind, key);
    if forall|j: int|
        0 <= j < s.jobs.len() ==> !((#[trigger] s.jobs[j]).kind == kind && s.jobs[j].job_key
            == key) {
        lemma_no_first(s.jobs, p);
    }
    if 0 <= k < s.jobs.len() && s.jobs[k].kind == kind && s.jobs[k].job_key == key && (forall|
        j: int,
    |
        0 <= j < k ==> !((#[trigger] s.jobs[j]).kind == kind && s.jobs[j].job_key == key)) {
        assert(is_first(s.jobs, p, k));
        lemma_first(s.jobs, p, k);
    }
}

} // verus!
