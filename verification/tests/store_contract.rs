//! Runs, checkpoints, jobs and notices.

use magent_store::domain::{
    CheckpointCommand, FileLedgerEntry, FinishRunCommand, StartRunCommand,
};
use magent_store::error::DomainError;
use magent_store::ids::{OperationId, RunId, SessionId};
use magent_store::migrations::{pending_migrations, read_version};
use magent_store::moment::{Moment, Span};
use magent_store::states::{CheckpointOrigin, FinishAction, HarnessKind, RunStatus, WorkflowStage};
use magent_store::{RepositoryProbe, Store, StoreError, CURRENT_VERSION};

const MINUTE: Span = Span { seconds: 60, nanos: 0 };

fn here() -> RepositoryProbe {
    RepositoryProbe { root: "/tmp".into(), origin_url: None, git: None }
}

fn start_command(task: &str) -> StartRunCommand {
    StartRunCommand {
        operation_id: OperationId::new(),
        task: task.into(),
        resume_run_id: None,
        external_session_hint: None,
        workspace_roots: vec!["/tmp".into()],
    }
}

fn resume_command(run_id: RunId) -> StartRunCommand {
    StartRunCommand { resume_run_id: Some(run_id), ..start_command("fix payment timeout") }
}

const EDITING_HINT: &str = "harness-session-editing";

fn hinted_command(hint: &str) -> StartRunCommand {
    StartRunCommand {
        external_session_hint: Some(hint.into()),
        ..start_command("rework the payment retry")
    }
}

fn append_edits(store: &mut Store, hint: &str, count: usize) {
    for index in 0..count {
        store
            .append_ledger_for_external_session(
                hint,
                &FileLedgerEntry {
                    path: format!("src/module{index}.rs"),
                    tool: "Edit".into(),
                    observed_at: Moment::now(),
                },
            )
            .expect("append ledger");
    }
}

fn checkpoint_command(run_id: RunId, session_id: SessionId, summary: &str) -> CheckpointCommand {
    CheckpointCommand {
        operation_id: OperationId::new(),
        run_id,
        session_id,
        stage: WorkflowStage::Executing,
        origin: CheckpointOrigin::Deterministic,
        completed_steps: vec!["located owner".into()],
        next_steps: vec!["write regression test".into()],
        decisions: vec!["keep public API compatible".into()],
        rejected: vec![],
        changed_files: vec!["src/service.rs".into()],
        verification: vec!["targeted test is red".into()],
        risks: vec![],
        handoff_summary: summary.into(),
        task_done: None,
        binding: None,
    }
}

// --- schema ----------------------------------------------------------------

#[test]
fn opening_an_existing_database_is_a_no_op() {
    let installed = read_version(true, Some(CURRENT_VERSION));
    assert_eq!(installed, CURRENT_VERSION);
    assert!(pending_migrations(installed).expect("known version").is_empty());
}

// --- durability ------------------------------------------------------------

#[test]
fn checkpoint_survives_reopen_and_is_returned_on_resume() {
    let mut store = Store::new();
    let started = store
        .start_run(
            &start_command("fix payment timeout"),
            &None,
            HarnessKind::ClaudeCode,
            &Some(here()),
        )
        .expect("start");
    let saved = store
        .save_checkpoint(
            &checkpoint_command(
                started.run_id,
                started.session_id,
                "owner traced; regression test is next",
            ),
            &None,
        )
        .expect("checkpoint");

    let resumed = store
        .start_run(&resume_command(started.run_id), &None, HarnessKind::Codex, &Some(here()))
        .expect("resume");

    assert_eq!(resumed.run_id, started.run_id, "resume keeps the run");
    assert_ne!(resumed.session_id, started.session_id, "resume opens a new session");

    let checkpoint = resumed.latest_checkpoint.expect("latest checkpoint");
    assert_eq!(checkpoint.checkpoint_id, saved.checkpoint_id);
    assert_eq!(checkpoint.handoff_summary, "owner traced; regression test is next");
}

#[test]
fn latest_checkpoint_is_the_most_recent_one() {
    let mut store = Store::new();
    let started = store
        .start_run(&start_command("trace the leak"), &None, HarnessKind::ClaudeCode, &Some(here()))
        .expect("start");

    for summary in ["first", "second", "third"] {
        store
            .save_checkpoint(
                &checkpoint_command(started.run_id, started.session_id, summary),
                &None,
            )
            .expect("checkpoint");
    }

    let snapshot = store.get_run(started.run_id).expect("get_run");
    assert_eq!(snapshot.latest_checkpoint.expect("checkpoint").handoff_summary, "third");
}

// --- idempotency -----------------------------------------------------------

#[test]
fn replaying_an_operation_returns_the_original_result() {
    let mut store = Store::new();
    let started = store
        .start_run(
            &start_command("fix payment timeout"),
            &None,
            HarnessKind::ClaudeCode,
            &Some(here()),
        )
        .expect("start");

    let command = checkpoint_command(started.run_id, started.session_id, "same body");
    let first = store.save_checkpoint(&command, &None).expect("first");
    let replayed = store.save_checkpoint(&command, &None).expect("replay");

    assert_eq!(replayed.checkpoint_id, first.checkpoint_id);
    assert_eq!(store.checkpoint_count(started.run_id), 1);
}

#[test]
fn reusing_an_operation_id_with_a_different_body_is_rejected() {
    let mut store = Store::new();
    let started = store
        .start_run(
            &start_command("fix payment timeout"),
            &None,
            HarnessKind::ClaudeCode,
            &Some(here()),
        )
        .expect("start");

    let first = checkpoint_command(started.run_id, started.session_id, "original");
    store.save_checkpoint(&first, &None).expect("first");

    let conflicting = CheckpointCommand {
        handoff_summary: "something else entirely".into(),
        ..first.dup()
    };

    match store.save_checkpoint(&conflicting, &None) {
        Err(StoreError::IdempotencyConflict(id)) => assert_eq!(id, first.operation_id),
        other => panic!("expected IdempotencyConflict, got {other:?}"),
    }

    assert_eq!(store.checkpoint_count(started.run_id), 1);
}

#[test]
fn starting_a_run_again_opens_nothing() {
    let mut store = Store::new();
    let command = start_command("fix payment timeout");
    let first = store
        .start_run(&command, &None, HarnessKind::ClaudeCode, &Some(here()))
        .expect("start");
    let again = store
        .start_run(&command, &None, HarnessKind::ClaudeCode, &Some(here()))
        .expect("again");
    assert_eq!(first, again);
    assert_eq!(store.run_count(), 1);
}

#[test]
fn an_operation_of_another_kind_cannot_reuse_an_id() {
    let mut store = Store::new();
    let command = start_command("fix payment timeout");
    let started = store
        .start_run(&command, &None, HarnessKind::ClaudeCode, &Some(here()))
        .expect("start");
    let finish = FinishRunCommand {
        operation_id: command.operation_id,
        run_id: started.run_id,
        session_id: started.session_id,
        action: FinishAction::CompleteRun,
        outcome: "verified".into(),
    };
    assert!(matches!(
        store.finish_run(&finish, &None),
        Err(StoreError::IdempotencyConflict(id)) if id == command.operation_id
    ));
    assert_eq!(store.get_run(started.run_id).expect("run").status, RunStatus::Open);
}

// --- run lifecycle ---------------------------------------------------------

#[test]
fn close_session_leaves_the_run_open() {
    let mut store = Store::new();
    let started = store
        .start_run(
            &start_command("fix payment timeout"),
            &None,
            HarnessKind::ClaudeCode,
            &Some(here()),
        )
        .expect("start");

    let finished = store
        .finish_run(
            &FinishRunCommand {
                operation_id: OperationId::new(),
                run_id: started.run_id,
                session_id: started.session_id,
                action: FinishAction::CloseSession,
                outcome: "handing over".into(),
            },
            &None,
        )
        .expect("finish");

    assert_eq!(finished.status, RunStatus::Open);
    assert!(finished.session_closed);
    assert_eq!(store.get_run(started.run_id).expect("get_run").status, RunStatus::Open);
}

#[test]
fn completed_run_rejects_further_checkpoints_and_sessions() {
    let mut store = Store::new();
    let started = store
        .start_run(
            &start_command("fix payment timeout"),
            &None,
            HarnessKind::ClaudeCode,
            &Some(here()),
        )
        .expect("start");

    store
        .finish_run(
            &FinishRunCommand {
                operation_id: OperationId::new(),
                run_id: started.run_id,
                session_id: started.session_id,
                action: FinishAction::CompleteRun,
                outcome: "verified".into(),
            },
            &None,
        )
        .expect("complete");

    let late = store.save_checkpoint(
        &checkpoint_command(started.run_id, started.session_id, "too late"),
        &None,
    );
    assert!(
        matches!(late, Err(StoreError::RunClosed(id)) if id == started.run_id),
        "expected RunClosed, got {late:?}"
    );

    let reopen = store.start_run(
        &resume_command(started.run_id),
        &None,
        HarnessKind::Codex,
        &Some(here()),
    );
    assert!(
        matches!(reopen, Err(StoreError::RunClosed(id)) if id == started.run_id),
        "expected RunClosed, got {reopen:?}"
    );
}

#[test]
fn resuming_an_unknown_run_is_rejected() {
    let mut store = Store::new();
    let missing = RunId::new();

    let result = store.start_run(
        &resume_command(missing),
        &None,
        HarnessKind::ClaudeCode,
        &Some(here()),
    );
    assert!(
        matches!(result, Err(StoreError::RunNotFound(id)) if id == missing),
        "expected RunNotFound, got {result:?}"
    );
}

#[test]
fn domain_validation_runs_before_any_write() {
    let mut store = Store::new();

    let blank = StartRunCommand { task: "  ".into(), ..start_command("ignored") };
    let refusal = Some(DomainError::Rejected {
        code: "empty_task",
        message: "the task must not be empty".into(),
    });

    assert!(matches!(
        store.start_run(&blank, &refusal, HarnessKind::ClaudeCode, &Some(here())),
        Err(StoreError::Domain(_))
    ));
    assert_eq!(store.run_count(), 0);
}

#[test]
fn a_checkpoint_needs_a_session_that_exists() {
    let mut store = Store::new();
    let started = store
        .start_run(&start_command("trace"), &None, HarnessKind::ClaudeCode, &Some(here()))
        .expect("start");
    let stranger = SessionId::new();
    assert!(matches!(
        store.save_checkpoint(&checkpoint_command(started.run_id, stranger, "lost"), &None),
        Err(StoreError::SessionNotFound(id)) if id == stranger
    ));
    assert_eq!(store.total_checkpoint_count(), 0);
}

#[test]
fn a_run_without_a_directory_is_refused() {
    let mut store = Store::new();
    let result = store.start_run(&start_command("lost"), &None, HarnessKind::ClaudeCode, &None);
    assert!(
        matches!(result, Err(StoreError::Domain(DomainError::MissingWorkspaceRoot))),
        "got {result:?}"
    );
    assert_eq!(store.run_count(), 0);
}

// --- job queue -------------------------------------------------------------

#[test]
fn a_job_is_claimed_once_and_then_completed() {
    let mut store = Store::new();

    store.enqueue_job("enrich_checkpoint", "run-1", "{\"transcript\":\"/tmp/x\"}", 3);

    let claimed = store
        .claim_job("enrich_checkpoint", MINUTE, "worker-1")
        .expect("claim")
        .expect("a job is available");
    assert_eq!(claimed.job_key, "run-1");
    assert_eq!(claimed.payload_json, "{\"transcript\":\"/tmp/x\"}");

    assert!(
        store.claim_job("enrich_checkpoint", MINUTE, "worker-1").expect("second claim").is_none(),
        "a leased job must not be handed to a second worker"
    );

    store.complete_job("enrich_checkpoint", "run-1");
    assert!(store
        .claim_job("enrich_checkpoint", MINUTE, "worker-1")
        .expect("third claim")
        .is_none());
}

#[test]
fn enqueueing_the_same_job_key_twice_does_not_duplicate_work() {
    let mut store = Store::new();

    store.enqueue_job("enrich_checkpoint", "run-1", "{}", 3);
    store.enqueue_job("enrich_checkpoint", "run-1", "{}", 3);

    assert!(store.claim_job("enrich_checkpoint", MINUTE, "w").expect("claim").is_some());
    assert!(store.claim_job("enrich_checkpoint", MINUTE, "w").expect("claim").is_none());
}

#[test]
fn a_lapsed_lease_hands_the_job_out_again() {
    let mut store = Store::new();
    let at = |seconds: i64| Moment { seconds, nanos: 0 };
    store.enqueue_job_at("k", "one", "{}", 3, &at(1_000).text());
    assert!(store.claim_job_at("k", MINUTE, "a", at(1_000)).expect("claim").is_some());
    assert!(store.claim_job_at("k", MINUTE, "b", at(1_060)).expect("claim").is_none());
    let again = store.claim_job_at("k", MINUTE, "b", at(1_061)).expect("claim").expect("a job");
    assert_eq!(again.job_key, "one");
}

#[test]
fn a_failed_job_waits_and_gives_up_in_the_end() {
    let mut store = Store::new();
    let at = |seconds: i64| Moment { seconds, nanos: 0 };
    store.enqueue_job_at("k", "one", "{}", 2, &at(1_000).text());
    store.claim_job_at("k", MINUTE, "a", at(1_000)).expect("claim").expect("a job");
    store.fail_job_at("k", "one", "boom", MINUTE, at(1_001)).expect("fail");
    let state = store.job_state("k", "one").expect("there");
    assert_eq!(state.status, "pending");
    assert_eq!(state.retry_remaining, 1);
    assert_eq!(state.last_error.as_deref(), Some("boom"));
    assert!(store.claim_job_at("k", MINUTE, "a", at(1_060)).expect("claim").is_none());
    assert!(store.claim_job_at("k", MINUTE, "a", at(1_061)).expect("claim").is_some());
    store.fail_job_at("k", "one", "boom again", MINUTE, at(1_062)).expect("fail");
    let state = store.job_state("k", "one").expect("there");
    assert_eq!(state.status, "failed");
    assert_eq!(state.retry_remaining, 0);
    assert_eq!(store.job_counts(), (0, 1));
}

#[test]
fn the_oldest_job_goes_first() {
    let mut store = Store::new();
    let at = |seconds: i64| Moment { seconds, nanos: 0 };
    store.enqueue_job_at("k", "newer", "{}", 2, &at(2_000).text());
    store.enqueue_job_at("k", "older", "{}", 2, &at(1_000).text());
    store.enqueue_job_at("other", "oldest", "{}", 2, &at(500).text());
    let first = store.claim_job_at("k", MINUTE, "a", at(3_000)).expect("claim").expect("a job");
    assert_eq!(first.job_key, "older");
    let second = store.claim_job_at("k", MINUTE, "a", at(3_000)).expect("claim").expect("a job");
    assert_eq!(second.job_key, "newer");
}

// --- notices ---------------------------------------------------------------

#[test]
fn a_notice_is_delivered_to_a_session_once() {
    let mut store = Store::new();

    assert!(
        store.claim_notice("s1", "unrecorded_reasoning"),
        "a session that has not been told is told"
    );
    assert!(
        !store.claim_notice("s1", "unrecorded_reasoning"),
        "the same session is not told twice"
    );
}

#[test]
fn two_sessions_are_each_told_once() {
    let mut store = Store::new();

    assert!(store.claim_notice("s1", "unrecorded_reasoning"), "the first session is told");
    assert!(
        store.claim_notice("s2", "unrecorded_reasoning"),
        "a session that has not been told has not been told"
    );
}

// --- reasoning -------------------------------------------------------------

#[test]
fn a_run_with_edits_and_no_enriched_checkpoint_is_reported() {
    let mut store = Store::new();
    let started = store
        .start_run(&hinted_command(EDITING_HINT), &None, HarnessKind::ClaudeCode, &Some(here()))
        .expect("start");

    append_edits(&mut store, EDITING_HINT, 12);

    assert_eq!(
        store.unrecorded_reasoning(started.run_id),
        Some(12),
        "twelve edits and nothing said about them"
    );
}

#[test]
fn a_run_whose_reasoning_is_recorded_is_not_reported() {
    let mut store = Store::new();
    let started = store
        .start_run(&hinted_command(EDITING_HINT), &None, HarnessKind::ClaudeCode, &Some(here()))
        .expect("start");

    append_edits(&mut store, EDITING_HINT, 12);
    store
        .save_checkpoint(
            &CheckpointCommand {
                origin: CheckpointOrigin::Enriched,
                ..checkpoint_command(started.run_id, started.session_id, "why I did it this way")
            },
            &None,
        )
        .expect("checkpoint");

    assert_eq!(
        store.unrecorded_reasoning(started.run_id),
        None,
        "the reasoning is recorded, so there is nothing to ask for"
    );
}

#[test]
fn a_run_with_only_a_deterministic_checkpoint_is_still_reported() {
    let mut store = Store::new();
    let started = store
        .start_run(&hinted_command(EDITING_HINT), &None, HarnessKind::ClaudeCode, &Some(here()))
        .expect("start");

    append_edits(&mut store, EDITING_HINT, 12);
    store
        .save_checkpoint(
            &checkpoint_command(started.run_id, started.session_id, "snapshot before compaction"),
            &None,
        )
        .expect("checkpoint");

    assert_eq!(
        store.unrecorded_reasoning(started.run_id),
        Some(12),
        "a snapshot is not an account of the work"
    );
}

#[test]
fn a_run_with_few_edits_is_not_asked_for_its_reasoning() {
    let mut store = Store::new();
    let started = store
        .start_run(&hinted_command(EDITING_HINT), &None, HarnessKind::ClaudeCode, &Some(here()))
        .expect("start");
    append_edits(&mut store, EDITING_HINT, 1);
    assert_eq!(store.unrecorded_reasoning(started.run_id), None);
}

#[test]
fn the_ledger_lists_the_newest_edit_first_and_stops_at_its_limit() {
    let mut store = Store::new();
    let started = store
        .start_run(&hinted_command(EDITING_HINT), &None, HarnessKind::ClaudeCode, &Some(here()))
        .expect("start");
    for (path, seconds) in [("a.rs", 100), ("b.rs", 200), ("c.rs", 300)] {
        store
            .append_ledger(
                started.run_id,
                started.session_id,
                &FileLedgerEntry {
                    path: path.into(),
                    tool: "Edit".into(),
                    observed_at: Moment { seconds, nanos: 0 },
                },
            )
            .expect("append");
    }
    let two = store.ledger(started.run_id, 2).expect("ledger");
    let paths: Vec<&str> = two.iter().map(|entry| entry.path.as_str()).collect();
    assert_eq!(paths, vec!["c.rs", "b.rs"]);
    let found = store.ledger_for_external_session(EDITING_HINT, 10).expect("ledger");
    assert_eq!(found.len(), 3);
    assert!(store.ledger_for_external_session("nobody", 10).expect("ledger").is_empty());
}

#[test]
fn a_path_edited_with_two_tools_is_listed_once_by_its_latest_edit() {
    let mut store = Store::new();
    let started = store
        .start_run(&hinted_command(EDITING_HINT), &None, HarnessKind::ClaudeCode, &Some(here()))
        .expect("start");
    for (path, tool, seconds) in
        [("a.rs", "Edit", 100), ("b.rs", "Edit", 150), ("a.rs", "Write", 200), ("a.rs", "Edit", 50)]
    {
        store
            .append_ledger(
                started.run_id,
                started.session_id,
                &FileLedgerEntry {
                    path: path.into(),
                    tool: tool.into(),
                    observed_at: Moment { seconds, nanos: 0 },
                },
            )
            .expect("append");
    }

    let listed = store.ledger(started.run_id, 10).expect("ledger");
    assert_eq!(
        listed
            .iter()
            .map(|entry| (entry.path.as_str(), entry.tool.as_str(), entry.observed_at.seconds))
            .collect::<Vec<_>>(),
        vec![("a.rs", "Write", 200), ("b.rs", "Edit", 150)]
    );
}

// --- sessions --------------------------------------------------------------

#[test]
fn the_session_heard_from_most_recently_wins_however_late_the_other_started() {
    let mut store = Store::new();

    let live = store
        .start_run(&start_command("parallel work"), &None, HarnessKind::ClaudeCode, &Some(here()))
        .expect("start");
    let corpse =
        store
            .bind_session("corpse-hint", &here(), "joined later", HarnessKind::ClaudeCode)
            .expect("bind the session");
    assert_eq!(corpse.run_id, live.run_id, "both sessions must share one run");

    // The corpse started last and then died: its stamp stays where it was. The
    // live session is heard from now.
    for session in store.sessions.iter_mut() {
        if session.id == corpse.session_id {
            session.last_seen_at = Some("2000-01-01T00:00:00Z".into());
        }
        if session.id == live.session_id {
            session.last_seen_at = Some("2099-01-01T00:00:00Z".into());
        }
    }

    assert_eq!(
        store.latest_open_session(live.run_id),
        Some(live.session_id),
        "the session heard from most recently must win, not the one that started last"
    );
}

#[test]
fn each_session_reads_back_the_checkpoint_it_wrote() {
    let mut store = Store::new();

    let first = store
        .start_run(&start_command("two agents"), &None, HarnessKind::ClaudeCode, &Some(here()))
        .expect("start");
    let second =
        store
            .bind_session("second-agent", &here(), "two agents", HarnessKind::ClaudeCode)
            .expect("bind the session");
    assert_eq!(second.run_id, first.run_id, "both sessions must share one run");

    store
        .save_checkpoint(
            &checkpoint_command(
                first.run_id,
                first.session_id,
                "the earlier agent, on its own task",
            ),
            &None,
        )
        .expect("first checkpoint");
    store
        .save_checkpoint(
            &checkpoint_command(
                second.run_id,
                second.session_id,
                "the later agent, on a different one",
            ),
            &None,
        )
        .expect("second checkpoint");

    let seen = store
        .snapshot_for_session(first.run_id, Some(first.session_id))
        .expect("snapshot")
        .latest_checkpoint
        .expect("a checkpoint");

    assert_eq!(
        seen.session_id, first.session_id,
        "a session must read back its own checkpoint, not whichever landed last on the run"
    );
}

#[test]
fn a_session_with_no_checkpoint_of_its_own_is_shown_the_runs() {
    let mut store = Store::new();

    let writer = store
        .start_run(&start_command("work in flight"), &None, HarnessKind::ClaudeCode, &Some(here()))
        .expect("start");
    store
        .save_checkpoint(
            &checkpoint_command(writer.run_id, writer.session_id, "where things stand"),
            &None,
        )
        .expect("checkpoint");

    let joiner =
        store
            .bind_session("joined-late", &here(), "work in flight", HarnessKind::ClaudeCode)
            .expect("bind the session");

    let seen = store
        .snapshot_for_session(joiner.run_id, Some(joiner.session_id))
        .expect("snapshot")
        .latest_checkpoint
        .expect("a session joining work in flight must be shown the run's checkpoint");

    assert_eq!(
        seen.handoff_summary, "where things stand",
        "the fallback is the run's latest, not silence"
    );
}
