//! Closing one task of a plan, with the evidence that proved it.

use magent_store::domain::{
    CheckpointCommand, CheckpointResult, FileLedgerEntry, ProposeCommand, SpecBinding,
    StartRunCommand, TaskDone,
};
use magent_store::ids::{ChangeId, OperationId, RunId, SessionId, TaskId};
use magent_store::moment::Moment;
use magent_store::states::{
    ChangeStatus, CheckpointOrigin, Classification, HarnessKind, TaskStatus, WorkflowStage,
};
use magent_store::tables::TaskRow;
use magent_store::{FactContext, RepositoryProbe, Store, StoreError};

const SLUG: &str = "add-retry-budget";
const CAPABILITY: &str = "worker/retry";
const VERIFY: &str = "cargo test -p worker retry";
const EXPECTED: &str = "test result: ok. 3 passed";

fn here() -> RepositoryProbe {
    RepositoryProbe { root: "/tmp/project".into(), origin_url: None, git: None }
}

struct Fixture {
    store: Store,
    context: FactContext,
}

impl Fixture {
    fn new() -> Self {
        let mut store = Store::new();
        let resolved = store.resolve_workspace_for(&here()).expect("resolve the root");
        let context = FactContext {
            workspace_id: Some(resolved.workspace_id),
            namespace: None,
            ..FactContext::default()
        };
        Self { store, context }
    }

    /// A change with a plan of the given tasks: a number, the files it declares and the
    /// markers its output is to carry.
    fn planned(&mut self, tasks: &[(&str, &str, &[&str])]) -> ChangeId {
        let change = self
            .store
            .propose(
                &ProposeCommand {
                    operation_id: OperationId::new(),
                    slug: SLUG.into(),
                    title: "Add a retry budget".into(),
                    classification: Classification::Bounded,
                    why: "Retries currently have no ceiling and can loop forever.".into(),
                    what_changes: vec!["Add a configurable retry budget".into()],
                    capabilities: vec![CAPABILITY.into()],
                    impact: Some("None known.".into()),
                    skip_specs: false,
                },
                &None,
                &self.context,
            )
            .expect("propose")
            .id;
        for row in self.store.changes.iter_mut() {
            if row.id == change {
                row.status = ChangeStatus::Planned;
            }
        }
        for (number, file, markers) in tasks {
            self.store.tasks.push(TaskRow {
                id: TaskId::new(),
                change_id: change,
                number: (*number).to_owned(),
                files_json: format!("[\"{file}\"]"),
                verify_command: VERIFY.into(),
                expected_output_json: serde_json::to_string(markers).expect("json"),
                status: TaskStatus::Pending,
                evidence: None,
                verified_at: None,
                claimed_by: None,
                lease_until: None,
                updated_at: "2026-01-01T00:00:00Z".into(),
            });
        }
        change
    }

    /// The task under test is numbered "1.3" rather than "1": plans are numbered
    /// hierarchically, and the number is carried as written.
    fn planned_change(&mut self) -> ChangeId {
        self.planned_change_expecting(&[EXPECTED])
    }

    fn planned_change_expecting(&mut self, markers: &[&str]) -> ChangeId {
        let file = "crates/worker/src/retry.rs";
        self.planned(&[("1.3", file, markers), ("2", file, &[EXPECTED])])
    }

    /// Task "3" declares nothing that overlaps task "4", and task "4" declares
    /// `src/store.rs`.
    fn planned_change_for_trespass(&mut self) -> ChangeId {
        self.planned(&[
            ("3", "crates/worker/src/retry.rs", &[EXPECTED]),
            ("4", "src/store.rs", &[EXPECTED]),
        ])
    }

    fn unbound_run(&mut self) -> (RunId, SessionId) {
        let started = self
            .store
            .start_run(
                &StartRunCommand {
                    operation_id: OperationId::new(),
                    task: "Cap the retry loop".into(),
                    resume_run_id: None,
                    external_session_hint: None,
                    workspace_roots: vec!["/tmp/project".into()],
                },
                &None,
                HarnessKind::ClaudeCode,
                &Some(here()),
            )
            .expect("start");
        (started.run_id, started.session_id)
    }

    fn bound_run(&mut self) -> (RunId, SessionId) {
        let (run_id, session_id) = self.unbound_run();
        self.bind(run_id, Some(SLUG), Some("1.3: cap the loop"));
        (run_id, session_id)
    }

    fn bound_run_unclaimed(&mut self) -> (RunId, SessionId) {
        let (run_id, session_id) = self.unbound_run();
        self.bind(run_id, Some(SLUG), None);
        (run_id, session_id)
    }

    fn bind(&mut self, run_id: RunId, change: Option<&str>, task: Option<&str>) {
        self.store
            .bind_spec(
                run_id,
                &SpecBinding {
                    change_id: change.map(Into::into),
                    current_task: task.map(Into::into),
                },
            )
            .expect("bind");
    }

    /// Claims a task by naming it on a binding.
    fn hold(&mut self, run_id: RunId, current_task: &str) {
        self.bind(run_id, None, Some(current_task));
    }

    fn second_session(&mut self, run_id: RunId, hint: &str) -> SessionId {
        let bound =
            self.store
                .bind_session(hint, &here(), "cap the retry loop", HarnessKind::ClaudeCode)
                .expect("bind the session");
        assert_eq!(bound.run_id, run_id, "both sessions must share one run");
        bound.session_id
    }

    fn task(&self, change: ChangeId, number: &str) -> &TaskRow {
        self.store
            .tasks
            .iter()
            .find(|task| task.change_id == change && task.number == number)
            .expect("one task row")
    }

    fn checkpoint(
        &mut self,
        run_id: RunId,
        session_id: SessionId,
        operation_id: OperationId,
        task_done: TaskDone,
    ) -> Result<CheckpointResult, StoreError> {
        self.checkpoint_with_binding(run_id, session_id, operation_id, task_done, None)
    }

    fn checkpoint_with_binding(
        &mut self,
        run_id: RunId,
        session_id: SessionId,
        operation_id: OperationId,
        task_done: TaskDone,
        binding: Option<SpecBinding>,
    ) -> Result<CheckpointResult, StoreError> {
        self.store.save_checkpoint(
            &CheckpointCommand {
                operation_id,
                run_id,
                session_id,
                stage: WorkflowStage::Executing,
                origin: CheckpointOrigin::Enriched,
                completed_steps: vec!["capped the retry loop".into()],
                next_steps: vec![],
                decisions: vec![],
                rejected: vec![],
                changed_files: vec![],
                verification: vec![],
                risks: vec![],
                handoff_summary: "The budget is read from config and spent per attempt.".into(),
                task_done: Some(task_done),
                binding,
            },
            &None,
        )
    }

    fn change_status(&self, change: ChangeId) -> ChangeStatus {
        self.store.changes.iter().find(|row| row.id == change).expect("the change").status
    }

    fn ticks(&self) -> Vec<(String, String)> {
        self.store
            .ticks
            .iter()
            .map(|tick| (tick.number.clone(), tick.output.clone()))
            .collect()
    }
}

fn done(number: &str, output: &str) -> TaskDone {
    TaskDone { number: number.into(), verify_command: VERIFY.into(), output: output.into() }
}

fn passed(number: &str) -> TaskDone {
    done(number, &format!("{EXPECTED}\n"))
}

#[test]
fn task_closes_with_its_evidence() {
    let mut fixture = Fixture::new();
    let change = fixture.planned_change();
    let (run_id, session_id) = fixture.bound_run();

    let output = format!("running 3 tests\n...\n{EXPECTED}; finished in 0.42s\n");
    let result = fixture
        .checkpoint(run_id, session_id, OperationId::new(), done("1.3", &output))
        .expect("checkpoint");

    let closed = result.task.expect("the checkpoint closed a task");
    assert_eq!(closed.number, "1.3");
    assert!(
        closed.expected_output_missing.is_empty(),
        "the plan's expected_output is in this output"
    );
    assert!(
        !closed.change_ready,
        "task 2 of the plan is still open, so the change is not ready"
    );

    let task = fixture.task(change, "1.3");
    assert_eq!(task.status, TaskStatus::Done);
    assert_eq!(
        task.evidence.as_deref(),
        Some(output.as_str()),
        "the evidence is what the command printed, as it printed it"
    );
    assert!(task.verified_at.is_some(), "evidence and verified_at land together");
}

#[test]
fn evidence_is_recorded_even_when_the_output_differs() {
    let mut fixture = Fixture::new();
    let change = fixture.planned_change();
    let (run_id, session_id) = fixture.bound_run();

    let output = "test result: ok. 4 passed; 1 ignored\n";
    let result = fixture
        .checkpoint(run_id, session_id, OperationId::new(), done("1.3", output))
        .expect("checkpoint");

    let closed = result.task.expect("the checkpoint closed a task");
    assert_eq!(
        closed.expected_output_missing,
        [EXPECTED],
        "{EXPECTED:?} does not appear in {output:?}"
    );

    let task = fixture.task(change, "1.3");
    assert_eq!(task.status, TaskStatus::Done, "the task closes either way");
    assert_eq!(task.evidence.as_deref(), Some(output));
    assert!(task.verified_at.is_some());
}

#[test]
fn a_tick_names_the_markers_it_did_not_find() {
    let mut fixture = Fixture::new();
    let change = fixture.planned_change_expecting(&["test result: ok", "7 passed"]);
    let (run_id, session_id) = fixture.bound_run();

    let output = format!("running 3 tests\n...\n{EXPECTED}; finished in 0.42s\n");
    let result = fixture
        .checkpoint(run_id, session_id, OperationId::new(), done("1.3", &output))
        .expect("checkpoint");

    let closed = result.task.expect("the checkpoint closed a task");
    assert_eq!(
        closed.expected_output_missing,
        ["7 passed"],
        "the suite passed, so only the count is missing from {output:?}"
    );

    let task = fixture.task(change, "1.3");
    assert_eq!(task.status, TaskStatus::Done, "the task closes either way");
    assert_eq!(task.evidence.as_deref(), Some(output.as_str()));
    assert!(task.verified_at.is_some());
}

#[test]
fn a_tick_that_matches_every_marker_reports_none() {
    let mut fixture = Fixture::new();
    let change = fixture.planned_change_expecting(&["test result: ok", "7 passed"]);
    let (run_id, session_id) = fixture.bound_run();

    let output = "running 7 tests\n...\ntest result: ok. 7 passed; finished in 0.42s\n";
    let result = fixture
        .checkpoint(run_id, session_id, OperationId::new(), done("1.3", output))
        .expect("checkpoint");

    let closed = result.task.expect("the checkpoint closed a task");
    assert!(
        closed.expected_output_missing.is_empty(),
        "every marker the plan named is in {output:?}, and {:?} says otherwise",
        closed.expected_output_missing
    );

    let task = fixture.task(change, "1.3");
    assert_eq!(task.status, TaskStatus::Done);
    assert!(task.verified_at.is_some());
}

#[test]
fn a_repeated_checkpoint_answers_with_the_same_tick() {
    let mut fixture = Fixture::new();
    let change = fixture.planned_change();
    let (run_id, session_id) = fixture.bound_run();

    let operation_id = OperationId::new();
    let first = fixture
        .checkpoint(run_id, session_id, operation_id, passed("1.3"))
        .expect("first checkpoint");
    let second = fixture
        .checkpoint(run_id, session_id, operation_id, passed("1.3"))
        .expect("replayed checkpoint");

    assert_eq!(first, second, "the replay answers what the first call did");
    assert!(second.task.is_some(), "and that answer still carries the tick");
    assert_eq!(
        fixture.store.total_checkpoint_count(),
        1,
        "the replay must not have recorded a second checkpoint"
    );
    assert_eq!(fixture.task(change, "1.3").status, TaskStatus::Done);
}

#[test]
fn a_tick_on_an_unbound_run_is_refused() {
    let mut fixture = Fixture::new();
    let change = fixture.planned_change();
    let (run_id, session_id) = fixture.unbound_run();

    let error = fixture
        .checkpoint(run_id, session_id, OperationId::new(), passed("1.3"))
        .expect_err("expected a tick on an unbound run to be refused");

    assert!(
        matches!(&error, StoreError::RunNotBoundToChange { run } if *run == run_id),
        "expected the unbound run to be named, got {error:?}"
    );
    assert_eq!(error.code(), "run_not_bound");
    assert_eq!(fixture.task(change, "1.3").status, TaskStatus::Pending, "nothing was closed");
}

#[test]
fn one_message_binds_the_run_and_closes_its_first_task() {
    let mut fixture = Fixture::new();
    let change = fixture.planned_change();
    let (run_id, session_id) = fixture.unbound_run();

    let result = fixture
        .checkpoint_with_binding(
            run_id,
            session_id,
            OperationId::new(),
            passed("1.3"),
            Some(SpecBinding {
                change_id: Some(SLUG.into()),
                current_task: Some("1.3: cap the loop".into()),
            }),
        )
        .expect("a checkpoint carrying its own binding closes its first task");

    let closed = result.task.expect("the checkpoint closed a task");
    assert_eq!(closed.number, "1.3");

    let task = fixture.task(change, "1.3");
    assert_eq!(task.status, TaskStatus::Done);
    assert!(task.evidence.is_some() && task.verified_at.is_some());

    let spec = fixture
        .store
        .snapshot(run_id)
        .expect("snapshot")
        .spec
        .expect("the binding this checkpoint carried");
    assert_eq!(spec.change_id.as_deref(), Some(SLUG));
    assert_eq!(
        spec.current_task.as_deref(),
        Some("1.3: cap the loop"),
        "the run is left pointing at the task the tick was for"
    );
}

#[test]
fn a_tick_for_an_unknown_number_lists_the_open_ones() {
    let mut fixture = Fixture::new();
    fixture.planned_change();
    let (run_id, session_id) = fixture.bound_run();

    let error = fixture
        .checkpoint(run_id, session_id, OperationId::new(), passed("3"))
        .expect_err("expected a number no task has to be refused");

    let StoreError::TaskNotFound { slug, number, open } = &error else {
        panic!("expected the number to be reported as unknown, got {error:?}");
    };
    assert_eq!(number, "3");
    assert_eq!(slug, SLUG, "the plan is named");
    assert_eq!(
        open,
        &["1.3".to_owned(), "2".to_owned()],
        "both tasks of this plan are still open, in order of their number"
    );
    assert_eq!(error.code(), "task_not_found");

    let message = error.message();
    assert!(
        message.contains("1.3") && message.contains('2'),
        "the open numbers belong in the message, not only in the variant: {message}"
    );
    assert!(message.contains(SLUG), "and so does the plan they belong to: {message}");
}

#[test]
fn a_tick_with_another_command_is_refused_and_leaves_the_task_open() {
    let mut fixture = Fixture::new();
    let change = fixture.planned_change();
    let (run_id, session_id) = fixture.bound_run();

    let error = fixture
        .checkpoint(
            run_id,
            session_id,
            OperationId::new(),
            TaskDone { verify_command: "cargo test -p worker".into(), ..passed("1.3") },
        )
        .expect_err("expected another command to be refused");

    assert!(
        matches!(&error, StoreError::VerifyCommandMismatch { number, expected }
            if number == "1.3" && expected == VERIFY),
        "expected the planned command to be carried, got {error:?}"
    );
    assert_eq!(error.code(), "verify_command_mismatch");
    assert!(
        error.message().contains(VERIFY),
        "the refusal names the command to run instead: {}",
        error.message()
    );

    let task = fixture.task(change, "1.3");
    // Still held rather than pending: the run named it, and a refused tick
    // does not take the task away from the agent that has it.
    assert_eq!(task.status, TaskStatus::Running, "the task is left open for the real run");
    assert_eq!(task.evidence, None);
    assert_eq!(task.verified_at, None);
}

#[test]
fn a_tick_whose_slug_names_no_open_change_is_refused() {
    let mut fixture = Fixture::new();
    let change = fixture.planned_change();
    let (run_id, session_id) = fixture.bound_run();

    fixture.bind(run_id, Some("a-change-that-is-gone"), None);

    let error = fixture
        .checkpoint(run_id, session_id, OperationId::new(), passed("1.3"))
        .expect_err("expected a slug no open change answers to be refused");

    assert!(
        matches!(&error, StoreError::ChangeSlugNotFound(slug) if slug == "a-change-that-is-gone"),
        "expected the slug to be named, got {error:?}"
    );
    assert_eq!(error.code(), "change_slug_not_found");
    assert!(
        error.message().contains("re-bind"),
        "the refusal says what to do about it: {}",
        error.message()
    );
    assert_eq!(
        fixture.task(change, "1.3").status,
        TaskStatus::Running,
        "the plan that does exist is left untouched"
    );
}

#[test]
fn a_tick_whose_slug_names_two_changes_is_refused() {
    let mut fixture = Fixture::new();
    let change = fixture.planned_change();
    let (run_id, session_id) = fixture.bound_run();

    // A slug is taken per namespace, so the same one can be proposed again under another.
    let elsewhere = FactContext { namespace: Some("infra".into()), ..fixture.context.dup() };
    fixture
        .store
        .propose(
            &ProposeCommand {
                operation_id: OperationId::new(),
                slug: SLUG.into(),
                title: "Add a retry budget, over there".into(),
                classification: Classification::Bounded,
                why: "The same slug, proposed under another namespace.".into(),
                what_changes: vec!["Add a configurable retry budget".into()],
                capabilities: vec![CAPABILITY.into()],
                impact: None,
                skip_specs: false,
            },
            &None,
            &elsewhere,
        )
        .expect("propose elsewhere");

    let error = fixture
        .checkpoint(run_id, session_id, OperationId::new(), passed("1.3"))
        .expect_err("expected a slug two open changes answer to be refused");

    let StoreError::ChangeSlugAmbiguous { slug, namespaces } = &error else {
        panic!("expected the slug to be reported as ambiguous, got {error:?}");
    };
    assert_eq!(slug, SLUG);
    assert_eq!(
        namespaces,
        &["(no namespace)".to_owned(), "infra".to_owned()],
        "both namespaces, the one filed under none named rather than blank"
    );
    assert_eq!(error.code(), "change_slug_ambiguous");
    assert!(
        error.message().contains("infra"),
        "the namespaces that tell the two apart belong in the message: {}",
        error.message()
    );
    assert_eq!(
        fixture.task(change, "1.3").status,
        TaskStatus::Running,
        "neither plan is closed while it is unclear which one this is"
    );
}

#[test]
fn closing_the_last_task_makes_the_change_ready() {
    let mut fixture = Fixture::new();
    let change = fixture.planned_change();
    let (run_id, session_id) = fixture.bound_run();

    let first = fixture
        .checkpoint(run_id, session_id, OperationId::new(), passed("1.3"))
        .expect("first checkpoint")
        .task
        .expect("the checkpoint closed a task");

    assert!(
        !first.change_ready,
        "task 2 is still open, so this tick did not finish the plan"
    );
    assert_eq!(
        fixture.change_status(change),
        ChangeStatus::Planned,
        "and the change stays where planning left it"
    );

    let last = fixture
        .checkpoint(run_id, session_id, OperationId::new(), passed("2"))
        .expect("last checkpoint")
        .task
        .expect("the checkpoint closed a task");

    assert!(last.change_ready, "nothing is open now, so this tick finished the plan");
    assert_eq!(
        fixture.change_status(change),
        ChangeStatus::Ready,
        "which is what moves the change to `ready`"
    );
}

#[test]
fn a_refused_tick_writes_no_journal_row() {
    let mut fixture = Fixture::new();
    fixture.planned_change();
    let (run_id, session_id) = fixture.bound_run();

    let error = fixture
        .checkpoint(
            run_id,
            session_id,
            OperationId::new(),
            TaskDone { verify_command: "cargo test -p worker".into(), ..passed("1.3") },
        )
        .expect_err("expected another command to be refused");

    assert_eq!(error.code(), "verify_command_mismatch");
    assert_eq!(fixture.store.ticks.len(), 0, "a refused tick is not something that happened");
    assert_eq!(fixture.store.total_checkpoint_count(), 0);
}

#[test]
fn closing_a_task_twice_keeps_both_ticks() {
    let mut fixture = Fixture::new();
    fixture.planned_change();
    let (run_id, session_id) = fixture.bound_run();

    let first = format!("{EXPECTED}; finished in 0.42s\n");
    let second = format!("{EXPECTED}; finished in 0.31s\n");

    for output in [&first, &second] {
        fixture
            .checkpoint(run_id, session_id, OperationId::new(), done("1.3", output))
            .expect("checkpoint");
    }

    assert_eq!(
        fixture.ticks(),
        vec![("1.3".to_owned(), first), ("1.3".to_owned(), second)],
        "both runs are on the record, in the order they happened"
    );
}

#[test]
fn a_checkpoint_takes_renews_and_releases_a_task() {
    let mut fixture = Fixture::new();
    let change = fixture.planned_change();
    let (run_id, session_id) = fixture.unbound_run();
    let at = |seconds: i64| Moment { seconds, nanos: 0 };
    let naming = |slug: Option<&str>, task: &str| SpecBinding {
        change_id: slug.map(Into::into),
        current_task: Some(task.to_owned()),
    };

    fixture
        .store
        .bind_spec_at(run_id, &naming(Some(SLUG), "1.3: cap the loop"), at(1_000))
        .expect("claim by naming");

    let task = fixture.task(change, "1.3");
    assert_eq!(task.status, TaskStatus::Running, "a task in hand is running");
    assert_eq!(
        task.claimed_by,
        Some(session_id),
        "the claim belongs to the session that named it"
    );
    let first_lease = task.lease_until.clone().expect("a claim has an end");

    fixture
        .store
        .bind_spec_at(run_id, &naming(None, "1.3: cap the loop"), at(1_020))
        .expect("renew");
    let renewed = fixture.task(change, "1.3").lease_until.clone().expect("still held");
    assert!(renewed > first_lease, "a second checkpoint pushes the hold out");

    // Prose naming no task claims nothing, and is not an error.
    fixture
        .store
        .bind_spec_at(run_id, &naming(None, "архивация"), at(1_040))
        .expect("prose is not an error");
    assert_eq!(
        fixture.task(change, "1.3").claimed_by,
        Some(session_id),
        "prose must not steal or drop a claim"
    );
}

// --- closing a task refused over a trespass its edits recorded --------------

const TRESPASS_EDIT: &str = "/tmp/project/src/store.rs";

/// Session A holding task 3 and session B holding task 4, with session A's edit already
/// recorded on the file task 4 declares.
fn fixture_with_a_recorded_trespass() -> (Fixture, ChangeId, RunId, SessionId, SessionId) {
    let mut fixture = Fixture::new();
    let change = fixture.planned_change_for_trespass();
    let (run_id, session_a) = fixture.bound_run_unclaimed();
    fixture.hold(run_id, "3: cap the loop");

    let session_b = fixture.second_session(run_id, "harness-session-trespasser");
    fixture.hold(run_id, "4: cap the loop");

    assert_ne!(
        fixture.task(change, "3").claimed_by,
        fixture.task(change, "4").claimed_by,
        "the two tasks must be held by two sessions"
    );

    fixture
        .store
        .append_ledger(
            run_id,
            session_a,
            &FileLedgerEntry {
                path: TRESPASS_EDIT.into(),
                tool: "Edit".into(),
                observed_at: Moment::now(),
            },
        )
        .expect("append ledger");

    (fixture, change, run_id, session_a, session_b)
}

#[test]
fn a_task_that_took_another_agents_file_is_refused() {
    let (mut fixture, change, run_id, session_a, _) = fixture_with_a_recorded_trespass();

    let error = fixture
        .checkpoint(run_id, session_a, OperationId::new(), passed("3"))
        .expect_err("expected the close to be refused over the recorded trespass");

    let StoreError::FileHeldByAnotherTask { number, path, holder } = &error else {
        panic!("expected the trespass to be reported, got {error:?}");
    };
    assert_eq!(number, "3");
    assert_eq!(holder, "4");
    assert!(
        path.ends_with("src/store.rs"),
        "expected the trespassed file to be named, got {path:?}"
    );

    let task = fixture.task(change, "3");
    assert_eq!(
        task.status,
        TaskStatus::Running,
        "the task is left open, not closed over a trespass"
    );
    assert_eq!(task.evidence, None, "a refused close must not file the trespass as evidence");
    assert_eq!(task.verified_at, None, "and it must not be recorded as verified either");
    assert_eq!(fixture.store.ticks.len(), 0, "a refused tick is not something that happened");
}

#[test]
fn a_refusal_over_a_held_file_names_the_file() {
    let (mut fixture, _, run_id, session_a, _) = fixture_with_a_recorded_trespass();

    let error = fixture
        .checkpoint(run_id, session_a, OperationId::new(), passed("3"))
        .expect_err("expected the close to be refused over the recorded trespass");

    assert!(
        error.message().contains("src/store.rs"),
        "the refusal should name the file it was refused over: {}",
        error.message()
    );
}

#[test]
fn a_holder_that_lapsed_does_not_excuse_the_trespass() {
    let (mut fixture, change, run_id, session_a, _) = fixture_with_a_recorded_trespass();

    for task in fixture.store.tasks.iter_mut() {
        if task.change_id == change && task.number == "4" {
            task.lease_until = Some("2000-01-01T00:00:00+00:00".into());
        }
    }

    let error = fixture
        .checkpoint(run_id, session_a, OperationId::new(), passed("3"))
        .expect_err("a holder going quiet since does not undo a recorded trespass");

    assert!(
        matches!(&error, StoreError::FileHeldByAnotherTask { number, .. } if number == "3"),
        "expected the trespass to still be reported, got {error:?}"
    );
    assert_eq!(
        fixture.task(change, "3").status,
        TaskStatus::Running,
        "the task is left open, not closed over a trespass"
    );
}

#[test]
fn a_clean_close_is_not_refused_by_an_unrelated_trespass() {
    let (mut fixture, change, run_id, _, session_b) = fixture_with_a_recorded_trespass();

    let result = fixture
        .checkpoint(run_id, session_b, OperationId::new(), passed("4"))
        .expect("task 4's own close must not be refused by task 3's trespass");

    let closed = result.task.expect("the checkpoint closed a task");
    assert_eq!(closed.number, "4");

    let task = fixture.task(change, "4");
    assert_eq!(task.status, TaskStatus::Done, "task 4 closes on its own merits");
    assert!(task.evidence.is_some() && task.verified_at.is_some());
}

#[test]
fn a_wrong_command_is_reported_before_a_trespass() {
    let (mut fixture, change, run_id, session_a, _) = fixture_with_a_recorded_trespass();

    let error = fixture
        .checkpoint(
            run_id,
            session_a,
            OperationId::new(),
            TaskDone { verify_command: "cargo test -p worker".into(), ..passed("3") },
        )
        .expect_err("expected the wrong command to be refused ahead of the trespass");

    assert!(
        matches!(&error, StoreError::VerifyCommandMismatch { number, expected }
            if number == "3" && expected == VERIFY),
        "the command check comes before the ledger check, so this refusal must be about the \
         command, got {error:?}"
    );
    assert_eq!(
        fixture.task(change, "3").status,
        TaskStatus::Running,
        "the task is left open, not closed over either refusal"
    );
}

#[test]
fn an_edit_nobody_else_holds_is_no_trespass() {
    let (mut fixture, _, run_id, session_a, session_b) = fixture_with_a_recorded_trespass();
    for (session, path) in [(session_a, "/tmp/project/src/other.rs"), (session_b, TRESPASS_EDIT)] {
        fixture
            .store
            .append_ledger(
                run_id,
                session,
                &FileLedgerEntry {
                    path: path.into(),
                    tool: "Edit".into(),
                    observed_at: Moment::now(),
                },
            )
            .expect("append ledger");
    }
    let marks: Vec<Option<&str>> =
        fixture.store.ledger.iter().map(|row| row.trespass_on.as_deref()).collect();
    assert_eq!(marks, vec![Some("4"), None, None]);
}
