//! Binding a run to the spec it is executing.

use magent_store::domain::{
    CheckpointCommand, CheckpointResult, ProposeCommand, SpecBinding, StartRunCommand, TaskDone,
};
use magent_store::ids::{OperationId, RunId, SessionId, TaskId};
use magent_store::states::{
    ChangeStatus, CheckpointOrigin, Classification, HarnessKind, TaskStatus, WorkflowStage,
};
use magent_store::tables::TaskRow;
use magent_store::{FactContext, RepositoryProbe, Store, StoreError};

const VERIFY: &str = "cargo test -p worker retry";

fn here() -> RepositoryProbe {
    RepositoryProbe { root: "/tmp/project".into(), origin_url: None, git: None }
}

struct Fixture {
    store: Store,
    context: FactContext,
}

impl Fixture {
    fn new() -> Self {
        let mut store = Store::new();
        let resolved = store.resolve_workspace_for(&here()).expect("resolve the root");
        let context = FactContext {
            workspace_id: Some(resolved.workspace_id),
            namespace: None,
            ..FactContext::default()
        };
        Self { store, context }
    }

    /// A change whose plan holds the given task numbers.
    fn planned_change(&mut self, slug: &str, numbers: &[&str]) {
        let change = self
            .store
            .propose(
                &ProposeCommand {
                    operation_id: OperationId::new(),
                    slug: slug.into(),
                    title: format!("The change filed as {slug}"),
                    classification: Classification::Bounded,
                    why: "Retries currently have no ceiling and can loop forever.".into(),
                    what_changes: vec!["Add a configurable retry budget".into()],
                    capabilities: vec![],
                    impact: None,
                    skip_specs: true,
                },
                &None,
                &self.context,
            )
            .expect("propose")
            .id;
        for row in self.store.changes.iter_mut() {
            if row.id == change {
                row.status = ChangeStatus::Planned;
            }
        }
        for number in numbers {
            self.store.tasks.push(TaskRow {
                id: TaskId::new(),
                change_id: change,
                number: (*number).to_owned(),
                files_json: "[\"crates/worker/src/retry.rs\"]".into(),
                verify_command: VERIFY.into(),
                expected_output_json: "[\"test result: ok\"]".into(),
                status: TaskStatus::Pending,
                evidence: None,
                verified_at: None,
                claimed_by: None,
                lease_until: None,
                updated_at: "2026-01-01T00:00:00Z".into(),
            });
        }
    }

    fn start(&mut self, task: &str) -> (RunId, SessionId) {
        let started = self
            .store
            .start_run(
                &StartRunCommand {
                    operation_id: OperationId::new(),
                    task: task.into(),
                    resume_run_id: None,
                    external_session_hint: None,
                    workspace_roots: vec!["/tmp/project".into()],
                },
                &None,
                HarnessKind::ClaudeCode,
                &Some(here()),
            )
            .expect("start");
        (started.run_id, started.session_id)
    }

    fn send(
        &mut self,
        run_id: RunId,
        session_id: SessionId,
        operation_id: OperationId,
        summary: &str,
        task_done: Option<TaskDone>,
        binding: Option<SpecBinding>,
    ) -> Result<CheckpointResult, StoreError> {
        self.store.save_checkpoint(
            &CheckpointCommand {
                operation_id,
                run_id,
                session_id,
                stage: WorkflowStage::Executing,
                origin: CheckpointOrigin::Enriched,
                completed_steps: vec![],
                next_steps: vec![],
                decisions: vec![],
                rejected: vec![],
                changed_files: vec![],
                verification: vec![],
                risks: vec![],
                handoff_summary: summary.into(),
                task_done,
                binding,
            },
            &None,
        )
    }

    fn spec(&self, run_id: RunId) -> SpecBinding {
        self.store.snapshot(run_id).expect("snapshot").spec.expect("a binding")
    }
}

fn binding(change_id: &str, task: Option<&str>) -> SpecBinding {
    SpecBinding {
        change_id: Some(change_id.to_owned()),
        current_task: task.map(ToOwned::to_owned),
    }
}

// --- the reference ----------------------------------------------------------

#[test]
fn a_bound_run_reports_which_change_it_is_executing() {
    let mut fixture = Fixture::new();
    let (run_id, _) = fixture.start("add a retry budget");

    fixture
        .store
        .bind_spec(run_id, &binding("add-retry-budget", Some("2: wire the budget")))
        .expect("bind");

    let spec = fixture.spec(run_id);
    assert_eq!(spec.change_id.as_deref(), Some("add-retry-budget"));
    assert_eq!(spec.current_task.as_deref(), Some("2: wire the budget"));
}

#[test]
fn an_unbound_run_has_no_binding_rather_than_an_empty_one() {
    let mut fixture = Fixture::new();
    let (run_id, _) = fixture.start("something ad hoc");

    assert!(
        fixture.store.snapshot(run_id).expect("snapshot").spec.is_none(),
        "plenty of work is not spec-driven, and an empty binding reads as a broken one"
    );
}

#[test]
fn binding_a_run_that_is_not_there_is_refused() {
    let mut fixture = Fixture::new();
    let missing = RunId::new();
    assert!(matches!(
        fixture.store.bind_spec(missing, &binding("add-retry-budget", None)),
        Err(StoreError::RunNotFound(id)) if id == missing
    ));
}

// --- advancing --------------------------------------------------------------

#[test]
fn advancing_the_task_leaves_the_change_alone() {
    let mut fixture = Fixture::new();
    let (run_id, _) = fixture.start("add a retry budget");
    fixture
        .store
        .bind_spec(run_id, &binding("add-retry-budget", Some("1")))
        .expect("bind");

    fixture
        .store
        .bind_spec(run_id, &SpecBinding { change_id: None, current_task: Some("2".into()) })
        .expect("advance");

    let spec = fixture.spec(run_id);
    assert_eq!(spec.change_id.as_deref(), Some("add-retry-budget"));
    assert_eq!(spec.current_task.as_deref(), Some("2"));
}

#[test]
fn a_run_can_be_bound_after_it_has_already_started() {
    let mut fixture = Fixture::new();
    let (run_id, session_id) = fixture.start("look into the timeouts");
    fixture
        .send(
            run_id,
            session_id,
            OperationId::new(),
            "traced it to the retry loop",
            None,
            None,
        )
        .expect("checkpoint");

    fixture
        .store
        .bind_spec(run_id, &binding("add-retry-budget", Some("1")))
        .expect("bind");

    let snapshot = fixture.store.snapshot(run_id).expect("snapshot");
    assert!(snapshot.spec.is_some());
    assert_eq!(
        snapshot.latest_checkpoint.expect("checkpoint").handoff_summary,
        "traced it to the retry loop",
        "binding a spec is not a reason to lose what was already recorded"
    );
}

#[test]
fn a_refused_checkpoint_leaves_the_binding_as_it_was() {
    let mut fixture = Fixture::new();
    fixture.planned_change("add-retry-budget", &["1"]);
    // A real second change, whose plan has no task "1" — so a message that
    // rebinds to it and ticks "1" is refused for the number rather than for the
    // slug, which is what a run rebound to a live change actually meets.
    fixture.planned_change("spend-the-budget", &["7", "8"]);
    let (run_id, session_id) = fixture.start("cap the retry loop");
    fixture
        .store
        .bind_spec(run_id, &binding("add-retry-budget", Some("1: cap the loop")))
        .expect("bind");

    let wrong_command = || TaskDone {
        number: "1".into(),
        verify_command: "cargo test -p worker".into(),
        output: "test result: ok\n".into(),
    };

    let refused = fixture
        .send(
            run_id,
            session_id,
            OperationId::new(),
            "capped the loop",
            Some(wrong_command()),
            None,
        )
        .expect_err("expected the tick's command to be refused");
    assert_eq!(refused.code(), "verify_command_mismatch");

    let refused = fixture
        .send(
            run_id,
            session_id,
            OperationId::new(),
            "capped the loop",
            Some(wrong_command()),
            Some(SpecBinding {
                change_id: None,
                current_task: Some("4: something else entirely".into()),
            }),
        )
        .expect_err("expected the tick's command to be refused here too");
    assert_eq!(
        refused.code(),
        "verify_command_mismatch",
        "the binding this message carried named no other change, so the tick was read \
         against the same plan"
    );

    let refused = fixture
        .send(
            run_id,
            session_id,
            OperationId::new(),
            "capped the loop",
            Some(wrong_command()),
            Some(binding("spend-the-budget", Some("7: spend it"))),
        )
        .expect_err("expected a tick on a number the rebound plan has not to be refused");
    let StoreError::TaskNotFound { slug, number, open } = &refused else {
        panic!("expected the number to be reported as unknown, got {refused:?}");
    };
    assert_eq!(
        (slug.as_str(), number.as_str()),
        ("spend-the-budget", "1"),
        "the tick was read against the plan this message bound the run to"
    );
    assert_eq!(
        open,
        &["7".to_owned(), "8".to_owned()],
        "and the numbers it does have came back with the refusal"
    );

    assert_eq!(
        fixture.store.checkpoint_count(run_id),
        0,
        "none of the refused checkpoints was recorded"
    );

    let spec = fixture.spec(run_id);
    assert_eq!(
        spec.change_id.as_deref(),
        Some("add-retry-budget"),
        "the change the third message named went back with it"
    );
    assert_eq!(
        spec.current_task.as_deref(),
        Some("1: cap the loop"),
        "and so did the task the second named"
    );
}

#[test]
fn a_replayed_checkpoint_does_not_re_apply_its_binding() {
    let mut fixture = Fixture::new();
    let (run_id, session_id) = fixture.start("add a retry budget");

    let operation_id = OperationId::new();
    let first = fixture
        .send(
            run_id,
            session_id,
            operation_id,
            "started on the first task",
            None,
            Some(binding("add-retry-budget", Some("1: cap the loop"))),
        )
        .expect("checkpoint");

    fixture
        .store
        .bind_spec(
            run_id,
            &SpecBinding {
                change_id: None,
                current_task: Some("2: spend the budget".into()),
            },
        )
        .expect("advance");

    let replayed = fixture
        .send(
            run_id,
            session_id,
            operation_id,
            "started on the first task",
            None,
            Some(binding("add-retry-budget", Some("1: cap the loop"))),
        )
        .expect("replay");

    assert_eq!(first, replayed, "the replay answers what the first call did");
    assert_eq!(
        fixture.store.checkpoint_count(run_id),
        1,
        "and records nothing a second time"
    );

    let spec = fixture.spec(run_id);
    assert_eq!(
        spec.current_task.as_deref(),
        Some("2: spend the budget"),
        "the replay must not have put the run back on the task it named"
    );
    assert_eq!(spec.change_id.as_deref(), Some("add-retry-budget"));
}

#[test]
fn a_path_that_does_not_exist_yet_is_still_a_valid_reference() {
    let mut fixture = Fixture::new();
    let (run_id, _) = fixture.start("add a retry budget");

    fixture.store.bind_spec(run_id, &binding("not-written-yet", None)).expect("bind");

    let spec = fixture.spec(run_id);
    assert_eq!(spec.change_id.as_deref(), Some("not-written-yet"));
    assert!(spec.current_task.is_none());
}
