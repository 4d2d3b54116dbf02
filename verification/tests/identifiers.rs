//! Identifiers that are taken, and references to what is not there.

use magent_store::domain::{CheckpointCommand, ProposeCommand, RememberCommand, StartRunCommand};
use magent_store::grouping::ProbedRoot;
use magent_store::ids::{
    ChangeId, CheckpointId, DependencyId, FactId, OperationId, RepositoryId, RunId, SessionId,
    WorkspaceId,
};
use magent_store::moment::Moment;
use magent_store::states::{
    Cardinality, CheckpointOrigin, Classification, FactKind, FactScope, FactStatus, HarnessKind,
    RepositoryRole, WorkflowStage,
};
use magent_store::store::NewRun;
use magent_store::{DependencySpec, FactContext, RepositoryProbe, Store, StoreError};

const NOW: &str = "2026-01-02T03:04:05+00:00";
const HARNESS: HarnessKind = HarnessKind::ClaudeCode;

fn at(root: &str) -> RepositoryProbe {
    RepositoryProbe { root: root.into(), origin_url: None, git: None }
}

fn ids(number: u128) -> NewRun {
    NewRun {
        run: RunId(number),
        session: SessionId(number),
        workspace: WorkspaceId(number),
        repository: RepositoryId(number),
    }
}

fn start_command() -> StartRunCommand {
    StartRunCommand {
        operation_id: OperationId::new(),
        task: "fix the retry".into(),
        resume_run_id: None,
        external_session_hint: None,
        workspace_roots: vec!["/work/api".into()],
    }
}

fn remember_command(name: &str) -> RememberCommand {
    RememberCommand {
        operation_id: OperationId::new(),
        name: name.into(),
        title: name.into(),
        body: "body".into(),
        kind: FactKind::Project,
        scope: FactScope::User,
        cardinality: Cardinality::Many,
        status: FactStatus::Observed,
        confidence: 0.7f64.to_bits(),
        evidence: vec![],
        relates_to: vec![],
    }
}

fn taken<T>(column: &str, answer: Result<T, StoreError>) {
    match answer {
        Err(StoreError::Database(text)) => {
            assert_eq!(text, format!("UNIQUE constraint failed: {column}"));
        }
        _ => panic!("{column} is taken"),
    }
}

#[test]
fn a_new_place_needs_identifiers_of_its_own() {
    let mut store = Store::new();
    let known = ids(1);
    store
        .upsert_repository(&at("/work/api"), known.workspace, known.repository, NOW)
        .expect("record the root");
    taken(
        "workspaces.id",
        store.upsert_repository(&at("/work/web"), known.workspace, RepositoryId(2), NOW),
    );
    taken(
        "repositories.id",
        store.upsert_repository(&at("/work/web"), WorkspaceId(2), known.repository, NOW),
    );
    assert_eq!((store.repository_count(), store.workspace_count()), (1, 1));
    // A place that is known takes no row, so that nothing is against it.
    let again = store
        .upsert_repository(&at("/work/api"), known.workspace, known.repository, NOW)
        .expect("resolve the root");
    assert_eq!(again.repository_id, known.repository);
}

#[test]
fn a_run_and_its_session_need_identifiers_of_their_own() {
    let mut store = Store::new();
    let probe = Some(at("/work/api"));
    store
        .start_run_at(&start_command(), &None, HARNESS, &probe, ids(1), NOW)
        .expect("start the run");
    let same_run = NewRun { run: RunId(1), ..ids(2) };
    taken(
        "runs.id",
        store.start_run_at(&start_command(), &None, HARNESS, &probe, same_run, NOW),
    );
    let same_session = NewRun { session: SessionId(1), ..ids(2) };
    taken(
        "sessions.id",
        store.start_run_at(&start_command(), &None, HARNESS, &probe, same_session, NOW),
    );
    let resume = StartRunCommand { resume_run_id: Some(RunId(1)), ..start_command() };
    taken(
        "sessions.id",
        store.start_run_at(&resume, &None, HARNESS, &None, same_session, NOW),
    );
    assert_eq!((store.run_count(), store.sessions.len(), store.operations.len()), (1, 1, 1));
}

#[test]
fn a_bound_session_needs_identifiers_of_its_own() {
    let mut store = Store::new();
    store.bind_session_at("s-1", &at("/work/api"), "fix", HARNESS, ids(1), NOW).expect("bind");
    let same_session = NewRun { session: SessionId(1), ..ids(2) };
    taken(
        "sessions.id",
        store.bind_session_at("s-2", &at("/work/api"), "fix", HARNESS, same_session, NOW),
    );
    taken(
        "sessions.id",
        store.attach_to_open_run_at("s-2", &at("/work/api"), HARNESS, same_session, NOW),
    );
    // What was refused leaves no trace, not even of a directory that was new.
    let same_run = NewRun { run: RunId(1), ..ids(2) };
    taken(
        "runs.id",
        store.bind_session_at("s-2", &at("/work/web"), "fix", HARNESS, same_run, NOW),
    );
    let same_place = NewRun { repository: RepositoryId(1), ..ids(2) };
    taken(
        "repositories.id",
        store.attach_to_open_run_at("s-2", &at("/work/web"), HARNESS, same_place, NOW),
    );
    taken(
        "repositories.id",
        store.latest_open_run_for_path_at(&at("/work/web"), same_place, NOW),
    );
    assert_eq!((store.repository_count(), store.run_count(), store.sessions.len()), (1, 1, 1));
}

#[test]
fn a_checkpoint_needs_an_identifier_of_its_own() {
    let mut store = Store::new();
    store
        .start_run_at(&start_command(), &None, HARNESS, &Some(at("/work/api")), ids(1), NOW)
        .expect("start the run");
    let save = |summary: &str| CheckpointCommand {
        operation_id: OperationId::new(),
        run_id: RunId(1),
        session_id: SessionId(1),
        stage: WorkflowStage::Executing,
        origin: CheckpointOrigin::Deterministic,
        completed_steps: vec![],
        next_steps: vec![],
        decisions: vec![],
        rejected: vec![],
        changed_files: vec![],
        verification: vec![],
        risks: vec![],
        handoff_summary: summary.into(),
        task_done: None,
        binding: None,
    };
    let now = Moment::now();
    store.save_checkpoint_at(&save("one"), &None, CheckpointId(1), now).expect("save");
    taken("checkpoints.id", store.save_checkpoint_at(&save("two"), &None, CheckpointId(1), now));
    assert_eq!(store.total_checkpoint_count(), 1);
    assert_eq!(store.operations.len(), 2);
}

#[test]
fn a_fact_needs_an_identifier_of_its_own() {
    let mut store = Store::new();
    let context = FactContext::default();
    let first = remember_command("first");
    store.remember_at(&first, &None, &context, FactId(1), NOW).expect("remember");
    taken(
        "facts.id",
        store.remember_at(&remember_command("second"), &None, &context, FactId(1), NOW),
    );
    taken("facts.id", store.edit_fact_at(FactId(1), "title", "body", FactId(1), NOW));
    assert_eq!(store.facts.len(), 1);
    // An operation that was answered is answered again, whatever identifier comes with it.
    let again = store.remember_at(&first, &None, &context, FactId(1), NOW).expect("remember");
    assert_eq!(again, FactId(1));
}

#[test]
fn a_change_needs_an_identifier_of_its_own() {
    let mut store = Store::new();
    let workspace = store.resolve_workspace_for(&at("/work/api")).expect("resolve").workspace_id;
    let context = FactContext { workspace_id: Some(workspace), ..FactContext::default() };
    let propose = |slug: &str| ProposeCommand {
        operation_id: OperationId::new(),
        slug: slug.into(),
        title: "Add a retry budget".into(),
        classification: Classification::Bounded,
        why: "Retries have no ceiling.".into(),
        what_changes: vec!["Add a budget".into()],
        capabilities: vec!["worker/retry".into()],
        impact: None,
        skip_specs: false,
    };
    store.propose_at(&propose("one"), &None, &context, ChangeId(1), NOW).expect("propose");
    taken(
        "sdd_changes.id",
        store.propose_at(&propose("two"), &None, &context, ChangeId(1), NOW),
    );
    assert_eq!((store.changes.len(), store.proposals.len()), (1, 1));
    // Rewriting takes no row.
    store.propose_at(&propose("one"), &None, &context, ChangeId(1), NOW).expect("rewrite");
}

#[test]
fn a_dependency_needs_an_identifier_of_its_own() {
    let mut store = Store::new();
    let workspace = store.resolve_workspace_for(&at("/work/api")).expect("resolve").workspace_id;
    let asked = |url: &str| DependencySpec { url: url.into(), git_ref: None };
    let one = asked("https://github.com/acme/one");
    let two = asked("https://github.com/acme/two");
    store.declare_dependency_at(workspace, &one, DependencyId(1), NOW).expect("declare");
    taken(
        "dependencies.id",
        store.declare_dependency_at(workspace, &two, DependencyId(1), NOW),
    );
    let again =
        store.declare_dependency_at(workspace, &one, DependencyId(1), NOW).expect("declare");
    assert_eq!(again.id, DependencyId(1));
    assert_eq!(store.dependencies(workspace).len(), 1);
}

#[test]
fn a_grouping_that_is_refused_changes_nothing() {
    let mut store = Store::new();
    let known = ids(1);
    store
        .upsert_repository(&at("/work/api"), known.workspace, known.repository, NOW)
        .expect("record the root");
    let root = |path: &str| ProbedRoot { path: path.into(), probe: Some(at(path)) };
    let roots = vec![root("/work/one"), root("/work/two")];
    let fresh = |number: u128| (WorkspaceId(number), RepositoryId(number));
    taken(
        "workspaces.id",
        store.group_into_workspace_at(
            "bank",
            &roots,
            known.workspace,
            &vec![fresh(10), fresh(11)],
            NOW,
        ),
    );
    // The second directory asks for an identifier that the first has been given.
    taken(
        "repositories.id",
        store.group_into_workspace_at(
            "bank",
            &roots,
            WorkspaceId(9),
            &vec![fresh(10), (WorkspaceId(11), RepositoryId(10))],
            NOW,
        ),
    );
    assert_eq!((store.repository_count(), store.workspace_count()), (1, 1));
    assert_eq!(store.workspace_id_by_name("bank"), None);
    let gathered = store
        .group_into_workspace_at("bank", &roots, WorkspaceId(9), &vec![fresh(10), fresh(11)], NOW)
        .expect("gather the roots");
    assert_eq!((gathered.workspace_id, gathered.repositories), (WorkspaceId(9), 2));
    // Every one is known by now, so that the identifiers do not matter.
    let again = store
        .group_into_workspace_at(
            "bank",
            &roots,
            known.workspace,
            &vec![(known.workspace, known.repository), (known.workspace, known.repository)],
            NOW,
        )
        .expect("gather them again");
    assert_eq!(again, gathered);
}

#[test]
fn a_role_for_a_new_place_needs_identifiers_of_its_own() {
    let mut store = Store::new();
    let known = ids(1);
    store
        .upsert_repository(&at("/work/api"), known.workspace, known.repository, NOW)
        .expect("record the root");
    taken(
        "workspaces.id",
        store.set_repository_role_at(
            &at("/work/web"),
            RepositoryRole::Infrastructure,
            known.workspace,
            RepositoryId(2),
            NOW,
        ),
    );
    assert_eq!(store.repository_count(), 1);
}

#[test]
fn merging_into_a_fact_that_is_not_there_is_refused() {
    let mut store = Store::new();
    let context = FactContext::default();
    store
        .remember_at(&remember_command("first"), &None, &context, FactId(1), NOW)
        .expect("remember");
    match store.merge_facts(FactId(2), FactId(1)) {
        Err(StoreError::Database(text)) => assert_eq!(text, "FOREIGN KEY constraint failed"),
        _ => panic!("there is no fact to keep"),
    }
    assert_eq!(store.facts[0].superseded_by, None);
    assert!(store.relations.is_empty());
    // A duplicate that is not there leaves nothing to fold.
    store.merge_facts(FactId(1), FactId(2)).expect("nothing to do");
    assert!(store.relations.is_empty());
}

#[test]
fn what_is_drawn_is_marked_as_random() {
    let drawn = NewRun::new();
    for value in [drawn.run.0, drawn.session.0, drawn.workspace.0, drawn.repository.0] {
        assert_eq!((value >> 76) & 0xf, 4);
        assert_eq!((value >> 62) & 0x3, 2);
    }
}
