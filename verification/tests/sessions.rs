//! Binding the sessions of a harness to runs.

use magent_store::domain::{CheckpointCommand, StartRunCommand};
use magent_store::ids::{OperationId, RunId, SessionId};
use magent_store::sessions::{truncate_task, Refusals};
use magent_store::states::{CheckpointOrigin, HarnessKind, RunStatus, WorkflowStage};
use magent_store::{RepositoryProbe, SessionBinding, Store};

const HARNESS: HarnessKind = HarnessKind::ClaudeCode;

fn at(root: &str) -> RepositoryProbe {
    RepositoryProbe { root: root.into(), origin_url: None, git: None }
}

fn start_command(task: &str, hint: Option<&str>) -> StartRunCommand {
    StartRunCommand {
        operation_id: OperationId::new(),
        task: task.into(),
        resume_run_id: None,
        external_session_hint: hint.map(str::to_owned),
        workspace_roots: vec!["/work/api".into()],
    }
}

fn allowed() -> Refusals {
    Refusals { opening: None, joining: None }
}

fn reasoned(run_id: RunId, session_id: SessionId) -> CheckpointCommand {
    CheckpointCommand {
        operation_id: OperationId::new(),
        run_id,
        session_id,
        stage: WorkflowStage::Executing,
        origin: CheckpointOrigin::Enriched,
        completed_steps: vec!["traced the leak".into()],
        next_steps: vec!["write the test".into()],
        decisions: vec!["keep the cache".into()],
        rejected: vec!["dropping the cache".into()],
        changed_files: vec!["src/old.rs".into()],
        verification: vec!["cargo test".into()],
        risks: vec!["cold starts".into()],
        handoff_summary: "the cache is the leak".into(),
        task_done: None,
        binding: None,
    }
}

#[test]
fn the_first_prompt_opens_a_run_titled_after_it() {
    let mut store = Store::new();
    let bound = store
        .bind_session("s-1", &at("/work/api"), "  fix the\n  retry ", HARNESS)
        .expect("bind the session");

    assert!(bound.opened_run);
    assert_eq!(store.run_count(), 1);
    assert_eq!(store.get_run(bound.run_id).expect("run").task, "fix the retry");
    assert_eq!(store.run_for_external_session("s-1"), Some(bound.run_id));
}

#[test]
fn binding_a_session_again_gives_the_same_binding() {
    let mut store = Store::new();
    let first = store
        .bind_session("s-1", &at("/work/api"), "fix the retry", HARNESS)
        .expect("bind the session");
    let again = store
        .bind_session("s-1", &at("/work/api"), "something else", HARNESS)
        .expect("bind the session");

    assert_eq!((again.run_id, again.session_id), (first.run_id, first.session_id));
    assert!(!again.opened_run, "nothing was opened the second time");
    assert_eq!(store.run_count(), 1);
}

#[test]
fn a_second_session_joins_the_run_in_flight() {
    let mut store = Store::new();
    let first = store
        .bind_session("s-1", &at("/work/api"), "fix the retry", HARNESS)
        .expect("bind the session");
    let second = store
        .bind_session("s-2", &at("/work/api"), "something else", HARNESS)
        .expect("bind the session");

    assert_eq!(second.run_id, first.run_id);
    assert_ne!(second.session_id, first.session_id);
    assert!(!second.opened_run);
}

#[test]
fn another_directory_has_a_run_of_its_own() {
    let mut store = Store::new();
    let api = store
        .bind_session("s-1", &at("/work/api"), "fix the retry", HARNESS)
        .expect("bind the session");
    let web = store
        .bind_session("s-2", &at("/work/web"), "fix the page", HARNESS)
        .expect("bind the session");

    assert_ne!(web.run_id, api.run_id);
    assert_ne!(web.workspace_id, api.workspace_id);
}

#[test]
fn attaching_with_nothing_in_flight_writes_nothing() {
    let mut store = Store::new();

    assert_eq!(store
        .attach_to_open_run("s-1", &at("/work/api"), HARNESS)
        .expect("attach the session"), None);
    assert_eq!(store.repository_count(), 0);
    assert_eq!(store.run_for_external_session("s-1"), None);
}

#[test]
fn attaching_joins_the_open_run() {
    let mut store = Store::new();
    let opened = store
        .bind_session("s-1", &at("/work/api"), "fix the retry", HARNESS)
        .expect("bind the session");
    let attached: SessionBinding =
        store
            .attach_to_open_run("s-2", &at("/work/api"), HARNESS).expect("attach the session")
            .expect("a run is open");

    assert_eq!(attached.run_id, opened.run_id);
    assert!(!attached.opened_run);
    assert_eq!(store.run_for_external_session("s-2"), Some(opened.run_id));
}

#[test]
fn a_closed_session_is_bound_no_more_and_its_run_stays_open() {
    let mut store = Store::new();
    let bound = store
        .bind_session("s-1", &at("/work/api"), "fix the retry", HARNESS)
        .expect("bind the session");
    store.close_external_session("s-1");

    assert_eq!(store.get_run(bound.run_id).expect("run").status, RunStatus::Open);
    assert_eq!(store.latest_open_session(bound.run_id), None);
}

#[test]
fn a_session_nobody_knows_is_not_heard_from() {
    let mut store = Store::new();
    store.touch_external_session("nobody");
    store.close_external_session("nobody");
    assert!(store.sessions.is_empty());
}

#[test]
fn stating_the_task_joins_the_run_in_flight_and_renames_it() {
    let mut store = Store::new();
    let bound = store
        .bind_session("s-1", &at("/work/api"), "hey can you look at this", HARNESS)
        .expect("bind the session");
    let adopted = store
        .adopt_or_start_run(
            &start_command("  rework the payment retry ", Some("s-2")),
            &allowed(),
            HARNESS,
            &Some(at("/work/api")),
        )
        .expect("adopt");

    assert_eq!(adopted.run_id, bound.run_id);
    assert_eq!(adopted.task, "rework the payment retry");
    assert_eq!(store.run_count(), 1);
    assert_eq!(store.get_run(bound.run_id).expect("run").task, "rework the payment retry");
}

#[test]
fn stating_the_task_with_nothing_in_flight_opens_a_run() {
    let mut store = Store::new();
    let started = store
        .adopt_or_start_run(
            &start_command("rework the payment retry", None),
            &allowed(),
            HARNESS,
            &Some(at("/work/api")),
        )
        .expect("start");

    assert_eq!(started.task, "rework the payment retry");
    assert_eq!(store.run_count(), 1);
}

#[test]
fn a_title_is_one_line_of_limited_length() {
    assert_eq!(truncate_task(" a \n b\t c "), "a b c");
    assert_eq!(truncate_task(&"x".repeat(160)), "x".repeat(160));
    assert_eq!(truncate_task(&"x".repeat(161)), "x".repeat(160) + "…");
    assert_eq!(
        truncate_task(&("x".repeat(159) + " tail")),
        "x".repeat(159) + "…",
        "no space is left before the ellipsis"
    );
}

#[test]
fn an_observation_without_a_checkpoint_says_what_it_saw() {
    let mut store = Store::new();
    let bound = store
        .bind_session("s-1", &at("/work/api"), "fix the retry", HARNESS)
        .expect("bind the session");
    store
        .record_observed_checkpoint(bound, vec!["src/new.rs".into()], "2 edits", &None)
        .expect("observe");

    let seen = store.get_run(bound.run_id).expect("run").latest_checkpoint.expect("checkpoint");
    assert_eq!(seen.origin, CheckpointOrigin::Deterministic);
    assert_eq!(seen.handoff_summary, "2 edits");
    assert_eq!(seen.changed_files, vec!["src/new.rs".to_owned()]);
    assert!(seen.decisions.is_empty());
}

#[test]
fn an_observation_keeps_the_reasoning_it_found() {
    let mut store = Store::new();
    let bound = store
        .bind_session("s-1", &at("/work/api"), "fix the retry", HARNESS)
        .expect("bind the session");
    store
        .save_checkpoint(&reasoned(bound.run_id, bound.session_id), &None)
        .expect("checkpoint");
    store
        .record_observed_checkpoint(bound, vec!["src/new.rs".into()], "2 edits", &None)
        .expect("observe");

    let seen = store.get_run(bound.run_id).expect("run").latest_checkpoint.expect("checkpoint");
    assert_eq!(store.checkpoint_count(bound.run_id), 2);
    assert_eq!(seen.origin, CheckpointOrigin::Enriched);
    assert_eq!(seen.handoff_summary, "the cache is the leak");
    assert_eq!(seen.decisions, vec!["keep the cache".to_owned()]);
    assert_eq!(seen.rejected, vec!["dropping the cache".to_owned()]);
    assert_eq!(seen.next_steps, vec!["write the test".to_owned()]);
    assert_eq!(seen.changed_files, vec!["src/new.rs".to_owned()]);
}

#[test]
fn cutting_a_title_twice_changes_nothing() {
    for task in ["a  b\nc".to_owned(), "word ".repeat(60), "x".repeat(400)] {
        let once = truncate_task(&task);
        assert_eq!(truncate_task(&once), once);
    }
}
