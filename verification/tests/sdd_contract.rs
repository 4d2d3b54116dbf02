//! Proposing a change, and rewriting what was proposed.

use magent_store::domain::ProposeCommand;
use magent_store::error::DomainError;
use magent_store::ids::{ChangeId, OperationId};
use magent_store::states::{ChangeStatus, Classification};
use magent_store::tables::{ChangeRow, DeltaRow, ProposalRow};
use magent_store::{FactContext, RepositoryProbe, Store, StoreError};

fn fixture() -> (Store, FactContext) {
    let mut store = Store::new();
    let resolved = store.resolve_workspace_for(&RepositoryProbe {
        root: "/tmp/project".into(),
        origin_url: None,
        git: None,
    }).expect("resolve the root");
    let context = FactContext {
        workspace_id: Some(resolved.workspace_id),
        namespace: None,
        ..FactContext::default()
    };
    (store, context)
}

fn propose_command(slug: &str) -> ProposeCommand {
    ProposeCommand {
        operation_id: OperationId::new(),
        slug: slug.into(),
        title: "Add a retry budget".into(),
        classification: Classification::Bounded,
        why: "Retries currently have no ceiling and can loop forever.".into(),
        what_changes: vec!["Add a configurable retry budget".into()],
        capabilities: vec!["worker/retry".into()],
        impact: Some("None known.".into()),
        skip_specs: false,
    }
}

fn change_row(store: &Store, id: ChangeId) -> &ChangeRow {
    store.changes.iter().find(|row| row.id == id).expect("change row")
}

fn proposal(store: &Store, id: ChangeId) -> &ProposalRow {
    store.proposals.iter().find(|row| row.change_id == id).expect("proposal row")
}

fn set_status(store: &mut Store, id: ChangeId, status: ChangeStatus) {
    for row in store.changes.iter_mut() {
        if row.id == id {
            row.status = status;
        }
    }
}

/// A change carrying one delta and sitting at `specified`.
fn specified_change(store: &mut Store, context: &FactContext, slug: &str) -> ChangeId {
    let change = store.propose(&propose_command(slug), &None, context).expect("propose").id;
    store.deltas.push(DeltaRow { change_id: change, capability_path: "worker/retry".into() });
    set_status(store, change, ChangeStatus::Specified);
    change
}

// --- creating ----------------------------------------------------------

#[test]
fn propose_writes_a_drafting_change_and_a_proposal_artifact() {
    let (mut store, context) = fixture();

    let change = store
        .propose(&propose_command("add-retry-budget"), &None, &context)
        .expect("propose")
        .id;

    let row = change_row(&store, change);
    assert_eq!(row.slug, "add-retry-budget");
    assert_eq!(row.title, "Add a retry budget");
    assert_eq!(row.status, ChangeStatus::Drafting);

    let body = proposal(&store, change);
    assert_eq!(body.why, "Retries currently have no ceiling and can loop forever.");
    assert_eq!(body.what_changes[0], "Add a configurable retry budget");
    assert_eq!(body.capabilities[0], "worker/retry");
    assert_eq!(body.impact.as_deref(), Some("None known."));
}

// --- idempotency ---------------------------------------------------------

#[test]
fn a_repeated_operation_id_with_the_same_body_returns_the_same_change_and_writes_nothing_twice() {
    let (mut store, context) = fixture();
    let command = propose_command("add-retry-budget");

    let first = store.propose(&command, &None, &context).expect("first propose").id;
    let second = store.propose(&command, &None, &context).expect("replayed propose").id;

    assert_eq!(first, second);
    assert_eq!(
        store.changes.len(),
        1,
        "the replay must not have inserted a second change row"
    );
    assert_eq!(
        store.proposals.len(),
        1,
        "the replay must not have inserted a second artifact row"
    );
}

#[test]
fn a_repeated_operation_id_with_a_changed_body_is_an_idempotency_conflict() {
    let (mut store, context) = fixture();
    let mut command = propose_command("add-retry-budget");

    store.propose(&command, &None, &context).expect("first propose");

    command.title = "A different title".into();
    let result = store.propose(&command, &None, &context);

    assert!(
        matches!(result, Err(StoreError::IdempotencyConflict(id)) if id == command.operation_id),
        "expected an idempotency conflict, got {result:?}"
    );
}

// --- slug occupancy, and rewriting a proposal ------------------------------

#[test]
fn a_second_propose_on_a_drafting_change_rewrites_its_proposal() {
    let (mut store, context) = fixture();

    let first = store
        .propose(&propose_command("add-retry-budget"), &None, &context)
        .expect("first propose")
        .id;

    let mut rewrite = propose_command("add-retry-budget");
    rewrite.title = "Cap the retry loop and drain the queue".into();
    rewrite.classification = Classification::Architectural;
    rewrite.capabilities = vec!["worker/retry".into(), "worker/queue".into()];

    let second = store.propose(&rewrite, &None, &context).expect("rewritten propose").id;

    assert_eq!(
        first, second,
        "a rewrite corrects the change that is there, it does not open a second one"
    );

    let row = change_row(&store, first);
    assert_eq!(row.title, "Cap the retry loop and drain the queue");
    assert_eq!(row.status, ChangeStatus::Drafting);
    assert_eq!(row.classification, Classification::Architectural);

    let body = proposal(&store, first);
    assert_eq!(body.capabilities[0], "worker/retry");
    assert_eq!(body.capabilities[1], "worker/queue");

    assert_eq!(store.changes.len(), 1, "the rewrite must not have opened a second change");
    assert_eq!(
        store.proposals.len(),
        1,
        "the proposal is overwritten, not versioned beside itself"
    );
}

#[test]
fn a_slug_held_by_a_change_already_planned_is_refused() {
    let (mut store, context) = fixture();

    let change = store
        .propose(&propose_command("add-retry-budget"), &None, &context)
        .expect("first propose")
        .id;
    set_status(&mut store, change, ChangeStatus::Planned);

    let result = store.propose(&propose_command("add-retry-budget"), &None, &context);

    assert!(
        matches!(&result, Err(StoreError::SlugTaken(slug)) if slug == "add-retry-budget"),
        "expected SlugTaken, got {result:?}"
    );
}

#[test]
fn a_rewrite_dropping_a_capability_that_already_has_deltas_is_refused() {
    let (mut store, context) = fixture();

    let mut opening = propose_command("add-retry-budget");
    opening.capabilities = vec!["worker/retry".into(), "worker/queue".into()];
    let change = store.propose(&opening, &None, &context).expect("propose").id;
    store.deltas.push(DeltaRow { change_id: change, capability_path: "worker/retry".into() });
    set_status(&mut store, change, ChangeStatus::Specified);

    // The title moves too, so the assertion below tells a refused rewrite from
    // one that landed rather than merely from one that changed nothing.
    let mut rewrite = propose_command("add-retry-budget");
    rewrite.title = "Drain the queue instead".into();
    rewrite.capabilities = vec!["worker/queue".into()];
    let result = store.propose(&rewrite, &None, &context);

    assert!(
        matches!(
            &result,
            Err(StoreError::CapabilityDeltasStranded(paths))
                if paths == &["worker/retry".to_string()]
        ),
        "expected the stranded capability to be named, got {result:?}"
    );
    assert_eq!(
        change_row(&store, change).title,
        "Add a retry budget",
        "a refused rewrite leaves the proposal as it stood"
    );
    assert_eq!(store.deltas.len(), 1, "and leaves the delta it refused to strand");
}

#[test]
fn a_slug_is_free_again_once_the_change_holding_it_is_archived() {
    let (mut store, context) = fixture();

    let first = store
        .propose(&propose_command("add-retry-budget"), &None, &context)
        .expect("first propose")
        .id;
    set_status(&mut store, first, ChangeStatus::Archived);

    let second = store
        .propose(&propose_command("add-retry-budget"), &None, &context)
        .expect("second propose, after archiving")
        .id;

    assert_ne!(first, second);
}

// --- validation --------------------------------------------------------

#[test]
fn an_invalid_command_is_rejected_before_anything_is_written() {
    let (mut store, context) = fixture();

    let mut command = propose_command("add-retry-budget");
    command.capabilities = Vec::new();
    command.skip_specs = false;
    let refusal = Some(DomainError::Rejected {
        code: "no_capabilities",
        message: "a change that keeps its specs names a capability".into(),
    });

    let result = store.propose(&command, &refusal, &context);
    assert!(
        matches!(result, Err(StoreError::Domain(_))),
        "expected a domain validation error, got {result:?}"
    );
    assert_eq!(store.changes.len(), 0, "validation must fail before any row is written");
}

#[test]
fn a_context_without_a_workspace_is_named_rather_than_left_to_the_column() {
    let mut store = Store::new();

    let context =
        FactContext { workspace_id: None, namespace: None, ..FactContext::default() };

    let result = store.propose(&propose_command("add-retry-budget"), &None, &context);
    assert!(
        matches!(result, Err(StoreError::NoWorkspace)),
        "expected the workspace to be named as missing, got {result:?}"
    );
    assert_eq!(store.changes.len(), 0, "nothing may be written without a workspace");
}

// --- what a rewrite costs ------------------------------------------------

#[test]
fn a_rewrite_that_changes_the_capabilities_returns_the_change_to_drafting() {
    let (mut store, context) = fixture();
    let change = specified_change(&mut store, &context, "add-retry-budget");

    assert_eq!(
        change_row(&store, change).status,
        ChangeStatus::Specified,
        "the fixture starts specified"
    );

    let mut widened = propose_command("add-retry-budget");
    widened.capabilities = vec!["worker/retry".into(), "worker/queue".into()];
    store.propose(&widened, &None, &context).expect("rewrite");

    assert_eq!(
        change_row(&store, change).status,
        ChangeStatus::Drafting,
        "a change of scope has to be specified again"
    );
}

#[test]
fn a_rewrite_that_only_reorders_the_capabilities_leaves_the_status_alone() {
    let (mut store, context) = fixture();

    let mut opening = propose_command("add-retry-budget");
    opening.capabilities = vec!["worker/retry".into(), "worker/queue".into()];
    let change = store.propose(&opening, &None, &context).expect("propose").id;
    store.deltas.push(DeltaRow { change_id: change, capability_path: "worker/retry".into() });
    set_status(&mut store, change, ChangeStatus::Specified);

    let mut reordered = propose_command("add-retry-budget");
    reordered.capabilities = vec!["worker/queue".into(), "worker/retry".into()];
    store.propose(&reordered, &None, &context).expect("rewrite");

    assert_eq!(
        change_row(&store, change).status,
        ChangeStatus::Specified,
        "the same set in another order is the same contract"
    );
}

#[test]
fn a_rewrite_that_only_fixes_the_wording_leaves_the_status_alone() {
    let (mut store, context) = fixture();
    let change = specified_change(&mut store, &context, "add-retry-budget");

    let mut reworded = propose_command("add-retry-budget");
    reworded.title = "Cap the retry loop".into();
    store.propose(&reworded, &None, &context).expect("rewrite");

    let row = change_row(&store, change);
    assert_eq!(row.title, "Cap the retry loop", "the new title is recorded");
    assert_eq!(
        row.status,
        ChangeStatus::Specified,
        "a better sentence is not a change of scope"
    );
}

#[test]
fn a_propose_reports_whether_it_opened_a_change_or_rewrote_one() {
    let (mut store, context) = fixture();

    let opened = store
        .propose(&propose_command("add-retry-budget"), &None, &context)
        .expect("propose");
    assert_eq!(opened.slug, "add-retry-budget");
    assert_eq!(opened.status, ChangeStatus::Drafting);
    assert!(!opened.rewritten, "nothing stood under this slug");

    let mut widened = propose_command("add-retry-budget");
    widened.capabilities = vec!["worker/retry".into(), "worker/queue".into()];
    let rewritten = store.propose(&widened, &None, &context).expect("rewrite");

    assert_eq!(rewritten.id, opened.id, "a rewrite corrects the change that is there");
    assert!(rewritten.rewritten);
    assert_eq!(
        rewritten.status,
        ChangeStatus::Drafting,
        "the status the caller has to act on is the one the rewrite left behind"
    );
}

#[test]
fn what_was_proposed_and_what_would_be_stranded_can_be_asked() {
    let (mut store, context) = fixture();
    let change = specified_change(&mut store, &context, "add-retry-budget");
    assert_eq!(store.proposed_capabilities(change), vec!["worker/retry".to_owned()]);
    assert_eq!(
        store.stranded_by(change, &vec!["worker/queue".to_owned()]),
        vec!["worker/retry".to_owned()]
    );
    assert!(store.stranded_by(change, &vec!["worker/retry".to_owned()]).is_empty());
    assert!(store.proposed_capabilities(ChangeId::new()).is_empty());
}
