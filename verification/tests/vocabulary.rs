//! Identifiers, moments, states, and the words of a refusal.

use magent_store::deps::{diagnosis, stderr_of};
use magent_store::error::{DomainError, StoreError};
use magent_store::ids::{
    ChangeId, DependencyId, FactId, OperationId, RunId, SessionId, WorkspaceId,
};
use magent_store::moment::{Moment, Span};
use magent_store::states::{
    Cardinality, ChangeStatus, FactScope, FactStatus, HarnessKind, JobStatus, RepositoryRole,
    RunStatus, TaskStatus, WorkflowStage,
};
use magent_store::store::NewRun;
use magent_store::text::{join, lines, split_once, trim, write_decimal};
use magent_store::values::{enum_from_sql, enum_to_sql, parse_id, parse_timestamp};

const NUMBER: u128 = 0x0123_4567_89ab_cdef_0123_4567_89ab_cdef;
const TEXT: &str = "01234567-89ab-cdef-0123-456789abcdef";

fn texts(list: &[&str]) -> Vec<String> {
    list.iter().map(|text| (*text).to_owned()).collect()
}

// --- identifiers -----------------------------------------------------------

#[test]
fn an_identifier_is_written_with_hyphens_and_read_back() {
    assert_eq!(RunId(NUMBER).text(), TEXT);
    assert_eq!(parse_id::<RunId>(TEXT), Ok(RunId(NUMBER)));
    assert_eq!(parse_id::<FactId>(&FactId(7).text()), Ok(FactId(7)));
}

#[test]
fn two_new_identifiers_differ() {
    assert_ne!(WorkspaceId::new(), WorkspaceId::new());
    assert_ne!(OperationId::new(), OperationId::new());
}

#[test]
fn a_new_identifier_says_that_it_is_random() {
    let ids = NewRun::new();
    for number in [ids.run.0, ids.session.0, ids.workspace.0, ids.repository.0] {
        assert_eq!(number / (1 << 76) % 16, 4, "the version");
        assert_eq!(number / (1 << 62) % 4, 2, "the variant");
    }
    assert_eq!(ids.run.text().chars().nth(14), Some('4'));
}

#[test]
fn a_text_that_is_no_identifier_is_refused() {
    let refused = parse_id::<SessionId>("not an identifier").expect_err("no identifier");
    assert_eq!(refused.code(), "serialization_error");
}

// --- moments ---------------------------------------------------------------

#[test]
fn a_moment_is_written_in_rfc_3339() {
    assert_eq!(Moment { seconds: 0, nanos: 0 }.text(), "1970-01-01T00:00:00+00:00");
    assert_eq!(
        Moment { seconds: 1_700_000_000, nanos: 250_000_000 }.text(),
        "2023-11-14T22:13:20.250+00:00"
    );
}

#[test]
fn a_moment_is_read_back_from_what_was_written() {
    let now = Moment::now();
    assert_eq!(parse_timestamp(&now.text()), Ok(now));
    assert_eq!(
        parse_timestamp("2023-11-14T23:13:20.25+01:00"),
        Ok(Moment { seconds: 1_700_000_000, nanos: 250_000_000 })
    );
}

#[test]
fn a_text_that_is_no_moment_is_refused() {
    let refused = parse_timestamp("yesterday").expect_err("no moment");
    assert!(matches!(refused, StoreError::Serialization(_)));
}

#[test]
fn a_stretch_carries_into_the_seconds() {
    let start = Moment { seconds: 10, nanos: 800_000_000 };
    let span = Span { seconds: 5, nanos: 300_000_000 };
    assert!(start.can_reach(span));
    assert_eq!(start.after(span), Moment { seconds: 16, nanos: 100_000_000 });
}

#[test]
fn there_is_no_moment_after_the_last_one() {
    let last = Moment { seconds: 8_210_266_876_799, nanos: 999_999_999 };
    assert!(last.can_reach(Span { seconds: 0, nanos: 0 }));
    assert!(!last.can_reach(Span { seconds: 0, nanos: 1 }));
    assert!(!last.can_reach(Span { seconds: 1, nanos: 0 }));
}

#[test]
fn a_stretch_has_a_greatest_length() {
    let longest = Span { seconds: 9_223_372_036_854_775, nanos: 807_000_000 };
    assert!(longest.is_addable());
    assert!(!Span { nanos: 807_000_001, ..longest }.is_addable());
    assert!(!Span { seconds: u64::MAX, nanos: 0 }.is_addable());
}

// --- states ----------------------------------------------------------------

#[test]
fn a_state_is_read_back_from_its_wire_name() {
    assert_eq!(enum_to_sql(&HarnessKind::ClaudeCode), "claude_code");
    assert_eq!(enum_to_sql(&FactScope::Repository), "repository");
    assert_eq!(enum_to_sql(&JobStatus::Pending), "pending");
    assert_eq!(enum_from_sql::<RunStatus>("completed"), Ok(RunStatus::Completed));
    assert_eq!(enum_from_sql::<FactStatus>("revoked"), Ok(FactStatus::Revoked));
    assert_eq!(
        enum_from_sql::<WorkflowStage>(&enum_to_sql(&WorkflowStage::Executing)),
        Ok(WorkflowStage::Executing)
    );
    assert_eq!(
        enum_from_sql::<ChangeStatus>(&enum_to_sql(&ChangeStatus::Drafting)),
        Ok(ChangeStatus::Drafting)
    );
    assert_eq!(
        enum_from_sql::<TaskStatus>(&enum_to_sql(&TaskStatus::Done)),
        Ok(TaskStatus::Done)
    );
}

#[test]
fn a_name_that_is_no_state_is_refused() {
    assert_eq!(
        enum_from_sql::<RunStatus>("paused"),
        Err(StoreError::Serialization("unknown variant: paused".into()))
    );
}

#[test]
fn only_single_values_compete() {
    assert!(Cardinality::Single.conflicts_within_scope());
    assert!(!Cardinality::Many.conflicts_within_scope());
}

#[test]
fn a_repository_is_primary_unless_somebody_says_otherwise() {
    assert_eq!(RepositoryRole::default(), RepositoryRole::Primary);
}

// --- text ------------------------------------------------------------------

#[test]
fn numbers_are_written_in_decimal() {
    assert_eq!(write_decimal(0), "0");
    assert_eq!(write_decimal(99), "99");
    assert_eq!(write_decimal(-10), "-10");
    assert_eq!(write_decimal(i64::MAX), "9223372036854775807");
    assert_eq!(write_decimal(i64::MIN), "-9223372036854775808");
}

#[test]
fn lines_end_with_a_line_feed_or_with_the_text() {
    assert_eq!(lines("one\r\ntwo\n\nthree"), texts(&["one", "two", "", "three"]));
    assert_eq!(lines("one\n"), texts(&["one"]));
    assert_eq!(lines("one\r"), texts(&["one\r"]));
    assert!(lines("").is_empty());
}

#[test]
fn texts_are_trimmed_cut_and_joined() {
    assert_eq!(trim("\u{3000} a b\t\n"), "a b");
    assert_eq!(split_once("key = a = b", '='), Some(("key ".into(), " a = b".into())));
    assert_eq!(split_once("no separator", '='), None);
    assert_eq!(join(&texts(&["a", "b", "c"]), ", "), "a, b, c");
    assert_eq!(join(&texts(&[]), ", "), "");
}

#[test]
fn the_last_line_of_a_diagnosis_is_the_useful_one() {
    assert_eq!(
        stderr_of(&b"Cloning into 'x'...\nfatal: not found  \n\n".to_vec()),
        "fatal: not found"
    );
    assert_eq!(stderr_of(&b"fatal: caf\xff".to_vec()), "fatal: caf\u{fffd}");
    assert_eq!(diagnosis(" \n"), "git failed");
}

// --- refusals --------------------------------------------------------------

fn says(error: &StoreError, code: &str, message: &str) {
    assert_eq!(error.code(), code);
    assert_eq!(error.message(), message);
}

#[test]
fn the_domain_speaks_for_itself() {
    let rejected = StoreError::Domain(DomainError::Rejected {
        code: "empty_task",
        message: "a task needs words".into(),
    });
    says(&rejected, "empty_task", "a task needs words");
    assert_eq!(
        StoreError::Domain(DomainError::VerifiedWithoutEvidence).code(),
        "verified_without_evidence"
    );
    assert_eq!(
        StoreError::Domain(DomainError::MissingWorkspaceRoot).code(),
        "missing_workspace_root"
    );
}

#[test]
fn refusals_about_runs_name_what_is_missing() {
    says(
        &StoreError::RunNotFound(RunId(NUMBER)),
        "run_not_found",
        "run 01234567-89ab-cdef-0123-456789abcdef does not exist",
    );
    says(
        &StoreError::SessionNotFound(SessionId(NUMBER)),
        "session_not_found",
        "session 01234567-89ab-cdef-0123-456789abcdef does not exist",
    );
    says(
        &StoreError::RunClosed(RunId(NUMBER)),
        "run_closed",
        "run 01234567-89ab-cdef-0123-456789abcdef is already completed",
    );
    says(
        &StoreError::IdempotencyConflict(OperationId(NUMBER)),
        "idempotency_conflict",
        "operation 01234567-89ab-cdef-0123-456789abcdef was already used for a different request",
    );
    says(
        &StoreError::NoOpenRun,
        "no_open_run",
        "no run is open in this workspace; call magent_start first",
    );
    says(
        &StoreError::RunNotBoundToChange { run: RunId(NUMBER) },
        "run_not_bound",
        "run 01234567-89ab-cdef-0123-456789abcdef is bound to no change, so there is no plan to \
         look a task number up in; bind it to the change being executed and send the tick again",
    );
}

#[test]
fn refusals_about_storage_carry_the_reason() {
    says(
        &StoreError::Database("disk full".into()),
        "database_error",
        "database error: disk full",
    );
    says(
        &StoreError::Serialization("bad text".into()),
        "serialization_error",
        "serialization error: bad text",
    );
    says(
        &StoreError::UnsupportedSchema(99),
        "unsupported_schema",
        "database schema version 99 is newer than this build understands",
    );
    says(
        &StoreError::DependencyNotFound(DependencyId(NUMBER)),
        "dependency_not_found",
        "dependency 01234567-89ab-cdef-0123-456789abcdef does not exist",
    );
}

#[test]
fn refusals_about_proposals_quote_what_was_said() {
    says(
        &StoreError::SlugTaken("add-\"retry\"".into()),
        "slug_taken",
        "slug \"add-\\\"retry\\\"\" belongs to a change that is already past its proposal; a \
         proposal is rewritten only while the change is drafting or specified",
    );
    says(
        &StoreError::CapabilityDeltasStranded(texts(&["auth", "billing"])),
        "capability_deltas_stranded",
        "this change already proposes deltas for capabilities this proposal drops: auth, \
         billing; keep them in capabilities, since a delta once written cannot be withdrawn",
    );
    says(
        &StoreError::NoWorkspace,
        "no_workspace",
        "this context names no workspace to file the change under",
    );
    says(
        &StoreError::ChangeNotFound(ChangeId(NUMBER)),
        "change_not_found",
        "change 01234567-89ab-cdef-0123-456789abcdef does not exist in this workspace",
    );
    says(
        &StoreError::ChangeClosed(ChangeId(NUMBER)),
        "change_closed",
        "change 01234567-89ab-cdef-0123-456789abcdef is archived or abandoned and takes no \
         further specs",
    );
    says(
        &StoreError::NothingToArchive(ChangeId(NUMBER)),
        "nothing_to_archive",
        "change 01234567-89ab-cdef-0123-456789abcdef proposes no spec deltas and did not \
         declare skip_specs; there is nothing to archive",
    );
}

#[test]
fn refusals_about_capabilities_list_what_there_is() {
    says(
        &StoreError::CapabilityNotProposed {
            capability_path: "auth".into(),
            declared: texts(&["billing", "mail"]),
        },
        "capability_not_proposed",
        "capability \"auth\" is not one this change proposed; its proposal declares: billing, \
         mail",
    );
    says(
        &StoreError::CapabilityNotProposed { capability_path: "auth".into(), declared: vec![] },
        "capability_not_proposed",
        "capability \"auth\" is not one this change proposed; its proposal declares no \
         capabilities at all",
    );
    says(
        &StoreError::CapabilityPurposeRequired("auth".into()),
        "capability_purpose_required",
        "capability \"auth\" is new and needs a purpose",
    );
    says(
        &StoreError::CapabilityPurposeRedundant("auth".into()),
        "capability_purpose_redundant",
        "capability \"auth\" already has a purpose; remove it from this delta or edit the \
         capability",
    );
    says(
        &StoreError::RequirementNotFound {
            requirement_id: "r-1".into(),
            capability_path: "auth".into(),
        },
        "requirement_not_found",
        "requirement r-1 is not a live requirement of capability \"auth\"",
    );
    says(
        &StoreError::RequirementNameNotLive {
            name: "login".into(),
            capability_path: "auth".into(),
            live: texts(&["logout", "refresh"]),
        },
        "requirement_name_not_live",
        "no live requirement of capability \"auth\" is called \"login\"; it holds: logout, \
         refresh",
    );
    says(
        &StoreError::DeltaAlreadyProposed {
            requirement_name: "login".into(),
            capability_path: "auth".into(),
        },
        "delta_already_proposed",
        "this change already proposes a requirement named \"login\" for capability \"auth\"",
    );
}

#[test]
fn refusals_about_plans_say_what_to_do() {
    says(
        &StoreError::ChangeNotSpecified { change: ChangeId(NUMBER), status: "executing".into() },
        "change_not_specified",
        "change 01234567-89ab-cdef-0123-456789abcdef is \"executing\"; a plan is written from a \
         specified change, or from a drafting one proposed with skip_specs",
    );
    says(
        &StoreError::RequirementsUncovered(texts(&["login"])),
        "requirements_uncovered",
        "no task covers these requirements: login; add a task for each before planning",
    );
    says(
        &StoreError::RequirementsUnimplemented(texts(&["login", "logout"])),
        "requirements_unimplemented",
        "no finished task covers these requirements: login, logout; close the task covering \
         each, or plan one, before archiving",
    );
    says(
        &StoreError::ArtifactsUnproduced(texts(&["schema"])),
        "artifacts_unproduced",
        "these consumed artifacts are produced by no task in the plan: schema; produce each, or \
         correct the name to match the task that does",
    );
    says(
        &StoreError::PlanIsCyclic(texts(&["1.1", "1.2"])),
        "plan_is_cyclic",
        "these tasks depend on each other in a cycle: 1.1, 1.2; no order can satisfy them, so \
         one must stop consuming what a later task produces",
    );
    says(
        &StoreError::ChangeNotExecuted { change: ChangeId(NUMBER), tasks: texts(&["1.2"]) },
        "change_not_executed",
        "change 01234567-89ab-cdef-0123-456789abcdef is not executed: these tasks are still \
         open: 1.2",
    );
    says(
        &StoreError::ChangeNotExecuted { change: ChangeId(NUMBER), tasks: vec![] },
        "change_not_executed",
        "change 01234567-89ab-cdef-0123-456789abcdef is not executed: it has no tasks at all, \
         so nothing on it was planned or done",
    );
}

#[test]
fn refusals_about_ticks_name_the_plan() {
    says(
        &StoreError::ChangeSlugAmbiguous {
            slug: "add-retry".into(),
            namespaces: texts(&["api", "worker"]),
        },
        "change_slug_ambiguous",
        "the slug \"add-retry\" this run is bound to names an open change in each of api, \
         worker; nothing can tell which of those plans the tick belongs to",
    );
    says(
        &StoreError::ChangeSlugNotFound("add-retry".into()),
        "change_slug_not_found",
        "no open change in this workspace is called \"add-retry\"; a slug leaves this list once \
         its change is archived or abandoned, so re-bind the run to the change being executed \
         — or, if that change is the archived one, its work is already signed off",
    );
    says(
        &StoreError::TaskNotFound {
            slug: "add-retry".into(),
            number: "9.9".into(),
            open: texts(&["1.1", "1.2"]),
        },
        "task_not_found",
        "the plan of \"add-retry\" has no task numbered \"9.9\"; the numbers still open in \
         \"add-retry\" are: 1.1, 1.2",
    );
    says(
        &StoreError::TaskNotFound {
            slug: "add-retry".into(),
            number: "9.9".into(),
            open: vec![],
        },
        "task_not_found",
        "the plan of \"add-retry\" has no task numbered \"9.9\"; every task of \"add-retry\" is \
         already closed",
    );
    says(
        &StoreError::VerifyCommandMismatch {
            number: "1.1".into(),
            expected: "cargo test".into(),
        },
        "verify_command_mismatch",
        "task 1.1 is verified by \"cargo test\"; a tick carrying another command proves nothing \
         about it",
    );
    says(
        &StoreError::FileHeldByAnotherTask {
            number: "1.1".into(),
            path: "src/lib.rs".into(),
            holder: "1.2".into(),
        },
        "file_held_by_another_task",
        "task 1.1 edited src/lib.rs, which task 1.2 was holding at the time; closing it would \
         file a collision as clean work",
    );
}
