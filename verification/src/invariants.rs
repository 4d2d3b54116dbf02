//! What every operation keeps.
//!
//! No two rows of a table ever share what identifies them, whatever identifiers are handed in.

use vstd::prelude::*;

use crate::curation::{
    confirmed, edit_step, is_fact, merge_step, rescoped, reworded, tidy_step, verify_step,
    with_changed_fact,
};
use crate::deps::{declare_step, is_checkout, is_other, sync_step, wanted_ref, DependencySpecModel};
use crate::domain::{
    CheckpointCommandModel, EvidenceModel, FactSummaryModel, FileLedgerEntryModel,
    FinishRunCommandModel, ProposeCommandModel, RememberCommandModel, SpecBindingModel,
    StartRunCommandModel, TaskDoneModel,
};
use crate::error::DomainErrorModel;
use crate::facts::{remember_step, superseded, with_fact, FactContextModel, FactQueryModel};
use crate::git::{key_of, normalized, RepositoryProbeModel};
use crate::grouping::{
    group_called, group_refusal, group_step, is_group, members_refusal, needed, promotable,
    promote_step, role_step, with_group, with_members, ProbedRootModel,
};
use crate::ids::{
    ChangeId, CheckpointId, DependencyId, FactId, OperationId, RepositoryId, RunId, SessionId,
    WorkspaceId,
};
use crate::jobs::{claim_step, fail_step, is_job, with_job, with_job_done};
use crate::keys::fact_taken;
use crate::ledger::append_step;
use crate::memory_laws::{law_a_new_value_keeps_the_old_ones, same_claim};
use crate::moment::{Moment, Span};
use crate::operations::is_operation;
use crate::order::law_arranged_lists_the_selected;
use crate::plan::{
    ascending, called_in, changes_called, close_task_step, live_status, loaded_run, namespace_keys,
    slug_of, tick_target, with_binding, RunViewModel,
};
use crate::repositories::{filed_by_path, keyed, place_refusal, resolve_step};
use crate::retrieval::{found_summaries, is_push, push_step, shown, RelevanceModel};
use crate::rows::{any_row, changed, first_index, first_row, lemma_first_is_first};
use crate::sdd::{is_in_flight, propose_body, propose_step};
use crate::sessions::{
    adopt_step, attach_step, bind_session_step, is_agent, is_notice, joining, notice_step,
    observe_step, observed, path_run_step, with_agent, with_agent_returned, with_session_closed,
    with_session_seen, SessionBinding,
};
use crate::states::{FactScope, HarnessKind, RepositoryRole};
use crate::store::{
    checkpoint_body, checkpoint_step, finish_step, start_step, with_carried_binding,
    with_checkpoint, writable, NewRun,
};
use crate::tables::{
    changes_differ, dependencies_differ, empty_store, facts_differ, filed_where_they_are,
    one_checkout, one_slug, pushes_differ, repositories_differ, workspaces_differ,
    DependencyRowModel, FactRowModel, PushRowModel, StoreModel, WorkspaceRowModel,
};
use crate::toolchain::{detect_step, detecting, remembered_up_to};
use crate::workspace_laws::lemma_origin_is_no_path;

verus! {

// --- laws ------------------------------------------------------------------

/// A store that was just made is well formed.
pub proof fn law_an_empty_store_is_well_formed()
    ensures
        empty_store().well_formed(),
{
}

/// Recording a directory keeps a store well formed.
pub proof fn law_recording_a_directory_keeps_it(
    s: StoreModel,
    probe: RepositoryProbeModel,
    workspace: WorkspaceId,
    repository: RepositoryId,
    now: Seq<char>,
)
    requires
        s.well_formed(),
    ensures
        resolve_step(s, probe, workspace, repository, now).1.well_formed(),
{
    let p = keyed(key_of(probe));
    lemma_first_is_first(s.repositories, p);
    let after = resolve_step(s, probe, workspace, repository, now).1;
    if place_refusal(s, probe, workspace, repository) is None && first_row(
        s.repositories,
        p,
    ) is None {
        lemma_first_is_first(s.repositories, filed_by_path(probe.root));
        assert(repositories_differ(after.repositories)) by {
            assert forall|i: int, j: int| 0 <= i < j < after.repositories.len() implies (
            #[trigger] after.repositories[i]).id != (#[trigger] after.repositories[j]).id
                && after.repositories[i].identity_key != after.repositories[j].identity_key by {
                assert(!p(s.repositories[i]));
                if j < s.repositories.len() {
                    assert(!p(s.repositories[j]));
                    assert(s.repositories[i].id != s.repositories[j].id);
                }
            }
        }
        assert(workspaces_differ(after.workspaces));
        if probe.origin_url is Some {
            lemma_origin_is_no_path(probe);
        }
        assert(filed_where_they_are(after.repositories)) by {
            assert forall|i: int|
                0 <= i < after.repositories.len() && "path:"@.is_prefix_of(
                    (#[trigger] after.repositories[i]).identity_key,
                ) implies after.repositories[i].identity_key == "path:"@
                + after.repositories[i].canonical_root by {
                if i < s.repositories.len() {
                    let before = s.repositories[i];
                }
            }
        }
    }
}

/// Starting a run keeps a store well formed.
pub proof fn law_starting_a_run_keeps_it(
    s: StoreModel,
    command: StartRunCommandModel,
    refusal: Option<DomainErrorModel>,
    harness: HarnessKind,
    probe: Option<RepositoryProbeModel>,
    ids: NewRun,
    now: Seq<char>,
)
    requires
        s.well_formed(),
    ensures
        start_step(s, command, refusal, harness, probe, ids, now).1.well_formed(),
{
    if let Some(found) = probe {
        law_recording_a_directory_keeps_it(s, found, ids.workspace, ids.repository, now);
    }
    lemma_first_is_first(s.operations, is_operation(command.operation_id));
}

/// Saving a checkpoint keeps a store well formed.
pub proof fn law_saving_a_checkpoint_keeps_it(
    s: StoreModel,
    command: CheckpointCommandModel,
    refusal: Option<DomainErrorModel>,
    checkpoint: CheckpointId,
    now: Seq<char>,
    until: Seq<char>,
)
    requires
        s.well_formed(),
    ensures
        checkpoint_step(s, command, refusal, checkpoint, now, until).1.well_formed(),
{
    lemma_first_is_first(s.operations, is_operation(command.operation_id));
    if let Ok((result, after)) = checkpoint_body(s, command, checkpoint, now, until) {
        lemma_checkpoint_body_keeps_it(s, command, checkpoint, now, until);
    }
}

proof fn lemma_binding_keeps_it(
    s: StoreModel,
    run: RunId,
    binding: SpecBindingModel,
    now: Seq<char>,
    until: Seq<char>,
)
    requires
        s.well_formed(),
    ensures
        with_binding(s, run, binding, now, until).well_formed(),
        with_binding(s, run, binding, now, until).operations == s.operations,
{
}

proof fn lemma_tick_keeps_it(
    s: StoreModel,
    run_id: RunId,
    run: RunViewModel,
    done: TaskDoneModel,
    now: Seq<char>,
)
    requires
        s.well_formed(),
        close_task_step(s, run_id, run, done, now) is Ok,
    ensures
        close_task_step(s, run_id, run, done, now)->Ok_0.1.well_formed(),
        close_task_step(s, run_id, run, done, now)->Ok_0.1.operations == s.operations,
{
    let after = close_task_step(s, run_id, run, done, now)->Ok_0.1;
    let change = tick_target(s, run_id, run)->Ok_0;
    lemma_target_is_in_flight(s, run_id, run);
    assert(changes_differ(after.changes)) by {
        assert forall|i: int, j: int| 0 <= i < j < after.changes.len() implies (
        #[trigger] after.changes[i]).id != (#[trigger] after.changes[j]).id && !(
        live_status(after.changes[i].status) && live_status(
            after.changes[j].status,
        ) && one_slug(after.changes[i], after.changes[j])) by {
            assert(s.changes[i].id != s.changes[j].id);
            assert(one_slug(after.changes[i], after.changes[j]) == one_slug(
                s.changes[i],
                s.changes[j],
            ));
        }
    }
}

/// The change a tick is for is in flight already, so that readying it frees no slug.
proof fn lemma_target_is_in_flight(s: StoreModel, run_id: RunId, run: RunViewModel)
    requires
        s.well_formed(),
        tick_target(s, run_id, run) is Ok,
    ensures
        forall|i: int|
            0 <= i < s.changes.len() && (#[trigger] s.changes[i]).id
                == tick_target(s, run_id, run)->Ok_0 ==> live_status(
                s.changes[i].status,
            ),
{
    let slug = slug_of(run)->0;
    let keys = namespace_keys(s.changes);
    let marks = called_in(s.changes, run.workspace_id, slug);
    let found = changes_called(s, run.workspace_id, slug);
    law_arranged_lists_the_selected(keys, marks, ascending());
    let k = found[0];
    assert(marks[k]);
    assert forall|i: int|
        0 <= i < s.changes.len() && (#[trigger] s.changes[i]).id == s.changes[k].id implies
        live_status(s.changes[i].status) by {
        if i < k {
            assert(s.changes[i].id != s.changes[k].id);
        } else if k < i {
            assert(s.changes[k].id != s.changes[i].id);
        }
    }
}

proof fn lemma_checkpoint_body_keeps_it(
    s: StoreModel,
    command: CheckpointCommandModel,
    checkpoint: CheckpointId,
    now: Seq<char>,
    until: Seq<char>,
)
    requires
        s.well_formed(),
        checkpoint_body(s, command, checkpoint, now, until) is Ok,
    ensures
        checkpoint_body(s, command, checkpoint, now, until)->Ok_0.1.well_formed(),
        checkpoint_body(s, command, checkpoint, now, until)->Ok_0.1.operations == s.operations,
{
    let saved = with_checkpoint(s, command, checkpoint, now);
    assert(saved.well_formed());
    let bound = with_carried_binding(saved, command, now, until);
    if let Some(binding) = command.binding {
        lemma_binding_keeps_it(saved, command.run_id, binding, now, until);
    }
    if let Some(done) = command.task_done {
        let row = writable(s, command.run_id, command.session_id)->Ok_0;
        let run = if command.binding is Some {
            loaded_run(bound, command.run_id)->Ok_0
        } else {
            row
        };
        lemma_tick_keeps_it(bound, command.run_id, run, done, now);
    }
}

/// Recording what a session did, unasked, keeps a store well formed.
pub proof fn law_observing_keeps_it(
    s: StoreModel,
    binding: SessionBinding,
    operation: OperationId,
    changed_files: Seq<Seq<char>>,
    fallback: Seq<char>,
    refusal: Option<DomainErrorModel>,
    checkpoint: CheckpointId,
    now: Seq<char>,
    until: Seq<char>,
)
    requires
        s.well_formed(),
    ensures
        observe_step(
            s,
            binding,
            operation,
            changed_files,
            fallback,
            refusal,
            checkpoint,
            now,
            until,
        ).1.well_formed(),
{
    if let Ok(command) = observed(s, binding, operation, changed_files, fallback) {
        law_saving_a_checkpoint_keeps_it(s, command, refusal, checkpoint, now, until);
    }
}

/// Looking for the run in flight, and joining it or opening one, keep a store well formed.
pub proof fn law_adopting_keeps_it(
    s: StoreModel,
    command: StartRunCommandModel,
    opening: Option<DomainErrorModel>,
    joining_refusal: Option<DomainErrorModel>,
    harness: HarnessKind,
    probe: Option<RepositoryProbeModel>,
    looking: NewRun,
    ids: NewRun,
    now: Seq<char>,
)
    requires
        s.well_formed(),
    ensures
        probe is Some ==> path_run_step(s, probe->0, looking, now).1.well_formed(),
        adopt_step(
            s,
            command,
            opening,
            joining_refusal,
            harness,
            probe,
            looking,
            ids,
            now,
        ).1.well_formed(),
{
    law_starting_a_run_keeps_it(s, command, opening, harness, probe, ids, now);
    if let Some(found) = probe {
        law_recording_a_directory_keeps_it(s, found, looking.workspace, looking.repository, now);
        let (run, known) = path_run_step(s, found, looking, now);
        law_starting_a_run_keeps_it(known, command, opening, harness, probe, ids, now);
        if run is Ok && run->Ok_0 is Some {
            law_starting_a_run_keeps_it(
                known,
                joining(command, run->Ok_0->0.run_id),
                joining_refusal,
                harness,
                None,
                ids,
                now,
            );
        }
    }
}

/// Finishing a run keeps a store well formed.
pub proof fn law_finishing_a_run_keeps_it(
    s: StoreModel,
    command: FinishRunCommandModel,
    refusal: Option<DomainErrorModel>,
    now: Seq<char>,
)
    requires
        s.well_formed(),
    ensures
        finish_step(s, command, refusal, now).1.well_formed(),
{
    lemma_first_is_first(s.operations, is_operation(command.operation_id));
}

/// Binding a run, and recording an edit, keep a store well formed.
pub proof fn law_binding_and_editing_keep_it(
    s: StoreModel,
    run: RunId,
    binding: SpecBindingModel,
    session: SessionId,
    entry: FileLedgerEntryModel,
    now: Seq<char>,
    until: Seq<char>,
)
    requires
        s.well_formed(),
    ensures
        with_binding(s, run, binding, now, until).well_formed(),
        append_step(s, run, session, entry) matches Ok(after) ==> after.well_formed(),
{
    lemma_binding_keeps_it(s, run, binding, now, until);
}

/// Writing a fact keeps a store well formed.
pub proof fn law_remembering_keeps_it(
    s: StoreModel,
    command: RememberCommandModel,
    refusal: Option<DomainErrorModel>,
    context: FactContextModel,
    id: FactId,
    now: Seq<char>,
)
    requires
        s.well_formed(),
    ensures
        remember_step(s, command, refusal, context, id, now).1.well_formed(),
{
    lemma_first_is_first(s.operations, is_operation(command.operation_id));
    law_a_new_value_keeps_the_old_ones(s, command, context, id, now);
    let after = with_fact(s, command, context, id, now);
    assert(!fact_taken(s, id) ==> facts_differ(after.facts)) by {
        assert forall|i: int, j: int|
            !fact_taken(s, id) && 0 <= i < j < after.facts.len() implies (
        #[trigger] after.facts[i]).id != (#[trigger] after.facts[j]).id by {
            assert(same_claim(s.facts[i], after.facts[i]));
            if j < s.facts.len() {
                assert(same_claim(s.facts[j], after.facts[j]));
                assert(s.facts[i].id != s.facts[j].id);
            } else {
                assert(s.facts[i].id != id);
            }
        }
    }
}

proof fn lemma_remembered_up_to_keeps_it(
    s: StoreModel,
    commands: Seq<RememberCommandModel>,
    refusals: Seq<Option<DomainErrorModel>>,
    context: FactContextModel,
    stamps: Seq<(FactId, Seq<char>)>,
    count: int,
)
    requires
        s.well_formed(),
    ensures
        remembered_up_to(s, commands, refusals, context, stamps, count).1.well_formed(),
    decreases count,
{
    if count > 0 {
        lemma_remembered_up_to_keeps_it(s, commands, refusals, context, stamps, count - 1);
        let t = remembered_up_to(s, commands, refusals, context, stamps, count - 1).1;
        law_remembering_keeps_it(
            t,
            commands[count - 1],
            refusals[count - 1],
            context,
            stamps[count - 1].0,
            stamps[count - 1].1,
        );
    }
}

/// Recording what a repository declares keeps a store well formed.
pub proof fn law_detecting_keeps_it(
    s: StoreModel,
    detected: Seq<RememberCommandModel>,
    refusals: Seq<Option<DomainErrorModel>>,
    context: FactContextModel,
    stamps: Seq<(FactId, Seq<char>)>,
)
    requires
        s.well_formed(),
    ensures
        detect_step(s, detected, refusals, context, stamps).1.well_formed(),
{
    lemma_remembered_up_to_keeps_it(
        s,
        detected,
        refusals,
        detecting(context),
        stamps,
        detected.len() as int,
    );
}

/// Curating a fact keeps a store well formed.
pub proof fn law_curating_keeps_it(
    s: StoreModel,
    id: FactId,
    evidence: Seq<EvidenceModel>,
    title: Seq<char>,
    body: Seq<char>,
    replacement: FactId,
    other: FactId,
    run: RunId,
    reason: Seq<char>,
    namespace: Seq<char>,
    workspace: WorkspaceId,
    f: spec_fn(FactRowModel) -> FactRowModel,
    now: Seq<char>,
)
    requires
        s.well_formed(),
        forall|row: FactRowModel| (#[trigger] f(row)).id == row.id,
    ensures
        with_changed_fact(s, id, f).well_formed(),
        verify_step(s, id, evidence, now).1.well_formed(),
        edit_step(s, id, title, body, replacement, now).1.well_formed(),
        merge_step(s, id, other, now).1.well_formed(),
        tidy_step(s, run, reason, now).well_formed(),
        promote_step(s, namespace, workspace, now).1.well_formed(),
{
    lemma_changed_facts_differ(s.facts, is_fact(id), f);
    lemma_changed_facts_differ(s.facts, is_fact(id), confirmed(now));
    lemma_changed_facts_differ(s.facts, is_fact(other), superseded(id, now));
    lemma_changed_facts_differ(
        s.facts,
        promotable(namespace),
        rescoped(FactScope::Workspace, Some(workspace), now),
    );
    if first_row(s.facts, is_fact(id)) is Some && !fact_taken(s, replacement) {
        let row = first_row(s.facts, is_fact(id))->0;
        let added = reworded(row, replacement, title, body, now);
        let written = s.facts.push(added);
        assert(facts_differ(written));
        lemma_changed_facts_differ(
            written,
            is_fact(id),
            superseded(replacement, now),
        );
    }
}

proof fn lemma_changed_facts_differ(
    facts: Seq<FactRowModel>,
    p: spec_fn(FactRowModel) -> bool,
    f: spec_fn(FactRowModel) -> FactRowModel,
)
    requires
        facts_differ(facts),
        forall|row: FactRowModel| (#[trigger] f(row)).id == row.id,
    ensures
        facts_differ(changed(facts, p, f)),
{
    let after = changed(facts, p, f);
    assert forall|i: int, j: int| 0 <= i < j < after.len() implies (#[trigger] after[i]).id != (
    #[trigger] after[j]).id by {
        assert(facts[i].id != facts[j].id);
        assert(f(facts[i]).id == facts[i].id);
        assert(f(facts[j]).id == facts[j].id);
    }
}

/// Showing a session what is new to it keeps a store well formed.
pub proof fn law_pushing_keeps_it(
    s: StoreModel,
    session: Seq<char>,
    query: FactQueryModel,
    found: RelevanceModel,
    now: Seq<char>,
)
    requires
        s.well_formed(),
    ensures
        push_step(s, session, query, found, now).1.well_formed(),
{
    lemma_shown_differ(s.pushes, session, found_summaries(s, query, found), now);
}

proof fn lemma_shown_differ(
    pushes: Seq<PushRowModel>,
    session: Seq<char>,
    candidates: Seq<FactSummaryModel>,
    now: Seq<char>,
)
    requires
        pushes_differ(pushes),
    ensures
        pushes_differ(shown(pushes, session, candidates, now).1),
    decreases candidates.len(),
{
    if candidates.len() > 0 {
        lemma_shown_differ(pushes, session, candidates.drop_last(), now);
        let rows = shown(pushes, session, candidates.drop_last(), now).1;
        let longer = shown(pushes, session, candidates, now).1;
        let p = is_push(session, candidates.last().fact_id);
        if !any_row(rows, p) {
            assert forall|i: int, j: int| 0 <= i < j < longer.len() implies (
            #[trigger] longer[i]).session != (#[trigger] longer[j]).session || longer[i].fact_id
                != longer[j].fact_id by {
                if j == rows.len() {
                    assert(!p(rows[i]));
                } else {
                    assert(rows[i].session != rows[j].session || rows[i].fact_id
                        != rows[j].fact_id);
                }
            }
        }
    }
}

/// Background work keeps a store well formed.
pub proof fn law_background_work_keeps_it(
    s: StoreModel,
    kind: Seq<char>,
    key: Seq<char>,
    payload: Seq<char>,
    retries: i64,
    lease: Span,
    worker: Seq<char>,
    error: Seq<char>,
    at: Moment,
    now: Seq<char>,
)
    requires
        s.well_formed(),
    ensures
        with_job(s, kind, key, payload, retries, now).well_formed(),
        claim_step(s, kind, lease, worker, at).1.well_formed(),
        fail_step(s, kind, key, error, lease, at).1.well_formed(),
        with_job_done(s, kind, key, now).well_formed(),
{
    let p = is_job(kind, key);
    if !any_row(s.jobs, p) {
        assert(forall|i: int| 0 <= i < s.jobs.len() ==> !p(#[trigger] s.jobs[i]));
    }
}

/// Sessions, agents and notices keep a store well formed.
pub proof fn law_sessions_keep_it(
    s: StoreModel,
    hint: Seq<char>,
    probe: RepositoryProbeModel,
    task: Seq<char>,
    harness: HarnessKind,
    ids: NewRun,
    agent: Seq<char>,
    agent_type: Option<Seq<char>>,
    kind: Seq<char>,
    now: Seq<char>,
)
    requires
        s.well_formed(),
    ensures
        attach_step(s, hint, probe, harness, ids, now).1.well_formed(),
        bind_session_step(s, hint, probe, task, harness, ids, now).1.well_formed(),
        with_session_closed(s, hint, now).well_formed(),
        with_session_seen(s, hint, now).well_formed(),
        with_agent(s, hint, agent, agent_type, now).well_formed(),
        with_agent_returned(s, agent, now).well_formed(),
        notice_step(s, hint, kind, now).1.well_formed(),
{
    law_recording_a_directory_keeps_it(s, probe, ids.workspace, ids.repository, now);
    let p = is_agent(agent);
    if !any_row(s.agents, p) {
        assert(forall|i: int| 0 <= i < s.agents.len() ==> !p(#[trigger] s.agents[i]));
    }
    let q = is_notice(hint, kind);
    if !any_row(s.notices, q) {
        assert(forall|i: int| 0 <= i < s.notices.len() ==> !q(#[trigger] s.notices[i]));
    }
}

/// Declaring, syncing and forgetting a dependency keep a store well formed.
pub proof fn law_dependencies_keep_it(
    s: StoreModel,
    workspace: WorkspaceId,
    asked: DependencySpecModel,
    id: DependencyId,
    result: Result<Seq<char>, Seq<char>>,
    other: DependencyId,
    now: Seq<char>,
)
    requires
        s.well_formed(),
    ensures
        declare_step(s, workspace, asked, id, now).1.well_formed(),
        sync_step(s, other, result, now).1.well_formed(),
        (StoreModel { dependencies: s.dependencies.filter(is_other(other)), ..s }).well_formed(),
{
    let p = is_checkout(
        workspace,
        normalized(asked.url),
        wanted_ref(asked.git_ref),
    );
    lemma_first_is_first(s.dependencies, p);
    let declared = declare_step(s, workspace, asked, id, now).1;
    assert(dependencies_differ(declared.dependencies)) by {
        assert forall|i: int, j: int| 0 <= i < j < declared.dependencies.len() implies (
        #[trigger] declared.dependencies[i]).id != (#[trigger] declared.dependencies[j]).id
            && !one_checkout(
            declared.dependencies[i],
            declared.dependencies[j],
        ) by {
            if j < s.dependencies.len() {
                assert(s.dependencies[i].id != s.dependencies[j].id);
                assert(!one_checkout(s.dependencies[i], s.dependencies[j]));
            } else {
                assert(!p(s.dependencies[i]));
            }
        }
    }
    let synced = sync_step(s, other, result, now).1;
    assert(dependencies_differ(synced.dependencies)) by {
        assert forall|i: int, j: int| 0 <= i < j < synced.dependencies.len() implies (
        #[trigger] synced.dependencies[i]).id != (#[trigger] synced.dependencies[j]).id
            && !one_checkout(synced.dependencies[i], synced.dependencies[j]) by {
            assert(!one_checkout(s.dependencies[i], s.dependencies[j]));
        }
    }
    lemma_filtered_dependencies_differ(s.dependencies, is_other(other));
}

proof fn lemma_filtered_dependencies_differ(
    rows: Seq<DependencyRowModel>,
    q: spec_fn(DependencyRowModel) -> bool,
)
    requires
        dependencies_differ(rows),
    ensures
        dependencies_differ(rows.filter(q)),
    decreases rows.len(),
{
    reveal(Seq::filter);
    if rows.len() > 0 {
        let front = rows.drop_last();
        let last = rows.last();
        assert forall|i: int, j: int| 0 <= i < j < front.len() implies (#[trigger] front[i]).id != (
        #[trigger] front[j]).id && !one_checkout(front[i], front[j]) by {
            assert(rows[i].id != rows[j].id);
        }
        lemma_filtered_dependencies_differ(front, q);
        let kept = front.filter(q);
        assert(front.push(last) =~= rows);
        front.lemma_filter_push(last, q);
        if q(last) {
            assert forall|i: int| 0 <= i < kept.len() implies (#[trigger] kept[i]).id != last.id
                && !one_checkout(kept[i], last) by {
                front.lemma_filter_contains_rev(q, kept[i]);
                let k = choose|k: int| 0 <= k < front.len() && front[k] == kept[i];
                assert(rows[k].id != rows[rows.len() - 1].id);
            }
        }
    }
}

/// Proposing a change keeps a store well formed: no two changes in flight ever have one slug
/// in one workspace and namespace.
pub proof fn law_proposing_keeps_it(
    s: StoreModel,
    command: ProposeCommandModel,
    refusal: Option<DomainErrorModel>,
    context: FactContextModel,
    id: ChangeId,
    now: Seq<char>,
)
    requires
        s.well_formed(),
    ensures
        propose_step(s, command, refusal, context, id, now).1.well_formed(),
{
    lemma_first_is_first(s.operations, is_operation(command.operation_id));
    if let Some(workspace) = context.workspace_id {
        let p = is_in_flight(workspace, context.namespace, command.slug);
        lemma_first_is_first(s.changes, p);
        if let Ok((result, after)) = propose_body(
            s,
            command,
            workspace,
            context.namespace,
            id,
            now,
        ) {
            assert forall|i: int, j: int| 0 <= i < j < after.changes.len() implies (
            #[trigger] after.changes[i]).id != (#[trigger] after.changes[j]).id && !(
            live_status(after.changes[i].status) && live_status(
                after.changes[j].status,
            ) && one_slug(after.changes[i], after.changes[j])) by {
                match first_index(s.changes, p) {
                    None => {
                        if j == s.changes.len() {
                            assert(!p(s.changes[i]));
                        } else {
                            assert(s.changes[i].id != s.changes[j].id);
                        }
                    },
                    Some(k) => {
                        assert(s.changes[i].id != s.changes[j].id);
                        assert(s.changes[i].id == s.changes[k].id ==> i == k);
                        assert(s.changes[j].id == s.changes[k].id ==> j == k);
                    },
                }
            }
            assert(changes_differ(after.changes));
        }
    }
}

/// Setting a role keeps a store well formed.
pub proof fn law_setting_a_role_keeps_it(
    s: StoreModel,
    probe: RepositoryProbeModel,
    role: RepositoryRole,
    workspace: WorkspaceId,
    repository: RepositoryId,
    now: Seq<char>,
)
    requires
        s.well_formed(),
    ensures
        role_step(s, probe, role, workspace, repository, now).1.well_formed(),
{
    law_recording_a_directory_keeps_it(s, probe, workspace, repository, now);
    let t = resolve_step(s, probe, workspace, repository, now).1;
    let after = role_step(s, probe, role, workspace, repository, now).1;
    assert forall|i: int, j: int| 0 <= i < j < after.repositories.len() implies (
    #[trigger] after.repositories[i]).id != (#[trigger] after.repositories[j]).id
        && after.repositories[i].identity_key != after.repositories[j].identity_key by {
        assert(t.repositories[i].id != t.repositories[j].id);
    }
}

proof fn lemma_members_keep_it(
    s: StoreModel,
    roots: Seq<ProbedRootModel>,
    workspace: WorkspaceId,
    ids: Seq<(WorkspaceId, RepositoryId)>,
    now: Seq<char>,
    count: int,
)
    requires
        s.well_formed(),
        0 <= count <= roots.len(),
        members_refusal(s, roots, workspace, ids, now, count) is None,
    ensures
        with_members(s, roots, workspace, ids, now, count).well_formed(),
    decreases count,
{
    if count > 0 {
        lemma_members_keep_it(s, roots, workspace, ids, now, count - 1);
        let t = with_members(s, roots, workspace, ids, now, count - 1);
        let u = with_members(s, roots, workspace, ids, now, count);
        if let Some(probe) = roots[count - 1].probe {
            let id = ids[count - 1];
            law_recording_a_directory_keeps_it(t, probe, id.0, id.1, now);
            let v = resolve_step(t, probe, id.0, id.1, now).1;
            assert forall|i: int, j: int| 0 <= i < j < u.repositories.len() implies (
            #[trigger] u.repositories[i]).id != (#[trigger] u.repositories[j]).id
                && u.repositories[i].identity_key != u.repositories[j].identity_key by {
                assert(v.repositories[i].id != v.repositories[j].id);
            }
        }
    }
}

proof fn lemma_filtered_workspaces_differ(
    rows: Seq<WorkspaceRowModel>,
    q: spec_fn(WorkspaceRowModel) -> bool,
)
    requires
        workspaces_differ(rows),
    ensures
        workspaces_differ(rows.filter(q)),
    decreases rows.len(),
{
    reveal(Seq::filter);
    if rows.len() > 0 {
        let front = rows.drop_last();
        let last = rows.last();
        assert forall|i: int, j: int| 0 <= i < j < front.len() implies (#[trigger] front[i]).id != (
        #[trigger] front[j]).id && (front[i].explicit && front[j].explicit ==> front[i].name
            != front[j].name) by {
            assert(rows[i].id != rows[j].id);
        }
        lemma_filtered_workspaces_differ(front, q);
        let kept = front.filter(q);
        assert(front.push(last) =~= rows);
        front.lemma_filter_push(last, q);
        if q(last) {
            assert forall|i: int| 0 <= i < kept.len() implies (#[trigger] kept[i]).id != last.id
                && (kept[i].explicit && last.explicit ==> kept[i].name != last.name) by {
                front.lemma_filter_contains_rev(q, kept[i]);
                let k = choose|k: int| 0 <= k < front.len() && front[k] == kept[i];
                assert(rows[k].id != rows[rows.len() - 1].id);
            }
        }
    }
}

/// Gathering directories keeps a store well formed: no two groups ever have one name.
pub proof fn law_gathering_keeps_it(
    s: StoreModel,
    name: Seq<char>,
    roots: Seq<ProbedRootModel>,
    workspace: WorkspaceId,
    ids: Seq<(WorkspaceId, RepositoryId)>,
    now: Seq<char>,
)
    requires
        s.well_formed(),
    ensures
        group_step(s, name, roots, workspace, ids, now).1.well_formed(),
{
    if group_refusal(s, name, roots, workspace, ids, now) is None {
        let (group, t) = with_group(s, name, workspace, now);
        lemma_first_is_first(s.workspaces, is_group(name));
        if group_called(s, name) is None {
            let p = is_group(name);
            assert forall|i: int, j: int| 0 <= i < j < t.workspaces.len() implies (
            #[trigger] t.workspaces[i]).id != (#[trigger] t.workspaces[j]).id && (
            t.workspaces[i].explicit && t.workspaces[j].explicit ==> t.workspaces[i].name
                != t.workspaces[j].name) by {
                if j < s.workspaces.len() {
                    assert(s.workspaces[i].id != s.workspaces[j].id);
                } else {
                    assert(!p(s.workspaces[i]));
                }
            }
            assert(workspaces_differ(t.workspaces));
        }
        lemma_members_keep_it(t, roots, group, ids, now, roots.len() as int);
        let u = with_members(t, roots, group, ids, now, roots.len() as int);
        lemma_filtered_workspaces_differ(u.workspaces, needed(u, group));
    }
}

} // verus!
