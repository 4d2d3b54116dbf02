//! What holds of memory as a whole.
//!
//! A new value never destroys the old one, retrieval is scoped, and what was written comes
//! back.

use vstd::prelude::*;

use crate::domain::{FactModel, FactSummaryModel, RememberCommandModel};
use crate::error::StoreErrorModel;
use crate::facts::{
    evidence_rows, new_fact, relation_rows, remember_step, with_fact, FactContextModel,
    FactQueryModel,
};
use crate::ids::FactId;
use crate::keys::fact_taken;
use crate::moment::Moment;
use crate::operations::is_operation;
use crate::order::{
    arranged, is_listing, law_arranged_lists_the_selected, lemma_arranged,
    lemma_text_lt_irreflexive, precedes, KeyModel,
};
use crate::plan::{ascending, latest_first};
use crate::retrieval::{
    allowed, evidence_keys, evidence_marks, evidence_of, expression_of, fact_of, facts_of,
    found_facts, found_summaries, history_rows, is_named, is_push, links_of, matched_order,
    match_keys, matching_marks, push_step, recall_query, recalled, relation_keys, relation_marks,
    relevant, retrievable, selected_rows, shown, trust_keys, value_marks, visible, visible_marks,
    visible_rows, written_keys, RelevanceModel,
};
use crate::rows::{any_row, first_row, is_first, lemma_first};
use crate::sessions::newest_first;
use crate::states::{Cardinality, FactScope, FactStatus};
use crate::tables::{FactRowModel, PushRowModel, StoreModel};
use crate::values::{lemma_gathered_each, lemma_gathered_ok, moment_of};

verus! {

// --- a new value never destroys the old one --------------------------------

/// The same fact, but for what took its place and when.
pub open spec fn same_claim(a: FactRowModel, b: FactRowModel) -> bool {
    b == (FactRowModel { superseded_by: b.superseded_by, updated_at: b.updated_at, ..a })
}

/// Writing a fact keeps every fact that was there: the rows stay in place, and nothing of
/// what they say changes.
pub proof fn law_a_new_value_keeps_the_old_ones(
    s: StoreModel,
    command: RememberCommandModel,
    context: FactContextModel,
    id: FactId,
    now: Seq<char>,
)
    ensures
        with_fact(s, command, context, id, now).facts.len() == s.facts.len() + 1,
        forall|i: int|
            0 <= i < s.facts.len() ==> same_claim(
                s.facts[i],
                #[trigger] with_fact(s, command, context, id, now).facts[i],
            ),
        with_fact(s, command, context, id, now).facts.last() == new_fact(
            command,
            context,
            id,
            now,
        ),
{
    let after = with_fact(s, command, context, id, now);
    assert forall|i: int| 0 <= i < s.facts.len() implies same_claim(
        s.facts[i],
        #[trigger] after.facts[i],
    ) by {
        assert(s.facts.push(new_fact(command, context, id, now))[i] == s.facts[i]);
    }
}

/// Being a current value of a name within a namespace and scope.
pub open spec fn is_current(
    f: FactRowModel,
    name: Seq<char>,
    namespace: Option<Seq<char>>,
    scope: FactScope,
) -> bool {
    f.superseded_by is None && f.name == name && f.namespace == namespace && f.scope == scope
}

/// A single-valued fact has one current value: after it is written, the new one is the only
/// current value of its name within its namespace and scope.
pub proof fn law_a_single_valued_fact_has_one_current_value(
    s: StoreModel,
    command: RememberCommandModel,
    context: FactContextModel,
    id: FactId,
    now: Seq<char>,
    i: int,
)
    requires
        command.cardinality == Cardinality::Single,
        forall|k: int| 0 <= k < s.facts.len() ==> (#[trigger] s.facts[k]).id != id,
        0 <= i < with_fact(s, command, context, id, now).facts.len(),
    ensures
        is_current(
            with_fact(s, command, context, id, now).facts[i],
            command.name,
            context.namespace,
            command.scope,
        ) <==> i == s.facts.len(),
{
    let written = s.facts.push(new_fact(command, context, id, now));
    let after = with_fact(s, command, context, id, now);
    if i < s.facts.len() {
        assert(written[i] == s.facts[i]);
        assert(written[i].id != id);
    }
}

/// The value that was current is superseded by the new one, and by nothing else.
pub proof fn law_the_predecessor_is_superseded_by_the_new_value(
    s: StoreModel,
    command: RememberCommandModel,
    context: FactContextModel,
    id: FactId,
    now: Seq<char>,
    i: int,
)
    requires
        command.cardinality == Cardinality::Single,
        0 <= i < s.facts.len(),
        s.facts[i].id != id,
        is_current(s.facts[i], command.name, context.namespace, command.scope),
    ensures
        with_fact(s, command, context, id, now).facts[i].superseded_by == Some(id),
{
    assert(s.facts.push(new_fact(command, context, id, now))[i] == s.facts[i]);
}

/// Set-valued facts are different values of one subject, not competing claims: writing one
/// leaves every other as it is.
pub proof fn law_set_valued_facts_coexist(
    s: StoreModel,
    command: RememberCommandModel,
    context: FactContextModel,
    id: FactId,
    now: Seq<char>,
)
    requires
        command.cardinality == Cardinality::Many,
    ensures
        with_fact(s, command, context, id, now).facts == s.facts.push(
            new_fact(command, context, id, now),
        ),
{
}

/// The history of a name holds every value it has had in a namespace, superseded and
/// withdrawn ones included, and nothing else.
pub proof fn law_history_holds_every_value(
    s: StoreModel,
    name: Seq<char>,
    namespace: Option<Seq<char>>,
    i: int,
)
    requires
        0 <= i < s.facts.len(),
    ensures
        history_rows(s, name, namespace).contains(i) <==> s.facts[i].name == name
            && s.facts[i].namespace == namespace,
{
    let keys = written_keys(s.facts);
    let marks = value_marks(s.facts, name, namespace);
    law_arranged_lists_the_selected(keys, marks, newest_first());
    let rows = history_rows(s, name, namespace);
    assert(marks[i] == (s.facts[i].name == name && s.facts[i].namespace == namespace));
    if rows.contains(i) {
        let k = choose|k: int| 0 <= k < rows.len() && rows[k] == i;
        assert(marks[rows[k]]);
    }
}

// --- retrieval is scoped ---------------------------------------------------

/// Everything retrieved is visible: it is about the person, or of a namespace or workspace
/// the caller is in; it was not withdrawn, and nothing took its place.
pub proof fn law_only_visible_facts_are_retrieved(
    s: StoreModel,
    query: FactQueryModel,
    found: RelevanceModel,
    k: int,
)
    requires
        0 <= k < selected_rows(s, query, found).len(),
    ensures
        0 <= selected_rows(s, query, found)[k] < s.facts.len(),
        visible(s.facts[selected_rows(s, query, found)[k]], query),
{
    let rows = selected_rows(s, query, found);
    if expression_of(query.text) is Some {
        let keys = match_keys(s.facts, found.matches);
        let marks = matching_marks(s.facts, query, found.matches);
        law_arranged_lists_the_selected(keys, marks, latest_first());
        let all = arranged(keys, marks, latest_first());
        let p = relevant(s.facts, found.matches, found.cutoff);
        let order = matched_order(s, query, found.matches);
        order.lemma_filter_contains_rev(p, rows[k]);
        let j = choose|j: int| 0 <= j < order.len() && order[j] == rows[k];
        assert(order[j] == all[j]);
        assert(marks[all[j]]);
    } else {
        let keys = trust_keys(s.facts);
        let marks = visible_marks(s.facts, query);
        law_arranged_lists_the_selected(keys, marks, latest_first());
        let all = arranged(keys, marks, latest_first());
        assert(rows[k] == all[k]);
        assert(marks[all[k]]);
    }
}

/// A query without words finds everything that is visible, as long as there is room.
pub proof fn law_every_visible_fact_is_retrieved(
    s: StoreModel,
    query: FactQueryModel,
    found: RelevanceModel,
    i: int,
)
    requires
        expression_of(query.text) is None,
        0 <= i < s.facts.len(),
        visible(s.facts[i], query),
        arranged(trust_keys(s.facts), visible_marks(s.facts, query), latest_first()).len()
            <= allowed(query),
    ensures
        selected_rows(s, query, found).contains(i),
{
    let keys = trust_keys(s.facts);
    let marks = visible_marks(s.facts, query);
    law_arranged_lists_the_selected(keys, marks, latest_first());
    assert(marks[i]);
}

/// No more comes back than was asked for.
pub proof fn law_the_limit_is_honoured(s: StoreModel, query: FactQueryModel, found: RelevanceModel)
    ensures
        selected_rows(s, query, found).len() <= allowed(query),
{
    if expression_of(query.text) is Some {
        matched_order(s, query, found.matches).lemma_filter_len(
            relevant(s.facts, found.matches, found.cutoff),
        );
    }
}

/// A fact of one project does not surface in another: where it is not about the person, and
/// neither its namespace nor its workspace is the caller's, no query brings it back.
pub proof fn law_facts_do_not_leak_between_projects(
    s: StoreModel,
    query: FactQueryModel,
    found: RelevanceModel,
    i: int,
)
    requires
        0 <= i < s.facts.len(),
        s.facts[i].scope != FactScope::User,
        s.facts[i].namespace matches Some(name) ==> !query.namespaces.contains(name),
        query.workspace_id is None || s.facts[i].workspace_id != query.workspace_id,
    ensures
        !selected_rows(s, query, found).contains(i),
{
    let rows = selected_rows(s, query, found);
    if rows.contains(i) {
        let k = choose|k: int| 0 <= k < rows.len() && rows[k] == i;
        law_only_visible_facts_are_retrieved(s, query, found, k);
    }
}

/// A withdrawn fact, and one that another took the place of, is never retrieved.
pub proof fn law_withdrawn_and_superseded_facts_do_not_come_back(
    s: StoreModel,
    query: FactQueryModel,
    found: RelevanceModel,
    i: int,
)
    requires
        0 <= i < s.facts.len(),
        s.facts[i].status == FactStatus::Revoked || s.facts[i].superseded_by is Some,
    ensures
        !selected_rows(s, query, found).contains(i),
{
    let rows = selected_rows(s, query, found);
    if rows.contains(i) {
        let k = choose|k: int| 0 <= k < rows.len() && rows[k] == i;
        law_only_visible_facts_are_retrieved(s, query, found, k);
    }
}

/// What is about the person is visible wherever they work.
pub proof fn law_user_facts_apply_everywhere(f: FactRowModel, query: FactQueryModel)
    requires
        f.scope == FactScope::User,
        retrievable(f),
    ensures
        visible(f, query),
{
}

/// What was filed under a workspace reaches every repository of it.
pub proof fn law_workspace_facts_reach_the_whole_group(f: FactRowModel, query: FactQueryModel)
    requires
        f.workspace_id is Some,
        f.workspace_id == query.workspace_id,
        retrievable(f),
    ensures
        visible(f, query),
{
}

/// The index lists the very facts a search brings back, in the same order.
pub proof fn law_the_index_lists_what_a_search_finds(
    s: StoreModel,
    query: FactQueryModel,
    found: RelevanceModel,
    k: int,
)
    requires
        found_facts(s, query, found) is Ok,
        0 <= k < selected_rows(s, query, found).len(),
    ensures
        found_summaries(s, query, found).len() == found_facts(s, query, found)->Ok_0.len(),
        found_summaries(s, query, found)[k].fact_id == found_facts(s, query, found)->Ok_0[k].fact_id,
        found_summaries(s, query, found)[k].name == found_facts(s, query, found)->Ok_0[k].name,
        found_summaries(s, query, found)[k].title == found_facts(s, query, found)->Ok_0[k].title,
{
    let rows = selected_rows(s, query, found);
    lemma_facts_of(s, rows, k);
}

proof fn lemma_facts_of(s: StoreModel, rows: Seq<int>, k: int)
    requires
        facts_of(s, rows) is Ok,
        0 <= k < rows.len(),
    ensures
        facts_of(s, rows)->Ok_0.len() == rows.len(),
        fact_of(s, s.facts[rows[k]]) == Ok::<FactModel, StoreErrorModel>(
            facts_of(s, rows)->Ok_0[k],
        ),
{
    let readings = Seq::new(rows.len(), |i: int| fact_of(s, s.facts[rows[i]]));
    lemma_gathered_each(readings, k);
    assert(readings[k] == fact_of(s, s.facts[rows[k]]));
}

// --- what was written comes back -------------------------------------------

/// The positions from `from` on, `count` of them.
pub open spec fn stretch(from: int, count: nat) -> Seq<int> {
    Seq::new(count, |i: int| from + i)
}

proof fn lemma_equal_keys_keep_their_order(
    keys: Seq<KeyModel>,
    selected: Seq<bool>,
    from: int,
    count: nat,
    key: KeyModel,
)
    requires
        0 <= from,
        keys.len() == from + count,
        forall|i: int| 0 <= i < from ==> !#[trigger] selected[i],
        forall|i: int| from <= i < from + count ==> #[trigger] selected[i] && keys[i] == key,
    ensures
        arranged(keys, selected, ascending()) == stretch(from, count),
{
    let rows = stretch(from, count);
    lemma_text_lt_irreflexive(key.text);
    assert forall|k: int| 0 <= k < keys.len() && #[trigger] selected[k] implies rows.contains(k) by {
        assert(from <= k);
        assert(rows[k - from] == k);
    }
    assert forall|i: int| 0 <= i < rows.len() implies 0 <= #[trigger] rows[i] < keys.len()
        && selected[rows[i]] by {
        assert(rows[i] == from + i);
    }
    assert forall|i: int, j: int| 0 <= i < j < rows.len() implies precedes(
        keys,
        ascending(),
        #[trigger] rows[i],
        #[trigger] rows[j],
    ) by {
        assert(selected[from + i] && selected[from + j]);
    }
    assert(is_listing(keys, selected, ascending(), rows));
    lemma_arranged(keys, selected, ascending(), rows);
}

/// Evidence survives a round trip: a fact that is read back cites what it was written with,
/// in the order it was given.
pub proof fn law_evidence_survives(
    s: StoreModel,
    command: RememberCommandModel,
    context: FactContextModel,
    id: FactId,
    now: Seq<char>,
)
    requires
        forall|k: int| 0 <= k < s.evidence.len() ==> (#[trigger] s.evidence[k]).fact_id != id,
    ensures
        evidence_of(with_fact(s, command, context, id, now), id) == command.evidence,
{
    let after = with_fact(s, command, context, id, now);
    let from = s.evidence.len() as int;
    let count = command.evidence.len();
    let keys = evidence_keys(after.evidence);
    let marks = evidence_marks(after.evidence, id);
    let added = evidence_rows(id, command.evidence, now);
    assert forall|i: int| 0 <= i < from implies !#[trigger] marks[i] by {
        assert(after.evidence[i] == s.evidence[i]);
    }
    assert forall|i: int| from <= i < from + count implies #[trigger] marks[i] && keys[i] == (
    KeyModel { rank: 0, weight: 0, text: now }) by {
        assert(after.evidence[i] == added[i - from]);
    }
    lemma_equal_keys_keep_their_order(
        keys,
        marks,
        from,
        count,
        KeyModel { rank: 0, weight: 0, text: now },
    );
    assert forall|i: int| 0 <= i < count implies evidence_of(after, id)[i]
        == #[trigger] command.evidence[i] by {
        assert(after.evidence[from + i] == added[i]);
        assert(stretch(from, count)[i] == from + i);
    }
    assert(evidence_of(after, id) =~= command.evidence);
}

/// Links are kept as they were given, those to facts that were never written included.
pub proof fn law_links_survive(
    s: StoreModel,
    command: RememberCommandModel,
    context: FactContextModel,
    id: FactId,
    now: Seq<char>,
)
    requires
        forall|k: int| 0 <= k < s.relations.len() ==> (#[trigger] s.relations[k]).from_fact_id != id,
    ensures
        links_of(with_fact(s, command, context, id, now), id) == command.relates_to,
{
    let after = with_fact(s, command, context, id, now);
    let from = s.relations.len() as int;
    let count = command.relates_to.len();
    let keys = relation_keys(after.relations);
    let marks = relation_marks(after.relations, id);
    let added = relation_rows(id, command.relates_to, now);
    assert forall|i: int| 0 <= i < from implies !#[trigger] marks[i] by {
        assert(after.relations[i] == s.relations[i]);
    }
    assert forall|i: int| from <= i < from + count implies #[trigger] marks[i] && keys[i] == (
    KeyModel { rank: 0, weight: 0, text: now }) by {
        assert(after.relations[i] == added[i - from]);
    }
    lemma_equal_keys_keep_their_order(
        keys,
        marks,
        from,
        count,
        KeyModel { rank: 0, weight: 0, text: now },
    );
    assert forall|i: int| 0 <= i < count implies links_of(after, id)[i]
        == #[trigger] command.relates_to[i] by {
        assert(after.relations[from + i] == added[i]);
        assert(stretch(from, count)[i] == from + i);
    }
    assert(links_of(after, id) =~= command.relates_to);
}

/// A fact as it is read back after it was written at `updated_at`.
pub open spec fn written_fact(
    command: RememberCommandModel,
    context: FactContextModel,
    id: FactId,
    updated_at: Moment,
) -> FactModel {
    FactModel {
        fact_id: id,
        name: command.name,
        title: command.title,
        body: command.body,
        kind: command.kind,
        scope: command.scope,
        cardinality: command.cardinality,
        status: command.status,
        confidence: command.confidence,
        namespace: context.namespace,
        evidence: command.evidence,
        updated_at,
    }
}

/// Being seen from where it was written: about the person, or filed under a namespace or a
/// workspace.
pub open spec fn filed(command: RememberCommandModel, context: FactContextModel) -> bool {
    command.scope == FactScope::User || context.namespace is Some || context.workspace_id is Some
}

/// A remembered fact comes back by name, as it was written: what recall gives of the name
/// after the fact was written is that fact, unless the fact was written as withdrawn, or
/// another fact of the same name is visible too, or a stored time cannot be read.
pub proof fn law_what_was_remembered_is_recalled(
    s: StoreModel,
    command: RememberCommandModel,
    context: FactContextModel,
    id: FactId,
    now: Seq<char>,
)
    requires
        first_row(s.operations, is_operation(command.operation_id)) is None,
        !fact_taken(s, id),
        forall|k: int| 0 <= k < s.evidence.len() ==> (#[trigger] s.evidence[k]).fact_id != id,
        command.status != FactStatus::Revoked,
        filed(command, context),
        ({
            let after = remember_step(s, command, None, context, id, now).1;
            let query = recall_query(context);
            &&& forall|i: int|
                0 <= i < s.facts.len() && visible(#[trigger] after.facts[i], query)
                    ==> after.facts[i].name != command.name
            &&& forall|i: int|
                0 <= i < after.facts.len() && visible(#[trigger] after.facts[i], query)
                    ==> moment_of(after.facts[i].updated_at) is Ok
        }),
    ensures
        ({
            let (answer, after) = remember_step(s, command, None, context, id, now);
            &&& answer == Ok::<FactId, StoreErrorModel>(id)
            &&& moment_of(now) matches Ok(at) && recalled(after, command.name, context) == Ok::<
                Option<FactModel>,
                StoreErrorModel,
            >(Some(written_fact(command, context, id, at)))
        }),
{
    let after = remember_step(s, command, None, context, id, now).1;
    let query = recall_query(context);
    let keys = trust_keys(after.facts);
    let marks = visible_marks(after.facts, query);
    let rows = arranged(keys, marks, latest_first());
    let n = s.facts.len() as int;
    law_a_new_value_keeps_the_old_ones(s, command, context, id, now);
    assert(after.facts[n] == new_fact(command, context, id, now));
    if let Some(name) = context.namespace {
        assert(query.namespaces[0] == name);
    }
    assert(visible(after.facts[n], query));
    law_arranged_lists_the_selected(keys, marks, latest_first());
    assert(visible_rows(after, query) == rows);
    let readings = Seq::new(rows.len(), |i: int| fact_of(after, after.facts[rows[i]]));
    assert forall|i: int| 0 <= i < readings.len() implies (#[trigger] readings[i]) is Ok by {
        assert(marks[rows[i]]);
        assert(visible(after.facts[rows[i]], query));
    }
    lemma_gathered_ok(readings);
    let found = facts_of(after, rows)->Ok_0;
    assert(marks[n]);
    let k = choose|k: int| 0 <= k < rows.len() && rows[k] == n;
    let p = is_named(command.name);
    lemma_facts_of(after, rows, k);
    law_evidence_survives(s, command, context, id, now);
    assert(evidence_of(after, id) == evidence_of(with_fact(s, command, context, id, now), id));
    assert forall|j: int| 0 <= j < k implies !p(#[trigger] found[j]) by {
        lemma_facts_of(after, rows, j);
        assert(marks[rows[j]]);
        if rows[j] == n {
            assert(precedes(keys, latest_first(), rows[j], rows[k]));
            lemma_text_lt_irreflexive(keys[n].text);
        }
        assert(visible(after.facts[rows[j]], query));
    }
    assert(is_first(found, p, k));
    lemma_first(found, p, k);
}

// --- what a session has been shown ----------------------------------------

proof fn lemma_shown_rows(
    pushes: Seq<PushRowModel>,
    session: Seq<char>,
    candidates: Seq<FactSummaryModel>,
    now: Seq<char>,
)
    ensures
        ({
            let (fresh, rows) = shown(pushes, session, candidates, now);
            &&& rows.len() == pushes.len() + fresh.len()
            &&& forall|i: int| 0 <= i < pushes.len() ==> #[trigger] rows[i] == pushes[i]
            &&& forall|i: int|
                0 <= i < fresh.len() ==> rows[pushes.len() + i] == (PushRowModel {
                    session,
                    fact_id: (#[trigger] fresh[i]).fact_id,
                    pushed_at: now,
                })
            &&& forall|i: int|
                0 <= i < candidates.len() ==> any_row(
                    rows,
                    is_push(session, (#[trigger] candidates[i]).fact_id),
                )
            &&& forall|i: int|
                0 <= i < fresh.len() ==> !any_row(
                    pushes,
                    is_push(session, (#[trigger] fresh[i]).fact_id),
                )
        }),
    decreases candidates.len(),
{
    if candidates.len() > 0 {
        let front = candidates.drop_last();
        lemma_shown_rows(pushes, session, front, now);
        let (fresh, rows) = shown(pushes, session, front, now);
        let (more, longer) = shown(pushes, session, candidates, now);
        let last = candidates.last();
        let p = is_push(session, last.fact_id);
        assert forall|i: int| 0 <= i < candidates.len() implies any_row(
            longer,
            is_push(session, (#[trigger] candidates[i]).fact_id),
        ) by {
            let q = is_push(session, candidates[i].fact_id);
            if i < front.len() {
                assert(front[i] == candidates[i]);
                let j = choose|j: int| 0 <= j < rows.len() && q(#[trigger] rows[j]);
                assert(q(longer[j]));
            } else if any_row(rows, p) {
                let j = choose|j: int| 0 <= j < rows.len() && p(#[trigger] rows[j]);
                assert(q(longer[j]));
            } else {
                assert(q(longer[rows.len() as int]));
            }
        }
        assert forall|i: int| 0 <= i < more.len() implies !any_row(
            pushes,
            is_push(session, (#[trigger] more[i]).fact_id),
        ) by {
            if i < fresh.len() {
                assert(more[i] == fresh[i]);
            } else {
                assert(more[i] == last);
                assert(!any_row(rows, p));
                assert forall|j: int| 0 <= j < pushes.len() implies !p(#[trigger] pushes[j]) by {
                    assert(rows[j] == pushes[j]);
                }
            }
        }
    }
}

proof fn lemma_nothing_fresh(
    pushes: Seq<PushRowModel>,
    session: Seq<char>,
    candidates: Seq<FactSummaryModel>,
    now: Seq<char>,
)
    requires
        forall|i: int|
            0 <= i < candidates.len() ==> any_row(
                pushes,
                is_push(session, (#[trigger] candidates[i]).fact_id),
            ),
    ensures
        shown(pushes, session, candidates, now) == (Seq::<FactSummaryModel>::empty(), pushes),
    decreases candidates.len(),
{
    if candidates.len() > 0 {
        let front = candidates.drop_last();
        assert forall|i: int| 0 <= i < front.len() implies any_row(
            pushes,
            is_push(session, (#[trigger] front[i]).fact_id),
        ) by {
            assert(front[i] == candidates[i]);
        }
        lemma_nothing_fresh(pushes, session, front, now);
        assert(any_row(
            pushes,
            is_push(session, candidates[candidates.len() - 1].fact_id),
        ));
    }
}

/// A session is shown a fact once: asking again brings back nothing, and nothing more is
/// recorded.
pub proof fn law_a_fact_is_pushed_once(
    s: StoreModel,
    session: Seq<char>,
    query: FactQueryModel,
    found: RelevanceModel,
    now: Seq<char>,
    later: Seq<char>,
)
    ensures
        ({
            let after = push_step(s, session, query, found, now).1;
            push_step(after, session, query, found, later) == (
                Seq::<FactSummaryModel>::empty(),
                after,
            )
        }),
{
    let candidates = found_summaries(s, query, found);
    lemma_shown_rows(s.pushes, session, candidates, now);
    let after = push_step(s, session, query, found, now).1;
    assert(found_summaries(after, query, found) =~= candidates);
    lemma_nothing_fresh(after.pushes, session, candidates, later);
}

/// What is pushed was not pushed into that session before.
pub proof fn law_what_is_pushed_is_new_to_the_session(
    s: StoreModel,
    session: Seq<char>,
    query: FactQueryModel,
    found: RelevanceModel,
    now: Seq<char>,
    i: int,
)
    requires
        0 <= i < push_step(s, session, query, found, now).0.len(),
    ensures
        !any_row(
            s.pushes,
            is_push(session, push_step(s, session, query, found, now).0[i].fact_id),
        ),
{
    lemma_shown_rows(s.pushes, session, found_summaries(s, query, found), now);
}

} // verus!
