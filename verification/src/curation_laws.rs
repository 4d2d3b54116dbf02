//! What holds of curation as a whole: nothing there destroys anything.

use vstd::prelude::*;

use crate::curation::{
    browsed_rows, edit_step, folded, in_state, is_fact, is_retrievable, listed, listed_marks,
    marks_around, merge_step, opened, overlap, rescoped, reworded, saying, title_words,
    verify_step, with_changed_fact, withdrawn, FactFilterModel, VERIFIED_CONFIDENCE,
};
use crate::domain::EvidenceModel;
use crate::error::StoreErrorModel;
use crate::facts::FactQueryModel;
use crate::grouping::{promotable, promote_step};
use crate::ids::{FactId, WorkspaceId};
use crate::keys::{dangling, fact_taken};
use crate::memory_laws::same_claim;
use crate::order::{
    arranged, law_arranged_lists_the_selected, lemma_precedes_total, place_of_number,
};
use crate::plan::{ascending, latest_first};
use crate::retrieval::{
    fact_of, facts_of, links_of, live_marks, live_rows, relation_keys, relation_marks, retrievable,
    trust_keys, visible, written_keys,
};
use crate::rows::{
    changed, first_index, first_row, is_first, lemma_first, lemma_first_is_first, lemma_no_first,
    lemma_tally_step, tally,
};
use crate::sessions::newest_first;
use crate::states::{FactScope, FactStatus, RelationKind};
use crate::tables::{FactRowModel, StoreModel};
use crate::text::{
    all_ascii, ascii, ascii_lower, ascii_lowered, ascii_uppered, lemma_pieces_nonempty,
    letter_or_digit, lowered, occurs_in, pieces, stands_at,
};
use crate::values::{lemma_gathered_each, lemma_gathered_len, moment_of};

verus! {

proof fn lemma_changed_first(
    facts: Seq<FactRowModel>,
    id: FactId,
    f: spec_fn(FactRowModel) -> FactRowModel,
)
    requires
        forall|row: FactRowModel| (#[trigger] f(row)).id == row.id,
    ensures
        first_row(changed(facts, is_fact(id), f), is_fact(id)) == match first_row(
            facts,
            is_fact(id),
        ) {
            Some(row) => Some(f(row)),
            None => None,
        },
{
    let p = is_fact(id);
    let after = changed(facts, p, f);
    lemma_first_is_first(facts, p);
    match first_index(facts, p) {
        Some(i) => {
            assert(is_first(after, p, i));
            lemma_first(after, p, i);
        },
        None => {
            lemma_no_first(after, p);
        },
    }
}

// --- withdrawing -----------------------------------------------------------

/// A withdrawn fact stops being retrieved, from wherever it is asked for.
pub proof fn law_a_withdrawn_fact_is_not_visible(
    f: FactRowModel,
    reason: Seq<char>,
    now: Seq<char>,
    query: FactQueryModel,
)
    ensures
        !visible(withdrawn(reason, now)(f), query),
{
}

/// A withdrawn fact stays readable, and says why it was withdrawn: what it said stands at the
/// front of its body, and the reason behind it.
pub proof fn law_a_withdrawn_fact_stays_readable(
    s: StoreModel,
    id: FactId,
    reason: Seq<char>,
    now: Seq<char>,
)
    requires
        first_row(s.facts, is_fact(id)) matches Some(f) && f.status != FactStatus::Revoked,
        moment_of(now) is Ok,
    ensures
        ({
            let before = first_row(s.facts, is_fact(id))->0;
            let after = with_changed_fact(s, id, withdrawn(reason, now));
            opened(after, id) matches Ok(Some(fact)) && fact.status == FactStatus::Revoked
                && fact.title == before.title && fact.body == before.body + "\n\nWithdrawn: "@
                + reason && occurs_in(reason, fact.body)
        }),
{
    let before = first_row(s.facts, is_fact(id))->0;
    let after = with_changed_fact(s, id, withdrawn(reason, now));
    lemma_changed_first(s.facts, id, withdrawn(reason, now));
    let body = before.body + "\n\nWithdrawn: "@ + reason;
    let at: int = before.body.len() as int + "\n\nWithdrawn: "@.len();
    assert(body.subrange(at, at + reason.len()) =~= reason);
    assert(stands_at(body, reason, at));
}

/// Withdrawing a fact that was withdrawn changes nothing: the reason it has stays.
pub proof fn law_withdrawing_twice_keeps_the_first_reason(
    s: StoreModel,
    id: FactId,
    reason: Seq<char>,
    now: Seq<char>,
    other: Seq<char>,
    later: Seq<char>,
)
    ensures
        ({
            let after = with_changed_fact(s, id, withdrawn(reason, now));
            with_changed_fact(after, id, withdrawn(other, later)) == after
        }),
{
    let after = with_changed_fact(s, id, withdrawn(reason, now));
    assert(with_changed_fact(after, id, withdrawn(other, later)).facts =~= after.facts);
}

/// A withdrawal can be undone: reinstated in whatever status but the withdrawn one, a fact
/// has that status and is visible wherever it was before.
pub proof fn law_a_withdrawal_can_be_undone(
    s: StoreModel,
    id: FactId,
    reason: Seq<char>,
    now: Seq<char>,
    status: FactStatus,
    later: Seq<char>,
    query: FactQueryModel,
    i: int,
)
    requires
        status != FactStatus::Revoked,
        0 <= i < s.facts.len(),
        s.facts[i].id == id,
        visible(s.facts[i], query),
    ensures
        ({
            let gone = with_changed_fact(s, id, withdrawn(reason, now));
            let back = with_changed_fact(gone, id, in_state(status, later));
            &&& back.facts[i].status == status
            &&& visible(back.facts[i], query)
        }),
{
}

// --- confirming ------------------------------------------------------------

/// Confirming something never lowers how far it is trusted, and cites what confirmed it;
/// without evidence it is refused, and nothing changes.
pub proof fn law_confirming_raises_trust(
    s: StoreModel,
    id: FactId,
    evidence: Seq<EvidenceModel>,
    now: Seq<char>,
    i: int,
)
    requires
        0 <= i < s.facts.len(),
        s.facts[i].id == id,
    ensures
        ({
            let (answer, after) = verify_step(s, id, evidence, now);
            if evidence.len() == 0 {
                answer is Err && after == s
            } else {
                &&& answer is Ok
                &&& after.facts[i].status == FactStatus::Verified
                &&& place_of_number(after.facts[i].confidence) >= place_of_number(
                    s.facts[i].confidence,
                )
                &&& place_of_number(after.facts[i].confidence) >= place_of_number(
                    VERIFIED_CONFIDENCE,
                )
                &&& after.evidence.len() == s.evidence.len() + evidence.len()
            }
        }),
{
}

// --- correcting ------------------------------------------------------------

/// A correction supersedes rather than overwrites: what was believed before stays, word for
/// word, and the new wording stands beside it as the current value.
pub proof fn law_a_correction_keeps_the_previous_version(
    s: StoreModel,
    id: FactId,
    title: Seq<char>,
    body: Seq<char>,
    replacement: FactId,
    now: Seq<char>,
)
    requires
        edit_step(s, id, title, body, replacement, now).0 is Ok,
    ensures
        ({
            let (answer, after) = edit_step(s, id, title, body, replacement, now);
            let before = first_row(s.facts, is_fact(id))->0;
            &&& answer == Ok::<FactId, StoreErrorModel>(replacement)
            &&& after.facts.len() == s.facts.len() + 1
            &&& forall|i: int|
                0 <= i < s.facts.len() ==> same_claim(s.facts[i], #[trigger] after.facts[i])
            &&& forall|i: int|
                0 <= i < s.facts.len() && (#[trigger] s.facts[i]).id == id
                    ==> after.facts[i].superseded_by == Some(replacement)
            &&& after.facts.last() == reworded(before, replacement, title, body, now)
            &&& after.facts.last().superseded_by is None
        }),
{
    let before = first_row(s.facts, is_fact(id))->0;
    let added = reworded(before, replacement, title, body, now);
    let written = s.facts.push(added);
    lemma_first_is_first(s.facts, is_fact(id));
    assert(replacement != id);
    let after = edit_step(s, id, title, body, replacement, now).1;
    assert forall|i: int| 0 <= i < s.facts.len() implies same_claim(
        s.facts[i],
        #[trigger] after.facts[i],
    ) by {
        assert(written[i] == s.facts[i]);
    }
    assert forall|i: int| 0 <= i < s.facts.len() && (#[trigger] s.facts[i]).id == id implies
        after.facts[i].superseded_by == Some(replacement) by {
        assert(written[i] == s.facts[i]);
    }
    assert(written[s.facts.len() as int] == added);
}

// --- merging ---------------------------------------------------------------

/// A merge leaves what was folded in readable, word for word, but no longer retrieved, and
/// links the fact that survived to its name.
pub proof fn law_a_merge_leaves_a_trace(
    s: StoreModel,
    keep: FactId,
    duplicate: FactId,
    now: Seq<char>,
)
    requires
        keep != duplicate,
        first_row(s.facts, is_fact(duplicate)) is Some,
        fact_taken(s, keep),
    ensures
        ({
            let (answer, after) = merge_step(s, keep, duplicate, now);
            let folded = first_row(s.facts, is_fact(duplicate))->0;
            &&& answer is Ok
            &&& after.facts.len() == s.facts.len()
            &&& forall|i: int|
                0 <= i < s.facts.len() ==> same_claim(s.facts[i], #[trigger] after.facts[i])
            &&& forall|i: int|
                0 <= i < s.facts.len() && (#[trigger] s.facts[i]).id == duplicate ==> !retrievable(
                    after.facts[i],
                )
            &&& forall|i: int|
                0 <= i < s.facts.len() && (#[trigger] s.facts[i]).id != duplicate
                    ==> after.facts[i] == s.facts[i]
            &&& links_of(after, keep).contains((folded.name, RelationKind::Supersedes))
        }),
{
    let after = merge_step(s, keep, duplicate, now).1;
    let folded = first_row(s.facts, is_fact(duplicate))->0;
    let n = s.relations.len() as int;
    let keys = relation_keys(after.relations);
    let marks = relation_marks(after.relations, keep);
    law_arranged_lists_the_selected(keys, marks, ascending());
    assert(marks[n]);
    let order = arranged(keys, marks, ascending());
    let k = choose|k: int| 0 <= k < order.len() && order[k] == n;
    assert(links_of(after, keep)[k] == (folded.name, RelationKind::Supersedes));
}

/// A fact cannot be folded into one that is not there, and trying changes nothing: what took
/// the place of a fact can always be looked up.
pub proof fn law_a_merge_needs_the_fact_to_keep(
    s: StoreModel,
    keep: FactId,
    duplicate: FactId,
    now: Seq<char>,
)
    requires
        keep != duplicate,
        fact_taken(s, duplicate),
        !fact_taken(s, keep),
    ensures
        merge_step(s, keep, duplicate, now) == (Err::<(), StoreErrorModel>(dangling()), s),
{
    let i = choose|i: int| 0 <= i < s.facts.len() && (#[trigger] s.facts[i]).id == duplicate;
    assert(is_fact(duplicate)(s.facts[i]));
    lemma_first_is_first(s.facts, is_fact(duplicate));
}

/// A fact cannot be merged into itself, and trying changes nothing.
pub proof fn law_a_fact_is_not_merged_into_itself(s: StoreModel, id: FactId, now: Seq<char>)
    ensures
        merge_step(s, id, id, now).0 is Err,
        merge_step(s, id, id, now).1 == s,
{
}

// --- promoting -------------------------------------------------------------

/// One fact moved to a workspace is seen from all of it.
pub proof fn law_a_promoted_fact_reaches_the_group(
    f: FactRowModel,
    workspace: WorkspaceId,
    now: Seq<char>,
    query: FactQueryModel,
)
    requires
        retrievable(f),
        query.workspace_id == Some(workspace),
    ensures
        visible(rescoped(FactScope::Workspace, Some(workspace), now)(f), query),
{
}

/// A promoted namespace is seen from the whole workspace: every retrievable fact of it that is
/// not about the person is visible there, and every other fact stays as it was.
pub proof fn law_a_promoted_namespace_reaches_the_group(
    s: StoreModel,
    namespace: Seq<char>,
    workspace: WorkspaceId,
    now: Seq<char>,
    query: FactQueryModel,
    i: int,
)
    requires
        0 <= i < s.facts.len(),
        query.workspace_id == Some(workspace),
    ensures
        ({
            let after = promote_step(s, namespace, workspace, now).1;
            if promotable(namespace)(s.facts[i]) {
                retrievable(s.facts[i]) ==> visible(after.facts[i], query)
            } else {
                after.facts[i] == s.facts[i]
            }
        }),
{
}

// --- browsing --------------------------------------------------------------

/// Browsing without a limit lists exactly the facts that match.
pub proof fn law_browsing_lists_what_matches(s: StoreModel, filter: FactFilterModel, i: int)
    requires
        filter.limit is None,
        0 <= i < s.facts.len(),
    ensures
        browsed_rows(s, filter).contains(i) <==> listed(s.facts[i], filter),
{
    let keys = written_keys(s.facts);
    let marks = listed_marks(s.facts, filter);
    law_arranged_lists_the_selected(keys, marks, newest_first());
    let rows = browsed_rows(s, filter);
    assert(marks[i] == listed(s.facts[i], filter));
    if rows.contains(i) {
        let k = choose|k: int| 0 <= k < rows.len() && rows[k] == i;
        assert(marks[rows[k]]);
    }
}

// --- exporting -------------------------------------------------------------

/// The positions of the rows before `bound` that satisfy `p`.
pub open spec fn places<A>(rows: Seq<A>, p: spec_fn(A) -> bool, bound: int) -> Set<int> {
    Set::new(|k: int| 0 <= k < bound && p(rows[k]))
}

proof fn lemma_places<A>(rows: Seq<A>, p: spec_fn(A) -> bool, bound: int)
    requires
        0 <= bound <= rows.len(),
    ensures
        places(rows, p, bound).finite(),
        places(rows, p, bound).len() == tally(rows.take(bound), p),
    decreases bound,
{
    if bound == 0 {
        assert(places(rows, p, 0) =~= Set::empty());
    } else {
        let n = bound - 1;
        lemma_places(rows, p, n);
        lemma_tally_step(rows, p, n);
        if p(rows[n]) {
            assert(places(rows, p, bound) =~= places(rows, p, n).insert(n));
        } else {
            assert(places(rows, p, bound) =~= places(rows, p, n));
        }
    }
}

/// What is exported is everything currently retrievable, each fact once, whatever its scope
/// and wherever it was filed: as many facts as an overview counts.
pub proof fn law_everything_retrievable_is_exported(s: StoreModel)
    ensures
        live_rows(s).no_duplicates(),
        forall|i: int|
            live_rows(s).contains(i) <==> 0 <= i < s.facts.len() && retrievable(
                #[trigger] s.facts[i],
            ),
        live_rows(s).len() == tally(s.facts, is_retrievable()),
        facts_of(s, live_rows(s)) matches Ok(exported) ==> {
            &&& exported.len() == tally(s.facts, is_retrievable())
            &&& forall|k: int|
                0 <= k < exported.len() ==> (#[trigger] exported[k]).fact_id
                    == s.facts[live_rows(s)[k]].id
        },
{
    let keys = trust_keys(s.facts);
    let marks = live_marks(s.facts);
    let rows = live_rows(s);
    let p = is_retrievable();
    let n = s.facts.len() as int;
    law_arranged_lists_the_selected(keys, marks, latest_first());
    assert forall|i: int, j: int| 0 <= i < j < rows.len() implies rows[i] != rows[j] by {
        if rows[i] == rows[j] {
            lemma_precedes_total(keys, latest_first(), rows[i], rows[j]);
        }
    }
    assert forall|i: int| rows.contains(i) <==> 0 <= i < n && retrievable(
        #[trigger] s.facts[i],
    ) by {
        if 0 <= i < n && retrievable(s.facts[i]) {
            assert(marks[i]);
        }
        if rows.contains(i) {
            let k = choose|k: int| 0 <= k < rows.len() && rows[k] == i;
            assert(marks[rows[k]]);
        }
    }
    rows.unique_seq_to_set();
    lemma_places(s.facts, p, n);
    assert(s.facts.take(n) =~= s.facts);
    assert(rows.to_set() =~= places(s.facts, p, n)) by {
        assert forall|i: int| rows.to_set().contains(i) <==> places(s.facts, p, n).contains(i) by {
            assert(rows.to_set().contains(i) <==> rows.contains(i));
            let f = s.facts[i];
        }
    }
    if let Ok(exported) = facts_of(s, rows) {
        let readings = Seq::new(rows.len(), |i: int| fact_of(s, s.facts[rows[i]]));
        lemma_gathered_len(readings);
        assert forall|k: int| 0 <= k < exported.len() implies (#[trigger] exported[k]).fact_id
            == s.facts[rows[k]].id by {
            lemma_gathered_each(readings, k);
        }
    }
}

// --- finding duplicates ----------------------------------------------------

/// Whether two titles look like the same thing does not depend on which comes first.
pub proof fn law_the_order_of_titles_does_not_matter(left: Seq<char>, right: Seq<char>)
    ensures
        overlap(title_words(left), title_words(right)) == overlap(
            title_words(right),
            title_words(left),
        ),
{
    let a = title_words(left);
    let b = title_words(right);
    assert(a.intersect(b) =~= b.intersect(a));
}

/// ASCII texts that differ in the case of their letters alone.
pub open spec fn same_but_case(a: Seq<char>, b: Seq<char>) -> bool {
    all_ascii(a) && all_ascii(b) && ascii_lowered(a) == ascii_lowered(b)
}

proof fn lemma_same_but_case_at(a: Seq<char>, b: Seq<char>, i: int)
    requires
        same_but_case(a, b),
        0 <= i < a.len(),
    ensures
        a.len() == b.len(),
        ascii(a[i]) && ascii(b[i]),
        ascii_lower(a[i]) == ascii_lower(b[i]),
        letter_or_digit(a[i]) == letter_or_digit(b[i]),
{
    assert(ascii_lowered(a).len() == ascii_lowered(b).len());
    assert(ascii_lowered(a)[i] == ascii_lower(a[i]));
    assert(ascii_lowered(b)[i] == ascii_lower(b[i]));
    assert(ascii(a[i]) && ascii(b[i]));
}

proof fn lemma_pieces_but_case(a: Seq<char>, b: Seq<char>, marks: Seq<bool>)
    requires
        same_but_case(a, b),
    ensures
        pieces(a, marks).len() == pieces(b, marks).len(),
        forall|k: int|
            0 <= k < pieces(a, marks).len() ==> same_but_case(
                #[trigger] pieces(a, marks)[k],
                pieces(b, marks)[k],
            ),
    decreases a.len(),
{
    assert(ascii_lowered(a).len() == ascii_lowered(b).len());
    if a.len() > 0 {
        let n = a.len() - 1;
        lemma_same_but_case_at(a, b, n);
        let x = a.drop_last();
        let y = b.drop_last();
        assert forall|i: int| 0 <= i < x.len() implies ascii(#[trigger] x[i]) && ascii(
            y[i],
        ) && ascii_lower(x[i]) == ascii_lower(y[i]) by {
            lemma_same_but_case_at(a, b, i);
        }
        assert(all_ascii(y)) by {
            assert forall|i: int| 0 <= i < y.len() implies ascii(#[trigger] y[i]) by {
                assert(ascii(x[i]));
            }
        }
        assert(ascii_lowered(x) =~= ascii_lowered(y));
        lemma_pieces_but_case(x, y, marks);
        lemma_pieces_nonempty(x, marks);
        lemma_pieces_nonempty(y, marks);
        let before = pieces(x, marks);
        let last = before.len() - 1;
        let u = before[last];
        let v = pieces(y, marks)[last];
        assert(same_but_case(u, v));
        assert(ascii_lowered(u).len() == ascii_lowered(v).len());
        assert(ascii_lowered(u.push(a[n])) =~= ascii_lowered(u).push(ascii_lower(a[n])));
        assert(ascii_lowered(v.push(b[n])) =~= ascii_lowered(v).push(ascii_lower(b[n])));
        assert(same_but_case(u.push(a[n]), v.push(b[n])));
        assert(same_but_case(Seq::<char>::empty(), Seq::<char>::empty()));
    }
}

proof fn lemma_words_but_case(one: Seq<char>, other: Seq<char>, word: Seq<char>)
    requires
        same_but_case(one, other),
        title_words(one).contains(word),
    ensures
        title_words(other).contains(word),
{
    let marks = marks_around(one);
    let p = saying();
    assert(ascii_lowered(one).len() == ascii_lowered(other).len());
    assert(marks =~= marks_around(other)) by {
        assert forall|i: int| 0 <= i < marks.len() implies marks[i] == marks_around(other)[i] by {
            lemma_same_but_case_at(one, other, i);
        }
    }
    lemma_pieces_but_case(one, other, marks);
    let all = pieces(one, marks);
    let others = pieces(other, marks);
    let found = all.filter(p);
    let low = |w: Seq<char>| lowered(w);
    assert(folded(found).contains(word));
    assert(found.map_values(low).contains(word));
    let i = choose|i: int|
        0 <= i < found.map_values(low).len() && found.map_values(low)[i] == word;
    all.lemma_filter_pred(p, i);
    assert(found.contains(found[i]));
    all.lemma_filter_contains_rev(p, found[i]);
    let k = choose|k: int| 0 <= k < all.len() && all[k] == found[i];
    assert(same_but_case(all[k], others[k]));
    assert(ascii_lowered(all[k]).len() == ascii_lowered(others[k]).len());
    assert(p(others[k]));
    others.lemma_filter_contains(p, k);
    let kept = others.filter(p);
    let j = choose|j: int| 0 <= j < kept.len() && kept[j] == others[k];
    assert(kept.map_values(low)[j] == word);
}

/// Nor on the case of ASCII letters: ASCII titles that differ in case alone have the same
/// words, so that each looks like whatever the other looks like.
pub proof fn law_the_case_of_a_title_does_not_matter(
    one: Seq<char>,
    other: Seq<char>,
    right: Seq<char>,
)
    requires
        same_but_case(one, other),
    ensures
        title_words(one) == title_words(other),
        overlap(title_words(one), title_words(right)) == overlap(
            title_words(other),
            title_words(right),
        ),
{
    assert forall|w: Seq<char>| title_words(one).contains(w) <==> title_words(other).contains(
        w,
    ) by {
        if title_words(one).contains(w) {
            lemma_words_but_case(one, other, w);
        }
        if title_words(other).contains(w) {
            lemma_words_but_case(other, one, w);
        }
    }
    assert(title_words(one) =~= title_words(other));
}

/// A title in upper case looks like whatever it looks like in lower case.
pub proof fn law_upper_and_lower_case_titles_are_alike(left: Seq<char>, right: Seq<char>)
    requires
        all_ascii(left),
    ensures
        overlap(title_words(ascii_uppered(left)), title_words(right)) == overlap(
            title_words(ascii_lowered(left)),
            title_words(right),
        ),
{
    let up = ascii_uppered(left);
    let low = ascii_lowered(left);
    assert forall|i: int| 0 <= i < left.len() implies ascii(#[trigger] up[i]) && ascii(low[i])
        && ascii_lower(up[i]) == ascii_lower(low[i]) by {
        assert(ascii(left[i]));
    }
    assert(all_ascii(low)) by {
        assert forall|i: int| 0 <= i < low.len() implies ascii(#[trigger] low[i]) by {
            assert(ascii(up[i]));
        }
    }
    assert(ascii_lowered(up) =~= ascii_lowered(low));
    law_the_case_of_a_title_does_not_matter(up, low, right);
}

} // verus!
