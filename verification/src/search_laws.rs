//! What holds of searching memory: which facts a query is answered with, and in what order.

use vstd::prelude::*;

use crate::domain::FactSummaryModel;
use crate::error::StoreErrorModel;
use crate::facts::FactQueryModel;
use crate::ids::FactId;
use crate::order::{
    arranged, law_arranged_lists_the_selected, lemma_text_lt_irreflexive, place_of_number, precedes,
    text_lt,
};
use crate::plan::latest_first;
use crate::retrieval::{
    allowed, best_score, expression_of, fact_of, found_facts, found_summaries, history_rows,
    is_match, match_keys, matched_order, matching_marks, namespaces_of, relevant, score_of,
    selected_rows, trust_keys, value_marks, visible, visible_marks, written_keys, FactMatch,
    RelevanceModel,
};
use crate::rows::{is_first, lemma_filter_keeps_order, lemma_first, lemma_first_is_first};
use crate::sessions::newest_first;
use crate::states::{FactScope, FactStatus};
use crate::tables::{FactRowModel, StoreModel};
use crate::values::{lemma_gathered_each, moment_of};

verus! {

// --- what a query is answered with -----------------------------------------

/// A fact that is current, was not withdrawn, and is about the person, or filed under a
/// namespace or the workspace that is asked for.
pub open spec fn in_scope(f: FactRowModel, query: FactQueryModel) -> bool {
    &&& f.superseded_by is None
    &&& f.status != FactStatus::Revoked
    &&& {
        ||| f.scope == FactScope::User
        ||| exists|i: int|
            0 <= i < query.namespaces.len() && f.namespace == Some(#[trigger] query.namespaces[i])
        ||| query.workspace_id is Some && f.workspace_id == query.workspace_id
    }
}

proof fn lemma_in_scope(f: FactRowModel, query: FactQueryModel)
    ensures
        visible(f, query) == in_scope(f, query),
{
    if let Some(name) = f.namespace {
        if query.namespaces.contains(name) {
            let i = choose|i: int| 0 <= i < query.namespaces.len() && query.namespaces[i] == name;
            assert(f.namespace == Some(query.namespaces[i]));
        }
    }
    if exists|i: int|
        0 <= i < query.namespaces.len() && f.namespace == Some(#[trigger] query.namespaces[i]) {
        let i = choose|i: int|
            0 <= i < query.namespaces.len() && f.namespace == Some(#[trigger] query.namespaces[i]);
        assert(query.namespaces.contains(query.namespaces[i]));
    }
}

/// Matches of different facts, each.
pub open spec fn apart(matches: Seq<FactMatch>) -> bool {
    forall|i: int, j: int|
        0 <= i < j < matches.len() ==> (#[trigger] matches[i]).fact_id != (
        #[trigger] matches[j]).fact_id
}

/// Being the match of a fact.
pub open spec fn matches_fact(matches: Seq<FactMatch>, fact: FactId, m: int) -> bool {
    0 <= m < matches.len() && matches[m].fact_id == fact
}

proof fn lemma_score(matches: Seq<FactMatch>, fact: FactId)
    requires
        apart(matches),
    ensures
        forall|m: int| #[trigger]
            matches_fact(matches, fact, m) ==> score_of(matches, fact) == Some(matches[m].score),
        score_of(matches, fact) is Some ==> exists|m: int| #[trigger]
            matches_fact(matches, fact, m),
{
    let p = is_match(fact);
    assert forall|m: int| #[trigger] matches_fact(matches, fact, m) implies score_of(matches, fact)
        == Some(matches[m].score) by {
        assert forall|j: int| 0 <= j < m implies !p(#[trigger] matches[j]) by {}
        assert(is_first(matches, p, m));
        lemma_first(matches, p, m);
    }
    lemma_first_is_first(matches, p);
    if let Some(i) = crate::rows::first_index(matches, p) {
        assert(matches_fact(matches, fact, i));
    }
}

/// The row of a summary that was found.
proof fn lemma_found_row(
    s: StoreModel,
    query: FactQueryModel,
    found: RelevanceModel,
    a: int,
) -> (k: int)
    requires
        0 <= a < found_summaries(s, query, found).len(),
    ensures
        k == selected_rows(s, query, found)[a],
        0 <= k < s.facts.len(),
        found_summaries(s, query, found)[a].fact_id == s.facts[k].id,
        in_scope(s.facts[k], query),
        expression_of(query.text) is Some ==> (score_of(
            found.matches,
            s.facts[k].id,
        ) matches Some(score) && score <= found.cutoff),
{
    let rows = selected_rows(s, query, found);
    let k = rows[a];
    if expression_of(query.text) is Some {
        let keys = match_keys(s.facts, found.matches);
        let marks = matching_marks(s.facts, query, found.matches);
        let full = arranged(keys, marks, latest_first());
        let order = matched_order(s, query, found.matches);
        let p = relevant(s.facts, found.matches, found.cutoff);
        law_arranged_lists_the_selected(keys, marks, latest_first());
        order.lemma_filter_pred(p, a);
        assert(rows.contains(rows[a]));
        order.lemma_filter_contains_rev(p, rows[a]);
        let i = choose|i: int| 0 <= i < order.len() && order[i] == rows[a];
        assert(full[i] == rows[a]);
        assert(marks[full[i]]);
    } else {
        let keys = trust_keys(s.facts);
        let marks = visible_marks(s.facts, query);
        law_arranged_lists_the_selected(keys, marks, latest_first());
        let full = arranged(keys, marks, latest_first());
        assert(full[a] == rows[a]);
        assert(marks[full[a]]);
    }
    lemma_in_scope(s.facts[k], query);
    k
}

/// Whatever is found is in scope, and is told as it stands; with words it matches, and no
/// worse than the cutoff.
pub proof fn law_what_is_found_is_in_scope(
    s: StoreModel,
    query: FactQueryModel,
    found: RelevanceModel,
    a: int,
)
    requires
        0 <= a < found_summaries(s, query, found).len(),
        apart(found.matches),
    ensures
        ({
            let shown = found_summaries(s, query, found)[a];
            exists|k: int|
                {
                    &&& 0 <= k < s.facts.len()
                    &&& in_scope(#[trigger] s.facts[k], query)
                    &&& shown == (FactSummaryModel {
                        fact_id: s.facts[k].id,
                        name: s.facts[k].name,
                        title: s.facts[k].title,
                        kind: s.facts[k].kind,
                        scope: s.facts[k].scope,
                        status: s.facts[k].status,
                    })
                }
        }),
        expression_of(query.text) is Some ==> exists|m: int| #[trigger]
            matches_fact(found.matches, found_summaries(s, query, found)[a].fact_id, m)
                && found.matches[m].score <= found.cutoff,
{
    let k = lemma_found_row(s, query, found, a);
    assert(in_scope(s.facts[k], query));
    lemma_score(found.matches, s.facts[k].id);
}

/// A search gives the facts that the index names, in the same order, each as it stands with
/// what it was learned from; it fails only where a time that was stored cannot be read.
pub proof fn law_a_search_gives_what_the_index_names(
    s: StoreModel,
    query: FactQueryModel,
    found: RelevanceModel,
    a: int,
)
    requires
        found_facts(s, query, found) is Ok,
        0 <= a < found_summaries(s, query, found).len(),
    ensures
        ({
            let facts = found_facts(s, query, found)->Ok_0;
            let named = found_summaries(s, query, found);
            &&& facts.len() == named.len()
            &&& facts[a].fact_id == named[a].fact_id
            &&& facts[a].name == named[a].name
            &&& facts[a].title == named[a].title
            &&& facts[a].kind == named[a].kind
            &&& facts[a].scope == named[a].scope
            &&& facts[a].status == named[a].status
            &&& exists|k: int|
                {
                    &&& 0 <= k < s.facts.len()
                    &&& facts[a].fact_id == (#[trigger] s.facts[k]).id
                    &&& facts[a].body == s.facts[k].body
                    &&& facts[a].cardinality == s.facts[k].cardinality
                    &&& facts[a].confidence == s.facts[k].confidence
                    &&& facts[a].namespace == s.facts[k].namespace
                    &&& moment_of(s.facts[k].updated_at) == Ok::<_, StoreErrorModel>(
                        facts[a].updated_at,
                    )
                }
        }),
{
    let rows = selected_rows(s, query, found);
    let readings = Seq::new(rows.len(), |i: int| fact_of(s, s.facts[rows[i]]));
    lemma_gathered_each(readings, a);
    let k = lemma_found_row(s, query, found, a);
    assert(readings[a] == fact_of(s, s.facts[k]));
}

// --- with words ------------------------------------------------------------

/// With words the better match comes first, whatever the scope of either: of two facts that
/// are found, the earlier has the smaller score, or the same score and no less trust, or the
/// same of both and was not written earlier.
pub proof fn law_the_better_match_comes_first(
    s: StoreModel,
    query: FactQueryModel,
    found: RelevanceModel,
    a: int,
    b: int,
    m: int,
    n: int,
    k: int,
    l: int,
)
    requires
        s.well_formed(),
        expression_of(query.text) is Some,
        apart(found.matches),
        0 <= a < b < found_summaries(s, query, found).len(),
        matches_fact(found.matches, found_summaries(s, query, found)[a].fact_id, m),
        matches_fact(found.matches, found_summaries(s, query, found)[b].fact_id, n),
        0 <= k < s.facts.len() && s.facts[k].id == found_summaries(s, query, found)[a].fact_id,
        0 <= l < s.facts.len() && s.facts[l].id == found_summaries(s, query, found)[b].fact_id,
    ensures
        found.matches[m].score <= found.matches[n].score,
        found.matches[m].score == found.matches[n].score ==> place_of_number(s.facts[k].confidence)
            >= place_of_number(s.facts[l].confidence),
        found.matches[m].score == found.matches[n].score && place_of_number(s.facts[k].confidence)
            == place_of_number(s.facts[l].confidence) ==> !text_lt(
            s.facts[k].updated_at,
            s.facts[l].updated_at,
        ),
{
    let keys = match_keys(s.facts, found.matches);
    let marks = matching_marks(s.facts, query, found.matches);
    let full = arranged(keys, marks, latest_first());
    let order = matched_order(s, query, found.matches);
    let p = relevant(s.facts, found.matches, found.cutoff);
    law_arranged_lists_the_selected(keys, marks, latest_first());
    let (i, j) = lemma_filter_keeps_order(order, p, a, b);
    assert(full[i] == order[i] && full[j] == order[j]);
    assert(precedes(keys, latest_first(), full[i], full[j]));
    let x = lemma_found_row(s, query, found, a);
    let y = lemma_found_row(s, query, found, b);
    assert(x == k) by {
        if x < k {
            assert(s.facts[x].id != s.facts[k].id);
        } else if k < x {
            assert(s.facts[k].id != s.facts[x].id);
        }
    }
    assert(y == l) by {
        if y < l {
            assert(s.facts[y].id != s.facts[l].id);
        } else if l < y {
            assert(s.facts[l].id != s.facts[y].id);
        }
    }
    lemma_score(found.matches, s.facts[k].id);
    lemma_score(found.matches, s.facts[l].id);
    lemma_text_lt_irreflexive(s.facts[k].updated_at);
    crate::order::lemma_text_lt_total(s.facts[k].updated_at, s.facts[l].updated_at);
}

/// No better match is left out: a fact in scope that matches and is not shown matches no
/// better than any that is, and is left out only because it matches worse than the cutoff or
/// as many are shown as were asked for.
pub proof fn law_no_better_match_is_left_out(
    s: StoreModel,
    query: FactQueryModel,
    found: RelevanceModel,
    k: int,
    m: int,
)
    requires
        expression_of(query.text) is Some,
        apart(found.matches),
        0 <= k < s.facts.len(),
        in_scope(s.facts[k], query),
        matches_fact(found.matches, s.facts[k].id, m),
        forall|a: int|
            0 <= a < found_summaries(s, query, found).len() ==> (#[trigger] found_summaries(
                s,
                query,
                found,
            )[a]).fact_id != s.facts[k].id,
    ensures
        forall|a: int, n: int|
            0 <= a < found_summaries(s, query, found).len() && #[trigger] matches_fact(
                found.matches,
                (#[trigger] found_summaries(s, query, found)[a]).fact_id,
                n,
            ) ==> found.matches[n].score <= found.matches[m].score,
        found.matches[m].score > found.cutoff || found_summaries(s, query, found).len() == (
        if query.limit == 0 {
            1
        } else {
            query.limit as nat
        }),
{
    let keys = match_keys(s.facts, found.matches);
    let marks = matching_marks(s.facts, query, found.matches);
    let full = arranged(keys, marks, latest_first());
    let order = matched_order(s, query, found.matches);
    let p = relevant(s.facts, found.matches, found.cutoff);
    let shown = found_summaries(s, query, found);
    let rows = selected_rows(s, query, found);
    law_arranged_lists_the_selected(keys, marks, latest_first());
    lemma_in_scope(s.facts[k], query);
    lemma_score(found.matches, s.facts[k].id);
    assert(marks[k]);
    let q = choose|q: int| 0 <= q < full.len() && full[q] == k;
    let worst = found.matches[m].score;
    if q < order.len() && worst <= found.cutoff {
        assert(order[q] == k && p(k));
        order.lemma_filter_contains(p, q);
        let a = choose|a: int| 0 <= a < rows.len() && rows[a] == k;
        assert(shown[a].fact_id == s.facts[k].id);
    }
    assert forall|a: int, n: int|
        0 <= a < shown.len() && #[trigger] matches_fact(
            found.matches,
            (#[trigger] shown[a]).fact_id,
            n,
        ) implies found.matches[n].score <= worst by {
        let x = lemma_found_row(s, query, found, a);
        lemma_score(found.matches, s.facts[x].id);
        if worst <= found.cutoff {
            assert(rows.contains(rows[a]));
            order.lemma_filter_contains_rev(p, rows[a]);
            let i = choose|i: int| 0 <= i < order.len() && order[i] == rows[a];
            assert(full[i] == x);
            assert(precedes(keys, latest_first(), full[i], full[q]));
        }
    }
    if worst <= found.cutoff {
        assert(order.len() == allowed(query));
        assert forall|i: int| 0 <= i < order.len() implies p(#[trigger] order[i]) by {
            assert(full[i] == order[i]);
            assert(precedes(keys, latest_first(), full[i], full[q]));
            assert(marks[full[i]]);
        }
        crate::rows::lemma_filter_all(order, p);
    }
}

/// The best match is the least score among the facts in scope that match, and there is one just
/// where some fact in scope matches.
pub proof fn law_the_best_match_is_the_least_score(
    s: StoreModel,
    query: FactQueryModel,
    matches: Seq<FactMatch>,
)
    requires
        apart(matches),
    ensures
        forall|k: int, m: int|
            0 <= k < s.facts.len() && in_scope(#[trigger] s.facts[k], query)
                && #[trigger] matches_fact(matches, s.facts[k].id, m) ==> (best_score(
                s,
                query,
                matches,
            ) matches Some(best) && best <= matches[m].score),
        best_score(s, query, matches) matches Some(best) ==> exists|k: int, m: int|
            0 <= k < s.facts.len() && in_scope(#[trigger] s.facts[k], query)
                && #[trigger] matches_fact(matches, s.facts[k].id, m) && matches[m].score == best,
{
    let keys = match_keys(s.facts, matches);
    let marks = matching_marks(s.facts, query, matches);
    let full = arranged(keys, marks, latest_first());
    let order = matched_order(s, query, matches);
    law_arranged_lists_the_selected(keys, marks, latest_first());
    assert forall|k: int, m: int|
        0 <= k < s.facts.len() && in_scope(#[trigger] s.facts[k], query)
            && #[trigger] matches_fact(matches, s.facts[k].id, m) implies (best_score(
        s,
        query,
        matches,
    ) matches Some(best) && best <= matches[m].score) by {
        lemma_in_scope(s.facts[k], query);
        lemma_score(matches, s.facts[k].id);
        assert(marks[k]);
        let q = choose|q: int| 0 <= q < full.len() && full[q] == k;
        assert(order[0] == full[0]);
        assert(marks[full[0]]);
        if q > 0 {
            assert(precedes(keys, latest_first(), full[0], full[q]));
        }
    }
    if best_score(s, query, matches) is Some {
        let k = order[0];
        assert(full[0] == k);
        assert(marks[full[0]]);
        lemma_in_scope(s.facts[k], query);
        lemma_score(matches, s.facts[k].id);
        let m = choose|m: int| #[trigger] matches_fact(matches, s.facts[k].id, m);
        assert(in_scope(s.facts[k], query) && matches_fact(matches, s.facts[k].id, m));
    }
}

// --- without words ---------------------------------------------------------

/// A scope no wider than another: a run, a repository, a workspace, a person.
pub open spec fn no_wider(a: FactScope, b: FactScope) -> bool {
    match a {
        FactScope::Run => true,
        FactScope::Repository => b != FactScope::Run,
        FactScope::Workspace => b == FactScope::Workspace || b == FactScope::User,
        FactScope::User => b == FactScope::User,
    }
}

/// Whether one fact is listed before another where nothing is searched for: it is the more
/// specific, or as specific and trusted no less, or the same of both and written no earlier.
pub open spec fn listed_before(a: FactRowModel, b: FactRowModel) -> bool {
    &&& no_wider(a.scope, b.scope)
    &&& a.scope == b.scope ==> place_of_number(a.confidence) >= place_of_number(b.confidence)
    &&& a.scope == b.scope && place_of_number(a.confidence) == place_of_number(b.confidence)
        ==> !text_lt(a.updated_at, b.updated_at)
}

proof fn lemma_trusted_order(facts: Seq<FactRowModel>, i: int, j: int)
    requires
        0 <= i < facts.len(),
        0 <= j < facts.len(),
        precedes(trust_keys(facts), latest_first(), i, j),
    ensures
        listed_before(facts[i], facts[j]),
{
    lemma_text_lt_irreflexive(facts[i].updated_at);
    crate::order::lemma_text_lt_total(facts[i].updated_at, facts[j].updated_at);
}

/// Without words the most specific comes first, then the most trusted, then the latest.
pub proof fn law_the_most_specific_comes_first(
    s: StoreModel,
    query: FactQueryModel,
    found: RelevanceModel,
    a: int,
    b: int,
    k: int,
    l: int,
)
    requires
        s.well_formed(),
        expression_of(query.text) is None,
        0 <= a < b < found_summaries(s, query, found).len(),
        0 <= k < s.facts.len() && s.facts[k].id == found_summaries(s, query, found)[a].fact_id,
        0 <= l < s.facts.len() && s.facts[l].id == found_summaries(s, query, found)[b].fact_id,
    ensures
        listed_before(s.facts[k], s.facts[l]),
{
    let keys = trust_keys(s.facts);
    let marks = visible_marks(s.facts, query);
    let full = arranged(keys, marks, latest_first());
    law_arranged_lists_the_selected(keys, marks, latest_first());
    let x = lemma_found_row(s, query, found, a);
    let y = lemma_found_row(s, query, found, b);
    assert(full[a] == x && full[b] == y);
    assert(precedes(keys, latest_first(), full[a], full[b]));
    assert(x == k) by {
        if x < k {
            assert(s.facts[x].id != s.facts[k].id);
        } else if k < x {
            assert(s.facts[k].id != s.facts[x].id);
        }
    }
    assert(y == l) by {
        if y < l {
            assert(s.facts[y].id != s.facts[l].id);
        } else if l < y {
            assert(s.facts[l].id != s.facts[y].id);
        }
    }
    lemma_trusted_order(s.facts, k, l);
}

/// Without words nothing in scope is left out but for the limit, and what is left out comes
/// behind all that is shown.
pub proof fn law_nothing_more_specific_is_left_out(
    s: StoreModel,
    query: FactQueryModel,
    found: RelevanceModel,
    k: int,
)
    requires
        expression_of(query.text) is None,
        0 <= k < s.facts.len(),
        in_scope(s.facts[k], query),
        forall|a: int|
            0 <= a < found_summaries(s, query, found).len() ==> (#[trigger] found_summaries(
                s,
                query,
                found,
            )[a]).fact_id != s.facts[k].id,
    ensures
        found_summaries(s, query, found).len() == (if query.limit == 0 {
            1
        } else {
            query.limit as nat
        }),
        forall|a: int|
            0 <= a < found_summaries(s, query, found).len() ==> no_wider(
                (#[trigger] found_summaries(s, query, found)[a]).scope,
                s.facts[k].scope,
            ),
{
    let keys = trust_keys(s.facts);
    let marks = visible_marks(s.facts, query);
    let full = arranged(keys, marks, latest_first());
    let rows = selected_rows(s, query, found);
    let shown = found_summaries(s, query, found);
    law_arranged_lists_the_selected(keys, marks, latest_first());
    lemma_in_scope(s.facts[k], query);
    assert(marks[k]);
    let q = choose|q: int| 0 <= q < full.len() && full[q] == k;
    if q < rows.len() {
        assert(rows[q] == k);
        assert(shown[q].fact_id == s.facts[k].id);
    }
    assert forall|a: int| 0 <= a < shown.len() implies no_wider(
        (#[trigger] shown[a]).scope,
        s.facts[k].scope,
    ) by {
        assert(full[a] == rows[a]);
        assert(precedes(keys, latest_first(), full[a], full[q]));
        lemma_trusted_order(s.facts, full[a], k);
    }
}

// --- words -----------------------------------------------------------------

/// A word to search for: letters, digits and underscores.
pub open spec fn searchable(word: Seq<char>) -> bool {
    forall|i: int|
        0 <= i < word.len() ==> {
            ||| 'a' <= #[trigger] word[i] <= 'z'
            ||| 'A' <= word[i] <= 'Z'
            ||| '0' <= word[i] <= '9'
            ||| word[i] == '_'
        }
}

/// A text is searched for by its words: any of them may stand in a fact, each as it is
/// written, in quotes. A word of fewer than three characters is not looked for, and neither is
/// what stands between the words.
pub proof fn law_a_text_is_searched_for_by_its_words(
    word: Seq<char>,
    between: char,
    rest: Seq<char>,
)
    requires
        searchable(word),
        crate::text::ascii(between),
        !searchable(seq![between]),
    ensures
        expression_of(None) is None,
        expression_of(Some(word)) == if word.len() >= 3 {
            Some("\""@ + word + "\""@)
        } else {
            None
        },
        expression_of(Some(rest.push(between) + word)) == match (
            expression_of(Some(rest)),
            expression_of(Some(word)),
        ) {
            (Some(before), Some(last)) => Some(before + " OR "@ + last),
            (Some(before), None) => Some(before),
            (None, last) => last,
        },
{
    let whole = rest.push(between) + word;
    let marks = crate::retrieval::marks_between(whole);
    let n = rest.len() as int;
    lemma_word_marks(word);
    assert(whole[n] == between);
    assert(marks[n]) by {
        let one = seq![between];
        assert(one[0] == between);
        assert(!crate::text::letter_or_digit(between) && between != '_');
    }
    crate::text_laws::law_a_cut_parts_a_text(rest, between, word, marks);
    assert forall|i: int| 0 <= i < n implies marks.take(n)[i]
        == #[trigger] crate::retrieval::marks_between(rest)[i] by {
        assert(whole[i] == rest[i]);
    }
    crate::text_laws::lemma_pieces_see_no_further(
        rest,
        marks.take(n),
        crate::retrieval::marks_between(rest),
    );
    assert forall|i: int| 0 <= i < word.len() implies marks.skip(n + 1)[i]
        == #[trigger] crate::retrieval::marks_between(word)[i] by {
        assert(whole[n + 1 + i] == word[i]);
    }
    crate::text_laws::lemma_pieces_see_no_further(
        word,
        marks.skip(n + 1),
        crate::retrieval::marks_between(word),
    );
    crate::text_laws::law_an_uncut_text_is_one_piece(word, crate::retrieval::marks_between(word));
    let front = crate::text::pieces(rest, crate::retrieval::marks_between(rest));
    lemma_tokens(Seq::empty(), word);
    assert(Seq::<Seq<char>>::empty().push(word) =~= seq![word]);
    assert(crate::text::pieces(whole, marks) =~= front.push(word));
    lemma_tokens(front, word);
}

proof fn lemma_word_marks(word: Seq<char>)
    requires
        searchable(word),
    ensures
        forall|i: int|
            0 <= i < word.len() ==> !#[trigger] crate::retrieval::marks_between(word)[i],
{
    assert forall|i: int| 0 <= i < word.len() implies !#[trigger] crate::retrieval::marks_between(
        word,
    )[i] by {
        let c = word[i];
        assert('a' <= c <= 'z' || 'A' <= c <= 'Z' || '0' <= c <= '9' || c == '_');
    }
}

proof fn lemma_tokens(front: Seq<Seq<char>>, word: Seq<char>)
    ensures
        ({
            let telling = crate::retrieval::telling();
            let quoted = crate::retrieval::quoted_token();
            let before = front.filter(telling).map_values(quoted);
            let all = front.push(word).filter(telling).map_values(quoted);
            all == if word.len() >= 3 {
                before.push("\""@ + word + "\""@)
            } else {
                before
            }
        }),
        front.len() == 0 ==> front.filter(crate::retrieval::telling()).len() == 0,
        ({
            let before = front.filter(crate::retrieval::telling()).map_values(
                crate::retrieval::quoted_token(),
            );
            let last = "\""@ + word + "\""@;
            crate::text::joined(before.push(last), " OR "@) == if before.len() == 0 {
                last
            } else {
                crate::text::joined(before, " OR "@) + " OR "@ + last
            }
        }),
{
    let telling = crate::retrieval::telling();
    let quoted = crate::retrieval::quoted_token();
    front.lemma_filter_push(word, telling);
    reveal(Seq::filter);
    let before = front.filter(telling).map_values(quoted);
    let all = front.push(word).filter(telling).map_values(quoted);
    if word.len() >= 3 {
        assert(all =~= before.push("\""@ + word + "\""@));
    } else {
        assert(all =~= before);
    }
    let last = "\""@ + word + "\""@;
    assert(before.push(last).drop_last() =~= before);
}

// --- history and namespaces ------------------------------------------------

/// The history of a name lists its values in a namespace and no others, the latest first.
pub proof fn law_history_lists_the_latest_value_first(
    s: StoreModel,
    name: Seq<char>,
    namespace: Option<Seq<char>>,
    a: int,
    b: int,
)
    requires
        0 <= a < history_rows(s, name, namespace).len(),
        0 <= b < history_rows(s, name, namespace).len(),
    ensures
        ({
            let rows = history_rows(s, name, namespace);
            &&& 0 <= rows[a] < s.facts.len()
            &&& s.facts[rows[a]].name == name
            &&& s.facts[rows[a]].namespace == namespace
            &&& a < b ==> !text_lt(s.facts[rows[a]].created_at, s.facts[rows[b]].created_at)
            &&& a < b && s.facts[rows[a]].created_at == s.facts[rows[b]].created_at ==> rows[b]
                < rows[a]
        }),
{
    let keys = written_keys(s.facts);
    let marks = value_marks(s.facts, name, namespace);
    let rows = history_rows(s, name, namespace);
    law_arranged_lists_the_selected(keys, marks, newest_first());
    assert(marks[rows[a]]);
    assert(marks[rows[b]]);
    if a < b {
        assert(precedes(keys, newest_first(), rows[a], rows[b]));
        lemma_text_lt_irreflexive(s.facts[rows[a]].created_at);
        crate::order::lemma_text_lt_total(
            s.facts[rows[a]].created_at,
            s.facts[rows[b]].created_at,
        );
    }
}

/// A namespace is listed just where some fact is filed under it, and once.
pub proof fn law_a_namespace_is_listed_where_a_fact_is_filed(
    facts: Seq<FactRowModel>,
    name: Seq<char>,
)
    ensures
        namespaces_of(facts).contains(name) <==> exists|i: int|
            0 <= i < facts.len() && (#[trigger] facts[i]).namespace == Some(name),
        namespaces_of(facts).no_duplicates(),
    decreases facts.len(),
{
    if facts.len() > 0 {
        let front = facts.drop_last();
        let last = facts.last();
        law_a_namespace_is_listed_where_a_fact_is_filed(front, name);
        let before = namespaces_of(front);
        let all = namespaces_of(facts);
        if let Some(own) = last.namespace {
            law_a_namespace_is_listed_where_a_fact_is_filed(front, own);
            if !before.contains(own) {
                assert(all == before.push(own));
                assert(all.last() == own);
                assert forall|i: int, j: int|
                    0 <= i < all.len() && 0 <= j < all.len() && i != j implies all[i]
                    != all[j] by {
                    if i < before.len() && j < before.len() {
                        assert(before[i] != before[j]);
                    } else if i < before.len() {
                        assert(before.contains(before[i]));
                    } else {
                        assert(before.contains(before[j]));
                    }
                }
            }
        }
        if all.contains(name) {
            let k = choose|k: int| 0 <= k < all.len() && all[k] == name;
            if k < before.len() {
                assert(before[k] == name);
                assert(before.contains(name));
                let i = choose|i: int|
                    0 <= i < front.len() && (#[trigger] front[i]).namespace == Some(name);
                assert(facts[i] == front[i]);
            } else {
                assert(facts[facts.len() - 1].namespace == Some(name));
            }
        }
        if exists|i: int| 0 <= i < facts.len() && (#[trigger] facts[i]).namespace == Some(name) {
            let i = choose|i: int|
                0 <= i < facts.len() && (#[trigger] facts[i]).namespace == Some(name);
            if i < front.len() {
                assert(front[i] == facts[i]);
                assert(before.contains(name));
                let k = choose|k: int| 0 <= k < before.len() && before[k] == name;
                assert(all[k] == name);
            } else if before.contains(name) {
                let k = choose|k: int| 0 <= k < before.len() && before[k] == name;
                assert(all[k] == name);
            } else {
                assert(all[before.len() as int] == name);
            }
        }
    }
}

} // verus!
