//! Finding facts again.
//!
//! Retrieval is scoped: user-level facts are about the person and are visible
//! everywhere, and anything narrower only where it was learned. Without words the
//! most specific and most trusted facts come first, with words the best match.

use vstd::prelude::*;

use crate::domain::{
    Evidence, EvidenceModel, Fact, FactModel, FactSummary, FactSummaryModel,
};
use crate::error::{outcome, StoreError, StoreErrorModel};
use crate::facts::{FactContext, FactContextModel, FactQuery, FactQueryModel};
use crate::ids::FactId;
use crate::ledger::at_most;
use crate::moment::{clock_text, Moment};
use crate::order::{
    arrange, arranged, number_place, place_of_number, row_numbers, Arrangement, KeyModel, SortKey,
};
use crate::plan::{ascending, latest_first};
use crate::rows::{any_row, first_row, is_first, lemma_first, lemma_no_first};
use crate::sessions::newest_first;
use crate::states::{FactScope, FactStatus, RelationKind};
use crate::tables::{
    EvidenceRowModel, FactRowModel, PushRow, PushRowModel, RelationRowModel, Store, StoreModel,
};
use crate::text::{
    characters, concat3, copy_option, copy_text, is_letter_or_digit, join, joined, letter_or_digit,
    list_contains, pieces, same, same_option, split_marked,
};
use crate::values::{
    gathered, lemma_gathered_failed, lemma_gathered_step, moment_of, parse_timestamp,
};

verus! {

// --- the words of a query --------------------------------------------------

/// Shortest token worth matching on. Below this the words are almost all grammar,
/// and would match everything and rank nothing.
pub const MIN_TOKEN: usize = 3;

/// Marks what stands between words: anything that is neither a letter, a digit nor
/// an underscore.
pub open spec fn marks_between(s: Seq<char>) -> Seq<bool> {
    Seq::new(s.len(), |i: int| !letter_or_digit(s[i]) && s[i] != '_')
}

/// Being long enough to match on.
pub open spec fn telling() -> spec_fn(Seq<char>) -> bool {
    |token: Seq<char>| token.len() >= MIN_TOKEN
}

/// A token in double quotes, so that nothing in it is read as an operator.
pub open spec fn quoted_token() -> spec_fn(Seq<char>) -> Seq<char> {
    |token: Seq<char>| "\""@ + token + "\""@
}

/// Any of the telling tokens of a text cut at the marked positions; none where it
/// has no such token.
pub open spec fn any_token(s: Seq<char>, marks: Seq<bool>) -> Option<Seq<char>> {
    let tokens = pieces(s, marks).filter(telling()).map_values(quoted_token());
    if tokens.len() == 0 {
        None
    } else {
        Some(joined(tokens, " OR "@))
    }
}

/// What is searched for, given the text of a query.
pub open spec fn expression_of(text: Option<Seq<char>>) -> Option<Seq<char>> {
    match text {
        None => None,
        Some(s) => any_token(s, marks_between(s)),
    }
}

/// Builds a search expression from the characters of a text and which of them
/// stand between its words.
///
/// Tokens are joined with `OR`: the text is often a whole prompt rather than
/// chosen keywords, and requiring every word to appear in one fact means retrieval
/// that almost never fires. They are quoted rather than passed through, because an
/// unbalanced quote or a bare `*` would turn a search into a syntax error.
pub fn match_any(chars: &Vec<char>, marks: &Vec<bool>) -> (r: Option<String>)
    requires
        marks@.len() == chars@.len(),
    ensures
        r.deep_view() == any_token(chars@, marks@),
{
    let found = split_marked(chars, marks);
    let ghost all = found.deep_view();
    let ghost p = telling();
    let ghost f = quoted_token();
    let mut tokens: Vec<String> = Vec::new();
    let mut i: usize = 0;
    assert(all.take(0).filter(p) =~= Seq::<Seq<char>>::empty()) by {
        reveal(Seq::filter);
    }
    assert(tokens.deep_view() =~= all.take(0).filter(p).map_values(f));
    while i < found.len()
        invariant
            i <= found@.len(),
            all == found.deep_view(),
            p == telling(),
            f == quoted_token(),
            tokens.deep_view() =~= all.take(i as int).filter(p).map_values(f),
        decreases found@.len() - i,
    {
        proof {
            assert(all.take(i + 1) =~= all.take(i as int).push(all[i as int]));
            all.take(i as int).lemma_filter_push(all[i as int], p);
        }
        let ghost listed = tokens.deep_view();
        let token = &found[i];
        if token.as_str().unicode_len() >= MIN_TOKEN {
            tokens.push(concat3("\"", token.as_str(), "\""));
            assert(tokens.deep_view() =~= listed.push(f(all[i as int])));
        }
        i += 1;
    }
    assert(all.take(i as int) =~= all);
    if tokens.len() == 0 {
        None
    } else {
        Some(join(&tokens, " OR "))
    }
}

/// Builds a search expression from free text.
pub fn fts_expression(text: &Option<String>) -> (r: Option<String>)
    ensures
        r.deep_view() == expression_of(text.deep_view()),
{
    match text {
        None => None,
        Some(text) => {
            let chars = characters(text.as_str());
            let mut marks: Vec<bool> = Vec::new();
            let mut i: usize = 0;
            while i < chars.len()
                invariant
                    i <= chars@.len(),
                    marks@ =~= marks_between(chars@).take(i as int),
                decreases chars@.len() - i,
            {
                marks.push(!is_letter_or_digit(chars[i]) && chars[i] != '_');
                i += 1;
            }
            assert(marks@ =~= marks_between(chars@));
            match_any(&chars, &marks)
        },
    }
}

// --- what is visible -------------------------------------------------------

/// A fact that nothing took the place of and nobody withdrew.
pub open spec fn retrievable(f: FactRowModel) -> bool {
    f.superseded_by is None && f.status != FactStatus::Revoked
}

/// A fact in scope for a query: user-level facts are about the person and travel
/// everywhere, while anything narrower must belong to a namespace or workspace
/// the caller is actually in.
pub open spec fn visible(f: FactRowModel, query: FactQueryModel) -> bool {
    &&& retrievable(f)
    &&& {
        ||| f.scope == FactScope::User
        ||| f.namespace matches Some(name) && query.namespaces.contains(name)
        ||| query.workspace_id is Some && f.workspace_id == query.workspace_id
    }
}

/// The narrower the scope, the earlier a fact is listed: it was learned here.
pub open spec fn scope_rank(scope: FactScope) -> u64 {
    match scope {
        FactScope::Run => 0,
        FactScope::Repository => 1,
        FactScope::Workspace => 2,
        FactScope::User => 3,
    }
}

/// Facts ordered by scope, then by how far they are trusted, then by when they
/// were last written.
pub open spec fn trust_keys(facts: Seq<FactRowModel>) -> Seq<KeyModel> {
    Seq::new(
        facts.len(),
        |i: int|
            KeyModel {
                rank: scope_rank(facts[i].scope),
                weight: place_of_number(facts[i].confidence),
                text: facts[i].updated_at,
            },
    )
}

/// The facts visible to a query.
pub open spec fn visible_marks(facts: Seq<FactRowModel>, query: FactQueryModel) -> Seq<bool> {
    Seq::new(facts.len(), |i: int| visible(facts[i], query))
}

/// How many facts a query may be answered with.
pub open spec fn allowed(query: FactQueryModel) -> nat {
    if query.limit == 0 {
        1
    } else {
        query.limit as nat
    }
}

/// A fact that matches the words of a query, and how well: the smaller the
/// score, the better.
#[derive(Clone, Copy, Debug, PartialEq, Eq)]
pub struct FactMatch {
    pub fact_id: FactId,
    pub score: u64,
}

impl View for FactMatch {
    type V = FactMatch;

    open spec fn view(&self) -> FactMatch {
        *self
    }
}

impl DeepView for FactMatch {
    type V = FactMatch;

    open spec fn deep_view(&self) -> FactMatch {
        *self
    }
}

/// What a text search found, and the worst score worth showing.
#[derive(Debug, PartialEq, Eq)]
pub struct Relevance {
    pub matches: Vec<FactMatch>,
    pub cutoff: u64,
}

/// The contents of a [`Relevance`].
#[verifier::ext_equal]
pub struct RelevanceModel {
    pub matches: Seq<FactMatch>,
    pub cutoff: u64,
}

impl View for Relevance {
    type V = RelevanceModel;

    open spec fn view(&self) -> RelevanceModel {
        RelevanceModel { matches: self.matches@, cutoff: self.cutoff }
    }
}

impl Relevance {
    /// What a search for nothing finds.
    pub fn none() -> (r: Self)
        ensures
            r@ == (RelevanceModel { matches: Seq::empty(), cutoff: 0 }),
    {
        Relevance { matches: Vec::new(), cutoff: 0 }
    }
}

/// Being the match of a fact.
pub open spec fn is_match(fact: FactId) -> spec_fn(FactMatch) -> bool {
    |m: FactMatch| m.fact_id == fact
}

/// How well a fact matches.
pub open spec fn score_of(matches: Seq<FactMatch>, fact: FactId) -> Option<u64> {
    match first_row(matches, is_match(fact)) {
        Some(found) => Some(found.score),
        None => None,
    }
}

/// Facts ordered by how well they match, then by how far they are trusted, then
/// by when they were last written.
pub open spec fn match_keys(facts: Seq<FactRowModel>, matches: Seq<FactMatch>) -> Seq<KeyModel> {
    Seq::new(
        facts.len(),
        |i: int|
            KeyModel {
                rank: match score_of(matches, facts[i].id) {
                    Some(score) => score,
                    None => 0,
                },
                weight: place_of_number(facts[i].confidence),
                text: facts[i].updated_at,
            },
    )
}

/// The facts visible to a query that match its words.
pub open spec fn matching_marks(
    facts: Seq<FactRowModel>,
    query: FactQueryModel,
    matches: Seq<FactMatch>,
) -> Seq<bool> {
    Seq::new(
        facts.len(),
        |i: int| visible(facts[i], query) && score_of(matches, facts[i].id) is Some,
    )
}

/// The facts visible to a query, by their rows: most specific first.
pub open spec fn visible_rows(s: StoreModel, query: FactQueryModel) -> Seq<int> {
    arranged(trust_keys(s.facts), visible_marks(s.facts, query), latest_first())
}

/// The facts a query is answered with, without words: most specific first.
pub open spec fn scoped_order(s: StoreModel, query: FactQueryModel) -> Seq<int> {
    at_most(visible_rows(s, query), allowed(query))
}

/// The facts currently retrievable.
pub open spec fn live_marks(facts: Seq<FactRowModel>) -> Seq<bool> {
    Seq::new(facts.len(), |i: int| retrievable(facts[i]))
}

/// The facts currently retrievable, by their rows: most specific first.
pub open spec fn live_rows(s: StoreModel) -> Seq<int> {
    arranged(trust_keys(s.facts), live_marks(s.facts), latest_first())
}

/// The matching facts a query may be answered with: best match first.
pub open spec fn matched_order(
    s: StoreModel,
    query: FactQueryModel,
    matches: Seq<FactMatch>,
) -> Seq<int> {
    at_most(
        arranged(
            match_keys(s.facts, matches),
            matching_marks(s.facts, query, matches),
            latest_first(),
        ),
        allowed(query),
    )
}

/// How well the best of the facts that a query may be answered with matches.
pub open spec fn best_score(
    s: StoreModel,
    query: FactQueryModel,
    matches: Seq<FactMatch>,
) -> Option<u64> {
    let order = matched_order(s, query, matches);
    if order.len() > 0 {
        score_of(matches, s.facts[order[0]].id)
    } else {
        None
    }
}

/// Matching well enough to be shown.
pub open spec fn relevant(facts: Seq<FactRowModel>, matches: Seq<FactMatch>, cutoff: u64) -> spec_fn(
    int,
) -> bool {
    |i: int| score_of(matches, facts[i].id) matches Some(score) && score <= cutoff
}

/// The facts a query is answered with, by their rows. What a text search found
/// counts only where the query has words to search for.
pub open spec fn selected_rows(s: StoreModel, query: FactQueryModel, found: RelevanceModel) -> Seq<
    int,
> {
    if expression_of(query.text) is Some {
        matched_order(s, query, found.matches).filter(
            relevant(s.facts, found.matches, found.cutoff),
        )
    } else {
        scoped_order(s, query)
    }
}

impl Store {
    fn is_visible(&self, i: usize, query: &FactQuery) -> (r: bool)
        requires
            i < self.facts@.len(),
        ensures
            r == visible(self@.facts[i as int], query@),
    {
        let f = &self.facts[i];
        if f.superseded_by.is_some() || f.status == FactStatus::Revoked {
            return false;
        }
        if f.scope == FactScope::User {
            return true;
        }
        let in_namespace = match &f.namespace {
            Some(name) => list_contains(&query.namespaces, name.as_str()),
            None => false,
        };
        let in_workspace = match (query.workspace_id, f.workspace_id) {
            (Some(asked), Some(filed)) => asked == filed,
            _ => false,
        };
        in_namespace || in_workspace
    }

    fn rank_of(scope: FactScope) -> (r: u64)
        ensures
            r == scope_rank(scope),
    {
        match scope {
            FactScope::Run => 0,
            FactScope::Repository => 1,
            FactScope::Workspace => 2,
            FactScope::User => 3,
        }
    }

    fn rows_by_trust(&self, selected: &Vec<bool>) -> (r: Vec<usize>)
        requires
            selected@.len() == self.facts@.len(),
        ensures
            row_numbers(r@) == arranged(trust_keys(self@.facts), selected@, latest_first()),
            forall|i: int| 0 <= i < r@.len() ==> #[trigger] r@[i] < self.facts@.len(),
    {
        let ghost all_keys = trust_keys(self@.facts);
        let mut keys: Vec<SortKey> = Vec::new();
        let mut i: usize = 0;
        while i < self.facts.len()
            invariant
                i <= self.facts@.len(),
                all_keys == trust_keys(self@.facts),
                keys.deep_view() =~= all_keys.take(i as int),
            decreases self.facts@.len() - i,
        {
            let key = SortKey {
                rank: Self::rank_of(self.facts[i].scope),
                weight: number_place(self.facts[i].confidence),
                text: copy_text(&self.facts[i].updated_at),
            };
            assert(key@ == all_keys[i as int]);
            let ghost listed = keys.deep_view();
            keys.push(key);
            assert(keys.deep_view() =~= listed.push(all_keys[i as int]));
            i += 1;
        }
        assert(all_keys.take(i as int) =~= all_keys);
        arrange(
            &keys,
            selected,
            Arrangement { text_descending: true, newest_row_first: false },
        )
    }

    fn scoped_rows(&self, query: &FactQuery) -> (r: Vec<usize>)
        ensures
            row_numbers(r@) == visible_rows(self@, query@),
            forall|i: int| 0 <= i < r@.len() ==> #[trigger] r@[i] < self.facts@.len(),
    {
        let ghost all_marks = visible_marks(self@.facts, query@);
        let mut selected: Vec<bool> = Vec::new();
        let mut i: usize = 0;
        while i < self.facts.len()
            invariant
                i <= self.facts@.len(),
                all_marks == visible_marks(self@.facts, query@),
                selected@ =~= all_marks.take(i as int),
            decreases self.facts@.len() - i,
        {
            selected.push(self.is_visible(i, query));
            i += 1;
        }
        assert(all_marks.take(i as int) =~= all_marks);
        self.rows_by_trust(&selected)
    }

    /// The rows of the facts currently retrievable, most specific first.
    pub fn rows_alive(&self) -> (r: Vec<usize>)
        ensures
            row_numbers(r@) == live_rows(self@),
            forall|i: int| 0 <= i < r@.len() ==> #[trigger] r@[i] < self.facts@.len(),
    {
        let ghost all_marks = live_marks(self@.facts);
        let mut selected: Vec<bool> = Vec::new();
        let mut i: usize = 0;
        while i < self.facts.len()
            invariant
                i <= self.facts@.len(),
                all_marks == live_marks(self@.facts),
                selected@ =~= all_marks.take(i as int),
            decreases self.facts@.len() - i,
        {
            let f = &self.facts[i];
            selected.push(f.superseded_by.is_none() && f.status != FactStatus::Revoked);
            i += 1;
        }
        assert(all_marks.take(i as int) =~= all_marks);
        self.rows_by_trust(&selected)
    }

    fn matched_rows(&self, query: &FactQuery, matches: &Vec<FactMatch>) -> (r: Vec<usize>)
        ensures
            row_numbers(r@) == arranged(
                match_keys(self@.facts, matches@),
                matching_marks(self@.facts, query@, matches@),
                latest_first(),
            ),
            forall|i: int| 0 <= i < r@.len() ==> #[trigger] r@[i] < self.facts@.len(),
    {
        let ghost all_keys = match_keys(self@.facts, matches@);
        let ghost all_marks = matching_marks(self@.facts, query@, matches@);
        let mut keys: Vec<SortKey> = Vec::new();
        let mut selected: Vec<bool> = Vec::new();
        let mut i: usize = 0;
        while i < self.facts.len()
            invariant
                i <= self.facts@.len(),
                all_keys == match_keys(self@.facts, matches@),
                all_marks == matching_marks(self@.facts, query@, matches@),
                keys.deep_view() =~= all_keys.take(i as int),
                selected@ =~= all_marks.take(i as int),
            decreases self.facts@.len() - i,
        {
            let score = match_score(matches, self.facts[i].id);
            let rank: u64 = match score {
                Some(value) => value,
                None => 0,
            };
            let key = SortKey {
                rank,
                weight: number_place(self.facts[i].confidence),
                text: copy_text(&self.facts[i].updated_at),
            };
            assert(key@ == all_keys[i as int]);
            let ghost listed = keys.deep_view();
            keys.push(key);
            assert(keys.deep_view() =~= listed.push(all_keys[i as int]));
            selected.push(self.is_visible(i, query) && score.is_some());
            i += 1;
        }
        assert(all_keys.take(i as int) =~= all_keys);
        assert(all_marks.take(i as int) =~= all_marks);
        arrange(
            &keys,
            &selected,
            Arrangement { text_descending: true, newest_row_first: false },
        )
    }

    /// How well the best of the matching facts matches that a query may be
    /// answered with.
    pub fn best_match(&self, query: &FactQuery, matches: &Vec<FactMatch>) -> (r: Option<u64>)
        ensures
            r == best_score(self@, query@, matches@),
    {
        let order = self.matched_rows(query, matches);
        if order.len() == 0 {
            return None;
        }
        assert(row_numbers(order@)[0] == order@[0] as int);
        match_score(matches, self.facts[order[0]].id)
    }

    /// The facts in scope for `query`, by their rows: without words the most
    /// specific and most trusted first; with words the best match first, and
    /// none that matches worse than the cutoff.
    pub fn select_visible(&self, query: &FactQuery, found: &Relevance) -> (r: Vec<usize>)
        ensures
            row_numbers(r@) == selected_rows(self@, query@, found@),
            forall|i: int| 0 <= i < r@.len() ==> #[trigger] r@[i] < self.facts@.len(),
    {
        let limit: usize = if query.limit == 0 {
            1
        } else {
            query.limit
        };
        match fts_expression(&query.text) {
            None => {
                let order = self.scoped_rows(query);
                first_rows(order, limit)
            },
            Some(_) => {
                let all = self.matched_rows(query, &found.matches);
                let order = first_rows(all, limit);
                let ghost rows = row_numbers(order@);
                let ghost p = relevant(self@.facts, found.matches@, found.cutoff);
                let mut r: Vec<usize> = Vec::new();
                let mut i: usize = 0;
                assert(rows.take(0).filter(p) =~= Seq::<int>::empty()) by {
                    reveal(Seq::filter);
                }
                assert(row_numbers(r@) =~= Seq::<int>::empty());
                while i < order.len()
                    invariant
                        i <= order@.len(),
                        rows == row_numbers(order@),
                        p == relevant(self@.facts, found.matches@, found.cutoff),
                        forall|i: int|
                            0 <= i < order@.len() ==> #[trigger] order@[i] < self.facts@.len(),
                        forall|i: int| 0 <= i < r@.len() ==> #[trigger] r@[i] < self.facts@.len(),
                        row_numbers(r@) =~= rows.take(i as int).filter(p),
                    decreases order@.len() - i,
                {
                    let ghost listed = row_numbers(r@);
                    proof {
                        assert(rows.take(i + 1) =~= rows.take(i as int).push(rows[i as int]));
                        rows.take(i as int).lemma_filter_push(rows[i as int], p);
                    }
                    let good = match match_score(&found.matches, self.facts[order[i]].id) {
                        Some(score) => score <= found.cutoff,
                        None => false,
                    };
                    assert(good == p(rows[i as int]));
                    if good {
                        r.push(order[i]);
                        assert(row_numbers(r@) =~= listed.push(rows[i as int]));
                    }
                    i += 1;
                }
                assert(rows.take(i as int) =~= rows);
                r
            },
        }
    }
}

fn first_rows(order: Vec<usize>, limit: usize) -> (r: Vec<usize>)
    ensures
        row_numbers(r@) == at_most(row_numbers(order@), limit as nat),
        forall|i: int| 0 <= i < r@.len() ==> #[trigger] r@[i] == order@[i],
        r@.len() <= order@.len(),
{
    let mut r = order;
    if r.len() > limit {
        r.truncate(limit);
    }
    assert(row_numbers(r@) =~= at_most(row_numbers(order@), limit as nat));
    r
}

fn match_score(matches: &Vec<FactMatch>, fact: FactId) -> (r: Option<u64>)
    ensures
        r == score_of(matches@, fact),
{
    let ghost p = is_match(fact);
    let mut i: usize = 0;
    while i < matches.len()
        invariant
            i <= matches@.len(),
            p == is_match(fact),
            forall|j: int| 0 <= j < i ==> !p(#[trigger] matches@[j]),
        decreases matches@.len() - i,
    {
        if matches[i].fact_id == fact {
            proof {
                assert(is_first(matches@, p, i as int));
                lemma_first(matches@, p, i as int);
            }
            return Some(matches[i].score);
        }
        i += 1;
    }
    proof {
        lemma_no_first(matches@, p);
    }
    None
}

// --- reading facts ---------------------------------------------------------

/// Evidence ordered by when it was given.
pub open spec fn evidence_keys(evidence: Seq<EvidenceRowModel>) -> Seq<KeyModel> {
    Seq::new(
        evidence.len(),
        |i: int| KeyModel { rank: 0, weight: 0, text: evidence[i].created_at },
    )
}

/// The evidence of a fact.
pub open spec fn evidence_marks(evidence: Seq<EvidenceRowModel>, fact: FactId) -> Seq<bool> {
    Seq::new(evidence.len(), |i: int| evidence[i].fact_id == fact)
}

/// What a fact was learned from, oldest first.
pub open spec fn evidence_of(s: StoreModel, fact: FactId) -> Seq<EvidenceModel> {
    let order = arranged(evidence_keys(s.evidence), evidence_marks(s.evidence, fact), ascending());
    Seq::new(
        order.len(),
        |i: int|
            EvidenceModel {
                locator: s.evidence[order[i]].locator,
                excerpt: s.evidence[order[i]].excerpt,
            },
    )
}

/// A fact read back.
pub open spec fn fact_of(s: StoreModel, f: FactRowModel) -> Result<FactModel, StoreErrorModel> {
    match moment_of(f.updated_at) {
        Err(error) => Err(error),
        Ok(updated_at) => Ok(
            FactModel {
                fact_id: f.id,
                name: f.name,
                title: f.title,
                body: f.body,
                kind: f.kind,
                scope: f.scope,
                cardinality: f.cardinality,
                status: f.status,
                confidence: f.confidence,
                namespace: f.namespace,
                evidence: evidence_of(s, f.id),
                updated_at,
            },
        ),
    }
}

/// The facts of some rows read back, in the order of the rows.
pub open spec fn facts_of(s: StoreModel, rows: Seq<int>) -> Result<
    Seq<FactModel>,
    StoreErrorModel,
> {
    gathered(Seq::new(rows.len(), |i: int| fact_of(s, s.facts[rows[i]])))
}

/// A fact without its body.
pub open spec fn summary_of(f: FactRowModel) -> FactSummaryModel {
    FactSummaryModel {
        fact_id: f.id,
        name: f.name,
        title: f.title,
        kind: f.kind,
        scope: f.scope,
        status: f.status,
    }
}

/// The facts visible to a query, read back.
pub open spec fn found_facts(
    s: StoreModel,
    query: FactQueryModel,
    found: RelevanceModel,
) -> Result<Seq<FactModel>, StoreErrorModel> {
    facts_of(s, selected_rows(s, query, found))
}

/// The facts visible to a query, without their bodies.
pub open spec fn found_summaries(
    s: StoreModel,
    query: FactQueryModel,
    found: RelevanceModel,
) -> Seq<FactSummaryModel> {
    let rows = selected_rows(s, query, found);
    Seq::new(rows.len(), |i: int| summary_of(s.facts[rows[i]]))
}

/// Having that name.
pub open spec fn is_named(name: Seq<char>) -> spec_fn(FactModel) -> bool {
    |f: FactModel| f.name == name
}

/// The query a name is recalled by.
pub open spec fn recall_query(context: FactContextModel) -> FactQueryModel {
    FactQueryModel {
        text: None,
        namespaces: match context.namespace {
            Some(name) => seq![name],
            None => Seq::empty(),
        },
        workspace_id: context.workspace_id,
        limit: usize::MAX,
    }
}

/// The current value of a name, if it is visible from a context.
pub open spec fn recalled(s: StoreModel, name: Seq<char>, context: FactContextModel) -> Result<
    Option<FactModel>,
    StoreErrorModel,
> {
    match facts_of(s, visible_rows(s, recall_query(context))) {
        Err(error) => Err(error),
        Ok(found) => Ok(first_row(found, is_named(name))),
    }
}

/// Facts ordered by when they were first written.
pub open spec fn written_keys(facts: Seq<FactRowModel>) -> Seq<KeyModel> {
    Seq::new(facts.len(), |i: int| KeyModel { rank: 0, weight: 0, text: facts[i].created_at })
}

/// Every value of a name in a namespace.
pub open spec fn value_marks(
    facts: Seq<FactRowModel>,
    name: Seq<char>,
    namespace: Option<Seq<char>>,
) -> Seq<bool> {
    Seq::new(facts.len(), |i: int| facts[i].name == name && facts[i].namespace == namespace)
}

/// Every value a name has held in a namespace, newest first.
pub open spec fn history_rows(s: StoreModel, name: Seq<char>, namespace: Option<Seq<char>>) -> Seq<
    int,
> {
    arranged(written_keys(s.facts), value_marks(s.facts, name, namespace), newest_first())
}

impl Store {
    fn evidence_for(&self, fact: FactId) -> (r: Vec<Evidence>)
        ensures
            r.deep_view() == evidence_of(self@, fact),
    {
        let ghost all_keys = evidence_keys(self@.evidence);
        let ghost all_marks = evidence_marks(self@.evidence, fact);
        let mut keys: Vec<SortKey> = Vec::new();
        let mut selected: Vec<bool> = Vec::new();
        let mut i: usize = 0;
        while i < self.evidence.len()
            invariant
                i <= self.evidence@.len(),
                all_keys == evidence_keys(self@.evidence),
                all_marks == evidence_marks(self@.evidence, fact),
                keys.deep_view() =~= all_keys.take(i as int),
                selected@ =~= all_marks.take(i as int),
            decreases self.evidence@.len() - i,
        {
            let key = SortKey {
                rank: 0,
                weight: 0,
                text: copy_text(&self.evidence[i].created_at),
            };
            assert(key@ == all_keys[i as int]);
            let ghost listed = keys.deep_view();
            keys.push(key);
            assert(keys.deep_view() =~= listed.push(all_keys[i as int]));
            selected.push(self.evidence[i].fact_id == fact);
            i += 1;
        }
        assert(all_keys.take(i as int) =~= all_keys);
        assert(all_marks.take(i as int) =~= all_marks);
        let order = arrange(
            &keys,
            &selected,
            Arrangement { text_descending: false, newest_row_first: false },
        );
        let ghost target = evidence_of(self@, fact);
        let mut r: Vec<Evidence> = Vec::new();
        let mut k: usize = 0;
        while k < order.len()
            invariant
                k <= order@.len(),
                target == evidence_of(self@, fact),
                row_numbers(order@) == arranged(
                    evidence_keys(self@.evidence),
                    evidence_marks(self@.evidence, fact),
                    ascending(),
                ),
                forall|i: int|
                    0 <= i < order@.len() ==> #[trigger] order@[i] < self.evidence@.len(),
                r.deep_view() =~= target.take(k as int),
            decreases order@.len() - k,
        {
            let ghost listed = r.deep_view();
            assert(row_numbers(order@)[k as int] == order@[k as int] as int);
            let row = &self.evidence[order[k]];
            let item = Evidence {
                locator: copy_text(&row.locator),
                excerpt: copy_option(&row.excerpt),
            };
            assert(item@ == target[k as int]);
            r.push(item);
            assert(r.deep_view() =~= listed.push(target[k as int]));
            k += 1;
        }
        assert(target.take(k as int) =~= target);
        r
    }

    /// A fact read back.
    pub fn build_fact(&self, i: usize) -> (r: Result<Fact, StoreError>)
        requires
            i < self.facts@.len(),
        ensures
            outcome(r) == fact_of(self@, self@.facts[i as int]),
    {
        let f = &self.facts[i];
        match parse_timestamp(f.updated_at.as_str()) {
            Err(error) => Err(error),
            Ok(updated_at) => Ok(
                Fact {
                    fact_id: f.id,
                    name: copy_text(&f.name),
                    title: copy_text(&f.title),
                    body: copy_text(&f.body),
                    kind: f.kind,
                    scope: f.scope,
                    cardinality: f.cardinality,
                    status: f.status,
                    confidence: f.confidence,
                    namespace: copy_option(&f.namespace),
                    evidence: self.evidence_for(f.id),
                    updated_at,
                },
            ),
        }
    }

    /// The facts of some rows, read back.
    pub fn build_facts(&self, rows: &Vec<usize>) -> (r: Result<Vec<Fact>, StoreError>)
        requires
            forall|i: int| 0 <= i < rows@.len() ==> #[trigger] rows@[i] < self.facts@.len(),
        ensures
            outcome(r) == facts_of(self@, row_numbers(rows@)),
    {
        let ghost numbers = row_numbers(rows@);
        let ghost readings = Seq::new(
            numbers.len(),
            |i: int| fact_of(self@, self@.facts[numbers[i]]),
        );
        let mut facts: Vec<Fact> = Vec::new();
        let mut k: usize = 0;
        assert(facts.deep_view() =~= Seq::<FactModel>::empty());
        while k < rows.len()
            invariant
                k <= rows@.len(),
                numbers == row_numbers(rows@),
                readings == Seq::new(
                    numbers.len(),
                    |i: int| fact_of(self@, self@.facts[numbers[i]]),
                ),
                forall|i: int| 0 <= i < rows@.len() ==> #[trigger] rows@[i] < self.facts@.len(),
                gathered(readings.take(k as int)) == Ok::<Seq<FactModel>, StoreErrorModel>(
                    facts.deep_view(),
                ),
            decreases rows@.len() - k,
        {
            proof {
                assert(numbers[k as int] == rows@[k as int] as int);
                lemma_gathered_step(readings, k as int);
            }
            match self.build_fact(rows[k]) {
                Ok(fact) => {
                    let ghost listed = facts.deep_view();
                    let ghost next = fact@;
                    facts.push(fact);
                    assert(facts.deep_view() =~= listed.push(next));
                },
                Err(error) => {
                    proof {
                        lemma_gathered_failed(readings, k + 1);
                    }
                    return Err(error);
                },
            }
            k += 1;
        }
        assert(readings.take(k as int) =~= readings);
        Ok(facts)
    }

    /// Facts visible from `query`, most specific and most trusted first; with
    /// words, those that match best. `found` is what a search for them, as
    /// [`fts_expression`] puts it, came back with.
    pub fn search(&self, query: &FactQuery, found: &Relevance) -> (r: Result<
        Vec<Fact>,
        StoreError,
    >)
        ensures
            outcome(r) == found_facts(self@, query@, found@),
    {
        let rows = self.select_visible(query, found);
        self.build_facts(&rows)
    }

    /// The same selection as [`Store::search`], without bodies.
    pub fn fact_index(&self, query: &FactQuery, found: &Relevance) -> (r: Vec<
        FactSummary,
    >)
        ensures
            r.deep_view() == found_summaries(self@, query@, found@),
    {
        let rows = self.select_visible(query, found);
        let ghost target = found_summaries(self@, query@, found@);
        let mut r: Vec<FactSummary> = Vec::new();
        let mut k: usize = 0;
        while k < rows.len()
            invariant
                k <= rows@.len(),
                row_numbers(rows@) == selected_rows(self@, query@, found@),
                target == found_summaries(self@, query@, found@),
                forall|i: int| 0 <= i < rows@.len() ==> #[trigger] rows@[i] < self.facts@.len(),
                r.deep_view() =~= target.take(k as int),
            decreases rows@.len() - k,
        {
            let ghost listed = r.deep_view();
            assert(row_numbers(rows@)[k as int] == rows@[k as int] as int);
            let f = &self.facts[rows[k]];
            let item = FactSummary {
                fact_id: f.id,
                name: copy_text(&f.name),
                title: copy_text(&f.title),
                kind: f.kind,
                scope: f.scope,
                status: f.status,
            };
            assert(item@ == target[k as int]);
            r.push(item);
            assert(r.deep_view() =~= listed.push(target[k as int]));
            k += 1;
        }
        assert(target.take(k as int) =~= target);
        r
    }

    /// The current value of a named fact, if it is visible from `context`.
    pub fn recall(&self, name: &str, context: &FactContext) -> (r: Result<
        Option<Fact>,
        StoreError,
    >)
        ensures
            outcome(r) == recalled(self@, name@, context@),
    {
        let mut namespaces: Vec<String> = Vec::new();
        if let Some(namespace) = &context.namespace {
            namespaces.push(copy_text(namespace));
        }
        let query = FactQuery {
            text: None,
            namespaces,
            workspace_id: context.workspace_id,
            limit: usize::MAX,
        };
        assert(query@ =~= recall_query(context@));
        let rows = self.scoped_rows(&query);
        let found = match self.build_facts(&rows) {
            Ok(found) => found,
            Err(error) => {
                return Err(error);
            },
        };
        Ok(first_named(found, name))
    }

    /// Every value a name has held, newest first.
    pub fn fact_history(&self, name: &str, context: &FactContext) -> (r: Result<
        Vec<Fact>,
        StoreError,
    >)
        ensures
            outcome(r) == facts_of(self@, history_rows(self@, name@, context@.namespace)),
    {
        let ghost all_keys = written_keys(self@.facts);
        let ghost all_marks = value_marks(self@.facts, name@, context@.namespace);
        let mut keys: Vec<SortKey> = Vec::new();
        let mut selected: Vec<bool> = Vec::new();
        let mut i: usize = 0;
        while i < self.facts.len()
            invariant
                i <= self.facts@.len(),
                all_keys == written_keys(self@.facts),
                all_marks == value_marks(self@.facts, name@, context@.namespace),
                keys.deep_view() =~= all_keys.take(i as int),
                selected@ =~= all_marks.take(i as int),
            decreases self.facts@.len() - i,
        {
            let key = SortKey {
                rank: 0,
                weight: 0,
                text: copy_text(&self.facts[i].created_at),
            };
            assert(key@ == all_keys[i as int]);
            let ghost listed = keys.deep_view();
            keys.push(key);
            assert(keys.deep_view() =~= listed.push(all_keys[i as int]));
            selected.push(
                same(self.facts[i].name.as_str(), name) && same_option(
                    &self.facts[i].namespace,
                    &context.namespace,
                ),
            );
            i += 1;
        }
        assert(all_keys.take(i as int) =~= all_keys);
        assert(all_marks.take(i as int) =~= all_marks);
        let order = arrange(
            &keys,
            &selected,
            Arrangement { text_descending: true, newest_row_first: true },
        );
        self.build_facts(&order)
    }
}

fn first_named(found: Vec<Fact>, name: &str) -> (r: Option<Fact>)
    ensures
        r.deep_view() == first_row(found.deep_view(), is_named(name@)),
{
    let ghost all = found.deep_view();
    let ghost p = is_named(name@);
    let mut i: usize = 0;
    while i < found.len()
        invariant
            i <= found@.len(),
            all == found.deep_view(),
            p == is_named(name@),
            forall|j: int| 0 <= j < i ==> !p(#[trigger] all[j]),
        decreases found@.len() - i,
    {
        if same(found[i].name.as_str(), name) {
            proof {
                assert(is_first(all, p, i as int));
                lemma_first(all, p, i as int);
            }
            return Some(found[i].dup());
        }
        i += 1;
    }
    proof {
        lemma_no_first(all, p);
    }
    None
}

// --- what a session has been shown ----------------------------------------

/// Being the record that a session was shown a fact.
pub open spec fn is_push(session: Seq<char>, fact: FactId) -> spec_fn(PushRowModel) -> bool {
    |p: PushRowModel| p.session == session && p.fact_id == fact
}

/// Which of some candidates a session has not been shown yet, and the record once
/// it has been shown them.
pub open spec fn shown(
    pushes: Seq<PushRowModel>,
    session: Seq<char>,
    candidates: Seq<FactSummaryModel>,
    now: Seq<char>,
) -> (Seq<FactSummaryModel>, Seq<PushRowModel>)
    decreases candidates.len(),
{
    if candidates.len() == 0 {
        (Seq::empty(), pushes)
    } else {
        let (fresh, rows) = shown(pushes, session, candidates.drop_last(), now);
        let candidate = candidates.last();
        if any_row(rows, is_push(session, candidate.fact_id)) {
            (fresh, rows)
        } else {
            (
                fresh.push(candidate),
                rows.push(PushRowModel { session, fact_id: candidate.fact_id, pushed_at: now }),
            )
        }
    }
}

/// Showing a session what it has not been shown yet.
pub open spec fn push_step(
    s: StoreModel,
    session: Seq<char>,
    query: FactQueryModel,
    found: RelevanceModel,
    now: Seq<char>,
) -> (Seq<FactSummaryModel>, StoreModel) {
    let (fresh, rows) = shown(s.pushes, session, found_summaries(s, query, found), now);
    (fresh, StoreModel { pushes: rows, ..s })
}

impl Store {
    fn was_pushed(&self, session: &str, fact: FactId) -> (r: bool)
        ensures
            r == any_row(self@.pushes, is_push(session@, fact)),
    {
        let ghost p = is_push(session@, fact);
        let mut i: usize = 0;
        while i < self.pushes.len()
            invariant
                i <= self.pushes@.len(),
                p == is_push(session@, fact),
                forall|j: int| 0 <= j < i ==> !p(#[trigger] self@.pushes[j]),
            decreases self.pushes@.len() - i,
        {
            assert(self@.pushes[i as int] == self.pushes@[i as int]@);
            if self.pushes[i].fact_id == fact && same(self.pushes[i].session.as_str(), session) {
                assert(p(self@.pushes[i as int]));
                return true;
            }
            i += 1;
        }
        false
    }

    /// Facts worth pushing into `session`'s context that it has not seen yet, at a
    /// given time.
    pub fn unpushed_index_at(
        &mut self,
        session: &str,
        query: &FactQuery,
        found: &Relevance,
        now: &str,
    ) -> (r: Vec<FactSummary>)
        ensures
            (r.deep_view(), final(self)@) == push_step(
                old(self)@,
                session@,
                query@,
                found@,
                now@,
            ),
    {
        let candidates = self.fact_index(query, found);
        let ghost before = self@;
        let ghost all = candidates.deep_view();
        let mut fresh: Vec<FactSummary> = Vec::new();
        let mut i: usize = 0;
        assert(all.take(0) =~= Seq::<FactSummaryModel>::empty());
        assert(fresh.deep_view() =~= Seq::<FactSummaryModel>::empty());
        while i < candidates.len()
            invariant
                i <= candidates@.len(),
                all == candidates.deep_view(),
                self@ == (StoreModel { pushes: self@.pushes, ..before }),
                (fresh.deep_view(), self@.pushes) == shown(
                    before.pushes,
                    session@,
                    all.take(i as int),
                    now@,
                ),
            decreases candidates@.len() - i,
        {
            let ghost listed = fresh.deep_view();
            let ghost rows = self@.pushes;
            assert(all.take(i + 1).drop_last() =~= all.take(i as int));
            assert(all.take(i + 1).last() == all[i as int]);
            // A row that was already there means this session has seen it.
            if !self.was_pushed(session, candidates[i].fact_id) {
                let row = PushRow {
                    session: session.to_owned(),
                    fact_id: candidates[i].fact_id,
                    pushed_at: now.to_owned(),
                };
                let ghost added = row@;
                self.pushes.push(row);
                assert(self@.pushes =~= rows.push(added));
                fresh.push(candidates[i].dup());
                assert(fresh.deep_view() =~= listed.push(all[i as int]));
            }
            i += 1;
        }
        assert(all.take(i as int) =~= all);
        fresh
    }

    /// Facts worth pushing into `session`'s context that it has not seen yet.
    ///
    /// Recording what was pushed is what keeps a long session from paying for the
    /// same handful of facts on every single turn.
    pub fn unpushed_index(
        &mut self,
        session: &str,
        query: &FactQuery,
        found: &Relevance,
    ) -> (r: Vec<FactSummary>)
        ensures
            exists|now: Seq<char>|
                clock_text(now) && (r.deep_view(), final(self)@) == #[trigger] push_step(
                    old(self)@,
                    session@,
                    query@,
                    found@,
                    now,
                ),
    {
        let now = Moment::now().text();
        self.unpushed_index_at(session, query, found, now.as_str())
    }
}

// --- namespaces and links --------------------------------------------------

/// The namespaces of some facts, each once, in the order they were first used.
pub open spec fn namespaces_of(facts: Seq<FactRowModel>) -> Seq<Seq<char>>
    decreases facts.len(),
{
    if facts.len() == 0 {
        Seq::empty()
    } else {
        let before = namespaces_of(facts.drop_last());
        match facts.last().namespace {
            None => before,
            Some(name) => if before.contains(name) {
                before
            } else {
                before.push(name)
            },
        }
    }
}

/// Links ordered by when they were made.
pub open spec fn relation_keys(relations: Seq<RelationRowModel>) -> Seq<KeyModel> {
    Seq::new(
        relations.len(),
        |i: int| KeyModel { rank: 0, weight: 0, text: relations[i].created_at },
    )
}

/// The links of a fact.
pub open spec fn relation_marks(relations: Seq<RelationRowModel>, fact: FactId) -> Seq<bool> {
    Seq::new(relations.len(), |i: int| relations[i].from_fact_id == fact)
}

/// What a fact links to, with the kind of link, oldest first.
pub open spec fn links_of(s: StoreModel, fact: FactId) -> Seq<(Seq<char>, RelationKind)> {
    let order = arranged(
        relation_keys(s.relations),
        relation_marks(s.relations, fact),
        ascending(),
    );
    Seq::new(
        order.len(),
        |i: int| (s.relations[order[i]].to_name, s.relations[order[i]].predicate),
    )
}

/// The names of some links.
pub open spec fn targets(links: Seq<(Seq<char>, RelationKind)>) -> Seq<Seq<char>> {
    Seq::new(links.len(), |i: int| links[i].0)
}

/// Where the fact called `name` links to, as seen from a place.
pub open spec fn links_called(s: StoreModel, name: Seq<char>, context: FactContextModel) -> Result<
    Seq<(Seq<char>, RelationKind)>,
    StoreErrorModel,
> {
    match recalled(s, name, context) {
        Err(error) => Err(error),
        Ok(None) => Ok(Seq::empty()),
        Ok(Some(fact)) => Ok(links_of(s, fact.fact_id)),
    }
}

impl Store {
    /// Every namespace memory has been filed under.
    pub fn known_namespaces(&self) -> (r: Vec<String>)
        ensures
            r.deep_view() == namespaces_of(self@.facts),
    {
        let ghost all = self@.facts;
        let mut r: Vec<String> = Vec::new();
        let mut i: usize = 0;
        assert(r.deep_view() =~= Seq::<Seq<char>>::empty());
        assert(all.take(0) =~= Seq::<FactRowModel>::empty());
        while i < self.facts.len()
            invariant
                i <= self.facts@.len(),
                all == self@.facts,
                r.deep_view() == namespaces_of(all.take(i as int)),
            decreases self.facts@.len() - i,
        {
            assert(all.take(i + 1).drop_last() =~= all.take(i as int));
            assert(all.take(i + 1).last() == self.facts@[i as int]@);
            let ghost listed = r.deep_view();
            if let Some(name) = &self.facts[i].namespace {
                if !list_contains(&r, name.as_str()) {
                    r.push(copy_text(name));
                    assert(r.deep_view() =~= listed.push(name@));
                }
            }
            i += 1;
        }
        assert(all.take(i as int) =~= all);
        r
    }

    fn links(&self, fact: FactId) -> (r: Vec<(String, RelationKind)>)
        ensures
            r.deep_view() == links_of(self@, fact),
    {
        let ghost all_keys = relation_keys(self@.relations);
        let ghost all_marks = relation_marks(self@.relations, fact);
        let mut keys: Vec<SortKey> = Vec::new();
        let mut selected: Vec<bool> = Vec::new();
        let mut i: usize = 0;
        while i < self.relations.len()
            invariant
                i <= self.relations@.len(),
                all_keys == relation_keys(self@.relations),
                all_marks == relation_marks(self@.relations, fact),
                keys.deep_view() =~= all_keys.take(i as int),
                selected@ =~= all_marks.take(i as int),
            decreases self.relations@.len() - i,
        {
            let key = SortKey {
                rank: 0,
                weight: 0,
                text: copy_text(&self.relations[i].created_at),
            };
            assert(key@ == all_keys[i as int]);
            let ghost listed = keys.deep_view();
            keys.push(key);
            assert(keys.deep_view() =~= listed.push(all_keys[i as int]));
            selected.push(self.relations[i].from_fact_id == fact);
            i += 1;
        }
        assert(all_keys.take(i as int) =~= all_keys);
        assert(all_marks.take(i as int) =~= all_marks);
        let order = arrange(
            &keys,
            &selected,
            Arrangement { text_descending: false, newest_row_first: false },
        );
        let ghost target = links_of(self@, fact);
        let mut r: Vec<(String, RelationKind)> = Vec::new();
        let mut k: usize = 0;
        while k < order.len()
            invariant
                k <= order@.len(),
                target == links_of(self@, fact),
                row_numbers(order@) == arranged(
                    relation_keys(self@.relations),
                    relation_marks(self@.relations, fact),
                    ascending(),
                ),
                forall|i: int|
                    0 <= i < order@.len() ==> #[trigger] order@[i] < self.relations@.len(),
                r.deep_view() =~= target.take(k as int),
            decreases order@.len() - k,
        {
            let ghost listed = r.deep_view();
            assert(row_numbers(order@)[k as int] == order@[k as int] as int);
            let row = &self.relations[order[k]];
            let item = (copy_text(&row.to_name), row.predicate);
            assert(item.deep_view() == target[k as int]);
            r.push(item);
            assert(r.deep_view() =~= listed.push(target[k as int]));
            k += 1;
        }
        assert(target.take(k as int) =~= target);
        r
    }

    /// Names one fact links to, addressed by its identifier.
    pub fn relations_of_id(&self, fact: FactId) -> (r: Vec<String>)
        ensures
            r.deep_view() == targets(links_of(self@, fact)),
    {
        let links = self.links(fact);
        let ghost target = targets(links_of(self@, fact));
        let mut r: Vec<String> = Vec::new();
        let mut i: usize = 0;
        while i < links.len()
            invariant
                i <= links@.len(),
                links.deep_view() == links_of(self@, fact),
                target == targets(links_of(self@, fact)),
                r.deep_view() =~= target.take(i as int),
            decreases links@.len() - i,
        {
            let ghost listed = r.deep_view();
            assert(links.deep_view()[i as int] == links@[i as int].deep_view());
            r.push(copy_text(&links[i].0));
            assert(r.deep_view() =~= listed.push(target[i as int]));
            i += 1;
        }
        assert(target.take(i as int) =~= target);
        r
    }

    /// Names the fact called `name` links to, with the kind of link.
    pub fn relations_of(&self, name: &str, context: &FactContext) -> (r: Result<
        Vec<(String, RelationKind)>,
        StoreError,
    >)
        ensures
            outcome(r) == links_called(self@, name@, context@),
    {
        match self.recall(name, context) {
            Err(error) => Err(error),
            Ok(None) => {
                let none: Vec<(String, RelationKind)> = Vec::new();
                assert(none.deep_view() =~= Seq::<(Seq<char>, RelationKind)>::empty());
                Ok(none)
            },
            Ok(Some(fact)) => Ok(self.links(fact.fact_id)),
        }
    }
}

} // verus!
