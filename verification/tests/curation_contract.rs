//! Curating memory by hand.

use magent_store::curation::{looks_like_the_same_thing, VERIFIED_CONFIDENCE};
use magent_store::domain::{Evidence, Fact, RememberCommand};
use magent_store::grouping::ProbedRoot;
use magent_store::ids::{FactId, OperationId};
use magent_store::retrieval::{fts_expression, FactMatch, Relevance};
use magent_store::states::{Cardinality, FactKind, FactScope, FactStatus, HarnessKind};
use magent_store::{FactContext, FactFilter, FactQuery, RepositoryProbe, Store, StoreError};

fn context() -> FactContext {
    FactContext { namespace: Some("service".into()), ..FactContext::default() }
}

fn remember(store: &mut Store, name: &str, title: &str) -> FactId {
    store
        .remember(
            &RememberCommand {
                operation_id: OperationId::new(),
                name: name.into(),
                title: title.into(),
                body: format!("{title}, at length."),
                kind: FactKind::Project,
                scope: FactScope::Repository,
                cardinality: Cardinality::Many,
                status: FactStatus::Observed,
                confidence: 0.7f64.to_bits(),
                evidence: vec![],
                relates_to: vec![],
            },
            &None,
            &context(),
        )
        .expect("remember")
}

/// What the full-text index makes of a query, best match first being the smallest score.
fn relevance(store: &Store, query: &FactQuery) -> Relevance {
    let Some(expression) = fts_expression(&query.text) else {
        return Relevance::none();
    };
    let connection = rusqlite::Connection::open_in_memory().expect("in memory");
    connection
        .execute_batch("CREATE VIRTUAL TABLE facts_fts USING fts5(name, title, body)")
        .expect("fts5");
    for (index, fact) in store.facts.iter().enumerate() {
        connection
            .execute(
                "INSERT INTO facts_fts (rowid, name, title, body) VALUES (?1, ?2, ?3, ?4)",
                (index as i64, &fact.name, &fact.title, &fact.body),
            )
            .expect("index");
    }
    let mut statement = connection
        .prepare("SELECT rowid, bm25(facts_fts) FROM facts_fts WHERE facts_fts MATCH ?1")
        .expect("prepare");
    let scored: Vec<(i64, f64)> = statement
        .query_map([&expression], |row| Ok((row.get(0)?, row.get(1)?)))
        .expect("query")
        .collect::<Result<_, _>>()
        .expect("rows");
    let matches: Vec<FactMatch> = scored
        .iter()
        .map(|(index, score)| FactMatch {
            fact_id: store.facts[*index as usize].id,
            score: ascending_key(*score),
        })
        .collect();
    let best = store.best_match(query, &matches).map(|key| {
        scored
            .iter()
            .map(|(_, score)| *score)
            .find(|score| ascending_key(*score) == key)
            .expect("one of the scores")
    });
    let cutoff = ascending_key(best.unwrap_or(0.0) * 0.5);
    Relevance { matches, cutoff }
}

/// A number whose order is the order of the scores.
fn ascending_key(score: f64) -> u64 {
    let bits = score.to_bits();
    if bits >> 63 == 1 { !bits } else { bits | (1 << 63) }
}

fn find(store: &Store, query: &FactQuery) -> Vec<Fact> {
    store.search(query, &relevance(store, query)).expect("search")
}

fn visible(store: &Store) -> Vec<String> {
    find(
        store,
        &FactQuery { namespaces: vec!["service".into()], limit: 100, ..FactQuery::default() },
    )
    .into_iter()
    .map(|fact| fact.name)
    .collect()
}

// --- confirming ------------------------------------------------------------

#[test]
fn a_fact_can_be_confirmed_with_evidence() {
    let mut store = Store::new();
    let id = remember(&mut store, "goose-locking", "goose locks with a table locker");

    store
        .verify_fact(
            id,
            &vec![Evidence {
                locator: "internal/migrate/migrate.go:41".into(),
                excerpt: Some("goose.WithLocker(locker)".into()),
            }],
        )
        .expect("verify");

    let fact = store.fact(id).expect("read").expect("the fact still exists");

    assert_eq!(fact.status, FactStatus::Verified);
    assert_eq!(fact.evidence.len(), 1);
    assert!(
        f64::from_bits(fact.confidence) > 0.7,
        "confirming something should raise how far it is trusted, got {}",
        f64::from_bits(fact.confidence)
    );
    assert_eq!(f64::from_bits(VERIFIED_CONFIDENCE), 0.95);
}

#[test]
fn confirming_raises_a_trust_below_zero() {
    let mut store = Store::new();
    let id = remember(&mut store, "doubted", "hardly anybody believed it");
    store.facts[0].confidence = (-1.0f64).to_bits();
    store
        .verify_fact(id, &vec![Evidence { locator: "src/main.rs:1".into(), excerpt: None }])
        .expect("verify");
    assert_eq!(f64::from_bits(store.facts[0].confidence), 0.95);
}

#[test]
fn confirming_without_evidence_is_refused() {
    let mut store = Store::new();
    let id = remember(&mut store, "unchecked", "asserted without checking");

    assert!(
        store.verify_fact(id, &vec![]).is_err(),
        "a fact was marked verified with nothing behind it"
    );
    assert_eq!(
        store.fact(id).expect("read").expect("fact").status,
        FactStatus::Observed,
        "the refused change was applied anyway"
    );
}

// --- withdrawing -----------------------------------------------------------

#[test]
fn a_withdrawn_fact_stops_being_retrieved_but_stays_readable() {
    let mut store = Store::new();
    let id = remember(&mut store, "old-advice", "do it the old way");

    store.revoke_fact(id, "the API changed in v3");

    assert!(
        !visible(&store).contains(&"old-advice".to_owned()),
        "a withdrawn fact is still being retrieved"
    );

    let fact = store.fact(id).expect("read").expect("still readable");
    assert_eq!(fact.status, FactStatus::Revoked);
    assert!(
        fact.body.contains("the API changed in v3"),
        "the reason for withdrawing it was not kept: {}",
        fact.body
    );
}

#[test]
fn a_withdrawal_can_be_undone() {
    let mut store = Store::new();
    let id = remember(&mut store, "reinstated", "it was true after all");

    store.revoke_fact(id, "thought better of it");
    store.set_fact_status(id, FactStatus::Observed);

    assert!(visible(&store).contains(&"reinstated".to_owned()));
}

#[test]
fn withdrawing_twice_keeps_the_first_reason_alone() {
    let mut store = Store::new();
    let id = remember(&mut store, "old-advice", "do it the old way");
    store.revoke_fact(id, "first reason");
    store.revoke_fact(id, "second reason");
    let body = store.fact(id).expect("read").expect("fact").body;
    assert!(body.contains("first reason"), "{body}");
    assert!(!body.contains("second reason"), "{body}");
}

// --- correcting ------------------------------------------------------------

#[test]
fn correcting_the_wording_keeps_the_previous_version() {
    let mut store = Store::new();
    let id = remember(&mut store, "retry-budget", "the retry budget is 3");

    let corrected = store
        .edit_fact(id, "the retry budget is configurable", "read from config")
        .expect("edit");

    assert_ne!(corrected, id, "an edit overwrote rather than superseded");

    let current =
        store.recall("retry-budget", &context()).expect("recall").expect("a current value");
    assert_eq!(current.title, "the retry budget is configurable");

    let history = store.fact_history("retry-budget", &context()).expect("history");
    assert_eq!(history.len(), 2, "the previous wording was destroyed");
}

#[test]
fn correcting_a_fact_that_is_not_there_is_refused() {
    let mut store = Store::new();
    let missing = FactId::new();
    match store.edit_fact(missing, "title", "body") {
        Err(StoreError::Serialization(message)) => {
            assert_eq!(message, format!("no fact {}", missing.text()));
        }
        other => panic!("expected a refusal, got {other:?}"),
    }
}

// --- promoting -------------------------------------------------------------

#[test]
fn a_single_fact_can_be_moved_to_the_workspace() {
    let mut store = Store::new();
    let workspace = store.group_into_workspace(
        "group",
        &vec![ProbedRoot {
            path: "/tmp/sibling".into(),
            probe: Some(RepositoryProbe {
                root: "/tmp/sibling".into(),
                origin_url: None,
                git: None,
            }),
        }],
    ).expect("gather the roots");

    let id = remember(&mut store, "service-auth", "HMAC for clients");
    store.set_fact_scope(id, FactScope::Workspace, Some(workspace.workspace_id));

    let from_sibling = find(
        &store,
        &FactQuery {
            text: Some("HMAC clients".into()),
            namespaces: vec!["sibling".into()],
            workspace_id: Some(workspace.workspace_id),
            ..FactQuery::default()
        },
    );

    assert_eq!(
        from_sibling.len(),
        1,
        "the promoted fact did not reach the group: {from_sibling:?}"
    );
}

// --- merging ---------------------------------------------------------------

#[test]
fn duplicates_can_be_merged_into_one() {
    let mut store = Store::new();
    let keep = remember(&mut store, "lock-timeout", "the lock timeout is 90s");
    let duplicate = remember(&mut store, "locking-timeout", "lock timeout: ninety seconds");

    store.merge_facts(keep, duplicate).expect("merge");

    let names = visible(&store);
    assert!(names.contains(&"lock-timeout".to_owned()));
    assert!(
        !names.contains(&"locking-timeout".to_owned()),
        "the duplicate is still being retrieved: {names:?}"
    );

    let merged = store.fact(duplicate).expect("read").expect("the duplicate stays readable");
    assert_eq!(
        merged.title, "lock timeout: ninety seconds",
        "the folded-in wording was destroyed"
    );

    let relations = store.relations_of("lock-timeout", &context()).expect("relations");
    assert!(
        relations.iter().any(|(name, _)| name == "locking-timeout"),
        "the merge left no trace of what was folded in: {relations:?}"
    );
}

#[test]
fn a_fact_cannot_be_merged_into_itself() {
    let mut store = Store::new();
    let id = remember(&mut store, "only-one", "the only one");

    assert!(store.merge_facts(id, id).is_err());
    assert!(visible(&store).contains(&"only-one".to_owned()));
}

// --- finding duplicates ----------------------------------------------------

#[test]
fn duplicate_detection_does_not_pair_merely_related_facts() {
    let mut store = Store::new();

    remember(
        &mut store,
        "project-expert-rewrite-plan",
        "Go-forward plan: freeze the current project-expert as RESEARCH and \
         redesign the system greenfield under a new name",
    );
    remember(
        &mut store,
        "wbbank-collab-prefs",
        "How the user wants me to work on project-expert: process, verification, \
         communication",
    );

    let pairs = store.duplicate_candidates(10).expect("candidates");

    assert!(
        pairs.is_empty(),
        "two facts about one project were called duplicates: {:?}",
        pairs.iter().map(|(l, r)| (&l.name, &r.name)).collect::<Vec<_>>()
    );
}

#[test]
fn duplicate_detection_still_finds_the_same_thing_said_twice() {
    let mut store = Store::new();

    remember(
        &mut store,
        "goose-migration-lock-timeout",
        "the goose migration lock timeout was raised to ninety seconds",
    );
    remember(
        &mut store,
        "migration-lock-timeout-raised",
        "the migration lock timeout is now ninety seconds for goose",
    );

    let pairs = store.duplicate_candidates(10).expect("candidates");

    assert_eq!(
        pairs.len(),
        1,
        "the same thing said twice was not spotted: {:?}",
        pairs.iter().map(|(l, r)| (&l.name, &r.name)).collect::<Vec<_>>()
    );
}

#[test]
fn case_does_not_hide_a_duplicate() {
    assert!(looks_like_the_same_thing(
        "GOOSE Migration LOCK timeout RAISED",
        "goose migration lock timeout raised"
    ));
    assert!(!looks_like_the_same_thing("one two", "one two"));
}

// --- what the console needs to show ----------------------------------------

#[test]
fn the_store_reports_what_a_console_needs() {
    let mut store = Store::new();
    remember(&mut store, "first", "the first thing");
    let revoked = remember(&mut store, "second", "the second thing");
    store.revoke_fact(revoked, "no longer true");

    let overview = store.overview();

    assert_eq!(overview.facts, 1, "revoked facts should not be counted live");
    assert_eq!(overview.revoked, 1);
    assert_eq!(overview.namespaces, 1);
}

#[test]
fn facts_can_be_browsed_by_scope_and_status() {
    let mut store = Store::new();
    remember(&mut store, "kept", "still true");
    let revoked = remember(&mut store, "dropped", "not any more");
    store.revoke_fact(revoked, "superseded");

    let live = store
        .browse_facts(&FactFilter {
            status: Some(FactStatus::Observed),
            ..FactFilter::default()
        })
        .expect("browse");
    assert_eq!(live.len(), 1);
    assert_eq!(live[0].name, "kept");

    let withdrawn = store
        .browse_facts(&FactFilter {
            status: Some(FactStatus::Revoked),
            ..FactFilter::default()
        })
        .expect("browse");
    assert_eq!(withdrawn.len(), 1);
    assert_eq!(withdrawn[0].name, "dropped");
}

#[test]
fn browsing_can_be_narrowed_to_one_namespace() {
    let mut store = Store::new();
    remember(&mut store, "here", "in this project");
    store
        .remember(
            &RememberCommand {
                operation_id: OperationId::new(),
                name: "elsewhere".into(),
                title: "in another project".into(),
                body: "body".into(),
                kind: FactKind::Project,
                scope: FactScope::Repository,
                cardinality: Cardinality::Many,
                status: FactStatus::Observed,
                confidence: 0.7f64.to_bits(),
                evidence: vec![],
                relates_to: vec![],
            },
            &None,
            &FactContext { namespace: Some("other".into()), ..FactContext::default() },
        )
        .expect("remember");

    let found = store
        .browse_facts(&FactFilter {
            namespace: Some("service".into()),
            ..FactFilter::default()
        })
        .expect("browse");

    assert_eq!(found.len(), 1);
    assert_eq!(found[0].name, "here");
    assert_eq!(
        store.namespace_counts(),
        vec![("other".to_owned(), 1), ("service".to_owned(), 1)]
    );
}

#[test]
fn larger_namespaces_are_counted_first_and_withdrawn_facts_not_at_all() {
    let mut store = Store::new();
    remember(&mut store, "one", "first");
    remember(&mut store, "two", "second");
    let gone = remember(&mut store, "three", "third");
    store.revoke_fact(gone, "never true");

    assert_eq!(store.namespace_counts(), vec![("service".to_owned(), 2)]);
}

// --- correcting the rest ---------------------------------------------------

#[test]
fn whether_values_compete_can_be_corrected() {
    let mut store = Store::new();
    let id = remember(&mut store, "go-version", "Go 1.22");
    store.set_fact_cardinality(id, Cardinality::Single);

    assert_eq!(
        store.fact(id).expect("read").expect("fact").cardinality,
        Cardinality::Single
    );
}

#[test]
fn everything_retrievable_is_exported() {
    let mut store = Store::new();
    remember(&mut store, "kept", "still true");
    let dropped = remember(&mut store, "dropped", "not any more");
    store.revoke_fact(dropped, "never true");

    let live = store.all_live_facts().expect("export");
    assert_eq!(live.len(), 1);
    assert_eq!(live[0].name, "kept");
}

// --- runs ------------------------------------------------------------------

fn at(root: &str) -> RepositoryProbe {
    RepositoryProbe { root: root.into(), origin_url: None, git: None }
}

#[test]
fn the_most_recently_touched_run_is_listed_first() {
    let mut store = Store::new();
    let first = store
        .bind_session("s-1", &at("/work/a"), "first", HarnessKind::ClaudeCode)
        .expect("bind the session");
    let second = store
        .bind_session("s-2", &at("/work/b"), "second", HarnessKind::ClaudeCode)
        .expect("bind the session");
    store.close_run_from_console(first.run_id, "not needed");

    let listed = store.recent_runs(10);
    assert_eq!(
        listed.iter().map(|run| run.run_id).collect::<Vec<_>>(),
        vec![first.run_id, second.run_id]
    );
    assert_eq!(listed[0].status, "completed");
    assert_eq!(listed[1].task, "second");
    assert_eq!(store.recent_runs(1).len(), 1);
}

#[test]
fn a_run_closed_by_hand_is_joined_no_more_and_keeps_the_reason() {
    let mut store = Store::new();
    let bound = store
        .bind_session("s-1", &at("/work/a"), "first", HarnessKind::ClaudeCode)
        .expect("bind the session");
    store.close_run_from_console(bound.run_id, "abandoned");
    store.close_run_from_console(bound.run_id, "again");

    assert_eq!(store.runs[0].outcome.as_deref(), Some("abandoned"));
    let next = store
        .bind_session("s-2", &at("/work/a"), "second", HarnessKind::ClaudeCode)
        .expect("bind the session");
    assert!(next.opened_run);
    assert_ne!(next.run_id, bound.run_id);
}

#[test]
fn a_fact_of_a_workspace_is_exported_without_a_namespace() {
    let mut store = Store::new();
    let workspace = store
        .resolve_workspace_for(&at("/work/a"))
        .expect("resolve the root").workspace_id;
    store
        .remember(
            &RememberCommand {
                operation_id: OperationId::new(),
                name: "deploys".into(),
                title: "how it deploys".into(),
                body: "body".into(),
                kind: FactKind::Project,
                scope: FactScope::Workspace,
                cardinality: Cardinality::Single,
                status: FactStatus::Observed,
                confidence: 0.7f64.to_bits(),
                evidence: vec![],
                relates_to: vec![],
            },
            &None,
            &FactContext { workspace_id: Some(workspace), ..FactContext::default() },
        )
        .expect("remember");
    remember(&mut store, "kept", "still true");

    let exported = store.all_live_facts().expect("export");
    assert_eq!(exported.len(), store.overview().facts);
    assert_eq!(
        exported.iter().map(|fact| fact.name.as_str()).collect::<Vec<_>>(),
        vec!["kept", "deploys"],
        "the narrower scope first"
    );
}

#[test]
fn neither_order_nor_case_makes_titles_look_different() {
    let one = "Payment retries are bounded";
    let other = "bounded retries of payment calls";
    assert!(looks_like_the_same_thing(one, other));
    assert!(looks_like_the_same_thing(other, one));
    assert!(looks_like_the_same_thing(&one.to_ascii_uppercase(), other));
    assert!(!looks_like_the_same_thing(one, "Goose locks with a table locker"));
}

#[test]
fn a_withdrawn_fact_is_reinstated_in_any_status() {
    for status in [FactStatus::Observed, FactStatus::Verified, FactStatus::Contradicted] {
        let mut store = Store::new();
        let id = remember(&mut store, "kept", "still true");
        store.revoke_fact(id, "by mistake");
        assert!(visible(&store).is_empty());
        store.set_fact_status(id, status);
        assert_eq!(visible(&store), vec!["kept".to_owned()]);
    }
}
