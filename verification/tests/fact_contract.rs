//! Storing, superseding and finding facts.

use magent_store::domain::{Evidence, Fact, RememberCommand};
use magent_store::ids::OperationId;
use magent_store::order::number_place;
use magent_store::retrieval::{fts_expression, FactMatch, Relevance};
use magent_store::states::{Cardinality, FactKind, FactScope, FactStatus, RelationKind};
use magent_store::{namespace_candidates, FactContext, FactQuery, Store};

fn remember(name: &str, title: &str, body: &str) -> RememberCommand {
    RememberCommand {
        operation_id: OperationId::new(),
        name: name.into(),
        title: title.into(),
        body: body.into(),
        kind: FactKind::Project,
        scope: FactScope::Repository,
        cardinality: Cardinality::Single,
        status: FactStatus::Observed,
        confidence: 0.7f64.to_bits(),
        evidence: vec![],
        relates_to: vec![],
    }
}

fn in_namespace(namespace: &str) -> FactContext {
    FactContext { namespace: Some(namespace.to_owned()), ..FactContext::default() }
}

fn query(text: &str, namespaces: &[&str]) -> FactQuery {
    FactQuery {
        text: Some(text.to_owned()),
        namespaces: namespaces.iter().map(|n| (*n).to_owned()).collect(),
        ..FactQuery::default()
    }
}

/// What the full-text index makes of a query, best match first being the smallest score.
fn relevance(store: &Store, query: &FactQuery) -> Relevance {
    let Some(expression) = fts_expression(&query.text) else {
        return Relevance::none();
    };
    let connection = rusqlite::Connection::open_in_memory().expect("in memory");
    connection
        .execute_batch("CREATE VIRTUAL TABLE facts_fts USING fts5(name, title, body)")
        .expect("fts5");
    for (index, fact) in store.facts.iter().enumerate() {
        connection
            .execute(
                "INSERT INTO facts_fts (rowid, name, title, body) VALUES (?1, ?2, ?3, ?4)",
                (index as i64, &fact.name, &fact.title, &fact.body),
            )
            .expect("index");
    }
    let mut statement = connection
        .prepare("SELECT rowid, bm25(facts_fts) FROM facts_fts WHERE facts_fts MATCH ?1")
        .expect("prepare");
    let scored: Vec<(i64, f64)> = statement
        .query_map([&expression], |row| Ok((row.get(0)?, row.get(1)?)))
        .expect("query")
        .collect::<Result<_, _>>()
        .expect("rows");
    let matches: Vec<FactMatch> = scored
        .iter()
        .map(|(index, score)| FactMatch {
            fact_id: store.facts[*index as usize].id,
            score: ascending_key(*score),
        })
        .collect();
    let best = store.best_match(query, &matches).map(|key| {
        scored
            .iter()
            .map(|(_, score)| *score)
            .find(|score| ascending_key(*score) == key)
            .expect("one of the scores")
    });
    let cutoff = ascending_key(best.unwrap_or(0.0) * 0.5);
    Relevance { matches, cutoff }
}

/// A number whose order is the order of the scores.
fn ascending_key(score: f64) -> u64 {
    let bits = score.to_bits();
    if bits >> 63 == 1 { !bits } else { bits | (1 << 63) }
}

fn find(store: &Store, query: &FactQuery) -> Vec<Fact> {
    store.search(query, &relevance(store, query)).expect("search")
}

// --- storing and recalling -------------------------------------------------

#[test]
fn a_remembered_fact_comes_back_by_name() {
    let mut store = Store::new();
    store
        .remember(
            &remember(
                "goose-table-locking",
                "goose v3.26 locks with NewPostgresTableLocker",
                "Use lock.NewPostgresTableLocker plus goose.WithLocker.",
            ),
            &None,
            &in_namespace("wb-bank-clients"),
        )
        .expect("remember");

    let recalled = store
        .recall("goose-table-locking", &in_namespace("wb-bank-clients"))
        .expect("recall")
        .expect("the fact exists");

    assert_eq!(recalled.title, "goose v3.26 locks with NewPostgresTableLocker");
    assert!(recalled.body.contains("WithLocker"));
}

#[test]
fn recalling_something_never_written_is_not_an_error() {
    let store = Store::new();

    assert!(store.recall("never-written", &FactContext::default()).expect("recall").is_none());
}

// --- cardinality -----------------------------------------------------------

#[test]
fn a_single_valued_fact_supersedes_its_predecessor() {
    let mut store = Store::new();
    let context = in_namespace("service");

    store
        .remember(
            &remember("retry-budget", "retry budget is 3", "hardcoded in client.rs"),
            &None,
            &context,
        )
        .expect("first");
    store
        .remember(
            &remember("retry-budget", "retry budget is configurable", "now read from config"),
            &None,
            &context,
        )
        .expect("second");

    let current = store.recall("retry-budget", &context).expect("recall").expect("a value");
    assert_eq!(current.title, "retry budget is configurable");

    let history = store.fact_history("retry-budget", &context).expect("history");
    assert_eq!(history.len(), 2, "the earlier value must survive: {history:?}");
    assert!(
        history
            .iter()
            .any(|fact| fact.status == FactStatus::Contradicted
                || fact.title == "retry budget is 3"),
        "the predecessor must still be readable"
    );
}

#[test]
fn set_valued_facts_coexist() {
    let mut store = Store::new();
    let context = in_namespace("service");

    for (name, title) in [
        ("known-flaky-a", "TestPaymentRetry is flaky"),
        ("known-flaky-b", "TestLedgerSync is flaky"),
    ] {
        store
            .remember(
                &RememberCommand {
                    cardinality: Cardinality::Many,
                    ..remember(name, title, "observed in CI")
                },
                &None,
                &context,
            )
            .expect("remember");
    }

    let found = find(&store, &query("flaky", &["service"]));
    assert_eq!(found.len(), 2, "both values must survive: {found:?}");
}

#[test]
fn two_set_values_of_one_name_are_both_current() {
    let mut store = Store::new();
    let context = in_namespace("service");
    for title in ["TestPaymentRetry is flaky", "TestLedgerSync is flaky"] {
        store
            .remember(
                &RememberCommand {
                    cardinality: Cardinality::Many,
                    ..remember("known-flaky", title, "observed in CI")
                },
                &None,
                &context,
            )
            .expect("remember");
    }
    assert_eq!(find(&store, &query("flaky", &["service"])).len(), 2);
}

// --- search ----------------------------------------------------------------

#[test]
fn search_finds_a_fact_by_words_in_its_body() {
    let mut store = Store::new();
    store
        .remember(
            &remember(
                "goose-table-locking",
                "migration locking",
                "goose_lock is auto-created and needs DDL rights",
            ),
            &None,
            &in_namespace("service"),
        )
        .expect("remember");

    let found = find(&store, &query("DDL rights", &["service"]));

    assert_eq!(found.len(), 1, "{found:?}");
    assert_eq!(found[0].name, "goose-table-locking");
}

#[test]
fn search_does_not_leak_facts_between_projects() {
    let mut store = Store::new();
    store
        .remember(
            &remember("alpha-quirk", "alpha has a quirk", "only true of alpha"),
            &None,
            &in_namespace("alpha"),
        )
        .expect("remember");

    let from_beta = find(&store, &query("quirk", &["beta"]));
    assert!(from_beta.is_empty(), "leaked into another project: {from_beta:?}");

    let from_alpha = find(&store, &query("quirk", &["alpha"]));
    assert_eq!(from_alpha.len(), 1);
}

#[test]
fn user_scoped_facts_apply_everywhere() {
    let mut store = Store::new();
    store
        .remember(
            &RememberCommand {
                scope: FactScope::User,
                kind: FactKind::Feedback,
                ..remember(
                    "no-autonomous-commits",
                    "never commit without being asked",
                    "the user makes the commits",
                )
            },
            &None,
            &FactContext::default(),
        )
        .expect("remember");

    let found = find(&store, &query("commit", &["some-unrelated-project"]));

    assert_eq!(found.len(), 1, "{found:?}");
}

#[test]
fn revoked_facts_do_not_come_back() {
    let mut store = Store::new();
    let context = in_namespace("service");
    store
        .remember(
            &RememberCommand {
                status: FactStatus::Revoked,
                ..remember("old-advice", "do it the old way", "no longer true")
            },
            &None,
            &context,
        )
        .expect("remember");

    assert!(find(&store, &query("old way", &["service"])).is_empty());
}

#[test]
fn search_honours_its_limit() {
    let mut store = Store::new();
    let context = in_namespace("service");
    for index in 0..10 {
        store
            .remember(
                &RememberCommand {
                    cardinality: Cardinality::Many,
                    ..remember(
                        &format!("note-{index}"),
                        "a note about latency",
                        "latency matters",
                    )
                },
                &None,
                &context,
            )
            .expect("remember");
    }

    let found = find(&store, &FactQuery { limit: 3, ..query("latency", &["service"]) });

    assert_eq!(found.len(), 3);
}

#[test]
fn a_weak_match_is_left_out_beside_a_strong_one() {
    let mut store = Store::new();
    let strong = store
        .remember(&remember("a", "one", "first"), &None, &in_namespace("service"))
        .expect("remember");
    let weak = store
        .remember(&remember("b", "two", "second"), &None, &in_namespace("service"))
        .expect("remember");
    let asked = query("anything", &["service"]);
    let matches = || {
        vec![
            FactMatch { fact_id: weak, score: 90 },
            FactMatch { fact_id: strong, score: 10 },
        ]
    };
    assert_eq!(store.best_match(&asked, &matches()), Some(10));
    let cut = store.search(&asked, &Relevance { matches: matches(), cutoff: 50 }).expect("search");
    assert_eq!(cut.iter().map(|f| f.fact_id).collect::<Vec<_>>(), vec![strong]);
    let all = store.search(&asked, &Relevance { matches: matches(), cutoff: 90 }).expect("search");
    assert_eq!(all.iter().map(|f| f.fact_id).collect::<Vec<_>>(), vec![strong, weak]);
}

#[test]
fn without_a_text_the_narrower_scope_comes_first() {
    let mut store = Store::new();
    for (name, scope, confidence) in [
        ("wide", FactScope::User, 0.9f64),
        ("unsure", FactScope::Repository, 0.2f64),
        ("sure", FactScope::Repository, 0.6f64),
    ] {
        store
            .remember(
                &RememberCommand {
                    scope,
                    confidence: confidence.to_bits(),
                    ..remember(name, name, "body")
                },
                &None,
                &in_namespace("service"),
            )
            .expect("remember");
    }
    let asked = FactQuery { text: None, ..query("", &["service"]) };
    let names: Vec<String> = find(&store, &asked).into_iter().map(|fact| fact.name).collect();
    assert_eq!(names, vec!["sure", "unsure", "wide"]);
}

#[test]
fn trust_is_ordered_as_numbers_are_below_zero_too() {
    let mut store = Store::new();
    for (name, confidence) in [
        ("low", -0.5f64),
        ("none", 0.0f64),
        ("lowest", -2.0f64),
        ("some", 0.25f64),
    ] {
        store
            .remember(
                &RememberCommand {
                    confidence: confidence.to_bits(),
                    ..remember(name, name, "body")
                },
                &None,
                &in_namespace("service"),
            )
            .expect("remember");
    }
    let asked = FactQuery { text: None, ..query("", &["service"]) };
    let names: Vec<String> = find(&store, &asked).into_iter().map(|fact| fact.name).collect();
    assert_eq!(names, vec!["some", "none", "low", "lowest"]);
}

#[test]
fn the_place_of_a_number_keeps_the_order() {
    let numbers = [f64::NEG_INFINITY, -2.0, -0.5, 0.0, 0.25, 0.95, 1.0, f64::INFINITY];
    for pair in numbers.windows(2) {
        assert!(number_place(pair[0].to_bits()) < number_place(pair[1].to_bits()));
    }
    assert_eq!(number_place((-0.0f64).to_bits()), number_place(0.0f64.to_bits()));
    assert_eq!(number_place(0), 0x8000_0000_0000_0000);
}

#[test]
fn a_prompt_becomes_an_expression_over_its_longer_words() {
    let text = |t: &str| Some(t.to_owned());
    assert_eq!(
        fts_expression(&text("fix the \"retry*\" on ab snake_case")).as_deref(),
        Some("\"fix\" OR \"the\" OR \"retry\" OR \"snake_case\"")
    );
    assert_eq!(fts_expression(&text("a b !!")), None);
    assert_eq!(fts_expression(&None), None);
}

// --- the pushed index ------------------------------------------------------

#[test]
fn the_index_carries_no_bodies() {
    let mut store = Store::new();
    store
        .remember(
            &remember(
                "goose-table-locking",
                "migration locking",
                "A LONG BODY THAT MUST NOT BE PUSHED INTO CONTEXT",
            ),
            &None,
            &in_namespace("service"),
        )
        .expect("remember");

    let asked = query("locking", &["service"]);
    let index = store.fact_index(&asked, &relevance(&store, &asked));

    assert_eq!(index.len(), 1);
    let rendered = format!("{index:?}");
    assert!(!rendered.contains("LONG BODY"), "the index leaked a body: {rendered}");
    assert!(rendered.contains("goose-table-locking"), "{rendered}");
}

#[test]
fn a_session_is_shown_a_fact_once() {
    let mut store = Store::new();
    store
        .remember(&remember("a", "one", "first"), &None, &in_namespace("service"))
        .expect("remember");
    let asked = FactQuery { text: None, ..query("", &["service"]) };
    assert_eq!(store.unpushed_index("s1", &asked, &Relevance::none()).len(), 1);
    assert!(store.unpushed_index("s1", &asked, &Relevance::none()).is_empty());
    assert_eq!(store.unpushed_index("s2", &asked, &Relevance::none()).len(), 1);
}

// --- relations -------------------------------------------------------------

#[test]
fn a_relation_to_an_unknown_fact_is_kept() {
    let mut store = Store::new();
    let context = in_namespace("service");

    let id = store
        .remember(
            &RememberCommand {
                relates_to: vec![("not-written-yet".into(), RelationKind::Related)],
                ..remember("known", "a known thing", "body")
            },
            &None,
            &context,
        )
        .expect("remember");

    let relations = store.relations_of("known", &context).expect("relations");
    assert_eq!(relations.len(), 1);
    assert_eq!(relations[0].0, "not-written-yet");
    assert_eq!(store.relations_of_id(id), vec!["not-written-yet".to_owned()]);
    assert!(store.relations_of("unknown", &context).expect("relations").is_empty());
}

// --- namespace binding -----------------------------------------------------

#[test]
fn a_repository_path_yields_its_namespace_candidates() {
    let candidates = namespace_candidates("/Users/x/programming/wbbank/wb-bank-clients");

    assert!(candidates.contains(&"wb-bank-clients".to_owned()), "{candidates:?}");
    assert!(
        candidates.contains(&"wbbank-wb-bank-clients".to_owned()),
        "the corpus files projects as <parent>-<repo>: {candidates:?}"
    );
}

#[test]
fn a_top_level_repository_still_yields_a_candidate() {
    let candidates = namespace_candidates("/Users/x/hawk-eye");
    assert!(candidates.contains(&"hawk-eye".to_owned()), "{candidates:?}");
}

#[test]
fn every_namespace_in_use_is_known_once() {
    let mut store = Store::new();
    for (name, namespace) in [("a", "one"), ("b", "two"), ("c", "one")] {
        store
            .remember(&remember(name, name, "body"), &None, &in_namespace(namespace))
            .expect("remember");
    }
    assert_eq!(store.known_namespaces(), vec!["one".to_owned(), "two".to_owned()]);
}

// --- evidence --------------------------------------------------------------

#[test]
fn evidence_survives_a_round_trip() {
    let mut store = Store::new();
    let context = in_namespace("service");

    store
        .remember(
            &RememberCommand {
                status: FactStatus::Verified,
                evidence: vec![Evidence {
                    locator: "internal/migrate/migrate.go:41".into(),
                    excerpt: Some("goose.WithLocker(locker)".into()),
                }],
                ..remember("locking", "verified locking", "checked in source")
            },
            &None,
            &context,
        )
        .expect("remember");

    let recalled = store.recall("locking", &context).expect("recall").expect("fact");
    assert_eq!(recalled.evidence.len(), 1);
    assert_eq!(recalled.evidence[0].locator, "internal/migrate/migrate.go:41");
}

#[test]
fn remembering_again_under_one_operation_writes_once() {
    let mut store = Store::new();
    let command = remember("locking", "locking", "body");
    let first = store.remember(&command, &None, &in_namespace("service")).expect("first");
    let again = store.remember(&command, &None, &in_namespace("service")).expect("again");
    assert_eq!(first, again);
    assert_eq!(store.facts.len(), 1);
}

#[test]
fn a_visible_fact_is_recalled_however_many_others_there_are() {
    let mut store = Store::new();
    let context = in_namespace("service");
    store.remember(&remember("wanted", "the one", "body"), &None, &context).expect("remember");
    for index in 0..1100 {
        let command = RememberCommand {
            confidence: 0.99f64.to_bits(),
            ..remember(&format!("other-{index}"), "another", "body")
        };
        store.remember(&command, &None, &context).expect("remember");
    }

    let found = store.recall("wanted", &context).expect("recall").expect("visible");
    assert_eq!(found.title, "the one");
}
