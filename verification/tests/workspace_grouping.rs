//! Grouping repositories, and moving memory up to where it belongs.

use magent_store::domain::{Fact, RememberCommand};
use magent_store::grouping::ProbedRoot;
use magent_store::ids::OperationId;
use magent_store::retrieval::{fts_expression, FactMatch, Relevance};
use magent_store::states::{Cardinality, FactKind, FactScope, FactStatus, RepositoryRole};
use magent_store::{FactContext, FactQuery, RepositoryProbe, Store};

fn probe(name: &str) -> RepositoryProbe {
    RepositoryProbe {
        root: format!("/tmp/wbbank/{name}"),
        origin_url: Some(format!("git@example.invalid:wbbank/{name}.git")),
        git: None,
    }
}

fn roots(names: &[&str]) -> Vec<ProbedRoot> {
    names
        .iter()
        .map(|name| ProbedRoot {
            path: format!("/tmp/wbbank/{name}"),
            probe: Some(probe(name)),
        })
        .collect()
}

/// Three services under one parent, as a bank's repositories sit on disk.
const REPOS: [&str; 3] = ["clients", "accounts", "deploy-bank"];

fn fact(name: &str, title: &str, scope: FactScope) -> RememberCommand {
    RememberCommand {
        operation_id: OperationId::new(),
        name: name.into(),
        title: title.into(),
        body: format!("{title}, in detail."),
        kind: FactKind::Project,
        scope,
        cardinality: Cardinality::Many,
        status: FactStatus::Observed,
        confidence: 0.8f64.to_bits(),
        evidence: vec![],
        relates_to: vec![],
    }
}

/// What the full-text index makes of a query, best match first being the smallest score.
fn relevance(store: &Store, query: &FactQuery) -> Relevance {
    let Some(expression) = fts_expression(&query.text) else {
        return Relevance::none();
    };
    let connection = rusqlite::Connection::open_in_memory().expect("in memory");
    connection
        .execute_batch("CREATE VIRTUAL TABLE facts_fts USING fts5(name, title, body)")
        .expect("fts5");
    for (index, fact) in store.facts.iter().enumerate() {
        connection
            .execute(
                "INSERT INTO facts_fts (rowid, name, title, body) VALUES (?1, ?2, ?3, ?4)",
                (index as i64, &fact.name, &fact.title, &fact.body),
            )
            .expect("index");
    }
    let mut statement = connection
        .prepare("SELECT rowid, bm25(facts_fts) FROM facts_fts WHERE facts_fts MATCH ?1")
        .expect("prepare");
    let scored: Vec<(i64, f64)> = statement
        .query_map([&expression], |row| Ok((row.get(0)?, row.get(1)?)))
        .expect("query")
        .collect::<Result<_, _>>()
        .expect("rows");
    let matches: Vec<FactMatch> = scored
        .iter()
        .map(|(index, score)| FactMatch {
            fact_id: store.facts[*index as usize].id,
            score: ascending_key(*score),
        })
        .collect();
    let best = store.best_match(query, &matches).map(|key| {
        scored
            .iter()
            .map(|(_, score)| *score)
            .find(|score| ascending_key(*score) == key)
            .expect("one of the scores")
    });
    let cutoff = ascending_key(best.unwrap_or(0.0) * 0.5);
    Relevance { matches, cutoff }
}

/// A number whose order is the order of the scores.
fn ascending_key(score: f64) -> u64 {
    let bits = score.to_bits();
    if bits >> 63 == 1 { !bits } else { bits | (1 << 63) }
}

fn find(store: &Store, query: &FactQuery) -> Vec<Fact> {
    store.search(query, &relevance(store, query)).expect("search")
}

// --- grouping --------------------------------------------------------------

#[test]
fn repositories_can_be_gathered_into_one_workspace() {
    let mut store = Store::new();

    let grouped = store.group_into_workspace("wbbank", &roots(&REPOS)).expect("gather the roots");

    assert_eq!(grouped.repositories, 3);

    let ids: Vec<_> = REPOS
        .iter()
        .map(|name| store
            .resolve_workspace_for(&probe(name))
            .expect("resolve the root").workspace_id)
        .collect();

    assert!(
        ids.windows(2).all(|pair| pair[0] == pair[1]),
        "the repositories are still in separate workspaces: {ids:?}"
    );
}

#[test]
fn grouping_twice_converges() {
    let mut store = Store::new();

    let first = store.group_into_workspace("wbbank", &roots(&REPOS)).expect("gather the roots");
    let second = store.group_into_workspace("wbbank", &roots(&REPOS)).expect("gather the roots");

    assert_eq!(first.workspace_id, second.workspace_id);
    assert_eq!(store.workspace_count(), 1);
}

#[test]
fn a_repository_added_later_joins_the_existing_workspace() {
    let mut store = Store::new();
    let first = store
        .group_into_workspace("wbbank", &roots(&REPOS[..2]))
        .expect("gather the roots");
    let second = store
        .group_into_workspace("wbbank", &roots(&REPOS[2..]))
        .expect("gather the roots");

    assert_eq!(first.workspace_id, second.workspace_id);
    assert_eq!(store.workspaces(), vec![("wbbank".to_owned(), 3)]);
}

#[test]
fn a_path_that_does_not_exist_is_refused_rather_than_registered() {
    let mut store = Store::new();

    let mut given = roots(&REPOS);
    given.push(ProbedRoot { path: "/definitely/not/a/real/path".into(), probe: None });

    let grouped = store.group_into_workspace("wbbank", &given).expect("gather the roots");

    assert_eq!(grouped.repositories, 3, "the missing path was registered as a repository");
    assert_eq!(grouped.skipped.len(), 1, "{:?}", grouped.skipped);
    assert_eq!(grouped.skipped[0].0, "/definitely/not/a/real/path");
}

#[test]
fn a_workspace_nothing_is_in_any_more_is_removed() {
    let mut store = Store::new();
    for name in REPOS {
        store.resolve_workspace_for(&probe(name)).expect("resolve the root");
    }
    assert_eq!(store.workspace_count(), 3);
    let grouped = store.group_into_workspace("wbbank", &roots(&REPOS)).expect("gather the roots");
    assert_eq!(store.workspace_count(), 1);
    assert_eq!(store.workspace_id_by_name("wbbank"), Some(grouped.workspace_id));
    assert_eq!(store.workspace_id_by_name("clients"), None);
}

// --- roles -----------------------------------------------------------------

#[test]
fn a_repository_carries_a_role() {
    let mut store = Store::new();
    store.group_into_workspace("wbbank", &roots(&REPOS)).expect("gather the roots");

    store
        .set_repository_role(&probe("deploy-bank"), RepositoryRole::Infrastructure)
        .expect("set the role");

    let deploy = store.resolve_workspace_for(&probe("deploy-bank")).expect("resolve the root");
    assert_eq!(deploy.role, RepositoryRole::Infrastructure);

    let service = store.resolve_workspace_for(&probe("clients")).expect("resolve the root");
    assert_eq!(
        service.role,
        RepositoryRole::Primary,
        "an ordinary repository defaults to primary"
    );
}

// --- what grouping is for --------------------------------------------------

#[test]
fn workspace_facts_reach_every_repository_in_the_group() {
    let mut store = Store::new();
    let grouped = store.group_into_workspace("wbbank", &roots(&REPOS)).expect("gather the roots");

    store
        .remember(
            &fact(
                "service-auth",
                "HMAC for clients, Bearer for user-balance",
                FactScope::Workspace,
            ),
            &None,
            &FactContext { workspace_id: Some(grouped.workspace_id), ..FactContext::default() },
        )
        .expect("remember");

    // Asked from a different repository in the same group.
    let found = find(
        &store,
        &FactQuery {
            text: Some("HMAC Bearer auth".into()),
            namespaces: vec!["accounts".into()],
            workspace_id: Some(grouped.workspace_id),
            ..FactQuery::default()
        },
    );

    assert_eq!(found.len(), 1, "{found:?}");
}

#[test]
fn grouping_does_not_leak_repository_facts_sideways() {
    let mut store = Store::new();
    let grouped = store.group_into_workspace("wbbank", &roots(&REPOS)).expect("gather the roots");

    store
        .remember(
            &fact("clients-quirk", "a quirk of clients only", FactScope::Repository),
            &None,
            &FactContext { namespace: Some("clients".into()), ..FactContext::default() },
        )
        .expect("remember");

    let from_accounts = find(
        &store,
        &FactQuery {
            text: Some("quirk".into()),
            namespaces: vec!["accounts".into()],
            workspace_id: Some(grouped.workspace_id),
            ..FactQuery::default()
        },
    );

    assert!(
        from_accounts.is_empty(),
        "a repository's own notes leaked to a sibling: {from_accounts:?}"
    );
}

// --- promoting imported memory ---------------------------------------------

#[test]
fn a_namespace_can_be_promoted_to_the_whole_workspace() {
    let mut store = Store::new();
    let grouped = store.group_into_workspace("wbbank", &roots(&REPOS)).expect("gather the roots");

    for name in ["ecosystem-map", "deploy-freeze"] {
        store
            .remember(
                &fact(name, "how the services fit together", FactScope::Repository),
                &None,
                &FactContext {
                    namespace: Some("wbbank-project-expert".into()),
                    ..FactContext::default()
                },
            )
            .expect("remember");
    }

    let promoted = store.promote_namespace("wbbank-project-expert", grouped.workspace_id);
    assert_eq!(promoted, 2);

    let from_a_sibling = find(
        &store,
        &FactQuery {
            text: Some("services fit together".into()),
            namespaces: vec!["accounts".into()],
            workspace_id: Some(grouped.workspace_id),
            ..FactQuery::default()
        },
    );

    assert_eq!(
        from_a_sibling.len(),
        2,
        "promoted memory did not reach the group: {from_a_sibling:?}"
    );
}

#[test]
fn promoting_a_namespace_that_does_not_exist_changes_nothing() {
    let mut store = Store::new();
    let grouped = store.group_into_workspace("wbbank", &roots(&REPOS)).expect("gather the roots");

    assert_eq!(store.promote_namespace("nothing-here", grouped.workspace_id), 0);
}

#[test]
fn every_workspace_is_listed_named_or_not() {
    let mut store = Store::new();
    store.group_into_workspace("wbbank", &roots(&REPOS)).expect("gather the roots");
    store.resolve_workspace_for(&RepositoryProbe {
        root: "/elsewhere/alone".into(),
        origin_url: None,
        git: None,
    }).expect("resolve the root");

    assert_eq!(
        store.workspaces(),
        vec![("alone".to_owned(), 1), ("wbbank".to_owned(), 3)]
    );
    assert_eq!(store.workspaces().len(), store.workspace_count());
}
