//! Noticing that a workspace is not set up, and proposing what to do.

use magent_store::grouping::ProbedRoot;
use magent_store::setup::{is_loose_in_home, origin_url_in};
use magent_store::{GroupingProposal, RepositoryProbe, Sibling, Store};

fn probe(root: &str, origin: Option<&str>) -> RepositoryProbe {
    RepositoryProbe { root: root.into(), origin_url: origin.map(Into::into), git: None }
}

fn sibling(root: &str, origin: Option<&str>) -> Sibling {
    Sibling { root: root.into(), origin_url: origin.map(Into::into) }
}

/// Checkouts of one organisation beside each other.
fn beside(parent: &str, names: &[&str], organisation: &str) -> Vec<Sibling> {
    names
        .iter()
        .map(|name| {
            sibling(&format!("{parent}/{name}"), Some(&format!("git@{organisation}/{name}.git")))
        })
        .collect()
}

fn propose(store: &Store, root: &str, neighbours: &Vec<Sibling>) -> GroupingProposal {
    let origin = neighbours
        .iter()
        .find(|found| found.root == root)
        .and_then(|found| found.origin_url.clone());
    store.propose_grouping_from(&probe(root, origin.as_deref()), neighbours, false)
}

fn names(proposal: &GroupingProposal) -> Vec<&str> {
    proposal
        .siblings
        .iter()
        .filter_map(|found| found.root.rsplit('/').next())
        .collect()
}

// --- finding the siblings ---------------------------------------------------

#[test]
fn checkouts_of_one_organisation_are_proposed_as_a_group() {
    let store = Store::new();
    let neighbours =
        beside("/tmp/work", &["clients", "ledger", "payments"], "github.com:wbbank");

    let proposal = propose(&store, "/tmp/work/clients", &neighbours);

    // These sit under `work`, which is a place to keep code rather than a
    // name for it, so the organisation names the group instead.
    assert_eq!(proposal.suggested_name.as_deref(), Some("wbbank"));
    assert_eq!(
        proposal.organisation.as_deref(),
        Some("github.com/wbbank"),
        "the organisation stays on the proposal as the alternative to offer"
    );
    assert_eq!(names(&proposal), ["clients", "ledger", "payments"]);
}

#[test]
fn the_current_repository_is_part_of_what_is_proposed() {
    let store = Store::new();
    let neighbours = beside("/tmp/work", &["clients", "payments"], "github.com:wbbank");

    let proposal = propose(&store, "/tmp/work/clients", &neighbours);

    assert!(
        proposal.siblings.iter().any(|found| found.root.ends_with("clients")),
        "the repository that prompted the proposal is missing from it"
    );
}

#[test]
fn unrelated_checkouts_beside_them_are_left_out() {
    let store = Store::new();
    let mut neighbours = beside("/tmp/work", &["clients", "payments"], "github.com:wbbank");
    neighbours.push(sibling("/tmp/work/blog", Some("git@github.com:someone/blog.git")));
    neighbours.push(sibling("/tmp/work/scratch", None));

    let proposal = propose(&store, "/tmp/work/clients", &neighbours);

    let found = names(&proposal);
    assert!(!found.contains(&"blog"), "{found:?}");
    assert!(
        !found.contains(&"scratch"),
        "a repository with no origin shares nothing to group on: {found:?}"
    );
}

#[test]
fn the_url_form_does_not_split_an_organisation() {
    let store = Store::new();
    let neighbours = vec![
        sibling("/tmp/work/clients", Some("git@github.com:wbbank/clients.git")),
        sibling("/tmp/work/payments", Some("https://github.com/wbbank/payments")),
    ];

    let proposal = propose(&store, "/tmp/work/clients", &neighbours);

    assert_eq!(proposal.siblings.len(), 2, "{proposal:?}");
}

#[test]
fn a_shared_host_is_not_enough() {
    let store = Store::new();
    let neighbours = vec![
        sibling("/tmp/work/clients", Some("git@github.com:wbbank/clients.git")),
        sibling("/tmp/work/thing", Some("git@github.com:other/thing.git")),
    ];

    let proposal = propose(&store, "/tmp/work/clients", &neighbours);

    assert_eq!(proposal.siblings.len(), 1, "{proposal:?}");
    assert_eq!(
        proposal.suggested_name, None,
        "one repository is not a group, and offering to make one wastes a decision"
    );
}

#[test]
fn a_directory_that_is_not_a_repository_proposes_nothing() {
    let store = Store::new();
    let proposal = store.propose_grouping_from(&probe("/tmp/notes", None), &vec![], false);

    assert!(proposal.siblings.is_empty());
    assert_eq!(proposal.suggested_name, None);
}

// --- knowing when it has already been done ---------------------------------

#[test]
fn an_already_grouped_workspace_is_reported_as_settled() {
    let mut store = Store::new();
    let neighbours = beside("/tmp/work", &["clients", "payments"], "github.com:wbbank");

    let before = propose(&store, "/tmp/work/clients", &neighbours);
    assert!(!before.already_grouped);

    let roots: Vec<ProbedRoot> = neighbours
        .iter()
        .map(|found| ProbedRoot {
            path: found.root.clone(),
            probe: Some(probe(&found.root, found.origin_url.as_deref())),
        })
        .collect();
    store.group_into_workspace("wbbank", &roots).expect("gather the roots");

    let after = propose(&store, "/tmp/work/clients", &neighbours);
    assert!(
        after.already_grouped,
        "proposing a group that exists would ask the same question forever"
    );
    assert_eq!(after.workspace_name.as_deref(), Some("wbbank"));
}

#[test]
fn proposing_changes_nothing() {
    let store = Store::new();
    let neighbours = beside("/tmp/work", &["clients"], "github.com:wbbank");

    let before = store.workspace_count();
    propose(&store, "/tmp/work/clients", &neighbours);
    propose(&store, "/tmp/work/clients", &neighbours);

    assert_eq!(store.workspace_count(), before, "a read created a workspace");
}

// --- what to call it --------------------------------------------------------

#[test]
fn a_meaningful_parent_directory_names_the_group() {
    let store = Store::new();
    let neighbours =
        beside("/tmp/wbbank", &["clients", "payments"], "gitlab.example.com:fintech");

    let proposal = propose(&store, "/tmp/wbbank/clients", &neighbours);

    assert_eq!(proposal.suggested_name.as_deref(), Some("wbbank"));
}

#[test]
fn a_container_directory_does_not_name_the_group() {
    let store = Store::new();
    for parent in ["code", "src", "projects", "programming", "repos"] {
        let root = format!("/tmp/{parent}");
        let neighbours =
            beside(&root, &["clients", "payments"], "gitlab.example.com:fintech");

        let proposal = propose(&store, &format!("{root}/clients"), &neighbours);

        assert_eq!(
            proposal.suggested_name.as_deref(),
            Some("fintech"),
            "{parent} is where code is kept, not what it is called"
        );
    }
}

#[test]
fn checkouts_loose_in_the_home_directory_are_not_a_group() {
    let store = Store::new();
    let neighbours = beside("/tmp/home", &["clients", "payments"], "github.com:someone");
    let home = Some("/tmp/home".to_owned());

    let proposal = store.propose_grouping(
        &probe("/tmp/home/clients", Some("git@github.com:someone/clients.git")),
        &neighbours,
        &home,
        &home,
    );

    assert_eq!(
        proposal.suggested_name, None,
        "the home directory is where everything lives, not what it is called"
    );
    assert!(
        proposal.siblings.len() >= 2,
        "what was found is still reported; only the proposal is withheld"
    );
}

#[test]
fn the_same_layout_elsewhere_is_still_proposed() {
    let store = Store::new();
    let neighbours = beside("/tmp/wbbank", &["clients", "payments"], "github.com:someone");

    let proposal = store.propose_grouping(
        &probe("/tmp/wbbank/clients", Some("git@github.com:someone/clients.git")),
        &neighbours,
        &Some("/tmp/wbbank".to_owned()),
        &Some("/tmp".to_owned()),
    );

    assert_eq!(proposal.suggested_name.as_deref(), Some("wbbank"));
}

#[test]
fn only_the_home_directory_itself_is_home() {
    let path = |text: &str| Some(text.to_owned());
    assert!(is_loose_in_home(&path("/home/me"), &path("/home/me")));
    assert!(!is_loose_in_home(&path("/home/me/code"), &path("/home/me")));
    assert!(!is_loose_in_home(&None, &path("/home/me")));
    assert!(!is_loose_in_home(&path("/home/me"), &None));
}

#[test]
fn an_origin_is_read_out_of_a_git_config() {
    let config = "[core]\n\tbare = false\n[remote \"fork\"]\n\turl = git@x:fork/a.git\n\
                  [remote \"origin\"]\n\turl = git@x:acme/a.git\n\tfetch = +refs\n";
    assert_eq!(origin_url_in(config).as_deref(), Some("git@x:acme/a.git"));
    assert_eq!(origin_url_in("[core]\n\tbare = false\n"), None);
}
