//! Reference checkouts: what is declared, where it lives and how it is fetched.

use magent_store::deps::{
    begin_sync, continue_sync, diagnosis, emptied_parents, sanitise_segment, slug_for, stderr_of,
    SyncStage, SyncStep,
};
use magent_store::ids::{DependencyId, WorkspaceId};
use magent_store::{
    dependency_checkout, Dependency, DependencySpec, DependencyStatus, RepositoryProbe, Store,
    StoreError,
};

const DEPS_ROOT: &str = "/tmp/deps";

fn workspace(store: &mut Store, root: &str) -> WorkspaceId {
    store
        .resolve_workspace_for(&RepositoryProbe {
            root: root.into(),
            origin_url: None,
            git: None,
        })
        .expect("resolve the root")
        .workspace_id
}

fn fixture() -> (Store, WorkspaceId) {
    let mut store = Store::new();
    let id = workspace(&mut store, "/tmp/project");
    (store, id)
}

fn asked(url: &str, git_ref: Option<&str>) -> DependencySpec {
    DependencySpec { url: url.into(), git_ref: git_ref.map(Into::into) }
}

// --- declaring -------------------------------------------------------------

#[test]
fn a_declared_dependency_is_listed_with_where_it_will_live() {
    let (mut store, workspace_id) = fixture();

    let declared = store.declare_dependency(
        workspace_id,
        &asked("git@github.com:acme/thing.git", Some("v1.2.0")),
    ).expect("declare the dependency");

    assert_eq!(
        declared.slug, "github.com/acme/thing@v1.2.0",
        "the slug names the project and the revision, so two refs can coexist"
    );
    assert_eq!(declared.status, DependencyStatus::Declared);
    assert_eq!(declared.url, "git@github.com:acme/thing.git", "as given");

    let listed = store.dependencies(workspace_id);
    assert_eq!(listed.len(), 1);
    assert_eq!(listed[0].id, declared.id);
    assert_eq!(
        dependency_checkout(DEPS_ROOT, &declared),
        "/tmp/deps/github.com/acme/thing@v1.2.0"
    );
}

#[test]
fn the_two_url_forms_of_one_project_are_one_dependency() {
    let (mut store, workspace_id) = fixture();

    let ssh =
        store
            .declare_dependency(workspace_id, &asked("git@github.com:acme/thing.git", None))
            .expect("declare the dependency");
    let https =
        store
            .declare_dependency(workspace_id, &asked("https://github.com/acme/thing", None))
            .expect("declare the dependency");

    assert_eq!(ssh.id, https.id, "one project, one checkout");
    assert_eq!(store.dependencies(workspace_id).len(), 1);
}

#[test]
fn two_refs_of_one_project_are_two_dependencies() {
    let (mut store, workspace_id) = fixture();

    for git_ref in ["v1.0.0", "v2.0.0"] {
        store.declare_dependency(
            workspace_id,
            &asked("https://github.com/acme/thing", Some(git_ref)),
        ).expect("declare the dependency");
    }

    assert_eq!(store.dependencies(workspace_id).len(), 2);
}

#[test]
fn a_dependency_belongs_to_the_workspace_that_declared_it() {
    let (mut store, workspace_id) = fixture();
    let other = workspace(&mut store, "/tmp/elsewhere");

    store
        .declare_dependency(workspace_id, &asked("https://github.com/acme/thing", None))
        .expect("declare the dependency");

    assert!(
        store.dependencies(other).is_empty(),
        "another workspace's reference sources are not this one's"
    );
}

// --- the path ---------------------------------------------------------------

#[test]
fn a_hostile_url_cannot_escape_the_deps_root() {
    let (mut store, workspace_id) = fixture();

    for (url, git_ref) in [
        ("https://github.com/../../../etc/passwd", None),
        ("https://github.com/acme/thing", Some("../../../../tmp/x")),
        ("https://github.com/acme/..%2f..%2fthing", None),
    ] {
        let declared = store
            .declare_dependency(workspace_id, &asked(url, git_ref))
            .expect("declare the dependency");

        let checkout = dependency_checkout(DEPS_ROOT, &declared);
        assert!(checkout.starts_with("/tmp/deps/"), "{url} escaped to {checkout}");
        assert!(
            !declared.slug.contains(".."),
            "{url} produced a traversing slug: {}",
            declared.slug
        );
    }
}

#[test]
fn a_segment_keeps_what_is_safe_in_a_name() {
    assert_eq!(sanitise_segment("thing-1_2.3"), "thing-1_2.3");
    assert_eq!(sanitise_segment("a b"), "a-b");
    assert!(!sanitise_segment("..").contains(".."));
    assert_eq!(slug_for("github.com/acme/thing", &None), "github.com/acme/thing");
}

// --- syncing ----------------------------------------------------------------

/// The commands a sync runs when each of them succeeds, the last one printing `head`.
fn run_all(dependency: &Dependency, is_there: bool, head: &str) -> (Vec<String>, SyncStep) {
    let checkout = dependency_checkout(DEPS_ROOT, dependency);
    let mut ran = Vec::new();
    let mut step = begin_sync(dependency, &checkout, is_there);
    while let SyncStep::Run { stage, args, .. } = &step {
        ran.push(args.join(" "));
        let printed = if *stage == SyncStage::ReadingHead { head.into() } else { String::new() };
        step = continue_sync(dependency, &checkout, *stage, &Ok(printed));
    }
    (ran, step)
}

#[test]
fn syncing_puts_the_sources_on_disk_and_records_the_revision() {
    let (mut store, workspace_id) = fixture();
    let declared =
        store
            .declare_dependency(workspace_id, &asked("https://github.com/acme/thing", None))
            .expect("declare the dependency");

    let (ran, step) = run_all(&declared, false, "abc123");
    assert_eq!(
        ran,
        vec![
            "clone --depth 1 -- https://github.com/acme/thing /tmp/deps/github.com/acme/thing",
            "-C /tmp/deps/github.com/acme/thing rev-parse HEAD",
        ]
    );
    let SyncStep::Finished(came) = step else { panic!("the sync never ended") };

    let synced = store.record_sync(declared.id, &came).expect("recorded");
    assert_eq!(synced.status, DependencyStatus::Present);
    assert_eq!(synced.revision.as_deref(), Some("abc123"), "the revision is what pins it");
    assert!(synced.synced_at.is_some());
}

#[test]
fn a_dependency_can_be_pinned_to_a_commit() {
    let (mut store, workspace_id) = fixture();
    let declared = store
        .declare_dependency(workspace_id, &asked("https://github.com/acme/thing", Some("c0ffee")))
        .expect("declare the dependency");
    let checkout = dependency_checkout(DEPS_ROOT, &declared);

    let SyncStep::Run { stage, args, .. } = begin_sync(&declared, &checkout, false) else {
        panic!("nothing to run");
    };
    assert_eq!(stage, SyncStage::Cloning);
    assert!(args.contains(&"c0ffee".to_owned()), "{args:?}");

    // A commit is not a branch, so that the first clone is refused and the commit is fetched
    // by name from a second one.
    let refused = Err("fatal: Remote branch c0ffee not found".to_owned());
    let mut step = continue_sync(&declared, &checkout, stage, &refused);
    let mut stages = Vec::new();
    while let SyncStep::Run { stage, .. } = &step {
        stages.push(*stage);
        step = continue_sync(&declared, &checkout, *stage, &Ok("c0ffee".to_owned()));
    }
    assert_eq!(
        stages,
        vec![
            SyncStage::Recloning,
            SyncStage::FetchingPinned,
            SyncStage::ResettingPinned,
            SyncStage::ReadingHead,
        ]
    );
    let SyncStep::Finished(came) = step else { panic!("the sync never ended") };
    let synced = store.record_sync(declared.id, &came).expect("recorded");
    assert_eq!(synced.status, DependencyStatus::Present, "{synced:?}");
    assert_eq!(synced.revision.as_deref(), Some("c0ffee"));
}

#[test]
fn syncing_again_picks_up_new_commits_without_recloning() {
    let (mut store, workspace_id) = fixture();
    let declared =
        store
            .declare_dependency(workspace_id, &asked("https://github.com/acme/thing", None))
            .expect("declare the dependency");
    let (_, first) = run_all(&declared, false, "abc");
    let SyncStep::Finished(came) = first else { panic!("the sync never ended") };
    let first = store.record_sync(declared.id, &came).expect("recorded");

    let (ran, second) = run_all(&declared, true, "def");
    assert!(ran.iter().all(|command| !command.contains("clone")), "{ran:?}");
    assert!(ran[0].contains("fetch"), "{ran:?}");
    let SyncStep::Finished(came) = second else { panic!("the sync never ended") };
    let second = store.record_sync(declared.id, &came).expect("recorded");

    assert_ne!(first.revision, second.revision, "the new commit was picked up");
}

#[test]
fn a_url_that_cannot_be_cloned_records_why_and_leaves_nothing_behind() {
    let (mut store, workspace_id) = fixture();
    let declared = store
        .declare_dependency(workspace_id, &asked("/tmp/does-not-exist", None))
        .expect("declare the dependency");
    let checkout = dependency_checkout(DEPS_ROOT, &declared);

    let printed = || Err(stderr_of(&b"hint: x\nfatal: repository does not exist\n".to_vec()));
    let SyncStep::Run { stage, .. } = begin_sync(&declared, &checkout, false) else {
        panic!("nothing to run");
    };
    let SyncStep::Run { stage, clear_first, .. } =
        continue_sync(&declared, &checkout, stage, &printed())
    else {
        panic!("a refused clone is tried once more");
    };
    assert!(clear_first, "a half-clone would be read as sources");
    let step = continue_sync(&declared, &checkout, stage, &printed());
    let SyncStep::Finished(came) = step else { panic!("the sync never ended") };

    let failed = store
        .record_sync(declared.id, &came)
        .expect("a failed sync is reported, not an error");
    assert_eq!(failed.status, DependencyStatus::Failed);
    assert!(
        failed.last_error.is_some(),
        "the reason has to reach the person who typed the URL"
    );
}

#[test]
fn a_failed_dependency_recovers_on_the_next_sync() {
    let (mut store, workspace_id) = fixture();
    let declared = store
        .declare_dependency(workspace_id, &asked("/tmp/upstream/late", None))
        .expect("declare the dependency");

    let failed = store.record_sync(declared.id, &Err("not there".to_owned())).expect("recorded");
    assert_eq!(failed.status, DependencyStatus::Failed);
    assert_eq!(failed.last_error.as_deref(), Some("not there"));

    let recovered = store.record_sync(declared.id, &Ok("abc".to_owned())).expect("recorded");
    assert_eq!(recovered.status, DependencyStatus::Present);
    assert!(
        recovered.last_error.is_none(),
        "a stale error would misreport a working checkout"
    );
}

#[test]
fn syncing_what_was_never_declared_is_refused() {
    let (mut store, _) = fixture();
    let missing = DependencyId::new();
    assert!(matches!(
        store.record_sync(missing, &Ok("abc".to_owned())),
        Err(StoreError::DependencyNotFound(id)) if id == missing
    ));
    assert!(matches!(
        store.dependency(missing),
        Err(StoreError::DependencyNotFound(id)) if id == missing
    ));
}

#[test]
fn what_git_printed_is_read_whatever_bytes_it_holds() {
    assert_eq!(stderr_of(&vec![b'o', b'h', 0xff]), diagnosis("oh\u{fffd}"));
}

// --- forgetting -------------------------------------------------------------

#[test]
fn forgetting_a_dependency_removes_the_row_and_the_checkout() {
    let (mut store, workspace_id) = fixture();
    let declared =
        store
            .declare_dependency(workspace_id, &asked("https://github.com/acme/thing", None))
            .expect("declare the dependency");
    let checkout = dependency_checkout(DEPS_ROOT, &declared);

    assert_eq!(store.forget_dependency(declared.id, DEPS_ROOT), Some(checkout));
    assert!(store.dependencies(workspace_id).is_empty());
    assert_eq!(store.forget_dependency(declared.id, DEPS_ROOT), None);
    assert_eq!(
        emptied_parents(DEPS_ROOT, &declared.slug),
        vec!["/tmp/deps/github.com/acme".to_owned(), "/tmp/deps/github.com".to_owned()]
    );
}
