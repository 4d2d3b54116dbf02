//! Which migrations a database still needs.

use magent_store::migrations::{
    after_switching, is_wal, pending_migrations, read_version, WalStep,
};
use magent_store::{RepositoryProbe, Store, StoreError, CURRENT_VERSION};

#[test]
fn every_shipped_version_upgrades_to_the_current_one() {
    for version in 1..=CURRENT_VERSION {
        let pending = pending_migrations(version).expect("a known version");
        let reached = pending.last().copied().unwrap_or(version);
        assert_eq!(
            reached, CURRENT_VERSION,
            "a version {version} profile did not reach the current schema"
        );
        assert_eq!(pending, ((version + 1)..=CURRENT_VERSION).collect::<Vec<i64>>());
    }
}

#[test]
fn a_newer_profile_is_refused_rather_than_damaged() {
    match pending_migrations(CURRENT_VERSION + 1) {
        Err(StoreError::UnsupportedSchema(version)) => {
            assert_eq!(version, CURRENT_VERSION + 1);
        }
        other => panic!("expected UnsupportedSchema, got {other:?}"),
    }
}

#[test]
fn opening_an_already_current_profile_changes_nothing() {
    assert!(pending_migrations(CURRENT_VERSION).expect("current").is_empty());
}

#[test]
fn an_empty_database_needs_every_migration() {
    assert_eq!(read_version(false, None), 0);
    assert_eq!(read_version(true, None), 0);
    assert_eq!(read_version(true, Some(4)), 4);
    assert_eq!(pending_migrations(0).expect("empty").len() as i64, CURRENT_VERSION);
}

#[test]
fn a_version_four_profile_can_still_resolve_colliding_directory_names() {
    let mut store = Store::new();
    let probe = |root: &str| RepositoryProbe { root: root.into(), origin_url: None, git: None };

    let alpha = store.resolve_workspace_for(&probe("/tmp/alpha/api")).expect("resolve the root");
    let beta = store.resolve_workspace_for(&probe("/tmp/beta/api")).expect("resolve the root");

    assert_ne!(alpha.repository_id, beta.repository_id);
}

#[test]
fn switching_to_a_write_ahead_log_waits_for_its_turn() {
    assert!(is_wal("wal") && is_wal("WAL"));
    assert!(!is_wal("delete"));
    let said = |mode: &str| Ok::<String, String>(mode.to_owned());
    let failed = Err::<String, String>("database is locked".to_owned());
    assert!(matches!(after_switching(&said("wal"), true), WalStep::Ready));
    assert!(matches!(after_switching(&said("delete"), false), WalStep::Retry));
    assert!(matches!(after_switching(&failed, false), WalStep::Retry));
    assert!(matches!(after_switching(&failed, true), WalStep::Refused(StoreError::Database(_))));
}
