//! Opening a store: the version of its schema, and the journal it keeps.

use vstd::prelude::*;

use crate::error::{outcome, StoreError, StoreErrorModel};
use crate::text::{characters, concat3, copy_text};

verus! {

/// Schema version this build writes and understands.
pub const CURRENT_VERSION: i64 = 17;

/// The installed version, given whether the table of applied migrations is there and the
/// greatest version in it. No table, or none in it, is version zero.
pub open spec fn installed_version(table_exists: bool, greatest: Option<i64>) -> i64 {
    match greatest {
        Some(version) => if table_exists {
            version
        } else {
            0
        },
        None => 0,
    }
}

/// The version to upgrade from: nothing is older than nothing installed.
pub open spec fn upgrade_from(installed: i64) -> int {
    if installed < 0 {
        0
    } else {
        installed as int
    }
}

/// The migrations an installed version still lacks, in the order they are applied. A
/// version this build does not know is refused, rather than opened and quietly half-read.
pub open spec fn pending(installed: i64) -> Result<Seq<i64>, StoreErrorModel> {
    if installed > CURRENT_VERSION {
        Err(StoreErrorModel::UnsupportedSchema(installed))
    } else {
        let from = upgrade_from(installed);
        Ok(Seq::new((CURRENT_VERSION - from) as nat, |i: int| (from + 1 + i) as i64))
    }
}

/// Reads the installed version.
pub fn read_version(table_exists: bool, greatest: Option<i64>) -> (r: i64)
    ensures
        r == installed_version(table_exists, greatest),
{
    match greatest {
        Some(version) => if table_exists {
            version
        } else {
            0
        },
        None => 0,
    }
}

/// The migrations that bring an installed version up to [`CURRENT_VERSION`], in order.
pub fn pending_migrations(installed: i64) -> (r: Result<Vec<i64>, StoreError>)
    ensures
        outcome(r) == pending(installed),
{
    if installed > CURRENT_VERSION {
        return Err(StoreError::UnsupportedSchema(installed));
    }
    let from: i64 = if installed < 0 {
        0
    } else {
        installed
    };
    let ghost all = Seq::new(
        (CURRENT_VERSION - from) as nat,
        |i: int| (upgrade_from(installed) + 1 + i) as i64,
    );
    let mut versions: Vec<i64> = Vec::new();
    let mut version: i64 = from;
    while version < CURRENT_VERSION
        invariant
            from <= version <= CURRENT_VERSION,
            from == upgrade_from(installed),
            0 <= from,
            all == Seq::new(
                (CURRENT_VERSION - from) as nat,
                |i: int| (upgrade_from(installed) + 1 + i) as i64,
            ),
            versions.deep_view() =~= all.take(version - from),
        decreases CURRENT_VERSION - version,
    {
        let ghost done = versions.deep_view();
        version += 1;
        versions.push(version);
        assert(versions.deep_view() =~= done.push(all[version - from - 1]));
    }
    assert(all.take(CURRENT_VERSION - from) =~= all);
    Ok(versions)
}

// --- the journal -----------------------------------------------------------

/// Being a letter, in either case.
pub open spec fn either_case(c: char, lower: char, upper: char) -> bool {
    c == lower || c == upper
}

/// Whether a journal mode is the write-ahead log, in whichever case it is spelled.
pub open spec fn names_wal(mode: Seq<char>) -> bool {
    mode.len() == 3 && either_case(mode[0], 'w', 'W') && either_case(mode[1], 'a', 'A')
        && either_case(mode[2], 'l', 'L')
}

/// Whether a journal mode is the write-ahead log.
pub fn is_wal(mode: &str) -> (r: bool)
    ensures
        r == names_wal(mode@),
{
    let chars = characters(mode);
    chars.len() == 3 && (chars[0] == 'w' || chars[0] == 'W') && (chars[1] == 'a' || chars[1]
        == 'A') && (chars[2] == 'l' || chars[2] == 'L')
}

/// What is to be done after an attempt to switch to the write-ahead log.
#[derive(Debug, PartialEq, Eq)]
pub enum WalStep {
    /// It is on.
    Ready,
    /// Wait a little, and look again.
    Retry,
    /// Give up.
    Refused(StoreError),
}

/// The contents of a [`WalStep`].
#[verifier::ext_equal]
pub enum WalStepModel {
    Ready,
    Retry,
    Refused(StoreErrorModel),
}

impl View for WalStep {
    type V = WalStepModel;

    open spec fn view(&self) -> WalStepModel {
        match self {
            WalStep::Ready => WalStepModel::Ready,
            WalStep::Retry => WalStepModel::Retry,
            WalStep::Refused(error) => WalStepModel::Refused(error@),
        }
    }
}

/// What an attempt to switch to the write-ahead log comes to: the mode the database
/// answered with, or why it did not, and whether the time for trying is over.
pub open spec fn wal_step(answer: Result<Seq<char>, Seq<char>>, expired: bool) -> WalStepModel {
    match answer {
        Ok(mode) => if names_wal(mode) {
            WalStepModel::Ready
        } else if expired {
            WalStepModel::Refused(
                StoreErrorModel::Database(
                    "database stayed in "@ + mode + " mode; WAL is required"@,
                ),
            )
        } else {
            WalStepModel::Retry
        },
        Err(reason) => if expired {
            WalStepModel::Refused(StoreErrorModel::Database(reason))
        } else {
            WalStepModel::Retry
        },
    }
}

/// The contents of a database's answer.
pub open spec fn answered(answer: Result<String, String>) -> Result<Seq<char>, Seq<char>> {
    match answer {
        Ok(mode) => Ok(mode@),
        Err(reason) => Err(reason@),
    }
}

/// Decides what an attempt to switch to the write-ahead log comes to.
pub fn after_switching(answer: &Result<String, String>, expired: bool) -> (r: WalStep)
    ensures
        r@ == wal_step(answered(*answer), expired),
{
    match answer {
        Ok(mode) => if is_wal(mode.as_str()) {
            WalStep::Ready
        } else if expired {
            WalStep::Refused(
                StoreError::Database(
                    concat3("database stayed in ", mode.as_str(), " mode; WAL is required"),
                ),
            )
        } else {
            WalStep::Retry
        },
        Err(reason) => if expired {
            WalStep::Refused(StoreError::Database(copy_text(reason)))
        } else {
            WalStep::Retry
        },
    }
}

// --- laws ------------------------------------------------------------------

/// Every version this build knows upgrades to the current one: the last migration that
/// is pending is the current version, and each follows the one before it.
pub proof fn law_every_known_version_reaches_the_current_one(installed: i64)
    requires
        installed < CURRENT_VERSION,
    ensures
        pending(installed) matches Ok(versions) && versions.len() > 0 && versions.last()
            == CURRENT_VERSION && versions[0] == upgrade_from(installed) + 1 && forall|i: int|
            0 < i < versions.len() ==> #[trigger] versions[i] == versions[i - 1] + 1,
{
}

/// A store at the current version is left as it is, and a newer one is refused.
pub proof fn law_nothing_is_applied_twice()
    ensures
        pending(CURRENT_VERSION) == Ok::<Seq<i64>, StoreErrorModel>(Seq::empty()),
        forall|installed: i64|
            installed > CURRENT_VERSION ==> #[trigger] pending(installed) == Err::<
                Seq<i64>,
                StoreErrorModel,
            >(StoreErrorModel::UnsupportedSchema(installed)),
{
    assert(pending(CURRENT_VERSION)->Ok_0 =~= Seq::empty());
}

} // verus!
