//! The file ledger: what was changed, by whom, and for which task.

use vstd::prelude::*;

use crate::domain::{FileLedgerEntry, FileLedgerEntryModel};
use crate::error::{outcome, StoreError, StoreErrorModel};
use crate::ids::{ChangeId, RunId, SessionId, TaskId};
use crate::order::{
    arrange, arranged, row_numbers, text_less, text_lt, Arrangement, KeyModel, SortKey,
};
use crate::outside::{json_list_parsed, read_json_list};
use crate::plan::{any_declares, any_declares_path, latest_first};
use crate::tables::{LedgerRow, LedgerRowModel, Store, StoreModel, TaskRowModel};
use crate::text::{copy_text, same};
use crate::values::{
    gathered, lemma_gathered_failed, lemma_gathered_step, moment_of, parse_timestamp,
};

verus! {

// --- holds -----------------------------------------------------------------

/// The hold on a task has not lapsed at `at`. A lapsed lease is no hold.
pub open spec fn held_at(t: TaskRowModel, at: Seq<char>) -> bool {
    t.lease_until matches Some(until) && text_lt(at, until)
}

/// Tasks ordered by lease.
pub open spec fn lease_keys(tasks: Seq<TaskRowModel>) -> Seq<KeyModel> {
    Seq::new(
        tasks.len(),
        |i: int|
            KeyModel {
                rank: 0,
                weight: 0,
                text: match tasks[i].lease_until {
                    Some(until) => until,
                    None => Seq::empty(),
                },
            },
    )
}

/// The tasks a session holds at a moment.
pub open spec fn held_by(tasks: Seq<TaskRowModel>, session: SessionId, at: Seq<char>) -> Seq<bool> {
    Seq::new(
        tasks.len(),
        |i: int| tasks[i].claimed_by == Some(session) && held_at(tasks[i], at),
    )
}

/// The tasks of a change that other sessions hold at a moment.
pub open spec fn held_by_others(
    tasks: Seq<TaskRowModel>,
    change: ChangeId,
    session: SessionId,
    at: Seq<char>,
) -> Seq<bool> {
    Seq::new(
        tasks.len(),
        |i: int|
            {
                &&& tasks[i].change_id == change
                &&& tasks[i].claimed_by is Some
                &&& tasks[i].claimed_by != Some(session)
                &&& held_at(tasks[i], at)
            },
    )
}

/// The task a session has in hand: of those it holds, the one claimed or
/// renewed last.
pub open spec fn task_in_hand(s: StoreModel, session: SessionId, at: Seq<char>) -> Option<
    TaskRowModel,
> {
    let order = arranged(lease_keys(s.tasks), held_by(s.tasks, session, at), latest_first());
    if order.len() > 0 {
        Some(s.tasks[order[0]])
    } else {
        None
    }
}

/// The number of the first task, from position `k` of `order` on, that declares
/// the edited file.
pub open spec fn first_declaring(
    tasks: Seq<TaskRowModel>,
    order: Seq<int>,
    edited: Seq<char>,
    k: int,
) -> Result<Option<Seq<char>>, StoreErrorModel>
    decreases order.len() - k,
{
    if k < 0 || k >= order.len() {
        Ok(None)
    } else {
        match json_list_parsed(tasks[order[k]].files_json) {
            Err(reason) => Err(StoreErrorModel::Serialization(reason)),
            Ok(declared) => if any_declares(declared, edited) {
                Ok(Some(tasks[order[k]].number))
            } else {
                first_declaring(tasks, order, edited, k + 1)
            },
        }
    }
}

/// Whose file an edit landed on: the newest hold of another session, in the
/// change the editing session works on, that declares the file. Nothing is asked
/// when the editing session holds nothing.
pub open spec fn trespass_of(
    s: StoreModel,
    session: SessionId,
    edited: Seq<char>,
    at: Seq<char>,
) -> Result<Option<Seq<char>>, StoreErrorModel> {
    match task_in_hand(s, session, at) {
        None => Ok(None),
        Some(task) => first_declaring(
            s.tasks,
            arranged(
                lease_keys(s.tasks),
                held_by_others(s.tasks, task.change_id, session, at),
                latest_first(),
            ),
            edited,
            0,
        ),
    }
}

/// Recording one observed change of a file.
pub open spec fn append_step(
    s: StoreModel,
    run: RunId,
    session: SessionId,
    entry: FileLedgerEntryModel,
) -> Result<StoreModel, StoreErrorModel> {
    let at = entry.observed_at.written();
    match trespass_of(s, session, entry.path, at) {
        Err(error) => Err(error),
        Ok(trespass_on) => Ok(
            StoreModel {
                ledger: s.ledger.push(
                    LedgerRowModel {
                        run_id: run,
                        session_id: session,
                        path: entry.path,
                        tool: entry.tool,
                        observed_at: at,
                        task_id: match task_in_hand(s, session, at) {
                            Some(task) => Some(task.id),
                            None => None,
                        },
                        trespass_on,
                    },
                ),
                ..s
            },
        ),
    }
}

impl Store {
    fn lease_sort_keys(&self) -> (r: Vec<SortKey>)
        ensures
            r.deep_view() == lease_keys(self@.tasks),
            r@.len() == self.tasks@.len(),
    {
        let ghost all = lease_keys(self@.tasks);
        let mut r: Vec<SortKey> = Vec::new();
        let mut i: usize = 0;
        while i < self.tasks.len()
            invariant
                i <= self.tasks@.len(),
                all == lease_keys(self@.tasks),
                r.deep_view() =~= all.take(i as int),
            decreases self.tasks@.len() - i,
        {
            let text = match &self.tasks[i].lease_until {
                Some(until) => copy_text(until),
                None => String::new(),
            };
            let key = SortKey { rank: 0, weight: 0, text };
            let ghost listed = r.deep_view();
            assert(key@ == all[i as int]);
            r.push(key);
            assert(r.deep_view() =~= listed.push(all[i as int]));
            i += 1;
        }
        assert(all.take(i as int) =~= all);
        r
    }

    fn is_held_at(&self, i: usize, at: &str) -> (r: bool)
        requires
            i < self.tasks@.len(),
        ensures
            r == held_at(self@.tasks[i as int], at@),
    {
        match &self.tasks[i].lease_until {
            Some(until) => text_less(at, until.as_str()),
            None => false,
        }
    }

    /// Where the task stands that a session has in hand.
    fn task_in_hand_index(&self, session: SessionId, at: &str) -> (r: Option<usize>)
        ensures
            match r {
                Some(i) => i < self.tasks@.len() && task_in_hand(self@, session, at@) == Some(
                    self.tasks@[i as int]@,
                ),
                None => task_in_hand(self@, session, at@) is None,
            },
    {
        let ghost all = held_by(self@.tasks, session, at@);
        let mut selected: Vec<bool> = Vec::new();
        let mut i: usize = 0;
        while i < self.tasks.len()
            invariant
                i <= self.tasks@.len(),
                all == held_by(self@.tasks, session, at@),
                selected@ =~= all.take(i as int),
            decreases self.tasks@.len() - i,
        {
            let mine = match self.tasks[i].claimed_by {
                Some(holder) => holder == session,
                None => false,
            };
            selected.push(mine && self.is_held_at(i, at));
            i += 1;
        }
        assert(all.take(i as int) =~= all);
        let keys = self.lease_sort_keys();
        let order = arrange(
            &keys,
            &selected,
            Arrangement { text_descending: true, newest_row_first: false },
        );
        if order.len() > 0 {
            assert(row_numbers(order@)[0] == order@[0] as int);
            Some(order[0])
        } else {
            None
        }
    }

    /// Whose file an edit landed on, for a session working on a change.
    fn find_trespass(&self, change: ChangeId, session: SessionId, edited: &str, at: &str) -> (r:
        Result<Option<String>, StoreError>)
        ensures
            outcome(r) == first_declaring(
                self@.tasks,
                arranged(
                    lease_keys(self@.tasks),
                    held_by_others(self@.tasks, change, session, at@),
                    latest_first(),
                ),
                edited@,
                0,
            ),
    {
        let ghost all = held_by_others(self@.tasks, change, session, at@);
        let mut selected: Vec<bool> = Vec::new();
        let mut i: usize = 0;
        while i < self.tasks.len()
            invariant
                i <= self.tasks@.len(),
                all == held_by_others(self@.tasks, change, session, at@),
                selected@ =~= all.take(i as int),
            decreases self.tasks@.len() - i,
        {
            let theirs = match self.tasks[i].claimed_by {
                Some(holder) => holder != session,
                None => false,
            };
            selected.push(
                self.tasks[i].change_id == change && theirs && self.is_held_at(i, at),
            );
            i += 1;
        }
        assert(all.take(i as int) =~= all);
        let keys = self.lease_sort_keys();
        let order = arrange(
            &keys,
            &selected,
            Arrangement { text_descending: true, newest_row_first: false },
        );
        let ghost listed = row_numbers(order@);
        let mut k: usize = 0;
        while k < order.len()
            invariant
                k <= order@.len(),
                listed == row_numbers(order@),
                listed == arranged(
                    lease_keys(self@.tasks),
                    held_by_others(self@.tasks, change, session, at@),
                    latest_first(),
                ),
                forall|i: int| 0 <= i < order@.len() ==> #[trigger] order@[i] < self.tasks@.len(),
                first_declaring(self@.tasks, listed, edited@, 0) == first_declaring(
                    self@.tasks,
                    listed,
                    edited@,
                    k as int,
                ),
            decreases order@.len() - k,
        {
            assert(listed[k as int] == order@[k as int] as int);
            let task = &self.tasks[order[k]];
            match read_json_list(task.files_json.as_str()) {
                Ok(declared) => {
                    if any_declares_path(&declared, edited) {
                        return Ok(Some(copy_text(&task.number)));
                    }
                },
                Err(reason) => {
                    return Err(StoreError::Serialization(reason));
                },
            }
            k += 1;
        }
        Ok(None)
    }

    /// Records one observed change of a file, under the task the session has in
    /// hand at that moment, and with the task whose file it was when another
    /// session held that file.
    pub fn append_ledger(
        &mut self,
        run: RunId,
        session: SessionId,
        entry: &FileLedgerEntry,
    ) -> (r: Result<(), StoreError>)
        requires
            entry.observed_at.valid(),
        ensures
            match append_step(old(self)@, run, session, entry@) {
                Ok(after) => r is Ok && final(self)@ == after,
                Err(error) => outcome(r) == Err::<(), StoreErrorModel>(error) && final(self)@
                    == old(self)@,
            },
    {
        let at = entry.observed_at.text();
        let (task_id, trespass_on): (Option<TaskId>, Option<String>) =
            match self.task_in_hand_index(session, at.as_str()) {
            Some(i) => {
                let change = self.tasks[i].change_id;
                match self.find_trespass(change, session, entry.path.as_str(), at.as_str()) {
                    Ok(found) => (Some(self.tasks[i].id), found),
                    Err(error) => {
                        return Err(error);
                    },
                }
            },
            None => (None, None),
        };
        let row = LedgerRow {
            run_id: run,
            session_id: session,
            path: copy_text(&entry.path),
            tool: copy_text(&entry.tool),
            observed_at: at,
            task_id,
            trespass_on,
        };
        let ghost before = self@;
        let ghost added = row@;
        self.ledger.push(row);
        assert(self@.ledger =~= before.ledger.push(added));
        assert(self@ =~= (StoreModel { ledger: before.ledger.push(added), ..before }));
        Ok(())
    }
}

// --- reading ---------------------------------------------------------------

/// An edit of a path, during a run.
pub open spec fn edit_of(l: LedgerRowModel, run: RunId, path: Seq<char>) -> bool {
    l.run_id == run && l.path == path
}

/// Row `j` is a later edit than row `i`: it was observed later, or at the same time and
/// recorded later.
pub open spec fn later(ledger: Seq<LedgerRowModel>, j: int, i: int) -> bool {
    ||| text_lt(ledger[i].observed_at, ledger[j].observed_at)
    ||| i < j && !text_lt(ledger[j].observed_at, ledger[i].observed_at)
}

/// Row `i` is the latest edit of its path, of the edits before `bound`, and one of the run.
pub open spec fn latest_before(
    ledger: Seq<LedgerRowModel>,
    run: RunId,
    bound: int,
    i: int,
) -> bool {
    ledger[i].run_id == run && forall|j: int|
        0 <= j < bound && edit_of(#[trigger] ledger[j], run, ledger[i].path) ==> !later(
            ledger,
            j,
            i,
        )
}

/// Row `i` is the latest edit of its path during the run.
pub open spec fn latest_edit(ledger: Seq<LedgerRowModel>, run: RunId, i: int) -> bool {
    latest_before(ledger, run, ledger.len() as int, i)
}

/// Edits ordered by when they were observed.
pub open spec fn edit_keys(ledger: Seq<LedgerRowModel>) -> Seq<KeyModel> {
    Seq::new(
        ledger.len(),
        |i: int| KeyModel { rank: 0, weight: 0, text: ledger[i].observed_at },
    )
}

/// The latest edit of each path of the run.
pub open spec fn latest_edits(ledger: Seq<LedgerRowModel>, run: RunId) -> Seq<bool> {
    Seq::new(ledger.len(), |i: int| latest_edit(ledger, run, i))
}

/// The latest edit of each path of the run, most recent first.
pub open spec fn edit_order(ledger: Seq<LedgerRowModel>, run: RunId) -> Seq<int> {
    arranged(edit_keys(ledger), latest_edits(ledger, run), latest_first())
}

/// One edit as it is listed.
pub open spec fn listed_edit(l: LedgerRowModel) -> Result<FileLedgerEntryModel, StoreErrorModel> {
    match moment_of(l.observed_at) {
        Ok(observed_at) => Ok(FileLedgerEntryModel { path: l.path, tool: l.tool, observed_at }),
        Err(error) => Err(error),
    }
}

/// At most `limit` of a list.
pub open spec fn at_most<T>(list: Seq<T>, limit: nat) -> Seq<T> {
    if list.len() <= limit {
        list
    } else {
        list.take(limit as int)
    }
}

/// Distinct paths edited during a run, most recent first, each by its latest edit.
pub open spec fn ledger_listing(s: StoreModel, run: RunId, limit: nat) -> Result<
    Seq<FileLedgerEntryModel>,
    StoreErrorModel,
> {
    let order = at_most(edit_order(s.ledger, run), limit);
    gathered(Seq::new(order.len(), |i: int| listed_edit(s.ledger[order[i]])))
}

impl Store {
    fn is_latest_edit(&self, run: RunId, i: usize) -> (r: bool)
        requires
            i < self.ledger@.len(),
        ensures
            r == latest_edit(self@.ledger, run, i as int),
    {
        if self.ledger[i].run_id != run {
            return false;
        }
        let row = &self.ledger[i];
        let mut j: usize = 0;
        while j < self.ledger.len()
            invariant
                j <= self.ledger@.len(),
                i < self.ledger@.len(),
                row == self.ledger@[i as int],
                latest_before(self@.ledger, run, j as int, i as int),
            decreases self.ledger@.len() - j,
        {
            let other = &self.ledger[j];
            if other.run_id == run && same(other.path.as_str(), row.path.as_str()) {
                let seen_later = text_less(row.observed_at.as_str(), other.observed_at.as_str());
                if seen_later || (i < j && !text_less(
                    other.observed_at.as_str(),
                    row.observed_at.as_str(),
                )) {
                    assert(edit_of(self@.ledger[j as int], run, self@.ledger[i as int].path));
                    assert(later(self@.ledger, j as int, i as int));
                    return false;
                }
            }
            j += 1;
        }
        true
    }

    /// Distinct paths edited during a run, most recent first. Each comes with the time and
    /// the tool of its latest edit.
    pub fn ledger(&self, run: RunId, limit: usize) -> (r: Result<Vec<FileLedgerEntry>, StoreError>)
        ensures
            outcome(r) == ledger_listing(self@, run, limit as nat),
    {
        let ghost all_keys = edit_keys(self@.ledger);
        let ghost all_marks = latest_edits(self@.ledger, run);
        let mut keys: Vec<SortKey> = Vec::new();
        let mut selected: Vec<bool> = Vec::new();
        let mut i: usize = 0;
        while i < self.ledger.len()
            invariant
                i <= self.ledger@.len(),
                all_keys == edit_keys(self@.ledger),
                all_marks == latest_edits(self@.ledger, run),
                keys.deep_view() =~= all_keys.take(i as int),
                selected@ =~= all_marks.take(i as int),
            decreases self.ledger@.len() - i,
        {
            let key = SortKey {
                rank: 0,
                weight: 0,
                text: copy_text(&self.ledger[i].observed_at),
            };
            let ghost listed = keys.deep_view();
            assert(key@ == all_keys[i as int]);
            keys.push(key);
            assert(keys.deep_view() =~= listed.push(all_keys[i as int]));
            selected.push(self.is_latest_edit(run, i));
            i += 1;
        }
        assert(all_keys.take(i as int) =~= all_keys);
        assert(all_marks.take(i as int) =~= all_marks);
        let order = arrange(
            &keys,
            &selected,
            Arrangement { text_descending: true, newest_row_first: false },
        );
        let count: usize = if order.len() <= limit {
            order.len()
        } else {
            limit
        };
        let ghost chosen = at_most(edit_order(self@.ledger, run), limit as nat);
        let ghost readings = Seq::new(
            chosen.len(),
            |i: int| listed_edit(self@.ledger[chosen[i]]),
        );
        let mut entries: Vec<FileLedgerEntry> = Vec::new();
        let mut k: usize = 0;
        assert(entries.deep_view() =~= Seq::<FileLedgerEntryModel>::empty());
        while k < count
            invariant
                k <= count <= order@.len(),
                count == chosen.len(),
                row_numbers(order@) == edit_order(self@.ledger, run),
                chosen == at_most(edit_order(self@.ledger, run), limit as nat),
                forall|i: int| 0 <= i < order@.len() ==> #[trigger] order@[i] < self.ledger@.len(),
                readings == Seq::new(
                    chosen.len(),
                    |i: int| listed_edit(self@.ledger[chosen[i]]),
                ),
                gathered(readings.take(k as int)) == Ok::<
                    Seq<FileLedgerEntryModel>,
                    StoreErrorModel,
                >(entries.deep_view()),
            decreases count - k,
        {
            proof {
                assert(row_numbers(order@)[k as int] == order@[k as int] as int);
                assert(chosen[k as int] == order@[k as int] as int);
                lemma_gathered_step(readings, k as int);
            }
            let row = &self.ledger[order[k]];
            match parse_timestamp(row.observed_at.as_str()) {
                Ok(observed_at) => {
                    let entry = FileLedgerEntry {
                        path: copy_text(&row.path),
                        tool: copy_text(&row.tool),
                        observed_at,
                    };
                    let ghost listed = entries.deep_view();
                    let ghost next = entry@;
                    entries.push(entry);
                    assert(entries.deep_view() =~= listed.push(next));
                },
                Err(error) => {
                    proof {
                        lemma_gathered_failed(readings, k + 1);
                    }
                    return Err(error);
                },
            }
            k += 1;
        }
        assert(readings.take(k as int) =~= readings);
        Ok(entries)
    }
}

} // verus!
