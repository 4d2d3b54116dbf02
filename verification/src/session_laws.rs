//! What holds of sessions, edits and background work as a whole.

use vstd::prelude::*;

use crate::domain::FileLedgerEntryModel;
use crate::error::StoreErrorModel;
use crate::git::RepositoryProbeModel;
use crate::ids::{OperationId, RunId, SessionId, WorkspaceId};
use crate::jobs::{claim_step, fail_step, is_job, is_next, next_job, runnable, with_job};
use crate::ledger::{
    append_step, at_most, edit_keys, edit_of, edit_order, later, latest_before, latest_edit,
    latest_edits, ledger_listing, listed_edit,
};
use crate::moment::{Moment, Span};
use crate::order::{
    arranged, is_listing, law_arranged_lists_the_selected, lemma_arranged, lemma_precedes_total,
    lemma_text_lt_irreflexive, lemma_text_lt_total, lemma_text_lt_transitive, precedes, text_lt,
};
use crate::plan::{is_run, latest_first};
use crate::repositories::upsert_step;
use crate::rows::{
    any_row, first_index, first_row, is_first, lemma_filter_all, lemma_first, lemma_first_is_first,
};
use crate::sessions::{
    attach_step, bind_session_step, bound_to, hinted_with_run, is_absent_agent, is_agent,
    is_live_hint, is_notice, newest_first, notice_step, observed, open_runs_of, reasoned,
    run_in_flight, start_keys, title_of, touched_keys, unexplained, with_agent, with_agent_returned,
    with_session_closed, SessionBinding, REASONING_EDIT_THRESHOLD, TITLE_LIMIT,
};
use crate::states::{HarnessKind, JobStatus};
use crate::store::{run_snapshot, NewRun};
use crate::tables::{JobRowModel, LedgerRowModel, StoreModel};
use crate::text::{
    drop_back_while, filled, joined, lemma_drop_back_is_front, lemma_pieces_nonempty, marks_white,
    pieces, trimmed, trimmed_end, white, words,
};
use crate::values::{lemma_gathered_each, lemma_gathered_len};

verus! {

// --- binding a session -----------------------------------------------------

/// Every session is of a run that is there.
pub open spec fn sessions_have_runs(s: StoreModel) -> bool {
    forall|i: int|
        0 <= i < s.sessions.len() ==> any_row(s.runs, is_run((#[trigger] s.sessions[i]).run_id))
}

proof fn lemma_sole_session(s: StoreModel, hint: Seq<char>, n: int)
    requires
        n == s.sessions.len() - 1,
        0 <= n,
        s.sessions[n].external_session_hint == Some(hint),
        any_row(s.runs, is_run(s.sessions[n].run_id)),
        forall|i: int|
            0 <= i < n ==> (#[trigger] s.sessions[i]).external_session_hint != Some(hint),
    ensures
        bound_to(s, hint) == Some(
            SessionBinding {
                run_id: s.sessions[n].run_id,
                session_id: s.sessions[n].id,
                workspace_id: first_row(s.runs, is_run(s.sessions[n].run_id))->0.workspace_id,
                opened_run: false,
            },
        ),
{
    let keys = start_keys(s.sessions);
    let marks = hinted_with_run(s, hint);
    let rows = seq![n];
    assert forall|k: int| 0 <= k < keys.len() && #[trigger] marks[k] implies rows.contains(k) by {
        assert(s.sessions[k].external_session_hint == Some(hint));
        assert(k == n);
        assert(rows[0] == k);
    }
    assert(marks[n]);
    assert(is_listing(keys, marks, latest_first(), rows));
    lemma_arranged(keys, marks, latest_first(), rows);
}

proof fn lemma_unbound_has_no_session(s: StoreModel, hint: Seq<char>)
    requires
        sessions_have_runs(s),
        bound_to(s, hint) is None,
    ensures
        forall|i: int|
            0 <= i < s.sessions.len() ==> (#[trigger] s.sessions[i]).external_session_hint != Some(
                hint,
            ),
{
    let keys = start_keys(s.sessions);
    let marks = hinted_with_run(s, hint);
    law_arranged_lists_the_selected(keys, marks, latest_first());
    assert forall|i: int| 0 <= i < s.sessions.len() implies (
    #[trigger] s.sessions[i]).external_session_hint != Some(hint) by {
        if s.sessions[i].external_session_hint == Some(hint) {
            assert(any_row(s.runs, is_run(s.sessions[i].run_id)));
            assert(marks[i]);
        }
    }
}

proof fn lemma_flight_is_a_run(s: StoreModel, workspace: WorkspaceId)
    ensures
        run_in_flight(s, workspace) matches Some(run) ==> first_row(s.runs, is_run(run)) matches Some(
            row,
        ) && any_row(s.runs, is_run(run)),
{
    let keys = touched_keys(s.runs);
    let marks = open_runs_of(s.runs, workspace);
    let order = arranged(keys, marks, newest_first());
    law_arranged_lists_the_selected(keys, marks, newest_first());
    if order.len() > 0 {
        assert(marks[order[0]]);
        let run = s.runs[order[0]].id;
        assert(is_run(run)(s.runs[order[0]]));
        lemma_first_is_first(s.runs, is_run(run));
    }
}

/// A session is bound once: binding it again gives the binding it has, and changes nothing,
/// whatever it is asked to work on by then.
pub proof fn law_a_session_is_bound_once(
    s: StoreModel,
    hint: Seq<char>,
    probe: RepositoryProbeModel,
    task: Seq<char>,
    harness: HarnessKind,
    ids: NewRun,
    now: Seq<char>,
    probe_later: RepositoryProbeModel,
    task_later: Seq<char>,
    harness_later: HarnessKind,
    ids_later: NewRun,
    later: Seq<char>,
)
    requires
        sessions_have_runs(s),
        bind_session_step(s, hint, probe, task, harness, ids, now).0 is Ok,
    ensures
        ({
            let (binding, after) = bind_session_step(s, hint, probe, task, harness, ids, now);
            let (again, last) = bind_session_step(
                after,
                hint,
                probe_later,
                task_later,
                harness_later,
                ids_later,
                later,
            );
            &&& last == after
            &&& again is Ok
            &&& again->Ok_0.run_id == binding->Ok_0.run_id
            &&& again->Ok_0.session_id == binding->Ok_0.session_id
            &&& !again->Ok_0.opened_run
        }),
{
    let (binding, after) = bind_session_step(s, hint, probe, task, harness, ids, now);
    if bound_to(s, hint) is None {
        lemma_unbound_has_no_session(s, hint);
        let (resolved, known) = upsert_step(s, probe, ids.workspace, ids.repository, now);
        let n = s.sessions.len() as int;
        lemma_flight_is_a_run(known, resolved.workspace_id);
        if run_in_flight(known, resolved.workspace_id) is None {
            assert(is_run(ids.run)(after.runs[s.runs.len() as int]));
        }
        assert(any_row(after.runs, is_run(after.sessions[n].run_id)));
        assert forall|i: int| 0 <= i < n implies (
        #[trigger] after.sessions[i]).external_session_hint != Some(hint) by {
            assert(after.sessions[i] == s.sessions[i]);
        }
        lemma_sole_session(after, hint, n);
    }
}

/// A session that joins what is in flight opens no run, and one that is refused, or finds
/// nothing in flight, changes nothing.
pub proof fn law_attaching_opens_no_run(
    s: StoreModel,
    hint: Seq<char>,
    probe: RepositoryProbeModel,
    harness: HarnessKind,
    ids: NewRun,
    now: Seq<char>,
)
    ensures
        ({
            let (binding, after) = attach_step(s, hint, probe, harness, ids, now);
            &&& after.runs == s.runs
            &&& binding is Err || binding->Ok_0 is None ==> after == s
            &&& binding is Ok && binding->Ok_0 is Some ==> !binding->Ok_0->0.opened_run
        }),
{
    lemma_bound_opens_nothing(s, hint);
}

proof fn lemma_bound_opens_nothing(s: StoreModel, hint: Seq<char>)
    ensures
        bound_to(s, hint) matches Some(found) ==> !found.opened_run,
{
}

// --- the title of a run ----------------------------------------------------

/// Words with one space between each two, and nothing around them.
pub open spec fn tidy(s: Seq<char>) -> bool {
    &&& s.len() > 0 ==> !white(s[0]) && !white(s.last())
    &&& forall|i: int| 0 <= i < s.len() && white(#[trigger] s[i]) ==> s[i] == ' '
    &&& forall|i: int, j: int|
        0 <= i && j == i + 1 && j < s.len() && white(#[trigger] s[i]) ==> !white(#[trigger] s[j])
}

proof fn lemma_pieces_hold_no_white(s: Seq<char>, marks: Seq<bool>)
    requires
        forall|i: int| 0 <= i < s.len() ==> (#[trigger] marks[i]) == white(s[i]),
    ensures
        forall|k: int, i: int|
            #![trigger pieces(s, marks)[k][i]]
            0 <= k < pieces(s, marks).len() && 0 <= i < pieces(s, marks)[k].len() ==> !white(
                pieces(s, marks)[k][i],
            ),
    decreases s.len(),
{
    if s.len() > 0 {
        let n = s.len() - 1;
        let x = s.drop_last();
        assert forall|i: int| 0 <= i < x.len() implies (#[trigger] marks[i]) == white(x[i]) by {}
        lemma_pieces_hold_no_white(x, marks);
        lemma_pieces_nonempty(x, marks);
        let before = pieces(x, marks);
        let all = pieces(s, marks);
        assert(marks[n] == white(s[n]));
        assert forall|k: int, i: int|
            #![trigger all[k][i]]
            0 <= k < all.len() && 0 <= i < all[k].len() implies !white(all[k][i]) by {
            if !marks[n] && k == all.len() - 1 {
                if i < before.last().len() {
                    assert(all[k][i] == before[before.len() - 1][i]);
                }
            } else if k < before.len() {
                assert(all[k][i] == before[k][i]);
            }
        }
    }
}

proof fn lemma_join_is_tidy(parts: Seq<Seq<char>>)
    requires
        forall|k: int| 0 <= k < parts.len() ==> (#[trigger] parts[k]).len() > 0,
        forall|k: int, i: int|
            #![trigger parts[k][i]]
            0 <= k < parts.len() && 0 <= i < parts[k].len() ==> !white(parts[k][i]),
    ensures
        tidy(joined(parts, " "@)),
        parts.len() > 0 ==> joined(parts, " "@).len() > 0,
    decreases parts.len(),
{
    reveal_strlit(" ");
    if parts.len() == 1 {
        assert(forall|i: int| 0 <= i < parts[0].len() ==> !white(#[trigger] parts[0][i]));
    } else if parts.len() > 1 {
        let front = parts.drop_last();
        let last = parts.last();
        let n = parts.len() - 1;
        assert forall|k: int, i: int|
            #![trigger front[k][i]]
            0 <= k < front.len() && 0 <= i < front[k].len() implies !white(front[k][i]) by {
            assert(front[k][i] == parts[k][i]);
        }
        lemma_join_is_tidy(front);
        let line = joined(front, " "@);
        let s = joined(parts, " "@);
        let at = line.len() as int;
        assert(s =~= line + " "@ + last);
        assert(s[at] == ' ');
        assert forall|i: int| 0 <= i < s.len() && white(#[trigger] s[i]) implies s[i] == ' ' && (i
            + 1 < s.len() ==> !white(s[i + 1])) && i > 0 && i < s.len() - 1 by {
            if i < at {
                assert(s[i] == line[i]);
                assert(white(line[i]));
                assert(i != at - 1);
                assert(s[i + 1] == line[i + 1]);
            } else if i == at {
                assert(s[i + 1] == parts[n][0]);
            } else {
                assert(s[i] == parts[n][i - at - 1]);
            }
        }
        assert(!white(s[0])) by {
            assert(s[0] == line[0]);
        }
        assert(!white(s.last())) by {
            assert(s.last() == parts[n][last.len() - 1]);
        }
    }
}

proof fn lemma_joined_push(parts: Seq<Seq<char>>, more: Seq<char>)
    requires
        parts.len() > 0,
    ensures
        joined(parts.push(more), " "@) == joined(parts, " "@) + " "@ + more,
{
    assert(parts.push(more).drop_last() =~= parts);
}

proof fn lemma_joined_longer(parts: Seq<Seq<char>>, c: char)
    requires
        parts.len() > 0,
    ensures
        joined(parts.drop_last().push(parts.last().push(c)), " "@) == joined(parts, " "@).push(c),
{
    let front = parts.drop_last();
    if front.len() > 0 {
        lemma_joined_push(front, parts.last().push(c));
        assert(joined(front, " "@) + " "@ + parts.last().push(c) =~= (joined(front, " "@) + " "@
            + parts.last()).push(c));
    } else {
        assert(front.push(parts.last().push(c))[0] == parts[0].push(c));
    }
}

/// Cut at its spaces and joined again, a text whose only white space is the space is what it
/// was. Where no two of them stand side by side and none comes first, only the last piece may
/// be empty.
proof fn lemma_pieces_join(s: Seq<char>, marks: Seq<bool>)
    requires
        forall|i: int| 0 <= i < s.len() ==> (#[trigger] marks[i]) == white(s[i]),
        forall|i: int| 0 <= i < s.len() && white(#[trigger] s[i]) ==> s[i] == ' ',
        s.len() > 0 ==> !white(s[0]),
        forall|i: int, j: int|
            0 <= i && j == i + 1 && j < s.len() && white(#[trigger] s[i]) ==> !white(
                #[trigger] s[j],
            ),
    ensures
        joined(pieces(s, marks), " "@) == s,
        forall|k: int|
            0 <= k < pieces(s, marks).len() - 1 ==> (#[trigger] pieces(s, marks)[k]).len() > 0,
        s.len() > 0 && !white(s.last()) ==> pieces(s, marks).last().len() > 0,
    decreases s.len(),
{
    reveal_strlit(" ");
    if s.len() > 0 {
        let n = s.len() - 1;
        let x = s.drop_last();
        let before = pieces(x, marks);
        assert(marks[n] == white(s[n]));
        assert forall|i: int, j: int|
            0 <= i && j == i + 1 && j < x.len() && white(#[trigger] x[i]) implies !white(
            #[trigger] x[j],
        ) by {
            assert(s[i] == x[i] && s[j] == x[j]);
        }
        lemma_pieces_join(x, marks);
        lemma_pieces_nonempty(x, marks);
        assert(x.push(s[n]) =~= s);
        if marks[n] {
            assert(s[n] == ' ');
            lemma_joined_push(before, Seq::<char>::empty());
            assert(x + " "@ + Seq::<char>::empty() =~= s);
            assert(x.len() > 0);
            assert(!white(x.last())) by {
                if white(s[n - 1]) {
                    assert(!white(s[n]));
                }
            }
        } else {
            lemma_joined_longer(before, s[n]);
        }
    } else {
        assert(s =~= Seq::<char>::empty());
    }
}

/// A tidy text is its words with a space between each two.
proof fn lemma_tidy_words(s: Seq<char>)
    requires
        tidy(s),
    ensures
        joined(words(s), " "@) == s,
{
    let marks = marks_white(s);
    let all = pieces(s, marks);
    let p = |w: Seq<char>| filled(w);
    lemma_pieces_join(s, marks);
    if s.len() > 0 {
        assert forall|k: int| 0 <= k < all.len() implies p(#[trigger] all[k]) by {
            if k == all.len() - 1 {
                assert(all.last().len() > 0);
            }
        }
        lemma_filter_all(all, p);
    } else {
        let none = Seq::<Seq<char>>::empty();
        assert(all =~= none.push(Seq::<char>::empty()));
        none.lemma_filter_push(Seq::<char>::empty(), p);
        lemma_filter_all(none, p);
        assert(s =~= Seq::<char>::empty());
    }
}

proof fn lemma_words_are_filled(s: Seq<char>)
    ensures
        tidy(joined(words(s), " "@)),
{
    let all = pieces(s, marks_white(s));
    let p = |w: Seq<char>| filled(w);
    let found = words(s);
    lemma_pieces_hold_no_white(s, marks_white(s));
    assert forall|k: int| 0 <= k < found.len() implies (#[trigger] found[k]).len() > 0 by {
        all.lemma_filter_pred(p, k);
    }
    assert forall|k: int, i: int|
        #![trigger found[k][i]]
        0 <= k < found.len() && 0 <= i < found[k].len() implies !white(found[k][i]) by {
        assert(found.contains(found[k]));
        all.lemma_filter_contains_rev(p, found[k]);
        let m = choose|m: int| 0 <= m < all.len() && all[m] == found[k];
        assert(all[m][i] == found[k][i]);
    }
    lemma_join_is_tidy(found);
}

/// The title of a run is one line of bounded length: the words of the task with a space
/// between each two, whole where they fit, and else cut with nothing white before the
/// ellipsis.
pub proof fn law_a_title_is_short(task: Seq<char>)
    ensures
        title_of(task).len() <= TITLE_LIMIT + 1,
        tidy(title_of(task)),
{
    let line = joined(words(task), " "@);
    lemma_words_are_filled(task);
    if line.len() > TITLE_LIMIT {
        let start = line.take(TITLE_LIMIT as int);
        let kept = trimmed_end(start);
        lemma_drop_back_is_front(start, |c: char| white(c));
        lemma_drop_back_ends(start, |c: char| white(c));
        reveal_strlit("…");
        let r = title_of(task);
        assert(r =~= kept.push('…'));
        assert(!white(line[0]) && start[0] == line[0]);
        assert(kept.len() > 0);
        assert forall|i: int| 0 <= i < kept.len() implies #[trigger] r[i] == line[i] by {
            assert(kept[i] == start[i]);
        }
        assert forall|i: int, j: int|
            0 <= i && j == i + 1 && j < r.len() && white(#[trigger] r[i]) implies !white(
            #[trigger] r[j],
        ) by {
            if j < kept.len() {
                assert(white(line[i]));
                assert(!white(line[j]));
            }
        }
    }
}

proof fn lemma_drop_back_ends(s: Seq<char>, p: spec_fn(char) -> bool)
    ensures
        drop_back_while(s, p).len() > 0 ==> !p(drop_back_while(s, p).last()),
        s.len() > 0 && !p(s.last()) ==> drop_back_while(s, p) == s,
    decreases s.len(),
{
    if s.len() > 0 && p(s.last()) {
        lemma_drop_back_ends(s.drop_last(), p);
    }
}

/// Cutting a title twice is cutting it once.
pub proof fn law_cutting_a_title_twice_changes_nothing(task: Seq<char>)
    ensures
        title_of(title_of(task)) == title_of(task),
{
    let line = joined(words(task), " "@);
    let r = title_of(task);
    law_a_title_is_short(task);
    lemma_tidy_words(r);
    assert(joined(words(r), " "@) == r);
    if r.len() > TITLE_LIMIT {
        let start = line.take(TITLE_LIMIT as int);
        let kept = trimmed_end(start);
        reveal_strlit("…");
        lemma_drop_back_is_front(start, |c: char| white(c));
        lemma_drop_back_ends(start, |c: char| white(c));
        assert(r =~= kept.push('…'));
        assert(kept.len() == TITLE_LIMIT);
        assert(r.take(TITLE_LIMIT as int) =~= kept);
        lemma_drop_back_ends(kept, |c: char| white(c));
    }
}

/// A closed session is closed: none of its name is live afterwards, and closing it again
/// changes nothing.
pub proof fn law_a_closed_session_stays_closed(
    s: StoreModel,
    hint: Seq<char>,
    now: Seq<char>,
    later: Seq<char>,
)
    ensures
        ({
            let after = with_session_closed(s, hint, now);
            &&& !any_row(after.sessions, is_live_hint(hint))
            &&& with_session_closed(after, hint, later) == after
        }),
{
    let after = with_session_closed(s, hint, now);
    assert(with_session_closed(after, hint, later).sessions =~= after.sessions);
}

// --- agents and notices ----------------------------------------------------

/// An agent is recorded once: telling of it again changes nothing.
pub proof fn law_an_agent_is_recorded_once(
    s: StoreModel,
    hint: Seq<char>,
    agent: Seq<char>,
    kind: Option<Seq<char>>,
    now: Seq<char>,
    hint_later: Seq<char>,
    kind_later: Option<Seq<char>>,
    later: Seq<char>,
)
    requires
        with_agent(s, hint, agent, kind, now) != s,
    ensures
        ({
            let after = with_agent(s, hint, agent, kind, now);
            with_agent(after, hint_later, agent, kind_later, later) == after
        }),
{
    let after = with_agent(s, hint, agent, kind, now);
    assert(is_agent(agent)(after.agents[s.agents.len() as int]));
}

/// The first return of an agent counts: telling of it again keeps the time it has.
pub proof fn law_an_agent_returns_once(
    s: StoreModel,
    agent: Seq<char>,
    now: Seq<char>,
    later: Seq<char>,
)
    ensures
        ({
            let after = with_agent_returned(s, agent, now);
            &&& with_agent_returned(after, agent, later) == after
            &&& trimmed(agent).len() > 0 ==> !any_row(after.agents, is_absent_agent(agent))
        }),
{
    let after = with_agent_returned(s, agent, now);
    if trimmed(agent).len() > 0 {
        assert(with_agent_returned(after, agent, later).agents =~= after.agents);
    }
}

/// A notice is given once to a session: the first to ask may send it, and nobody after.
pub proof fn law_a_notice_is_given_once(
    s: StoreModel,
    session: Seq<char>,
    kind: Seq<char>,
    now: Seq<char>,
    later: Seq<char>,
)
    ensures
        ({
            let after = notice_step(s, session, kind, now).1;
            notice_step(after, session, kind, later) == (false, after)
        }),
{
    let after = notice_step(s, session, kind, now).1;
    if !any_row(s.notices, is_notice(session, kind)) {
        assert(is_notice(session, kind)(after.notices[s.notices.len() as int]));
    }
}

/// Notices of another kind, and of another session, are not used up.
pub proof fn law_notices_do_not_use_each_other_up(
    s: StoreModel,
    session: Seq<char>,
    kind: Seq<char>,
    now: Seq<char>,
    other_session: Seq<char>,
    other_kind: Seq<char>,
    later: Seq<char>,
)
    requires
        other_session != session || other_kind != kind,
    ensures
        ({
            let after = notice_step(s, session, kind, now).1;
            notice_step(after, other_session, other_kind, later).0 == notice_step(
                s,
                other_session,
                other_kind,
                later,
            ).0
        }),
{
    let after = notice_step(s, session, kind, now).1;
    let p = is_notice(other_session, other_kind);
    if any_row(s.notices, p) {
        let i = choose|i: int| 0 <= i < s.notices.len() && p(#[trigger] s.notices[i]);
        assert(p(after.notices[i]));
    }
    if any_row(after.notices, p) {
        let i = choose|i: int| 0 <= i < after.notices.len() && p(#[trigger] after.notices[i]);
        assert(i < s.notices.len());
        assert(p(s.notices[i]));
    }
}

// --- observed checkpoints --------------------------------------------------

/// A checkpoint that was merely observed carries the reasoning forward: everything the one
/// before it said but the files is kept, its origin included.
pub proof fn law_an_observed_checkpoint_inherits(
    s: StoreModel,
    binding: SessionBinding,
    operation: OperationId,
    changed_files: Seq<Seq<char>>,
    fallback: Seq<char>,
)
    requires
        run_snapshot(s, binding.run_id, Some(binding.session_id)) matches Ok(run)
            && run.latest_checkpoint is Some,
    ensures
        ({
            let before =
                run_snapshot(s, binding.run_id, Some(binding.session_id))->Ok_0.latest_checkpoint->0;
            observed(s, binding, operation, changed_files, fallback) matches Ok(command)
                && command.decisions == before.decisions && command.rejected == before.rejected
                && command.completed_steps == before.completed_steps && command.next_steps
                == before.next_steps && command.verification == before.verification
                && command.risks == before.risks && command.handoff_summary
                == before.handoff_summary && command.origin == before.origin
                && command.changed_files == changed_files
        }),
{
}

/// Reasoning is asked for only where it is missing: never for a run that has reasoning on
/// record, nor for one with few edits.
pub proof fn law_reasoning_is_asked_for_where_it_is_missing(s: StoreModel, run: RunId)
    ensures
        any_row(s.checkpoints, reasoned(run)) ==> unexplained(s, run) is None,
        unexplained(s, run) matches Some(edits) ==> edits >= REASONING_EDIT_THRESHOLD,
{
}

// --- the ledger of edits ---------------------------------------------------

/// Every path that was edited during a run.
pub open spec fn edited_paths(ledger: Seq<LedgerRowModel>, run: RunId) -> Set<Seq<char>> {
    Set::new(
        |path: Seq<char>|
            exists|i: int| 0 <= i < ledger.len() && edit_of(#[trigger] ledger[i], run, path),
    )
}

/// The paths of some rows.
pub open spec fn paths_at(ledger: Seq<LedgerRowModel>, rows: Seq<int>) -> Seq<Seq<char>> {
    Seq::new(rows.len(), |i: int| ledger[rows[i]].path)
}

proof fn lemma_edit_order(ledger: Seq<LedgerRowModel>, run: RunId)
    ensures
        is_listing(
            edit_keys(ledger),
            latest_edits(ledger, run),
            latest_first(),
            edit_order(ledger, run),
        ),
{
    law_arranged_lists_the_selected(
        edit_keys(ledger),
        latest_edits(ledger, run),
        latest_first(),
    );
}

/// Of the edits of a path there is a latest one.
proof fn lemma_some_latest(ledger: Seq<LedgerRowModel>, run: RunId, bound: int, i: int) -> (last:
    int)
    requires
        0 <= i < bound <= ledger.len(),
        ledger[i].run_id == run,
    ensures
        0 <= last < bound,
        edit_of(ledger[last], run, ledger[i].path),
        latest_before(ledger, run, bound, last),
    decreases bound,
{
    let path = ledger[i].path;
    let n = bound - 1;
    if exists|k: int| 0 <= k < n && edit_of(#[trigger] ledger[k], run, path) {
        let k = choose|k: int| 0 <= k < n && edit_of(#[trigger] ledger[k], run, path);
        let best = lemma_some_latest(ledger, run, n, k);
        if edit_of(ledger[n], run, path) && later(ledger, n, best) {
            lemma_text_lt_irreflexive(ledger[n].observed_at);
            assert forall|j: int|
                0 <= j < bound && edit_of(#[trigger] ledger[j], run, path) implies !later(
                ledger,
                j,
                n,
            ) by {
                if j < n && text_lt(ledger[n].observed_at, ledger[j].observed_at) {
                    assert(!later(ledger, j, best));
                    lemma_text_lt_total(ledger[j].observed_at, ledger[best].observed_at);
                    lemma_text_lt_total(ledger[n].observed_at, ledger[best].observed_at);
                    if ledger[j].observed_at != ledger[best].observed_at {
                        lemma_text_lt_transitive(
                            ledger[n].observed_at,
                            ledger[j].observed_at,
                            ledger[best].observed_at,
                        );
                    }
                }
            }
            n
        } else {
            best
        }
    } else {
        lemma_text_lt_irreflexive(ledger[n].observed_at);
        n
    }
}

proof fn lemma_listed_paths(ledger: Seq<LedgerRowModel>, run: RunId)
    ensures
        paths_at(ledger, edit_order(ledger, run)).no_duplicates(),
        paths_at(ledger, edit_order(ledger, run)).to_set() == edited_paths(ledger, run),
{
    let marks = latest_edits(ledger, run);
    let order = edit_order(ledger, run);
    let paths = paths_at(ledger, order);
    lemma_edit_order(ledger, run);
    assert forall|i: int, j: int| 0 <= i < j < paths.len() implies paths[i] != paths[j] by {
        let x = order[i];
        let y = order[j];
        assert(marks[x] && marks[y]);
        if x == y {
            lemma_precedes_total(edit_keys(ledger), latest_first(), x, x);
        } else if ledger[x].path == ledger[y].path {
            assert(edit_of(ledger[x], run, ledger[y].path));
            assert(edit_of(ledger[y], run, ledger[x].path));
            assert(!later(ledger, x, y) && !later(ledger, y, x));
        }
    }
    assert forall|path: Seq<char>| edited_paths(ledger, run).contains(path) implies paths.contains(
        path,
    ) by {
        let i = choose|i: int| 0 <= i < ledger.len() && edit_of(#[trigger] ledger[i], run, path);
        let last = lemma_some_latest(ledger, run, ledger.len() as int, i);
        assert(marks[last]);
        let k = choose|k: int| 0 <= k < order.len() && order[k] == last;
        assert(paths[k] == path);
    }
    assert forall|path: Seq<char>| paths.contains(path) implies edited_paths(ledger, run).contains(
        path,
    ) by {
        let k = choose|k: int| 0 <= k < paths.len() && paths[k] == path;
        assert(marks[order[k]]);
        assert(edit_of(ledger[order[k]], run, path));
    }
    assert(paths.to_set() =~= edited_paths(ledger, run));
}

/// What is listed of a run is one entry for each path that was edited during it, however
/// often and with however many tools, as many as fit.
pub proof fn law_each_path_is_listed_once(s: StoreModel, run: RunId, limit: nat)
    ensures
        edited_paths(s.ledger, run).finite(),
        ledger_listing(s, run, limit) matches Ok(listed) ==> {
            &&& listed.len() == if edited_paths(s.ledger, run).len() <= limit {
                edited_paths(s.ledger, run).len()
            } else {
                limit
            }
            &&& forall|i: int|
                0 <= i < listed.len() ==> edited_paths(s.ledger, run).contains(
                    (#[trigger] listed[i]).path,
                )
            &&& forall|i: int, j: int|
                0 <= i < j < listed.len() ==> (#[trigger] listed[i]).path != (
                #[trigger] listed[j]).path
        },
{
    let order = edit_order(s.ledger, run);
    let paths = paths_at(s.ledger, order);
    lemma_listed_paths(s.ledger, run);
    paths.unique_seq_to_set();
    if let Ok(listed) = ledger_listing(s, run, limit) {
        let shown = at_most(order, limit);
        let readings = Seq::new(shown.len(), |i: int| listed_edit(s.ledger[shown[i]]));
        lemma_gathered_len(readings);
        assert forall|i: int| 0 <= i < listed.len() implies #[trigger] listed[i].path
            == paths[i] by {
            lemma_gathered_each(readings, i);
        }
        assert forall|i: int| 0 <= i < listed.len() implies edited_paths(s.ledger, run).contains(
            (#[trigger] listed[i]).path,
        ) by {
            assert(paths.contains(paths[i]));
        }
    }
}

/// A path is listed by its latest edit: the entry is one that was recorded for the run, and
/// no edit of that path during the run was observed later.
pub proof fn law_a_path_is_listed_by_its_latest_edit(
    s: StoreModel,
    run: RunId,
    limit: nat,
    i: int,
)
    requires
        ledger_listing(s, run, limit) matches Ok(listed) && 0 <= i < listed.len(),
    ensures
        ({
            let entry = ledger_listing(s, run, limit)->Ok_0[i];
            exists|k: int|
                {
                    &&& 0 <= k < s.ledger.len()
                    &&& #[trigger] latest_edit(s.ledger, run, k)
                    &&& listed_edit(s.ledger[k]) == Ok::<FileLedgerEntryModel, StoreErrorModel>(
                        entry,
                    )
                    &&& forall|j: int|
                        0 <= j < s.ledger.len() && edit_of(#[trigger] s.ledger[j], run, entry.path)
                            ==> !text_lt(s.ledger[k].observed_at, s.ledger[j].observed_at)
                }
        }),
{
    let order = edit_order(s.ledger, run);
    let shown = at_most(order, limit);
    let readings = Seq::new(shown.len(), |i: int| listed_edit(s.ledger[shown[i]]));
    lemma_edit_order(s.ledger, run);
    lemma_gathered_len(readings);
    lemma_gathered_each(readings, i);
    let k = shown[i];
    assert(k == order[i]);
    assert(latest_edits(s.ledger, run)[k]);
    assert(latest_edit(s.ledger, run, k));
    assert forall|j: int|
        0 <= j < s.ledger.len() && edit_of(
            #[trigger] s.ledger[j],
            run,
            s.ledger[k].path,
        ) implies !text_lt(s.ledger[k].observed_at, s.ledger[j].observed_at) by {
        assert(!later(s.ledger, j, k));
    }
}

/// The most recently edited path is listed first.
pub proof fn law_recent_edits_are_listed_first(
    ledger: Seq<LedgerRowModel>,
    run: RunId,
    i: int,
    j: int,
)
    requires
        0 <= i < j < edit_order(ledger, run).len(),
    ensures
        !text_lt(
            ledger[edit_order(ledger, run)[i]].observed_at,
            ledger[edit_order(ledger, run)[j]].observed_at,
        ),
{
    let keys = edit_keys(ledger);
    let order = edit_order(ledger, run);
    lemma_edit_order(ledger, run);
    assert(precedes(keys, latest_first(), order[i], order[j]));
    lemma_text_lt_total(ledger[order[i]].observed_at, ledger[order[j]].observed_at);
    lemma_text_lt_irreflexive(ledger[order[i]].observed_at);
}

/// Recording an edit keeps every edit that was recorded.
pub proof fn law_recording_an_edit_keeps_the_others(
    s: StoreModel,
    run: RunId,
    session: SessionId,
    entry: FileLedgerEntryModel,
)
    requires
        append_step(s, run, session, entry) is Ok,
    ensures
        ({
            let after = append_step(s, run, session, entry)->Ok_0;
            &&& after.ledger.len() == s.ledger.len() + 1
            &&& after.ledger.drop_last() == s.ledger
            &&& after.ledger.last().path == entry.path
            &&& after.ledger.last().run_id == run
        }),
{
    let after = append_step(s, run, session, entry)->Ok_0;
    assert(after.ledger.drop_last() =~= s.ledger);
}

// --- background work -------------------------------------------------------

/// A job is queued once: queueing the same work again changes nothing.
pub proof fn law_a_job_is_queued_once(
    s: StoreModel,
    kind: Seq<char>,
    key: Seq<char>,
    payload: Seq<char>,
    retries: i64,
    now: Seq<char>,
    other_payload: Seq<char>,
    other_retries: i64,
    later: Seq<char>,
)
    ensures
        ({
            let after = with_job(s, kind, key, payload, retries, now);
            with_job(after, kind, key, other_payload, other_retries, later) == after
        }),
{
    let after = with_job(s, kind, key, payload, retries, now);
    if !any_row(s.jobs, is_job(kind, key)) {
        assert(is_job(kind, key)(after.jobs[s.jobs.len() as int]));
    }
}

/// The job that is handed out may be run, and goes before every other that may.
pub proof fn law_the_oldest_job_is_handed_out(
    jobs: Seq<JobRowModel>,
    kind: Seq<char>,
    now: Seq<char>,
)
    ensures
        next_job(jobs, kind, now) matches Some(job) ==> runnable(job, kind, now) && exists|i: int|
            is_next(jobs, kind, now, i) && jobs[i] == job,
{
    if exists|i: int| is_next(jobs, kind, now, i) {
        let i = choose|i: int| is_next(jobs, kind, now, i);
        assert(is_next(jobs, kind, now, i));
    }
}

/// Whoever claims a job has it alone: until the lease has run out nobody else is handed it.
pub proof fn law_a_claimed_job_is_held(
    s: StoreModel,
    kind: Seq<char>,
    lease: Span,
    worker: Seq<char>,
    now: Moment,
    at: Seq<char>,
)
    requires
        claim_step(s, kind, lease, worker, now).0 matches Ok(Some(_)),
        !text_lt(now.plus(lease).written(), at),
    ensures
        ({
            let (answer, after) = claim_step(s, kind, lease, worker, now);
            let key = answer->Ok_0->0.job_key;
            next_job(after.jobs, kind, at) matches Some(other) ==> other.job_key != key
        }),
{
    let (answer, after) = claim_step(s, kind, lease, worker, now);
    let key = answer->Ok_0->0.job_key;
    law_the_oldest_job_is_handed_out(after.jobs, kind, at);
    if let Some(other) = next_job(after.jobs, kind, at) {
        let i = choose|i: int| is_next(after.jobs, kind, at, i) && after.jobs[i] == other;
        if other.job_key == key {
            assert(s.jobs[i].kind == kind && s.jobs[i].job_key == key);
        }
    }
}

/// A lease that has run out frees the job: work that was claimed by a process that died may be
/// run again.
pub proof fn law_a_lease_that_ran_out_frees_the_job(j: JobRowModel, at: Seq<char>)
    requires
        j.status == JobStatus::Running,
        j.lease_until matches Some(until) && text_lt(until, at),
        j.retry_at matches Some(due) ==> !text_lt(at, due),
    ensures
        runnable(j, j.kind, at),
{
}

/// Finished work, and work that was given up, is never handed out again.
pub proof fn law_finished_work_is_not_handed_out(j: JobRowModel, kind: Seq<char>, at: Seq<char>)
    requires
        j.status == JobStatus::Done || j.status == JobStatus::Failed,
    ensures
        !runnable(j, kind, at),
{
}

/// A failure costs one attempt: with attempts left the job waits for its turn, and is not
/// handed out before; with none it has failed for good. Either way it says why.
pub proof fn law_a_failure_costs_an_attempt(
    s: StoreModel,
    kind: Seq<char>,
    key: Seq<char>,
    error: Seq<char>,
    backoff: Span,
    now: Moment,
)
    requires
        first_row(s.jobs, is_job(kind, key)) is Some,
        backoff.addable(),
        now.reaches(backoff),
    ensures
        ({
            let before = first_row(s.jobs, is_job(kind, key))->0;
            let (answer, after) = fail_step(s, kind, key, error, backoff, now);
            let job = first_row(after.jobs, is_job(kind, key));
            &&& answer is Ok
            &&& job matches Some(j) && j.last_error == Some(error) && j.payload_json
                == before.payload_json && if before.retry_remaining > 1 {
                &&& j.status == JobStatus::Pending
                &&& j.retry_remaining == before.retry_remaining - 1
                &&& forall|at: Seq<char>|
                    #![trigger runnable(j, kind, at)]
                    text_lt(at, now.plus(backoff).written()) ==> !runnable(j, kind, at)
            } else {
                j.status == JobStatus::Failed && j.retry_remaining == 0
            }
        }),
{
    let p = is_job(kind, key);
    let after = fail_step(s, kind, key, error, backoff, now).1;
    lemma_first_is_first(s.jobs, p);
    let i = first_index(s.jobs, p)->0;
    assert(is_first(after.jobs, p, i));
    lemma_first(after.jobs, p, i);
}

} // verus!
