//! What holds of repositories and workspaces as a whole.

use vstd::prelude::*;

use crate::curation::every;
use crate::git::{key_of, RepositoryProbeModel};
use crate::grouping::{
    group_called, group_step, is_group, left_out, members_refusal, name_keys, needed, pruned,
    repository_in, role_step, run_of, with_group, with_member, with_members, workspace_sizes,
    ProbedRootModel,
};
use crate::ids::{RepositoryId, WorkspaceId};
use crate::keys::{repository_taken, workspace_taken};
use crate::order::{arranged, law_arranged_lists_the_selected, lemma_precedes_total};
use crate::plan::ascending;
use crate::repositories::{
    filed_by_path, is_repository, keyed, place_refusal, resolve_step, upsert_step,
};
use crate::rows::{
    any_row, first_index, first_row, is_first, lemma_filter_all, lemma_first, lemma_first_is_first,
    lemma_first_pushed, lemma_no_first, tally,
};
use crate::states::RepositoryRole;
use crate::tables::{filed_where_they_are, RepositoryRowModel, StoreModel};

verus! {

// --- one project, one identity ---------------------------------------------

/// Repositories with different identifiers, each.
pub open spec fn distinct(repositories: Seq<RepositoryRowModel>) -> bool {
    forall|i: int, j: int|
        0 <= i < j < repositories.len() ==> (#[trigger] repositories[i]).id != (
        #[trigger] repositories[j]).id
}

/// The key of a directory with an origin is no path.
pub proof fn lemma_origin_is_no_path(probe: RepositoryProbeModel)
    requires
        probe.origin_url is Some,
    ensures
        !"path:"@.is_prefix_of(key_of(probe)),
{
    reveal_strlit("git:");
    reveal_strlit("path:");
    assert(key_of(probe)[0] == 'g');
    assert("path:"@[0] == 'p');
}

proof fn lemma_recorded_is_found(
    s: StoreModel,
    probe: RepositoryProbeModel,
    workspace: WorkspaceId,
    repository: RepositoryId,
    now: Seq<char>,
)
    requires
        distinct(s.repositories),
    ensures
        ({
            let (resolved, after) = upsert_step(s, probe, workspace, repository, now);
            first_row(after.repositories, keyed(key_of(probe))) matches Some(row) && row.id
                == resolved.repository_id && row.workspace_id == resolved.workspace_id && row.role
                == resolved.role
        }),
{
    let p = keyed(key_of(probe));
    let (resolved, after) = upsert_step(s, probe, workspace, repository, now);
    lemma_first_is_first(s.repositories, p);
    if first_row(s.repositories, p) is None {
        let q = filed_by_path(probe.root);
        lemma_first_is_first(s.repositories, q);
        if probe.origin_url is Some && first_row(s.repositories, q) is Some {
            let row = first_row(s.repositories, q)->0;
            let k = first_index(s.repositories, q)->0;
            lemma_first_is_first(s.repositories, is_repository(row.id));
            assert(is_repository(row.id)(s.repositories[k]));
            let i = first_index(s.repositories, is_repository(row.id))->0;
            assert forall|j: int| 0 <= j < i implies !p(#[trigger] after.repositories[j]) by {
                assert(!p(s.repositories[j]));
                assert(!is_repository(row.id)(s.repositories[j]));
            }
            assert(is_first(after.repositories, p, i));
            lemma_first(after.repositories, p, i);
            assert(i == k);
        } else {
            lemma_first_pushed(s.repositories, p, after.repositories.last());
            assert(after.repositories =~= s.repositories.push(after.repositories.last()));
        }
    }
}

/// Where a probed directory is found after it was recorded: the first repository under its
/// key, with the identity it was given.
pub proof fn law_a_recorded_directory_is_found_again(
    s: StoreModel,
    probe: RepositoryProbeModel,
    workspace: WorkspaceId,
    repository: RepositoryId,
    now: Seq<char>,
)
    requires
        distinct(s.repositories),
        resolve_step(s, probe, workspace, repository, now).0 is Ok,
    ensures
        ({
            let (resolved, after) = resolve_step(s, probe, workspace, repository, now);
            first_row(after.repositories, keyed(key_of(probe))) matches Some(row) && row.id
                == resolved->Ok_0.repository_id && row.workspace_id == resolved->Ok_0.workspace_id
                && row.role == resolved->Ok_0.role
        }),
{
    lemma_recorded_is_found(s, probe, workspace, repository, now);
}

/// Recording a directory is refused just where it would take a new row under an identifier
/// that a row has, and then changes nothing.
pub proof fn law_a_taken_identifier_is_refused(
    s: StoreModel,
    probe: RepositoryProbeModel,
    workspace: WorkspaceId,
    repository: RepositoryId,
    now: Seq<char>,
)
    ensures
        ({
            let (resolved, after) = resolve_step(s, probe, workspace, repository, now);
            &&& resolved is Err <==> upsert_step(
                s,
                probe,
                workspace,
                repository,
                now,
            ).1.repositories.len() > s.repositories.len() && (workspace_taken(s, workspace)
                || repository_taken(s, repository))
            &&& resolved is Err ==> after == s
        }),
{
}

/// Two checkouts of one repository collapse into a single identity: a directory with the key
/// of one that was recorded resolves to the same repository and workspace, and adds nothing.
pub proof fn law_one_origin_is_one_repository(
    s: StoreModel,
    probe: RepositoryProbeModel,
    other: RepositoryProbeModel,
    workspace: WorkspaceId,
    repository: RepositoryId,
    now: Seq<char>,
    workspace_later: WorkspaceId,
    repository_later: RepositoryId,
    later: Seq<char>,
)
    requires
        distinct(s.repositories),
        key_of(other) == key_of(probe),
        resolve_step(s, probe, workspace, repository, now).0 is Ok,
    ensures
        ({
            let (first, after) = resolve_step(s, probe, workspace, repository, now);
            let (second, last) = resolve_step(
                after,
                other,
                workspace_later,
                repository_later,
                later,
            );
            &&& second is Ok
            &&& second->Ok_0.repository_id == first->Ok_0.repository_id
            &&& second->Ok_0.workspace_id == first->Ok_0.workspace_id
            &&& last == after
        }),
{
    law_a_recorded_directory_is_found_again(s, probe, workspace, repository, now);
}

/// A directory that was filed under its path, and turns out to have an origin, keeps its
/// repository: it is given the identity of its origin, and no second row splits its memory.
pub proof fn law_an_origin_found_later_adds_nothing(
    s: StoreModel,
    probe: RepositoryProbeModel,
    known: RepositoryProbeModel,
    workspace: WorkspaceId,
    repository: RepositoryId,
    now: Seq<char>,
    workspace_later: WorkspaceId,
    repository_later: RepositoryId,
    later: Seq<char>,
)
    requires
        distinct(s.repositories),
        filed_where_they_are(s.repositories),
        probe.origin_url is None,
        known.origin_url is Some,
        known.root == probe.root,
        first_row(s.repositories, keyed(key_of(known))) is None,
        resolve_step(s, probe, workspace, repository, now).0 is Ok,
    ensures
        ({
            let (first, after) = resolve_step(s, probe, workspace, repository, now);
            let (second, last) = resolve_step(
                after,
                known,
                workspace_later,
                repository_later,
                later,
            );
            &&& second is Ok
            &&& second->Ok_0.repository_id == first->Ok_0.repository_id
            &&& second->Ok_0.workspace_id == first->Ok_0.workspace_id
            &&& last.repositories.len() == after.repositories.len()
            &&& last.workspaces == after.workspaces
        }),
{
    let (first, after) = resolve_step(s, probe, workspace, repository, now);
    let p = keyed(key_of(probe));
    let q = keyed(key_of(known));
    let w = filed_by_path(probe.root);
    lemma_origin_is_no_path(known);
    assert("path:"@.is_prefix_of(key_of(probe))) by {
        assert(key_of(probe).subrange(0, "path:"@.len() as int) =~= "path:"@);
    }
    lemma_first_is_first(s.repositories, p);
    lemma_first_is_first(s.repositories, q);
    lemma_first_is_first(after.repositories, q);
    lemma_first_is_first(after.repositories, w);
    lemma_first_is_first(after.repositories, p);
    match first_index(s.repositories, p) {
        Some(i) => {
            // Known by its path: the row under that key is the one filed by path.
            assert(after == s);
            lemma_filed_key(s.repositories, probe, i);
        },
        None => {
            let n = s.repositories.len() as int;
            let row = after.repositories[n];
            assert(w(row));
            assert forall|j: int| 0 <= j < n implies !w(#[trigger] after.repositories[j]) by {
                assert(after.repositories[j] == s.repositories[j]);
                assert(!p(s.repositories[j]));
            }
            assert(is_first(after.repositories, w, n));
            lemma_first(after.repositories, w, n);
            assert forall|j: int| 0 <= j < after.repositories.len() implies !q(
                #[trigger] after.repositories[j],
            ) by {
                if j < n {
                    assert(after.repositories[j] == s.repositories[j]);
                    assert(!q(s.repositories[j]));
                }
            }
            lemma_no_first(after.repositories, q);
        },
    }
}

proof fn lemma_filed_key(
    repositories: Seq<RepositoryRowModel>,
    probe: RepositoryProbeModel,
    i: int,
)
    requires
        filed_where_they_are(repositories),
        probe.origin_url is None,
        is_first(repositories, keyed(key_of(probe)), i),
    ensures
        is_first(repositories, filed_by_path(probe.root), i),
        first_row(repositories, filed_by_path(probe.root)) == Some(repositories[i]),
{
    let w = filed_by_path(probe.root);
    let p = keyed(key_of(probe));
    let row = repositories[i];
    assert("path:"@.is_prefix_of(key_of(probe))) by {
        assert(key_of(probe).subrange(0, "path:"@.len() as int) =~= "path:"@);
    }
    assert(row.identity_key == "path:"@ + row.canonical_root);
    assert(row.canonical_root =~= probe.root) by {
        let n = "path:"@.len() as int;
        assert(row.identity_key.skip(n) =~= row.canonical_root);
        assert(key_of(probe).skip(n) =~= probe.root);
    }
    assert forall|j: int| 0 <= j < i implies !w(#[trigger] repositories[j]) by {
        assert(!p(repositories[j]));
    }
    assert(is_first(repositories, w, i));
    lemma_first(repositories, w, i);
}

/// Recording a directory keeps every repository that was there: its identifier, its
/// workspace, its place and its role.
pub proof fn law_recording_a_directory_moves_nothing(
    s: StoreModel,
    probe: RepositoryProbeModel,
    workspace: WorkspaceId,
    repository: RepositoryId,
    now: Seq<char>,
    i: int,
)
    requires
        0 <= i < s.repositories.len(),
    ensures
        ({
            let after = resolve_step(s, probe, workspace, repository, now).1;
            &&& after.repositories.len() >= s.repositories.len()
            &&& after.repositories[i].id == s.repositories[i].id
            &&& after.repositories[i].workspace_id == s.repositories[i].workspace_id
            &&& after.repositories[i].canonical_root == s.repositories[i].canonical_root
            &&& after.repositories[i].role == s.repositories[i].role
        }),
{
}

/// A role sticks: the repository is resolved with the role it was given, and every other
/// keeps its own.
pub proof fn law_a_role_sticks(
    s: StoreModel,
    probe: RepositoryProbeModel,
    role: RepositoryRole,
    workspace: WorkspaceId,
    repository: RepositoryId,
    now: Seq<char>,
    workspace_later: WorkspaceId,
    repository_later: RepositoryId,
    later: Seq<char>,
)
    requires
        distinct(s.repositories),
        role_step(s, probe, role, workspace, repository, now).0 is Ok,
    ensures
        ({
            let after = role_step(s, probe, role, workspace, repository, now).1;
            let (resolved, last) = resolve_step(
                after,
                probe,
                workspace_later,
                repository_later,
                later,
            );
            &&& resolved is Ok
            &&& resolved->Ok_0.role == role
            &&& last == after
            &&& forall|i: int|
                0 <= i < s.repositories.len() && (#[trigger] s.repositories[i]).id
                    != resolved->Ok_0.repository_id ==> after.repositories[i].role
                    == s.repositories[i].role
        }),
{
    let (resolved, t) = upsert_step(s, probe, workspace, repository, now);
    let after = role_step(s, probe, role, workspace, repository, now).1;
    let p = keyed(key_of(probe));
    lemma_recorded_is_found(s, probe, workspace, repository, now);
    lemma_first_is_first(t.repositories, p);
    let i = first_index(t.repositories, p)->0;
    assert(is_first(after.repositories, p, i));
    lemma_first(after.repositories, p, i);
}

// --- gathering -------------------------------------------------------------

/// A probed directory that resolves to a repository in a workspace.
pub open spec fn seated(
    repositories: Seq<RepositoryRowModel>,
    probe: RepositoryProbeModel,
    workspace: WorkspaceId,
) -> bool {
    first_row(repositories, keyed(key_of(probe))) matches Some(row) && row.workspace_id
        == workspace
}

/// What a table of repositories keeps to: each has its own identifier, and those filed under
/// a path are filed under their own.
pub open spec fn orderly(repositories: Seq<RepositoryRowModel>) -> bool {
    distinct(repositories) && filed_where_they_are(repositories)
}

proof fn lemma_upsert_keeps_order(
    s: StoreModel,
    probe: RepositoryProbeModel,
    workspace: WorkspaceId,
    repository: RepositoryId,
    now: Seq<char>,
)
    requires
        orderly(s.repositories),
        place_refusal(s, probe, workspace, repository) is None,
    ensures
        orderly(upsert_step(s, probe, workspace, repository, now).1.repositories),
{
    let after = upsert_step(s, probe, workspace, repository, now).1;
    let p = keyed(key_of(probe));
    if first_row(s.repositories, p) is None {
        if probe.origin_url is Some {
            lemma_origin_is_no_path(probe);
        }
        assert forall|i: int, j: int| 0 <= i < j < after.repositories.len() implies (
        #[trigger] after.repositories[i]).id != (#[trigger] after.repositories[j]).id by {
            if j < s.repositories.len() {
                assert(s.repositories[i].id != s.repositories[j].id);
            } else {
                assert(s.repositories[i].id != repository);
            }
        }
        assert forall|i: int|
            0 <= i < after.repositories.len() && "path:"@.is_prefix_of(
                (#[trigger] after.repositories[i]).identity_key,
            ) implies after.repositories[i].identity_key == "path:"@
            + after.repositories[i].canonical_root by {
            if i < s.repositories.len() {
                assert(s.repositories[i].canonical_root == after.repositories[i].canonical_root);
            }
        }
    }
}

proof fn lemma_member_keeps_order(
    s: StoreModel,
    probe: RepositoryProbeModel,
    workspace: WorkspaceId,
    ids: (WorkspaceId, RepositoryId),
    now: Seq<char>,
)
    requires
        orderly(s.repositories),
        place_refusal(s, probe, ids.0, ids.1) is None,
    ensures
        orderly(with_member(s, probe, workspace, ids, now).repositories),
        seated(with_member(s, probe, workspace, ids, now).repositories, probe, workspace),
{
    let (resolved, t) = upsert_step(s, probe, ids.0, ids.1, now);
    let after = with_member(s, probe, workspace, ids, now);
    lemma_upsert_keeps_order(s, probe, ids.0, ids.1, now);
    lemma_recorded_is_found(s, probe, ids.0, ids.1, now);
    let p = keyed(key_of(probe));
    lemma_first_is_first(t.repositories, p);
    let i = first_index(t.repositories, p)->0;
    assert(is_first(after.repositories, p, i));
    lemma_first(after.repositories, p, i);
    assert forall|a: int, b: int| 0 <= a < b < after.repositories.len() implies (
    #[trigger] after.repositories[a]).id != (#[trigger] after.repositories[b]).id by {
        assert(t.repositories[a].id != t.repositories[b].id);
    }
    assert forall|a: int|
        0 <= a < after.repositories.len() && "path:"@.is_prefix_of(
            (#[trigger] after.repositories[a]).identity_key,
        ) implies after.repositories[a].identity_key == "path:"@
        + after.repositories[a].canonical_root by {
        assert(t.repositories[a].identity_key == after.repositories[a].identity_key);
    }
}

/// Not standing for one directory seen once without its origin and once with it.
pub open spec fn agree(one: RepositoryProbeModel, other: RepositoryProbeModel) -> bool {
    one.origin_url is None && other.origin_url is Some ==> one.root != other.root
}

proof fn lemma_member_keeps_seats(
    s: StoreModel,
    one: RepositoryProbeModel,
    probe: RepositoryProbeModel,
    workspace: WorkspaceId,
    ids: (WorkspaceId, RepositoryId),
    now: Seq<char>,
)
    requires
        orderly(s.repositories),
        place_refusal(s, probe, ids.0, ids.1) is None,
        seated(s.repositories, one, workspace),
        agree(one, probe),
    ensures
        seated(with_member(s, probe, workspace, ids, now).repositories, one, workspace),
{
    let (resolved, t) = upsert_step(s, probe, ids.0, ids.1, now);
    let after = with_member(s, probe, workspace, ids, now);
    let p = keyed(key_of(one));
    lemma_first_is_first(s.repositories, p);
    let i = first_index(s.repositories, p)->0;
    let row = s.repositories[i];
    if key_of(one) == key_of(probe) {
        lemma_member_keeps_order(s, probe, workspace, ids, now);
    } else {
        let q = keyed(key_of(probe));
        let w = filed_by_path(probe.root);
        lemma_first_is_first(s.repositories, q);
        lemma_first_is_first(s.repositories, w);
        if one.origin_url is Some {
            lemma_origin_is_no_path(one);
        }
        // Where the other directory takes over a row that was filed under its path, that is
        // not the row at hand.
        if first_row(s.repositories, q) is None && probe.origin_url is Some && first_row(
            s.repositories,
            w,
        ) is Some {
            let k = first_index(s.repositories, w)->0;
            if k == i {
                assert("path:"@.is_prefix_of(key_of(one)));
                let n = "path:"@.len() as int;
                assert(row.identity_key.skip(n) =~= row.canonical_root);
                assert(key_of(one).skip(n) =~= one.root);
            }
            assert(s.repositories[k].id != row.id);
        }
        assert(t.repositories[i] == row);
        assert forall|j: int| 0 <= j < i implies !p(#[trigger] t.repositories[j]) by {
            assert(!p(s.repositories[j]));
        }
        assert(is_first(t.repositories, p, i));
        assert(is_first(after.repositories, p, i));
        lemma_first(after.repositories, p, i);
    }
}

/// Directories none of which is listed both with and without its origin.
pub open spec fn all_agree(roots: Seq<ProbedRootModel>) -> bool {
    forall|i: int, j: int|
        0 <= i < roots.len() && 0 <= j < roots.len() && (#[trigger] roots[i]).probe is Some && (
        #[trigger] roots[j]).probe is Some ==> agree(roots[i].probe->0, roots[j].probe->0)
}

proof fn lemma_members_are_orderly(
    s: StoreModel,
    roots: Seq<ProbedRootModel>,
    workspace: WorkspaceId,
    ids: Seq<(WorkspaceId, RepositoryId)>,
    now: Seq<char>,
    count: int,
)
    requires
        0 <= count <= roots.len(),
        orderly(s.repositories),
        members_refusal(s, roots, workspace, ids, now, count) is None,
        all_agree(roots),
    ensures
        ({
            let t = with_members(s, roots, workspace, ids, now, count);
            &&& orderly(t.repositories)
            &&& forall|i: int|
                0 <= i < count && (#[trigger] roots[i]).probe is Some ==> seated(
                    t.repositories,
                    roots[i].probe->0,
                    workspace,
                )
            &&& t.runs == s.runs
        }),
    decreases count,
{
    if count > 0 {
        lemma_members_are_orderly(s, roots, workspace, ids, now, count - 1);
        let t = with_members(s, roots, workspace, ids, now, count - 1);
        let u = with_members(s, roots, workspace, ids, now, count);
        if let Some(probe) = roots[count - 1].probe {
            lemma_member_keeps_order(t, probe, workspace, ids[count - 1], now);
            assert forall|i: int| 0 <= i < count && (#[trigger] roots[i]).probe is Some implies seated(
                u.repositories,
                roots[i].probe->0,
                workspace,
            ) by {
                if i < count - 1 {
                    assert(agree(roots[i].probe->0, roots[count - 1].probe->0));
                    lemma_member_keeps_seats(
                        t,
                        roots[i].probe->0,
                        probe,
                        workspace,
                        ids[count - 1],
                        now,
                    );
                }
            }
        }
    }
}

/// Directories that were gathered into a workspace resolve to it, each: nothing that was
/// listed stays in a workspace of its own.
pub proof fn law_gathered_directories_share_a_workspace(
    s: StoreModel,
    name: Seq<char>,
    roots: Seq<ProbedRootModel>,
    workspace: WorkspaceId,
    ids: Seq<(WorkspaceId, RepositoryId)>,
    now: Seq<char>,
    i: int,
)
    requires
        s.well_formed(),
        group_step(s, name, roots, workspace, ids, now).0 is Ok,
        all_agree(roots),
        0 <= i < roots.len(),
        roots[i].probe is Some,
    ensures
        ({
            let (grouping, after) = group_step(s, name, roots, workspace, ids, now);
            seated(after.repositories, roots[i].probe->0, grouping->Ok_0.workspace_id)
        }),
{
    let (group, t) = with_group(s, name, workspace, now);
    lemma_members_are_orderly(t, roots, group, ids, now, roots.len() as int);
}

// --- gathering again -------------------------------------------------------

proof fn lemma_filter_keeps_first<A>(
    rows: Seq<A>,
    p: spec_fn(A) -> bool,
    q: spec_fn(A) -> bool,
)
    requires
        first_row(rows, p) matches Some(row) ==> q(row),
    ensures
        first_row(rows, p) is Some ==> first_row(rows.filter(q), p) == first_row(rows, p),
    decreases rows.len(),
{
    reveal(Seq::filter);
    lemma_first_is_first(rows, p);
    if rows.len() > 0 && first_row(rows, p) is Some {
        let front = rows.drop_last();
        let last = rows.last();
        assert(front.push(last) =~= rows);
        lemma_first_is_first(front, p);
        lemma_first_pushed(front, p, last);
        front.lemma_filter_push(last, q);
        if first_row(front, p) is Some {
            lemma_filter_keeps_first(front, p, q);
            lemma_first_is_first(front.filter(q), p);
            lemma_first_pushed(front.filter(q), p, last);
        } else {
            let kept = front.filter(q);
            assert forall|i: int| 0 <= i < kept.len() implies !p(#[trigger] kept[i]) by {
                front.lemma_filter_contains_rev(q, kept[i]);
                let j = choose|j: int| 0 <= j < front.len() && front[j] == kept[i];
                assert(!p(front[j]));
            }
            lemma_no_first(kept, p);
            lemma_first_pushed(kept, p, last);
        }
    }
}

proof fn lemma_members_keep_the_group(
    s: StoreModel,
    name: Seq<char>,
    roots: Seq<ProbedRootModel>,
    workspace: WorkspaceId,
    ids: Seq<(WorkspaceId, RepositoryId)>,
    now: Seq<char>,
    count: int,
)
    requires
        0 <= count <= roots.len(),
        first_row(s.workspaces, is_group(name)) is Some,
    ensures
        first_row(
            with_members(s, roots, workspace, ids, now, count).workspaces,
            is_group(name),
        ) == first_row(s.workspaces, is_group(name)),
    decreases count,
{
    if count > 0 {
        lemma_members_keep_the_group(s, name, roots, workspace, ids, now, count - 1);
        let t = with_members(s, roots, workspace, ids, now, count - 1);
        let u = with_members(s, roots, workspace, ids, now, count);
        let p = is_group(name);
        lemma_first_is_first(t.workspaces, p);
        if u.workspaces.len() > t.workspaces.len() {
            assert(u.workspaces =~= t.workspaces.push(u.workspaces.last()));
            lemma_first_pushed(t.workspaces, p, u.workspaces.last());
        } else {
            assert(u.workspaces =~= t.workspaces);
        }
    }
}

/// A group is found by its name: gathering under a name that was used extends the same
/// workspace, rather than making a second one of the same name.
pub proof fn law_a_group_is_found_by_its_name(
    s: StoreModel,
    name: Seq<char>,
    roots: Seq<ProbedRootModel>,
    workspace: WorkspaceId,
    ids: Seq<(WorkspaceId, RepositoryId)>,
    now: Seq<char>,
)
    requires
        group_step(s, name, roots, workspace, ids, now).0 is Ok,
    ensures
        ({
            let (grouping, after) = group_step(s, name, roots, workspace, ids, now);
            group_called(after, name) == Some(grouping->Ok_0.workspace_id)
        }),
{
    let (group, t) = with_group(s, name, workspace, now);
    let p = is_group(name);
    lemma_first_is_first(s.workspaces, p);
    if group_called(s, name) is None {
        lemma_first_pushed(s.workspaces, p, t.workspaces.last());
        assert(t.workspaces =~= s.workspaces.push(t.workspaces.last()));
    }
    lemma_members_keep_the_group(t, name, roots, group, ids, now, roots.len() as int);
    let u = with_members(t, roots, group, ids, now, roots.len() as int);
    lemma_filter_keeps_first(u.workspaces, p, needed(u, group));
}

proof fn lemma_seated_member_changes_nothing(
    s: StoreModel,
    probe: RepositoryProbeModel,
    workspace: WorkspaceId,
    ids: (WorkspaceId, RepositoryId),
    now: Seq<char>,
)
    requires
        distinct(s.repositories),
        seated(s.repositories, probe, workspace),
    ensures
        with_member(s, probe, workspace, ids, now) == s,
{
    let p = keyed(key_of(probe));
    lemma_first_is_first(s.repositories, p);
    let i = first_index(s.repositories, p)->0;
    let after = with_member(s, probe, workspace, ids, now);
    assert forall|j: int| 0 <= j < s.repositories.len() implies after.repositories[j]
        == #[trigger] s.repositories[j] by {
        if s.repositories[j].id == s.repositories[i].id {
            assert(j == i);
        }
    }
    assert(after.repositories =~= s.repositories);
}

proof fn lemma_seated_members_change_nothing(
    s: StoreModel,
    roots: Seq<ProbedRootModel>,
    workspace: WorkspaceId,
    ids: Seq<(WorkspaceId, RepositoryId)>,
    now: Seq<char>,
    count: int,
)
    requires
        0 <= count <= roots.len(),
        distinct(s.repositories),
        forall|i: int|
            0 <= i < roots.len() && (#[trigger] roots[i]).probe is Some ==> seated(
                s.repositories,
                roots[i].probe->0,
                workspace,
            ),
    ensures
        with_members(s, roots, workspace, ids, now, count) == s,
        members_refusal(s, roots, workspace, ids, now, count) is None,
    decreases count,
{
    if count > 0 {
        lemma_seated_members_change_nothing(s, roots, workspace, ids, now, count - 1);
        if let Some(probe) = roots[count - 1].probe {
            assert(seated(s.repositories, roots[count - 1].probe->0, workspace));
            lemma_seated_member_changes_nothing(s, probe, workspace, ids[count - 1], now);
        }
    }
}

/// Gathering the same directories again converges: the answer is the same, and nothing
/// changes. A directory has an origin or it has none, so that what is probed at one time never
/// lists one both ways.
pub proof fn law_gathering_again_changes_nothing(
    s: StoreModel,
    name: Seq<char>,
    roots: Seq<ProbedRootModel>,
    workspace: WorkspaceId,
    ids: Seq<(WorkspaceId, RepositoryId)>,
    now: Seq<char>,
    workspace_later: WorkspaceId,
    ids_later: Seq<(WorkspaceId, RepositoryId)>,
    later: Seq<char>,
)
    requires
        s.well_formed(),
        group_step(s, name, roots, workspace, ids, now).0 is Ok,
        all_agree(roots),
    ensures
        ({
            let first = group_step(s, name, roots, workspace, ids, now);
            group_step(first.1, name, roots, workspace_later, ids_later, later) == first
        }),
{
    let (grouping, after) = group_step(s, name, roots, workspace, ids, now);
    let (group, t) = with_group(s, name, workspace, now);
    let n = roots.len() as int;
    let u = with_members(t, roots, group, ids, now, n);
    lemma_members_are_orderly(t, roots, group, ids, now, n);
    law_a_group_is_found_by_its_name(s, name, roots, workspace, ids, now);
    lemma_seated_members_change_nothing(after, roots, group, ids_later, later, n);
    let q = needed(u, group);
    let r = needed(after, group);
    let kept = u.workspaces.filter(q);
    assert forall|i: int| 0 <= i < kept.len() implies r(#[trigger] kept[i]) by {
        u.workspaces.lemma_filter_pred(q, i);
    }
    lemma_filter_all(kept, r);
}

/// Gathering further directories under a name extends the same workspace.
pub proof fn law_gathering_more_extends_the_group(
    s: StoreModel,
    name: Seq<char>,
    roots: Seq<ProbedRootModel>,
    workspace: WorkspaceId,
    ids: Seq<(WorkspaceId, RepositoryId)>,
    now: Seq<char>,
    more: Seq<ProbedRootModel>,
    workspace_later: WorkspaceId,
    ids_later: Seq<(WorkspaceId, RepositoryId)>,
    later: Seq<char>,
)
    requires
        group_step(s, name, roots, workspace, ids, now).0 is Ok,
    ensures
        ({
            let (grouping, after) = group_step(s, name, roots, workspace, ids, now);
            group_step(after, name, more, workspace_later, ids_later, later).0 matches Ok(extended)
                ==> extended.workspace_id == grouping->Ok_0.workspace_id
        }),
{
    law_a_group_is_found_by_its_name(s, name, roots, workspace, ids, now);
}

/// What is left out of a group is exactly the paths that are not directories.
pub proof fn law_just_the_missing_paths_are_left_out(roots: Seq<ProbedRootModel>, path: Seq<char>)
    ensures
        left_out(roots).contains((path, "not a directory"@)) <==> exists|i: int|
            0 <= i < roots.len() && (#[trigger] roots[i]).path == path && roots[i].probe is None,
        forall|k: int|
            0 <= k < left_out(roots).len() ==> (#[trigger] left_out(roots)[k]).1
                == "not a directory"@,
    decreases roots.len(),
{
    if roots.len() > 0 {
        let front = roots.drop_last();
        let n = roots.len() - 1;
        let before = left_out(front);
        let all = left_out(roots);
        let entry = (path, "not a directory"@);
        law_just_the_missing_paths_are_left_out(front, path);
        if all.contains(entry) {
            let k = choose|k: int| 0 <= k < all.len() && all[k] == entry;
            if k < before.len() {
                assert(before[k] == entry);
                assert(before.contains(entry));
                let i = choose|i: int|
                    0 <= i < front.len() && (#[trigger] front[i]).path == path
                        && front[i].probe is None;
                assert(roots[i] == front[i]);
            } else {
                assert(roots[n].path == path);
            }
        }
        if exists|i: int|
            0 <= i < roots.len() && (#[trigger] roots[i]).path == path && roots[i].probe is None {
            let i = choose|i: int|
                0 <= i < roots.len() && (#[trigger] roots[i]).path == path
                    && roots[i].probe is None;
            if i < n {
                assert(front[i] == roots[i]);
                assert(before.contains(entry));
                let k = choose|k: int| 0 <= k < before.len() && before[k] == entry;
                assert(all[k] == entry);
            } else {
                assert(all[before.len() as int] == entry);
            }
        }
    }
}

/// Every workspace is listed once, as many as are counted.
pub proof fn law_every_workspace_is_listed(s: StoreModel, i: int)
    requires
        0 <= i < s.workspaces.len(),
    ensures
        workspace_sizes(s).len() == s.workspaces.len(),
        workspace_sizes(s).contains(
            (
                s.workspaces[i].name,
                tally(s.repositories, repository_in(s.workspaces[i].id)) as usize,
            ),
        ),
{
    let keys = name_keys(s.workspaces);
    let n = s.workspaces.len() as int;
    let marks = every(s.workspaces.len());
    let rows = arranged(keys, marks, ascending());
    law_arranged_lists_the_selected(keys, marks, ascending());
    assert forall|i: int, j: int| 0 <= i < j < rows.len() implies rows[i] != rows[j] by {
        if rows[i] == rows[j] {
            lemma_precedes_total(keys, ascending(), rows[i], rows[j]);
        }
    }
    rows.unique_seq_to_set();
    vstd::set_lib::lemma_int_range(0, n);
    assert(rows.to_set() =~= vstd::set_lib::set_int_range(0, n)) by {
        assert forall|i: int| 0 <= i < n implies rows.contains(i) by {
            assert(marks[i]);
        }
    }
    assert(marks[i]);
    let k = choose|k: int| 0 <= k < rows.len() && rows[k] == i;
    assert(workspace_sizes(s)[k].0 == s.workspaces[i].name);
}

/// A path that is not there is reported and not registered: it adds nothing.
pub proof fn law_a_missing_path_is_not_registered(
    s: StoreModel,
    roots: Seq<ProbedRootModel>,
    workspace: WorkspaceId,
    ids: Seq<(WorkspaceId, RepositoryId)>,
    now: Seq<char>,
    count: int,
)
    requires
        0 < count <= roots.len(),
        roots[count - 1].probe is None,
    ensures
        with_members(s, roots, workspace, ids, now, count) == with_members(
            s,
            roots,
            workspace,
            ids,
            now,
            count - 1,
        ),
        left_out(roots.take(count)).contains((roots[count - 1].path, "not a directory"@)),
{
    let all = roots.take(count);
    assert(all.last() == roots[count - 1]);
    let before = left_out(all.drop_last());
    assert(left_out(all)[before.len() as int] == (roots[count - 1].path, "not a directory"@));
}

/// Gathering removes no workspace that a repository or a run is in.
pub proof fn law_a_workspace_in_use_is_kept(s: StoreModel, workspace: WorkspaceId, i: int)
    requires
        0 <= i < s.workspaces.len(),
        any_row(s.repositories, repository_in(s.workspaces[i].id)) || any_row(
            s.runs,
            run_of(s.workspaces[i].id),
        ),
    ensures
        pruned(s, workspace).workspaces.contains(s.workspaces[i]),
{
    s.workspaces.lemma_filter_contains(needed(s, workspace), i);
}

} // verus!
