//! What holds of directories, the repositories they are checkouts of, and the workspaces these
//! are gathered in.

use vstd::prelude::*;

use crate::domain::GitStateModel;
use crate::error::StoreErrorModel;
use crate::facts::candidate_names;
use crate::git::{
    after_scheme, key_of, lemma_no_trim, lemma_plain_address, normalized, plain_host, plain_path,
    reported, RepositoryProbeModel,
};
use crate::grouping::{
    group_step, is_group, left_out, needed, promotable, promote_step, pruned, repository_in,
    role_step, run_of, with_group, with_member, with_members, workspace_sizes, ProbedRootModel,
};
use crate::ids::{RepositoryId, WorkspaceId};
use crate::order::{
    arranged, law_arranged_lists_the_selected, lemma_text_lt_irreflexive, lemma_text_lt_total,
    precedes, text_lt,
};
use crate::paths::{meaning, name_of, parent_name_of, steps};
use crate::plan::ascending;
use crate::repositories::{
    filed_by_path, keyed, resolve_step, upsert_step, workspace_name, WorkspaceResolutionModel,
};
use crate::rows::{any_row, is_first, lemma_first, lemma_no_first, tally};
use crate::setup::{
    called, group_of, is_workspace, organisation, organisation_behind, origin_given, proposed,
    root_keys, seated_at, sharing, sharing_marks, SiblingModel,
};
use crate::states::{FactScope, RepositoryRole};
use crate::tables::{
    FactRowModel, RepositoryRowModel, StoreModel, WorkspaceRowModel,
};
use crate::text::{
    after_last, cut_at, first_at, lemma_cut_at, lowered, marks_of, pieces, trimmed, white,
    without_back,
};
use crate::text_laws::{
    blank, law_a_blank_text_is_empty, law_a_cut_parts_a_text, law_an_uncut_text_is_one_piece,
};

verus! {

// --- names in a path -------------------------------------------------------

/// One name more at the end of a path is one step more; nothing more, and a dot, are none.
pub proof fn law_a_name_is_a_step(path: Seq<char>, name: Seq<char>)
    requires
        !name.contains('/'),
    ensures
        name.len() > 0 && name != "."@ ==> steps(path.push('/') + name) == steps(path).push(name),
        name.len() == 0 || name == "."@ ==> steps(path.push('/') + name) == steps(path),
{
    let whole = path.push('/') + name;
    let marks = marks_of(whole, '/');
    let n = path.len() as int;
    assert(marks[n]);
    law_a_cut_parts_a_text(path, '/', name, marks);
    assert(marks.take(n) =~= marks_of(path, '/'));
    assert forall|i: int| 0 <= i < name.len() implies !#[trigger] marks.skip(n + 1)[i] by {
        assert(whole[n + 1 + i] == name[i]);
        assert(name.contains(name[i]));
    }
    law_an_uncut_text_is_one_piece(name, marks.skip(n + 1));
    let before = pieces(path, marks_of(path, '/'));
    assert(pieces(whole, marks) =~= before.push(name));
    before.lemma_filter_push(name, meaning());
}

/// What a path leads to is called by its last name, and what holds it by the name before; a
/// slash at the end says nothing, and a path that ends in two dots leads to nothing that has a
/// name.
pub proof fn law_a_path_ends_in_its_name(front: Seq<char>, parent: Seq<char>, name: Seq<char>)
    requires
        !parent.contains('/') && parent.len() > 0 && parent != "."@ && parent != ".."@,
        !name.contains('/') && name.len() > 0 && name != "."@ && name != ".."@,
    ensures
        ({
            let path = (front.push('/') + parent).push('/') + name;
            &&& name_of(path) == Some(name)
            &&& parent_name_of(path) == Some(parent)
            &&& name_of(path.push('/')) == Some(name)
            &&& parent_name_of(path.push('/')) == Some(parent)
            &&& name_of(path.push('/') + ".."@) is None
        }),
{
    reveal_strlit("..");
    reveal_strlit(".");
    let held = front.push('/') + parent;
    let path = held.push('/') + name;
    let none = Seq::<char>::empty();
    law_a_name_is_a_step(front, parent);
    law_a_name_is_a_step(held, name);
    law_a_name_is_a_step(path, none);
    assert(path.push('/') + none =~= path.push('/'));
    assert(steps(path).drop_last() =~= steps(held));
    assert(!".."@.contains('/')) by {
        assert(".."@[0] != '/' && ".."@[1] != '/');
    }
    assert(".."@ != "."@) by {
        assert(".."@.len() != "."@.len());
    }
    law_a_name_is_a_step(path, ".."@);
}

// --- origins ---------------------------------------------------------------

/// A way of writing where a repository is served.
pub open spec fn is_scheme(s: Seq<char>) -> bool {
    ||| s == "https://"@
    ||| s == "http://"@
    ||| s == "ssh://"@
    ||| s == "git://"@
    ||| s == "file://"@
}

proof fn lemma_scheme(scheme: Seq<char>, rest: Seq<char>)
    requires
        is_scheme(scheme),
    ensures
        after_scheme(scheme + rest) == Some(rest),
        scheme.len() > 0,
        !white(scheme[0]),
{
    reveal_strlit("https://");
    reveal_strlit("http://");
    reveal_strlit("ssh://");
    reveal_strlit("git://");
    reveal_strlit("file://");
    let s = scheme + rest;
    let n = scheme.len() as int;
    assert(s.subrange(0, n) =~= scheme);
    assert(s.skip(n) =~= rest);
    assert(scheme.is_prefix_of(s));
    assert(s[0] == scheme[0] && s[4] == scheme[4]);
    if scheme != "https://"@ {
        assert(!"https://"@.is_prefix_of(s)) by {
            assert("https://"@[0] == 'h' && "https://"@[4] == 's');
        }
    }
    if scheme != "http://"@ && scheme != "https://"@ {
        assert(!"http://"@.is_prefix_of(s)) by {
            assert("http://"@[0] == 'h');
        }
        if scheme != "ssh://"@ {
            assert(!"ssh://"@.is_prefix_of(s)) by {
                assert("ssh://"@[0] == 's');
            }
            if scheme != "git://"@ {
                assert(!"git://"@.is_prefix_of(s)) by {
                    assert("git://"@[0] == 'g');
                }
            }
        }
    }
}

/// A repository is known by its host, in lower case, and its path as it is written, however it
/// is served, and whether the path says that it is a bare repository or not.
pub proof fn law_an_origin_is_its_host_and_path(
    scheme: Seq<char>,
    host: Seq<char>,
    path: Seq<char>,
)
    requires
        is_scheme(scheme),
        plain_host(host),
        plain_path(path),
        !".git"@.is_suffix_of(path),
    ensures
        normalized(scheme + host + "/"@ + path) == lowered(host) + "/"@ + path,
        normalized(scheme + host + "/"@ + path + ".git"@) == lowered(host) + "/"@ + path,
        normalized(scheme + host + "/"@ + path + "/"@) == lowered(host) + "/"@ + path,
{
    reveal_strlit("/");
    reveal_strlit(".git");
    let plain = host + "/"@ + path;
    let bare = path + ".git"@;
    let s = scheme + host + "/"@ + path;
    let t = s + ".git"@;
    assert(s =~= scheme + plain);
    assert(t =~= scheme + (host + "/"@ + bare));
    lemma_scheme(scheme, plain);
    lemma_scheme(scheme, host + "/"@ + bare);
    assert(s[0] == scheme[0] && s.last() == path.last());
    assert(t[0] == scheme[0] && t.last() == 't');
    lemma_no_trim(s);
    lemma_no_trim(t);
    assert(bare[0] == path[0]);
    lemma_plain_address(host, path);
    lemma_plain_address(host, bare);
    assert(".git"@.is_suffix_of(bare)) by {
        assert(bare.subrange(bare.len() - 4, bare.len() as int) =~= ".git"@);
    }
    assert(bare.take(bare.len() - 4) =~= path);
    let u = s + "/"@;
    assert(u[0] == scheme[0] && u.last() == '/');
    assert(u.drop_last() =~= s);
    assert(trimmed(u) == u);
    assert(without_back(u, '/') == without_back(s, '/'));
    assert(trimmed(s) == s);
    assert(u == s + "/"@);
}

/// A directory without an origin is known by where it is, and one with an origin by that alone.
pub proof fn law_a_directory_is_known_by_its_origin(probe: RepositoryProbeModel)
    ensures
        probe.origin_url matches Some(origin) ==> key_of(probe) == "git:"@ + normalized(origin),
        probe.origin_url is None ==> key_of(probe) == "path:"@ + probe.root,
{
}

// --- the state of a checkout -----------------------------------------------

proof fn lemma_header(front: Seq<char>, value: Seq<char>)
    ensures
        front.is_prefix_of(front + value),
        (front + value).skip(front.len() as int) == value,
{
    let s = front + value;
    assert(s.subrange(0, front.len() as int) =~= front);
    assert(s.skip(front.len() as int) =~= value);
}

/// A report tells the commit and the branch of a checkout by the headers that name them, the
/// last of each, and counts every other line that says something; a checkout with no commit yet
/// has none, and one on no branch has none.
pub proof fn law_a_report_is_read_line_by_line(
    report: Seq<Seq<char>>,
    value: Seq<char>,
    line: Seq<char>,
)
    requires
        reported(report).dirty_files < u32::MAX,
    ensures
        ({
            let before = reported(report);
            &&& reported(Seq::empty()) == (GitStateModel {
                branch: None,
                sha: None,
                dirty_files: 0,
            })
            &&& value != "(initial)"@ ==> reported(report.push("# "@ + ("branch.oid "@ + value)))
                == (GitStateModel { sha: Some(value), ..before })
            &&& reported(report.push("# "@ + ("branch.oid "@ + "(initial)"@))) == (GitStateModel {
                sha: None,
                ..before
            })
            &&& value != "(detached)"@ ==> reported(
                report.push("# "@ + ("branch.head "@ + value)),
            ) == (GitStateModel { branch: Some(value), ..before })
            &&& reported(report.push("# "@ + ("branch.head "@ + "(detached)"@))) == (
            GitStateModel { branch: None, ..before })
            &&& !"# "@.is_prefix_of(line) && !blank(line) ==> reported(report.push(line)) == (
            GitStateModel { dirty_files: (before.dirty_files + 1) as u32, ..before })
            &&& blank(line) && !"# "@.is_prefix_of(line) ==> reported(report.push(line)) == before
            &&& !"branch.oid "@.is_prefix_of(value) && !"branch.head "@.is_prefix_of(value)
                ==> reported(report.push("# "@ + value)) == before
        }),
{
    reveal_strlit("branch.oid ");
    reveal_strlit("branch.head ");
    let marker = "# "@;
    assert forall|l: Seq<char>| #[trigger] report.push(l).drop_last() =~= report by {}
    lemma_header_line(report, "branch.oid "@ + value);
    lemma_header_line(report, "branch.oid "@ + "(initial)"@);
    lemma_header_line(report, "branch.head "@ + value);
    lemma_header_line(report, "branch.head "@ + "(detached)"@);
    lemma_header_line(report, value);
    lemma_header("branch.oid "@, value);
    lemma_header("branch.oid "@, "(initial)"@);
    lemma_header("branch.head "@, value);
    lemma_header("branch.head "@, "(detached)"@);
    assert(!"branch.oid "@.is_prefix_of("branch.head "@ + value)) by {
        assert("branch.oid "@[7] == 'o');
        assert(("branch.head "@ + value)[7] == 'h');
    }
    assert(!"branch.oid "@.is_prefix_of("branch.head "@ + "(detached)"@)) by {
        assert("branch.oid "@[7] == 'o');
        assert(("branch.head "@ + "(detached)"@)[7] == 'h');
    }
    law_a_blank_text_is_empty(line);
    assert(report.push(line).drop_last() =~= report);
    assert(Seq::<Seq<char>>::empty().len() == 0);
}

proof fn lemma_header_line(report: Seq<Seq<char>>, header: Seq<char>)
    ensures
        report.push("# "@ + header).drop_last() == report,
        "# "@.is_prefix_of("# "@ + header),
        ("# "@ + header).skip("# "@.len() as int) == header,
{
    lemma_header("# "@, header);
    assert(report.push("# "@ + header).drop_last() =~= report);
}

// --- recording a directory -------------------------------------------------

/// A repository that stands first under a key.
pub open spec fn stands_under(repositories: Seq<RepositoryRowModel>, key: Seq<char>, k: int) -> bool {
    &&& 0 <= k < repositories.len() && repositories[k].identity_key == key
    &&& forall|j: int| 0 <= j < k ==> (#[trigger] repositories[j]).identity_key != key
}

/// No repository stands under a key.
pub open spec fn unknown(repositories: Seq<RepositoryRowModel>, key: Seq<char>) -> bool {
    forall|j: int| 0 <= j < repositories.len() ==> (#[trigger] repositories[j]).identity_key != key
}

/// A directory whose repository is known is that repository: it is told where it is kept, with
/// its role and the workspace it is in, and nothing is written.
pub proof fn law_a_known_repository_is_told(
    s: StoreModel,
    probe: RepositoryProbeModel,
    workspace: WorkspaceId,
    repository: RepositoryId,
    now: Seq<char>,
    k: int,
)
    requires
        stands_under(s.repositories, key_of(probe), k),
    ensures
        resolve_step(s, probe, workspace, repository, now) == (
            Ok::<WorkspaceResolutionModel, StoreErrorModel>(
                WorkspaceResolutionModel {
                    workspace_id: s.repositories[k].workspace_id,
                    repository_id: s.repositories[k].id,
                    identity_key: key_of(probe),
                    toplevel: s.repositories[k].canonical_root,
                    origin_url: probe.origin_url,
                    git: probe.git,
                    role: s.repositories[k].role,
                },
            ),
            s,
        ),
{
    assert(is_first(s.repositories, keyed(key_of(probe)), k));
    lemma_first(s.repositories, keyed(key_of(probe)), k);
}

/// A directory that was known by its place, and has an origin by now, is given the identity of
/// its origin; nothing else of it changes, nor of any other.
pub proof fn law_a_placed_repository_is_given_its_origin(
    s: StoreModel,
    probe: RepositoryProbeModel,
    workspace: WorkspaceId,
    repository: RepositoryId,
    now: Seq<char>,
    k: int,
    i: int,
)
    requires
        probe.origin_url is Some,
        unknown(s.repositories, key_of(probe)),
        0 <= k < s.repositories.len(),
        s.repositories[k].canonical_root == probe.root,
        "path:"@.is_prefix_of(s.repositories[k].identity_key),
        forall|j: int|
            0 <= j < k ==> !((#[trigger] s.repositories[j]).canonical_root == probe.root
                && "path:"@.is_prefix_of(s.repositories[j].identity_key)),
        0 <= i < s.repositories.len(),
    ensures
        ({
            let (answer, after) = resolve_step(s, probe, workspace, repository, now);
            &&& answer == Ok::<WorkspaceResolutionModel, StoreErrorModel>(
                WorkspaceResolutionModel {
                    workspace_id: s.repositories[k].workspace_id,
                    repository_id: s.repositories[k].id,
                    identity_key: key_of(probe),
                    toplevel: probe.root,
                    origin_url: probe.origin_url,
                    git: probe.git,
                    role: s.repositories[k].role,
                },
            )
            &&& after == (StoreModel { repositories: after.repositories, ..s })
            &&& after.repositories.len() == s.repositories.len()
            &&& after.repositories[i] == if s.repositories[i].id == s.repositories[k].id {
                RepositoryRowModel {
                    identity_key: key_of(probe),
                    origin_url: probe.origin_url,
                    ..s.repositories[i]
                }
            } else {
                s.repositories[i]
            }
        }),
{
    lemma_no_first(s.repositories, keyed(key_of(probe)));
    assert(is_first(s.repositories, filed_by_path(probe.root), k));
    lemma_first(s.repositories, filed_by_path(probe.root), k);
}

/// A directory that nothing is known of is written down as the primary repository of a
/// workspace of its own, which is called like the directory and is no group.
pub proof fn law_a_new_directory_has_a_workspace_of_its_own(
    s: StoreModel,
    probe: RepositoryProbeModel,
    workspace: WorkspaceId,
    repository: RepositoryId,
    now: Seq<char>,
)
    requires
        unknown(s.repositories, key_of(probe)),
        probe.origin_url is Some ==> forall|j: int|
            0 <= j < s.repositories.len() ==> (#[trigger] s.repositories[j]).canonical_root
                != probe.root,
        resolve_step(s, probe, workspace, repository, now).0 is Ok,
    ensures
        ({
            let (answer, after) = resolve_step(s, probe, workspace, repository, now);
            &&& answer->Ok_0 == (WorkspaceResolutionModel {
                workspace_id: workspace,
                repository_id: repository,
                identity_key: key_of(probe),
                toplevel: probe.root,
                origin_url: probe.origin_url,
                git: probe.git,
                role: RepositoryRole::Primary,
            })
            &&& after.workspaces == s.workspaces.push(
                WorkspaceRowModel {
                    id: workspace,
                    name: if name_of(probe.root) is Some {
                        name_of(probe.root)->0
                    } else {
                        probe.root
                    },
                    created_at: now,
                    explicit: false,
                },
            )
            &&& after.repositories == s.repositories.push(
                RepositoryRowModel {
                    id: repository,
                    workspace_id: workspace,
                    identity_key: key_of(probe),
                    canonical_root: probe.root,
                    origin_url: probe.origin_url,
                    role: RepositoryRole::Primary,
                    created_at: now,
                },
            )
            &&& after == (StoreModel {
                workspaces: after.workspaces,
                repositories: after.repositories,
                ..s
            })
        }),
{
    lemma_no_first(s.repositories, keyed(key_of(probe)));
    if probe.origin_url is Some {
        assert forall|j: int| 0 <= j < s.repositories.len() implies !filed_by_path(probe.root)(
            #[trigger] s.repositories[j],
        ) by {
            assert(s.repositories[j].canonical_root != probe.root);
        }
        lemma_no_first(s.repositories, filed_by_path(probe.root));
    }
}

/// Giving a directory a role changes the role of its repository, and nothing else of what is
/// known by then.
pub proof fn law_a_role_is_given_to_just_its_repository(
    s: StoreModel,
    probe: RepositoryProbeModel,
    role: RepositoryRole,
    workspace: WorkspaceId,
    repository: RepositoryId,
    now: Seq<char>,
    i: int,
)
    requires
        resolve_step(s, probe, workspace, repository, now).0 is Ok,
        0 <= i < resolve_step(s, probe, workspace, repository, now).1.repositories.len(),
    ensures
        ({
            let (place, known) = resolve_step(s, probe, workspace, repository, now);
            let (answer, after) = role_step(s, probe, role, workspace, repository, now);
            let row = known.repositories[i];
            &&& answer is Ok
            &&& after == (StoreModel { repositories: after.repositories, ..known })
            &&& after.repositories.len() == known.repositories.len()
            &&& after.repositories[i] == if row.id == place->Ok_0.repository_id {
                RepositoryRowModel { role, ..row }
            } else {
                row
            }
        }),
{
}

// --- groups ----------------------------------------------------------------

/// A group is the first workspace that is one and has its name; where there is none, one is
/// written down, and nothing else changes.
pub proof fn law_a_group_is_made_where_there_is_none(
    s: StoreModel,
    name: Seq<char>,
    workspace: WorkspaceId,
    now: Seq<char>,
    k: int,
)
    ensures
        0 <= k < s.workspaces.len() && s.workspaces[k].name == name && s.workspaces[k].explicit && (
        forall|j: int|
            0 <= j < k ==> !((#[trigger] s.workspaces[j]).name == name
                && s.workspaces[j].explicit)) ==> with_group(s, name, workspace, now) == (
            s.workspaces[k].id,
            s,
        ),
        (forall|j: int|
            0 <= j < s.workspaces.len() ==> !((#[trigger] s.workspaces[j]).name == name
                && s.workspaces[j].explicit)) ==> with_group(s, name, workspace, now) == (
            workspace,
            StoreModel {
                workspaces: s.workspaces.push(
                    WorkspaceRowModel { id: workspace, name, created_at: now, explicit: true },
                ),
                ..s
            },
        ),
{
    let p = is_group(name);
    if 0 <= k < s.workspaces.len() && s.workspaces[k].name == name && s.workspaces[k].explicit && (
    forall|j: int|
        0 <= j < k ==> !((#[trigger] s.workspaces[j]).name == name && s.workspaces[j].explicit)) {
        assert(is_first(s.workspaces, p, k));
        lemma_first(s.workspaces, p, k);
    }
    if forall|j: int|
        0 <= j < s.workspaces.len() ==> !((#[trigger] s.workspaces[j]).name == name
            && s.workspaces[j].explicit) {
        lemma_no_first(s.workspaces, p);
    }
}

/// Gathering a directory moves its repository to the group; nothing else of it changes, nor of
/// any other.
pub proof fn law_gathering_moves_just_its_repository(
    s: StoreModel,
    probe: RepositoryProbeModel,
    group: WorkspaceId,
    ids: (WorkspaceId, RepositoryId),
    now: Seq<char>,
    i: int,
)
    requires
        0 <= i < upsert_step(s, probe, ids.0, ids.1, now).1.repositories.len(),
    ensures
        ({
            let (place, known) = upsert_step(s, probe, ids.0, ids.1, now);
            let after = with_member(s, probe, group, ids, now);
            let row = known.repositories[i];
            &&& after == (StoreModel { repositories: after.repositories, ..known })
            &&& after.repositories.len() == known.repositories.len()
            &&& after.repositories[i] == if row.id == place.repository_id {
                RepositoryRowModel { workspace_id: group, ..row }
            } else {
                row
            }
        }),
{
}

/// A workspace is kept just where it is the group, or a repository or a run is in it; and just
/// workspaces go.
pub proof fn law_an_empty_workspace_goes(s: StoreModel, group: WorkspaceId, w: WorkspaceRowModel)
    ensures
        pruned(s, group) == (StoreModel { workspaces: pruned(s, group).workspaces, ..s }),
        pruned(s, group).workspaces.contains(w) <==> s.workspaces.contains(w) && {
            ||| w.id == group
            ||| exists|i: int|
                0 <= i < s.repositories.len() && (#[trigger] s.repositories[i]).workspace_id == w.id
            ||| exists|i: int|
                0 <= i < s.runs.len() && (#[trigger] s.runs[i]).workspace_id == w.id
        },
{
    let p = needed(s, group);
    if pruned(s, group).workspaces.contains(w) {
        s.workspaces.lemma_filter_contains_rev(p, w);
        let n = choose|n: int|
            0 <= n < s.workspaces.filter(p).len() && s.workspaces.filter(p)[n] == w;
        s.workspaces.lemma_filter_pred(p, n);
        if any_row(s.repositories, repository_in(w.id)) {
            let i = choose|i: int|
                0 <= i < s.repositories.len() && repository_in(w.id)(#[trigger] s.repositories[i]);
            assert(s.repositories[i].workspace_id == w.id);
        }
        if any_row(s.runs, run_of(w.id)) {
            let i = choose|i: int| 0 <= i < s.runs.len() && run_of(w.id)(#[trigger] s.runs[i]);
            assert(s.runs[i].workspace_id == w.id);
        }
    }
    if s.workspaces.contains(w) {
        let k = choose|k: int| 0 <= k < s.workspaces.len() && s.workspaces[k] == w;
        if exists|i: int|
            0 <= i < s.repositories.len() && (#[trigger] s.repositories[i]).workspace_id == w.id {
            let i = choose|i: int|
                0 <= i < s.repositories.len() && (#[trigger] s.repositories[i]).workspace_id
                    == w.id;
            assert(repository_in(w.id)(s.repositories[i]));
        }
        if exists|i: int| 0 <= i < s.runs.len() && (#[trigger] s.runs[i]).workspace_id == w.id {
            let i = choose|i: int|
                0 <= i < s.runs.len() && (#[trigger] s.runs[i]).workspace_id == w.id;
            assert(run_of(w.id)(s.runs[i]));
        }
        if p(w) {
            s.workspaces.lemma_filter_contains(p, k);
        }
    }
}

/// What gathering answers: which workspace the group is, how many repositories are in it by
/// then, and what was left out.
pub proof fn law_gathering_tells_the_group(
    s: StoreModel,
    name: Seq<char>,
    roots: Seq<ProbedRootModel>,
    workspace: WorkspaceId,
    ids: Seq<(WorkspaceId, RepositoryId)>,
    now: Seq<char>,
)
    requires
        group_step(s, name, roots, workspace, ids, now).0 is Ok,
    ensures
        ({
            let (answer, after) = group_step(s, name, roots, workspace, ids, now);
            let (group, made) = with_group(s, name, workspace, now);
            let here = |r: RepositoryRowModel| r.workspace_id == group;
            &&& answer->Ok_0.workspace_id == group
            &&& answer->Ok_0.repositories == tally(after.repositories, here) as usize
            &&& answer->Ok_0.skipped == left_out(roots)
            &&& after == pruned(
                with_members(made, roots, group, ids, now, roots.len() as int),
                group,
            )
        }),
{
    let group = with_group(s, name, workspace, now).0;
    let here = |r: RepositoryRowModel| r.workspace_id == group;
    assert(repository_in(group) =~= here);
}

/// Workspaces are listed by their names, each with how many repositories are in it.
pub proof fn law_workspaces_are_listed_by_name(s: StoreModel, i: int, j: int)
    requires
        0 <= i < j < workspace_sizes(s).len(),
    ensures
        !text_lt(workspace_sizes(s)[j].0, workspace_sizes(s)[i].0),
        exists|k: int|
            {
                &&& 0 <= k < s.workspaces.len()
                &&& workspace_sizes(s)[i].0 == (#[trigger] s.workspaces[k]).name
                &&& workspace_sizes(s)[i].1 == tally(
                    s.repositories,
                    |r: RepositoryRowModel| r.workspace_id == s.workspaces[k].id,
                ) as usize
            },
{
    let keys = crate::grouping::name_keys(s.workspaces);
    let marks = crate::curation::every(s.workspaces.len());
    let order = arranged(keys, marks, ascending());
    law_arranged_lists_the_selected(keys, marks, ascending());
    let (a, b) = (order[i], order[j]);
    assert(precedes(keys, ascending(), a, b));
    lemma_text_lt_total(s.workspaces[a].name, s.workspaces[b].name);
    lemma_text_lt_irreflexive(s.workspaces[a].name);
    let here = |r: RepositoryRowModel| r.workspace_id == s.workspaces[a].id;
    assert(repository_in(s.workspaces[a].id) =~= here);
    assert(workspace_sizes(s)[i].0 == s.workspaces[a].name);
}

/// Promoting a namespace files just what is current in it, but for what is about the person,
/// under the workspace, and tells how much that was.
pub proof fn law_promoting_files_just_the_namespace(
    s: StoreModel,
    namespace: Seq<char>,
    workspace: WorkspaceId,
    now: Seq<char>,
    i: int,
)
    requires
        0 <= i < s.facts.len(),
    ensures
        ({
            let (count, after) = promote_step(s, namespace, workspace, now);
            let row = s.facts[i];
            let moves = row.namespace == Some(namespace) && row.superseded_by is None && row.scope
                != FactScope::User;
            &&& after == (StoreModel { facts: after.facts, ..s })
            &&& after.facts.len() == s.facts.len()
            &&& after.facts[i] == if moves {
                FactRowModel {
                    scope: FactScope::Workspace,
                    workspace_id: Some(workspace),
                    updated_at: now,
                    ..row
                }
            } else {
                row
            }
            &&& count == tally(
                s.facts,
                |f: FactRowModel|
                    f.namespace == Some(namespace) && f.superseded_by is None && f.scope
                        != FactScope::User,
            ) as usize
        }),
{
    let current = |f: FactRowModel|
        f.namespace == Some(namespace) && f.superseded_by is None && f.scope != FactScope::User;
    assert(promotable(namespace) =~= current);
}

// --- proposing a group -----------------------------------------------------

/// The organisation behind an origin is its host and the first name of its path; an origin that
/// is a host alone belongs to none.
pub proof fn law_an_organisation_is_a_host_and_a_name(
    origin: Seq<char>,
    host: Seq<char>,
    name: Seq<char>,
    rest: Seq<char>,
)
    requires
        host.len() > 0 && !host.contains('/'),
        name.len() > 0 && !name.contains('/'),
    ensures
        normalized(origin) == host.push('/') + (name.push('/') + rest) ==> organisation(origin)
            == Some(host + "/"@ + name),
        normalized(origin) == host.push('/') + name ==> organisation(origin) == Some(
            host + "/"@ + name,
        ),
        normalized(origin) == host ==> organisation(origin) is None,
{
    let identity = normalized(origin);
    let tail = name.push('/') + rest;
    if identity == host.push('/') + tail {
        lemma_first_piece(host, tail);
        lemma_first_piece(name, rest);
        assert(pieces(identity, marks_of(identity, '/'))[0] == host);
        assert(pieces(identity, marks_of(identity, '/'))[1] == pieces(tail, marks_of(tail, '/'))[0]);
        crate::text::lemma_pieces_nonempty(rest, marks_of(rest, '/'));
    }
    if identity == host.push('/') + name {
        lemma_first_piece(host, name);
        lemma_one_piece(name);
        assert(pieces(identity, marks_of(identity, '/'))[1] == name);
    }
    if identity == host {
        lemma_one_piece(host);
    }
}

proof fn lemma_one_piece(s: Seq<char>)
    requires
        !s.contains('/'),
    ensures
        pieces(s, marks_of(s, '/')) == seq![s],
{
    assert forall|i: int| 0 <= i < s.len() implies !#[trigger] marks_of(s, '/')[i] by {
        assert(s.contains(s[i]));
    }
    law_an_uncut_text_is_one_piece(s, marks_of(s, '/'));
}

proof fn lemma_first_piece(head: Seq<char>, tail: Seq<char>)
    requires
        !head.contains('/'),
    ensures
        ({
            let whole = head.push('/') + tail;
            pieces(whole, marks_of(whole, '/')) == seq![head] + pieces(tail, marks_of(tail, '/'))
        }),
{
    let whole = head.push('/') + tail;
    let marks = marks_of(whole, '/');
    let n = head.len() as int;
    assert(marks[n]);
    law_a_cut_parts_a_text(head, '/', tail, marks);
    assert(marks.take(n) =~= marks_of(head, '/'));
    assert(marks.skip(n + 1) =~= marks_of(tail, '/'));
    lemma_one_piece(head);
}

/// A name people give the directory they keep their repositories in.
pub open spec fn holds_projects(name: Seq<char>) -> bool {
    ||| name == "code"@
    ||| name == "src"@
    ||| name == "source"@
    ||| name == "projects"@
    ||| name == "project"@
    ||| name == "programming"@
    ||| name == "repos"@
    ||| name == "repositories"@
    ||| name == "git"@
    ||| name == "work"@
    ||| name == "workspace"@
    ||| name == "dev"@
}

/// A group is called after the directory its repositories are in, unless that is one that
/// people keep every repository in, and after the organisation otherwise.
pub proof fn law_a_group_is_called_after_its_directory(parent: Seq<char>, of: Seq<char>)
    ensures
        !holds_projects(parent) ==> called(Some(parent), of) == parent,
        holds_projects(parent) ==> called(Some(parent), of) == after_last(of, '/'),
        called(None, of) == after_last(of, '/'),
{
    let all = crate::setup::containers();
    assert(all[0] == "code"@ && all[1] == "src"@ && all[2] == "source"@ && all[3] == "projects"@
        && all[4] == "project"@ && all[5] == "programming"@ && all[6] == "repos"@ && all[7]
        == "repositories"@ && all[8] == "git"@ && all[9] == "work"@ && all[10] == "workspace"@
        && all[11] == "dev"@);
    if all.contains(parent) {
        let i = choose|i: int| 0 <= i < all.len() && all[i] == parent;
        assert(0 <= i < 12);
    }
}

/// What is proposed: nothing without an organisation; and with one, a name just where at least
/// two neighbours belong to it and they do not lie loose in a home directory, and the group the
/// directory is in already.
pub proof fn law_a_group_is_proposed_for_two(
    s: StoreModel,
    probe: RepositoryProbeModel,
    neighbours: Seq<SiblingModel>,
    loose_in_home: bool,
)
    ensures
        ({
            let found = proposed(s, probe, neighbours, loose_in_home);
            let parent = parent_name_of(probe.root);
            &&& found.root == probe.root
            &&& found.organisation == organisation_behind(probe.origin_url)
            &&& found.organisation is None ==> found.suggested_name is None && found.siblings.len()
                == 0 && !found.already_grouped && found.workspace_name is None
            &&& found.organisation matches Some(of) ==> {
                &&& found.workspace_name == group_of(s, probe.root)
                &&& found.already_grouped == (found.workspace_name is Some)
                &&& found.siblings.len() < 2 || loose_in_home ==> found.suggested_name is None
                &&& found.siblings.len() >= 2 && !loose_in_home ==> found.suggested_name == Some(
                    called(
                        if parent is Some {
                            Some(lowered(parent->0))
                        } else {
                            None
                        },
                        of,
                    ),
                )
            }
        }),
        probe.origin_url is None ==> organisation_behind(probe.origin_url) is None,
        probe.origin_url matches Some(url) ==> organisation_behind(probe.origin_url)
            == organisation(url),
{
}

/// Neighbours are proposed by where they are, in order.
pub proof fn law_neighbours_are_proposed_in_order(
    neighbours: Seq<SiblingModel>,
    of: Seq<char>,
    i: int,
    j: int,
)
    requires
        0 <= i < j < sharing(neighbours, of).len(),
    ensures
        !text_lt(sharing(neighbours, of)[j].root, sharing(neighbours, of)[i].root),
{
    let keys = root_keys(neighbours);
    let marks = sharing_marks(neighbours, of);
    let order = arranged(keys, marks, ascending());
    law_arranged_lists_the_selected(keys, marks, ascending());
    let (a, b) = (order[i], order[j]);
    assert(precedes(keys, ascending(), a, b));
    lemma_text_lt_total(neighbours[a].root, neighbours[b].root);
    lemma_text_lt_irreflexive(neighbours[a].root);
}

/// The group a directory is in is the workspace of its repository, where that is a group.
pub proof fn law_a_directory_is_in_the_group_of_its_repository(
    s: StoreModel,
    root: Seq<char>,
    k: int,
    w: int,
)
    requires
        0 <= k < s.repositories.len(),
        s.repositories[k].canonical_root == root,
        forall|j: int| 0 <= j < k ==> (#[trigger] s.repositories[j]).canonical_root != root,
        0 <= w < s.workspaces.len(),
        s.workspaces[w].id == s.repositories[k].workspace_id,
        forall|j: int|
            0 <= j < w ==> (#[trigger] s.workspaces[j]).id != s.repositories[k].workspace_id,
    ensures
        group_of(s, root) == if s.workspaces[w].explicit {
            Some(s.workspaces[w].name)
        } else {
            None
        },
{
    let p = is_workspace(s.repositories[k].workspace_id);
    assert(is_first(s.workspaces, p, w));
    lemma_first(s.workspaces, p, w);
    let q = seated_at(s.workspaces, root);
    assert(is_first(s.repositories, q, k));
    lemma_first(s.repositories, q, k);
}

/// A directory nothing is known of is in no group.
pub proof fn law_an_unknown_directory_is_in_no_group(s: StoreModel, root: Seq<char>)
    requires
        forall|j: int|
            0 <= j < s.repositories.len() ==> (#[trigger] s.repositories[j]).canonical_root != root,
    ensures
        group_of(s, root) is None,
{
    lemma_no_first(s.repositories, seated_at(s.workspaces, root));
}

/// An origin is given by the first line that says `url` in the section of the remote that is
/// called origin, whatever spaces stand in and around it: a line that opens a section decides
/// whether what follows is that section, and any other line says nothing.
pub proof fn law_an_origin_is_given_in_its_section(
    found: Seq<Seq<char>>,
    in_origin: bool,
    key: Seq<char>,
    value: Seq<char>,
)
    requires
        found.len() > 0,
    ensures
        ({
            let line = trimmed(found[0]);
            let rest = found.skip(1);
            let opens = line.len() > 0 && line[0] == '[';
            let halves = cut_at(line, '=')->Some_0;
            let says_url = cut_at(line, '=') is Some && trimmed(halves.0) == "url"@;
            &&& origin_given(Seq::empty(), in_origin) is None
            &&& opens ==> origin_given(found, in_origin) == origin_given(
                rest,
                line.filter(|c: char| c != ' ') == "[remote\"origin\"]"@,
            )
            &&& !opens && in_origin && says_url ==> origin_given(found, in_origin) == Some(
                trimmed(halves.1),
            )
            &&& !opens && !(in_origin && says_url) ==> origin_given(found, in_origin)
                == origin_given(rest, in_origin)
            &&& line == key.push('=') + value && !key.contains('=') ==> cut_at(line, '=') == Some(
                (key, value),
            )
        }),
{
    let line = trimmed(found[0]);
    assert(crate::setup::not_space() =~= (|c: char| c != ' '));
    if line == key.push('=') + value && !key.contains('=') {
        let at = key.len() as int;
        assert(line[at] == '=');
        assert forall|j: int| 0 <= j < at implies line[j] != '=' by {
            assert(key.contains(key[j]));
        }
        assert(first_at(line, '=', at));
        lemma_cut_at(line, '=', at);
        assert(line.take(at) =~= key);
        assert(line.skip(at + 1) =~= value);
    }
}

/// A directory that nothing is known of takes no identifier that a workspace or a repository
/// has: it is refused by the column it would stand in, and nothing is written.
pub proof fn law_a_taken_identifier_records_nothing(
    s: StoreModel,
    probe: RepositoryProbeModel,
    workspace: WorkspaceId,
    repository: RepositoryId,
    now: Seq<char>,
    k: int,
)
    requires
        unknown(s.repositories, key_of(probe)),
        probe.origin_url is None,
    ensures
        0 <= k < s.workspaces.len() && s.workspaces[k].id == workspace ==> resolve_step(
            s,
            probe,
            workspace,
            repository,
            now,
        ) == (
            Err::<WorkspaceResolutionModel, StoreErrorModel>(
                StoreErrorModel::Database("UNIQUE constraint failed: "@ + "workspaces.id"@),
            ),
            s,
        ),
        (forall|i: int| 0 <= i < s.workspaces.len() ==> (#[trigger] s.workspaces[i]).id != workspace)
            && 0 <= k < s.repositories.len() && s.repositories[k].id == repository ==> resolve_step(
            s,
            probe,
            workspace,
            repository,
            now,
        ) == (
            Err::<WorkspaceResolutionModel, StoreErrorModel>(
                StoreErrorModel::Database("UNIQUE constraint failed: "@ + "repositories.id"@),
            ),
            s,
        ),
{
    lemma_no_first(s.repositories, keyed(key_of(probe)));
}

/// The namespaces a directory may be filed under are its own name, and its own name behind that
/// of the directory that holds it.
pub proof fn law_a_namespace_is_the_name_of_a_directory(
    front: Seq<char>,
    parent: Seq<char>,
    name: Seq<char>,
)
    requires
        !parent.contains('/') && parent.len() > 0 && parent != "."@ && parent != ".."@,
        !name.contains('/') && name.len() > 0 && name != "."@ && name != ".."@,
    ensures
        candidate_names((front.push('/') + parent).push('/') + name) == seq![
            name,
            parent + "-"@ + name,
        ],
{
    law_a_path_ends_in_its_name(front, parent, name);
}

} // verus!
