//! What holds of reference checkouts: what is declared, where it stands on disk, and how it is
//! brought to its ref.

use vstd::prelude::*;

use crate::deps::{
    below, declare_step, declared, declared_for, declared_keys, declared_marks, dependency_of,
    first_step, forget_step, is_checkout, is_dependency, is_other, last_words, nameable, parents_of,
    sanitised, single_dots, slug_of, slug_segments, step_after, sync_step, wanted_ref,
    DependencyModel, DependencySpecModel, DependencyStatus, SyncStage, SyncStepModel,
};
use crate::error::StoreErrorModel;
use crate::git::normalized;
use crate::ids::{DependencyId, WorkspaceId};
use crate::order::{arranged, law_arranged_lists_the_selected, lemma_text_lt_irreflexive, precedes, text_lt};
use crate::plan::ascending;
use crate::rows::{
    first_row, is_first, lemma_filter_all, lemma_filter_keeps_order, lemma_first, lemma_no_first,
};
use crate::tables::{DependencyRowModel, StoreModel};
use crate::text::{being, filled, joined, lemma_skip_while_at, marks_of, pieces, trimmed};
use crate::text_laws::{blank, law_a_blank_text_is_empty, law_joining_undoes_cutting};
use crate::values::moment_of;

verus! {

// --- bringing a checkout to its ref ----------------------------------------

/// Being a command that fetches.
pub open spec fn fetches(step: SyncStepModel) -> bool {
    step is Run && step->args.len() > 2 && step->args[2] == "fetch"@
}

/// What is fetched for a dependency: its ref, or the head of the default branch where it names
/// none.
pub open spec fn wanted(dependency: DependencyModel) -> Seq<char> {
    match dependency.git_ref {
        Some(reference) => reference,
        None => "HEAD"@,
    }
}

proof fn lemma_commands_differ()
    ensures
        "fetch"@ != "1"@,
        "fetch"@ != "reset"@,
        "fetch"@ != "rev-parse"@,
{
    reveal_strlit("fetch");
    reveal_strlit("1");
    reveal_strlit("reset");
    reveal_strlit("rev-parse");
    assert("fetch"@.len() == 5 && "1"@.len() == 1 && "reset"@.len() == 5);
    assert("rev-parse"@.len() == 9);
    assert("fetch"@[0] == 'f' && "reset"@[0] == 'r');
}

/// Whenever a dependency is fetched, it is its own ref that is fetched, from where it was
/// cloned, into its own checkout; only a dependency without a ref fetches the head of the
/// default branch.
pub proof fn law_a_fetch_asks_for_the_ref(
    dependency: DependencyModel,
    checkout: Seq<char>,
    is_there: bool,
    stage: SyncStage,
    came: Result<Seq<char>, Seq<char>>,
)
    ensures
        forall|step: SyncStepModel| #[trigger]
            fetches(step) && (step == first_step(dependency, checkout, is_there) || step
                == step_after(dependency, checkout, stage, came)) ==> {
                &&& step->args.len() == 7
                &&& step->args.last() == wanted(dependency)
                &&& step->args[0] == "-C"@
                &&& step->args[1] == checkout
                &&& step->args[3] == "--depth"@
                &&& step->args[4] == "1"@
                &&& step->args[5] == "origin"@
                &&& !step->clear_first
            },
        is_there ==> fetches(first_step(dependency, checkout, is_there)),
{
    lemma_commands_differ();
}

/// A checkout that is there is fetched, moved to what was fetched, and read: when git does each,
/// the revision is what it printed last, with no whitespace around it.
pub proof fn law_a_checkout_that_is_there_is_moved_to_its_ref(
    dependency: DependencyModel,
    checkout: Seq<char>,
    printed: Seq<char>,
    first: Seq<char>,
    second: Seq<char>,
)
    ensures
        ({
            let fetch = first_step(dependency, checkout, true);
            let reset = step_after(dependency, checkout, fetch->stage, Ok(first));
            let read = step_after(dependency, checkout, reset->stage, Ok(second));
            &&& fetch is Run && fetches(fetch) && fetch->args.last() == wanted(dependency)
            &&& reset is Run && !reset->clear_first && reset->args == seq![
                "-C"@,
                checkout,
                "reset"@,
                "--hard"@,
                "FETCH_HEAD"@,
            ]
            &&& read is Run && !read->clear_first && read->args == seq![
                "-C"@,
                checkout,
                "rev-parse"@,
                "HEAD"@,
            ]
            &&& step_after(dependency, checkout, read->stage, Ok(printed))
                == SyncStepModel::Finished(Ok(trimmed(printed)))
        }),
{
}

/// A checkout that is not there is cloned at its ref, from the address it was declared with, to
/// where it belongs, and read.
pub proof fn law_a_missing_checkout_is_cloned_at_its_ref(
    dependency: DependencyModel,
    checkout: Seq<char>,
    cloned: Seq<char>,
    printed: Seq<char>,
)
    ensures
        ({
            let clone = first_step(dependency, checkout, false);
            let read = step_after(dependency, checkout, clone->stage, Ok(cloned));
            &&& clone is Run && !clone->clear_first
            &&& clone->args == match dependency.git_ref {
                Some(reference) => seq![
                    "clone"@,
                    "--depth"@,
                    "1"@,
                    "--branch"@,
                    reference,
                    "--"@,
                    dependency.url,
                    checkout,
                ],
                None => seq!["clone"@, "--depth"@, "1"@, "--"@, dependency.url, checkout],
            }
            &&& read is Run && read->args == seq!["-C"@, checkout, "rev-parse"@, "HEAD"@]
            &&& step_after(dependency, checkout, read->stage, Ok(printed))
                == SyncStepModel::Finished(Ok(trimmed(printed)))
        }),
{
}

/// A ref that cannot be cloned, as a commit cannot, is fetched into a fresh clone of the default
/// branch, and the clone moved to it before it is read. What is left of the first clone is
/// cleared away.
pub proof fn law_a_pinned_commit_is_fetched_into_a_fresh_clone(
    dependency: DependencyModel,
    checkout: Seq<char>,
    reason: Seq<char>,
    first: Seq<char>,
    second: Seq<char>,
    third: Seq<char>,
    printed: Seq<char>,
)
    requires
        dependency.git_ref is Some,
    ensures
        ({
            let clone = first_step(dependency, checkout, false);
            let again = step_after(dependency, checkout, clone->stage, Err(reason));
            let fetch = step_after(dependency, checkout, again->stage, Ok(first));
            let reset = step_after(dependency, checkout, fetch->stage, Ok(second));
            let read = step_after(dependency, checkout, reset->stage, Ok(third));
            &&& again is Run && again->clear_first && again->args == seq![
                "clone"@,
                "--depth"@,
                "1"@,
                "--"@,
                dependency.url,
                checkout,
            ]
            &&& fetch is Run && fetches(fetch) && fetch->args.last() == dependency.git_ref->0
            &&& reset is Run && reset->args == seq![
                "-C"@,
                checkout,
                "reset"@,
                "--hard"@,
                "FETCH_HEAD"@,
            ]
            &&& read is Run && read->args == seq!["-C"@, checkout, "rev-parse"@, "HEAD"@]
            &&& step_after(dependency, checkout, read->stage, Ok(printed))
                == SyncStepModel::Finished(Ok(trimmed(printed)))
        }),
{
}

/// A sync succeeds only where git read the revision last, and fails with the reason of the
/// command that failed; where the ref of a fresh clone could not be had, the reason names it.
pub proof fn law_a_sync_reports_what_failed(
    dependency: DependencyModel,
    checkout: Seq<char>,
    stage: SyncStage,
    came: Result<Seq<char>, Seq<char>>,
)
    ensures
        step_after(dependency, checkout, stage, came) matches SyncStepModel::Finished(Ok(revision))
            ==> (came matches Ok(printed) && stage == SyncStage::ReadingHead && revision
            == trimmed(printed)),
        step_after(dependency, checkout, stage, came) matches SyncStepModel::Finished(Err(text))
            ==> (came matches Err(reason) && text == (if stage == SyncStage::FetchingPinned
            || stage == SyncStage::ResettingPinned {
            "cloned, but "@ + (match dependency.git_ref {
                Some(reference) => reference,
                None => Seq::empty(),
            }) + " could not be resolved: "@ + reason
        } else {
            reason
        })),
        came is Err && stage != SyncStage::Cloning ==> step_after(
            dependency,
            checkout,
            stage,
            came,
        ) is Finished,
{
}

/// What a command failed with is its last line that says anything, with no whitespace around
/// it; one that said nothing just failed.
pub proof fn law_the_last_line_says_what_failed(found: Seq<Seq<char>>, line: Seq<char>)
    ensures
        last_words(found.push(line)) == if blank(line) {
            last_words(found)
        } else {
            trimmed(line)
        },
        last_words(Seq::empty()) == "git failed"@,
{
    assert(found.push(line).drop_last() =~= found);
    law_a_blank_text_is_empty(line);
}

// --- what is declared ------------------------------------------------------

/// A ref is wanted as it is written, but for whitespace around it; a blank one is none.
pub proof fn law_a_blank_ref_is_none(git_ref: Seq<char>)
    ensures
        blank(git_ref) ==> wanted_ref(Some(git_ref)) is None,
        !blank(git_ref) ==> wanted_ref(Some(git_ref)) == Some(trimmed(git_ref)),
        wanted_ref(None) is None,
{
    law_a_blank_text_is_empty(git_ref);
}

/// What is declared for the first time is written down as it was asked for, to be brought here
/// later, and told just so; nothing else changes.
pub proof fn law_a_declaration_is_written_down(
    s: StoreModel,
    workspace: WorkspaceId,
    asked: DependencySpecModel,
    id: DependencyId,
    now: Seq<char>,
)
    requires
        forall|i: int|
            0 <= i < s.dependencies.len() ==> (#[trigger] s.dependencies[i]).id != id && (
            s.dependencies[i].workspace_id != workspace || s.dependencies[i].identity_key
                != normalized(asked.url) || s.dependencies[i].git_ref != wanted_ref(
                asked.git_ref,
            ) && !(s.dependencies[i].git_ref == Some(Seq::<char>::empty()) && wanted_ref(
                asked.git_ref,
            ) is None)),
    ensures
        ({
            let (answer, after) = declare_step(s, workspace, asked, id, now);
            let row = DependencyRowModel {
                id,
                workspace_id: workspace,
                url: asked.url,
                identity_key: normalized(asked.url),
                git_ref: wanted_ref(asked.git_ref),
                slug: slug_of(normalized(asked.url), wanted_ref(asked.git_ref)),
                status: DependencyStatus::Declared,
                revision: None,
                synced_at: None,
                last_error: None,
                created_at: now,
            };
            &&& after == (StoreModel { dependencies: s.dependencies.push(row), ..s })
            &&& answer == Ok::<DependencyModel, StoreErrorModel>(
                DependencyModel {
                    id,
                    workspace_id: workspace,
                    url: asked.url,
                    identity_key: row.identity_key,
                    git_ref: row.git_ref,
                    slug: row.slug,
                    status: DependencyStatus::Declared,
                    revision: None,
                    synced_at: None,
                    last_error: None,
                },
            )
        }),
{
    let p = is_checkout(workspace, normalized(asked.url), wanted_ref(asked.git_ref));
    law_a_blank_text_is_empty(Seq::<char>::empty());
    assert forall|i: int| 0 <= i < s.dependencies.len() implies !p(#[trigger] s.dependencies[i]) by {
        let d = s.dependencies[i];
        if p(d) {
            match (d.git_ref, wanted_ref(asked.git_ref)) {
                (Some(a), None) => {
                    assert(a =~= Seq::<char>::empty());
                },
                _ => {},
            }
        }
    }
    lemma_no_first(s.dependencies, p);
}

/// What was declared before keeps all it has but the way its address is written, which is the
/// latest, and nothing else changes.
pub proof fn law_declaring_again_respells_the_address(
    s: StoreModel,
    workspace: WorkspaceId,
    asked: DependencySpecModel,
    id: DependencyId,
    now: Seq<char>,
    k: int,
    i: int,
)
    requires
        s.well_formed(),
        0 <= k < s.dependencies.len(),
        s.dependencies[k].workspace_id == workspace,
        s.dependencies[k].identity_key == normalized(asked.url),
        s.dependencies[k].git_ref == wanted_ref(asked.git_ref),
        0 <= i < s.dependencies.len(),
    ensures
        ({
            let (answer, after) = declare_step(s, workspace, asked, id, now);
            &&& answer matches Ok(d) && d.id == s.dependencies[k].id && d.url == asked.url
                && d.revision == s.dependencies[k].revision && d.status
                == s.dependencies[k].status && d.slug == s.dependencies[k].slug
            &&& after == (StoreModel { dependencies: after.dependencies, ..s })
            &&& after.dependencies.len() == s.dependencies.len()
            &&& after.dependencies[i] == if i == k {
                DependencyRowModel { url: asked.url, ..s.dependencies[k] }
            } else {
                s.dependencies[i]
            }
        }),
{
    let p = is_checkout(workspace, normalized(asked.url), wanted_ref(asked.git_ref));
    assert forall|j: int| 0 <= j < s.dependencies.len() && j != k implies !p(
        #[trigger] s.dependencies[j],
    ) by {
        if j < k {
            assert(!crate::tables::one_checkout(s.dependencies[j], s.dependencies[k]));
        } else {
            assert(!crate::tables::one_checkout(s.dependencies[k], s.dependencies[j]));
        }
    }
    assert(is_first(s.dependencies, p, k));
    lemma_first(s.dependencies, p, k);
}

/// What is declared for a workspace is listed, and nothing that is not, the oldest first.
pub proof fn law_a_workspaces_dependencies_are_listed_oldest_first(
    s: StoreModel,
    workspace: WorkspaceId,
    i: int,
    a: int,
    b: int,
)
    requires
        0 <= i < s.dependencies.len(),
        0 <= a < b < declared_for(s, workspace).len(),
    ensures
        s.dependencies[i].workspace_id == workspace ==> declared_for(s, workspace).contains(
            dependency_of(s.dependencies[i]),
        ),
        exists|k: int, l: int|
            {
                &&& 0 <= k < s.dependencies.len()
                &&& 0 <= l < s.dependencies.len()
                &&& declared_for(s, workspace)[a].id == (#[trigger] s.dependencies[k]).id
                &&& declared_for(s, workspace)[b].id == (#[trigger] s.dependencies[l]).id
                &&& s.dependencies[k].workspace_id == workspace
                &&& s.dependencies[l].workspace_id == workspace
                &&& !text_lt(s.dependencies[l].created_at, s.dependencies[k].created_at)
            },
{
    let keys = declared_keys(s.dependencies);
    let marks = declared_marks(s.dependencies, workspace);
    let order = arranged(keys, marks, ascending());
    let all = declared_for(s, workspace);
    law_arranged_lists_the_selected(keys, marks, ascending());
    if s.dependencies[i].workspace_id == workspace {
        assert(marks[i]);
        let k = choose|k: int| 0 <= k < order.len() && order[k] == i;
        assert(all[k] == dependency_of(s.dependencies[i]));
    }
    let k = order[a];
    let l = order[b];
    assert(marks[k] && marks[l]);
    assert(precedes(keys, ascending(), order[a], order[b]));
    lemma_text_lt_irreflexive(s.dependencies[k].created_at);
    crate::order::lemma_text_lt_total(s.dependencies[k].created_at, s.dependencies[l].created_at);
    assert(s.dependencies[k].workspace_id == workspace && s.dependencies[l].workspace_id
        == workspace);
}

/// A dependency is told as it stands.
pub proof fn law_a_dependency_is_told_as_it_stands(s: StoreModel, id: DependencyId, i: int)
    requires
        s.well_formed(),
        0 <= i < s.dependencies.len(),
        s.dependencies[i].id == id,
    ensures
        declared(s, id) matches Ok(d) && {
            let row = s.dependencies[i];
            &&& d.id == id && d.workspace_id == row.workspace_id && d.url == row.url
            &&& d.identity_key == row.identity_key && d.git_ref == row.git_ref && d.slug == row.slug
            &&& d.status == row.status && d.revision == row.revision && d.last_error
                == row.last_error
            &&& d.synced_at == (match row.synced_at {
                Some(raw) => match moment_of(raw) {
                    Ok(at) => Some(at),
                    Err(_) => None,
                },
                None => None,
            })
        },
{
    let p = is_dependency(id);
    assert forall|j: int| 0 <= j < i implies !p(#[trigger] s.dependencies[j]) by {
        assert(s.dependencies[j].id != s.dependencies[i].id);
    }
    assert(is_first(s.dependencies, p, i));
    lemma_first(s.dependencies, p, i);
}

/// A sync settles just its dependency: with sources it is present, at their revision, brought
/// here at that time, with no error; without it has failed, with the reason, no revision, and
/// the time it was brought here last, if it ever was.
pub proof fn law_a_sync_touches_just_its_dependency(
    s: StoreModel,
    id: DependencyId,
    result: Result<Seq<char>, Seq<char>>,
    now: Seq<char>,
    i: int,
)
    requires
        0 <= i < s.dependencies.len(),
    ensures
        ({
            let after = sync_step(s, id, result, now).1;
            let row = s.dependencies[i];
            &&& after == (StoreModel { dependencies: after.dependencies, ..s })
            &&& after.dependencies.len() == s.dependencies.len()
            &&& after.dependencies[i] == if row.id != id {
                row
            } else {
                match result {
                    Ok(revision) => DependencyRowModel {
                        status: DependencyStatus::Present,
                        revision: Some(revision),
                        synced_at: Some(now),
                        last_error: None,
                        ..row
                    },
                    Err(reason) => DependencyRowModel {
                        status: DependencyStatus::Failed,
                        revision: None,
                        last_error: Some(reason),
                        ..row
                    },
                }
            }
        }),
{
}

/// Dropping a declaration removes just that, keeps the others in their order, and answers with
/// where its checkout stands; one that is not there leaves everything as it is.
pub proof fn law_a_dropped_declaration_leaves_the_others(
    s: StoreModel,
    id: DependencyId,
    deps_root: Seq<char>,
    d: DependencyRowModel,
    a: int,
    b: int,
)
    ensures
        ({
            let (checkout, after) = forget_step(s, id, deps_root);
            &&& after == (StoreModel { dependencies: after.dependencies, ..s })
            &&& after.dependencies.contains(d) <==> s.dependencies.contains(d) && d.id != id
            &&& 0 <= a < b < after.dependencies.len() ==> exists|i: int, j: int|
                0 <= i < j < s.dependencies.len() && #[trigger] s.dependencies[i]
                    == after.dependencies[a] && #[trigger] s.dependencies[j]
                    == after.dependencies[b]
            &&& (forall|i: int|
                0 <= i < s.dependencies.len() ==> (#[trigger] s.dependencies[i]).id != id) ==> checkout is None
                && after == s
            &&& s.well_formed() ==> forall|i: int|
                0 <= i < s.dependencies.len() && (#[trigger] s.dependencies[i]).id == id
                    ==> checkout == Some(below(deps_root, s.dependencies[i].slug))
        }),
{
    let p = is_other(id);
    let kept = s.dependencies.filter(p);
    if kept.contains(d) {
        let k = choose|k: int| 0 <= k < kept.len() && kept[k] == d;
        s.dependencies.lemma_filter_pred(p, k);
        s.dependencies.lemma_filter_contains_rev(p, d);
    }
    if s.dependencies.contains(d) && d.id != id {
        let k = choose|k: int| 0 <= k < s.dependencies.len() && s.dependencies[k] == d;
        s.dependencies.lemma_filter_contains(p, k);
    }
    if 0 <= a < b < kept.len() {
        let (i, j) = lemma_filter_keeps_order(s.dependencies, p, a, b);
        assert(s.dependencies[i] == kept[a] && s.dependencies[j] == kept[b]);
    }
    if forall|i: int| 0 <= i < s.dependencies.len() ==> (#[trigger] s.dependencies[i]).id != id {
        lemma_filter_all(s.dependencies, p);
        lemma_no_first(s.dependencies, is_dependency(id));
    }
    if s.well_formed() {
        assert forall|i: int| 0 <= i < s.dependencies.len() && (#[trigger] s.dependencies[i]).id
            == id implies forget_step(s, id, deps_root).0 == Some(
            below(deps_root, s.dependencies[i].slug),
        ) by {
            law_a_dependency_is_told_as_it_stands(s, id, i);
        }
    }
}

// --- where it stands on disk -----------------------------------------------

/// A checkout stands below the directory of the checkouts, under its slug.
pub proof fn law_a_checkout_stands_below_the_root(deps_root: Seq<char>, slug: Seq<char>)
    requires
        slug.len() > 0,
        slug[0] != '/',
    ensures
        deps_root.len() > 0 && deps_root.last() != '/' ==> below(deps_root, slug) == deps_root
            + "/"@ + slug,
        deps_root.len() > 0 && deps_root.last() == '/' ==> below(deps_root, slug) == deps_root
            + slug,
{
}

/// A name that can stand on disk as it is: no dots but single ones inside, and nothing but
/// letters, digits, dots, hyphens, underscores and pluses.
pub open spec fn fit(name: Seq<char>) -> bool {
    &&& name.len() > 0
    &&& name[0] != '.'
    &&& forall|i: int|
        0 <= i < name.len() ==> {
            ||| 'a' <= #[trigger] name[i] <= 'z'
            ||| 'A' <= name[i] <= 'Z'
            ||| '0' <= name[i] <= '9'
            ||| name[i] == '.' || name[i] == '-' || name[i] == '_' || name[i] == '+'
        }
    &&& forall|i: int, j: int|
        0 <= i && j == i + 1 && j < name.len() && #[trigger] name[i] == '.' ==> #[trigger] name[j]
            != '.'
}

proof fn lemma_single_dots_kept(name: Seq<char>)
    requires
        forall|i: int, j: int|
            0 <= i && j == i + 1 && j < name.len() && #[trigger] name[i] == '.'
                ==> #[trigger] name[j] != '.',
    ensures
        single_dots(name) == name,
    decreases name.len(),
{
    if name.len() > 0 {
        let front = name.drop_last();
        assert forall|i: int, j: int|
            0 <= i && j == i + 1 && j < front.len() && #[trigger] front[i] == '.' implies #[trigger] front[j]
            != '.' by {
            assert(name[i] == front[i] && name[j] == front[j]);
        }
        lemma_single_dots_kept(front);
        assert(front.push(name.last()) =~= name);
        if front.len() > 0 {
            assert(front.last() == name[name.len() - 2]);
        }
    }
}

/// A name that can stand on disk as it is stands so; of any other, each character that cannot
/// stand there is a hyphen, and where there are no dots nothing else changes.
pub proof fn law_a_fit_name_is_kept(name: Seq<char>, i: int)
    ensures
        fit(name) ==> sanitised(name) == name,
        !name.contains('.') ==> sanitised(name).len() == name.len(),
        !name.contains('.') && 0 <= i < name.len() ==> sanitised(name)[i] == if nameable(name[i]) {
            name[i]
        } else {
            '-'
        },
        nameable('a') && nameable('Z') && nameable('5') && nameable('_') && nameable('-')
            && !nameable('/') && !nameable(' ') && !nameable('\\') && !nameable(':'),
{
    let mapped = crate::deps::all_named(name);
    if fit(name) {
        assert(mapped =~= name);
        lemma_single_dots_kept(name);
        lemma_skip_while_at(name, being('.'), 0);
        assert(name.skip(0) =~= name);
    }
    if !name.contains('.') {
        assert forall|k: int| 0 <= k < mapped.len() implies #[trigger] mapped[k] != '.' by {
            assert(name.contains(name[k]));
        }
        lemma_single_dots_kept(mapped);
        lemma_skip_while_at(mapped, being('.'), 0);
        assert(mapped.skip(0) =~= mapped);
    }
}

/// A project whose identity is fit to stand on disk stands under it; at a ref, under it and the
/// ref behind an at sign, so that each ref has a checkout of its own.
pub proof fn law_a_slug_is_the_identity_and_the_ref(
    identity: Seq<char>,
    reference: Seq<char>,
)
    requires
        forall|k: int|
            0 <= k < pieces(identity, marks_of(identity, '/')).len() ==> fit(
                #[trigger] pieces(identity, marks_of(identity, '/'))[k],
            ),
        fit(reference),
    ensures
        slug_of(identity, None) == identity,
        slug_of(identity, Some(reference)) == identity + "@"@ + reference,
{
    let parts = pieces(identity, marks_of(identity, '/'));
    let named = parts.map_values(|s: Seq<char>| sanitised(s));
    assert(named =~= parts) by {
        assert forall|k: int| 0 <= k < parts.len() implies named[k] == #[trigger] parts[k] by {
            law_a_fit_name_is_kept(parts[k], 0);
        }
    }
    let p = |s: Seq<char>| filled(s);
    assert forall|k: int| 0 <= k < named.len() implies p(#[trigger] named[k]) by {
        assert(fit(parts[k]));
    }
    lemma_filter_all(named, p);
    assert(slug_segments(identity) == parts);
    law_joining_undoes_cutting(identity, '/');
    reveal_strlit("/");
    assert("/"@ =~= seq!['/']);
    law_a_fit_name_is_kept(reference, 0);
}

/// What is looked at once a checkout is gone are the directories it stood in, the innermost
/// first, down to the first below the directory of the checkouts.
pub proof fn law_a_checkouts_parents_are_looked_at_from_within(
    deps_root: Seq<char>,
    slug: Seq<char>,
    i: int,
)
    requires
        0 <= i < parents_of(deps_root, slug).len(),
    ensures
        parents_of(deps_root, slug).len() == pieces(slug, marks_of(slug, '/')).len() - 1,
        ({
            let steps = pieces(slug, marks_of(slug, '/'));
            parents_of(deps_root, slug)[i] == below(
                deps_root,
                joined(steps.take(steps.len() - 1 - i), "/"@),
            )
        }),
{
}

/// A dependency under an identifier that a dependency has is refused, and nothing is written.
pub proof fn law_a_taken_identifier_declares_nothing(
    s: StoreModel,
    workspace: WorkspaceId,
    asked: DependencySpecModel,
    id: DependencyId,
    now: Seq<char>,
    k: int,
)
    requires
        first_row(
            s.dependencies,
            is_checkout(workspace, normalized(asked.url), wanted_ref(asked.git_ref)),
        ) is None,
        0 <= k < s.dependencies.len() && s.dependencies[k].id == id,
    ensures
        declare_step(s, workspace, asked, id, now) == (
            Err::<DependencyModel, StoreErrorModel>(
                StoreErrorModel::Database("UNIQUE constraint failed: "@ + "dependencies.id"@),
            ),
            s,
        ),
{
}

} // verus!
