//! Reference checkouts.
//!
//! A dependency is a repository the workspace reads but does not work in: a library
//! whose sources answer questions faster than its documentation, a sibling service
//! whose contract has to be matched. The whole job here is materialisation: put the
//! right revision at a known path and say where it is.

use vstd::prelude::*;

use crate::error::{outcome, StoreError, StoreErrorModel};
use crate::git::{normalize_origin, normalized};
use crate::ids::{DependencyId, WorkspaceId};
use crate::keys::{dependency_taken, taken, taken_error};
use crate::moment::{clock_text, Moment};
use crate::order::{
    arrange, arranged, law_arranged_lists_the_selected, law_unselected_rows_do_not_matter,
    row_numbers, Arrangement, KeyModel, SortKey,
};
use crate::outside::{decode_utf8_lossy, marked_random, utf8_lossy};
use crate::plan::ascending;
use crate::rows::{
    changed, first_index, first_row, is_first, lemma_first, lemma_first_is_first,
    lemma_first_pushed, lemma_no_first,
};
use crate::tables::{DependencyRow, DependencyRowModel, Store, StoreModel};
use crate::text::{
    ascii_alphanumeric, being, characters, concat2, concat3, copy_option, copy_text, filled, join,
    joined, keep_filled, lines, lines_of, marks_of, occurs_in, pieces, same, skip_while,
    split_at_char, stands_at, trim, trim_front_char, trimmed, without_front,
};
use crate::values::{moment_of, parse_timestamp};

verus! {

/// What the caller asks for.
#[derive(Debug, PartialEq, Eq)]
pub struct DependencySpec {
    /// Any form git accepts. Stored as given and normalised for identity.
    pub url: String,
    /// A branch, tag or commit. `None` follows the remote's default branch.
    pub git_ref: Option<String>,
}

/// The contents of a [`DependencySpec`].
#[verifier::ext_equal]
pub struct DependencySpecModel {
    pub url: Seq<char>,
    pub git_ref: Option<Seq<char>>,
}

impl View for DependencySpec {
    type V = DependencySpecModel;

    open spec fn view(&self) -> DependencySpecModel {
        DependencySpecModel {
            url: self.url@,
            git_ref: self.git_ref.deep_view(),
        }
    }
}

impl DeepView for DependencySpec {
    type V = DependencySpecModel;

    open spec fn deep_view(&self) -> DependencySpecModel {
        self@
    }
}

/// Where a dependency stands.
#[derive(Clone, Copy, Debug, PartialEq, Eq, Hash, Structural)]
pub enum DependencyStatus {
    /// Asked for, not yet on disk.
    Declared,
    /// Sources are checked out at the dependency's revision.
    Present,
    /// The last attempt failed; the dependency says why.
    Failed,
}

impl View for DependencyStatus {
    type V = DependencyStatus;

    open spec fn view(&self) -> DependencyStatus {
        *self
    }
}

impl DeepView for DependencyStatus {
    type V = DependencyStatus;

    open spec fn deep_view(&self) -> DependencyStatus {
        *self
    }
}

/// The text a status is written as.
pub open spec fn status_text(status: DependencyStatus) -> Seq<char> {
    match status {
        DependencyStatus::Declared => "declared"@,
        DependencyStatus::Present => "present"@,
        DependencyStatus::Failed => "failed"@,
    }
}

/// The status a text stands for. A text that is none of them stands for a dependency
/// that has only been asked for.
pub open spec fn status_of(text: Seq<char>) -> DependencyStatus {
    if text == "present"@ {
        DependencyStatus::Present
    } else if text == "failed"@ {
        DependencyStatus::Failed
    } else {
        DependencyStatus::Declared
    }
}

impl DependencyStatus {
    /// The text the status is written as.
    pub fn as_str(self) -> (r: &'static str)
        ensures
            r@ == status_text(self),
    {
        match self {
            DependencyStatus::Declared => "declared",
            DependencyStatus::Present => "present",
            DependencyStatus::Failed => "failed",
        }
    }

    /// The status a text stands for.
    pub fn parse(value: &str) -> (r: Self)
        ensures
            r == status_of(value@),
    {
        if same(value, "present") {
            DependencyStatus::Present
        } else if same(value, "failed") {
            DependencyStatus::Failed
        } else {
            DependencyStatus::Declared
        }
    }
}

/// A declared reference checkout.
#[derive(Debug, PartialEq, Eq)]
pub struct Dependency {
    pub id: DependencyId,
    pub workspace_id: WorkspaceId,
    /// The URL as typed. Shown back so that the answer matches the question.
    pub url: String,
    pub identity_key: String,
    pub git_ref: Option<String>,
    /// The on-disk name, `github.com/acme/thing@v1.2.0`.
    pub slug: String,
    pub status: DependencyStatus,
    pub revision: Option<String>,
    pub synced_at: Option<Moment>,
    pub last_error: Option<String>,
}

/// The contents of a [`Dependency`].
#[verifier::ext_equal]
pub struct DependencyModel {
    pub id: DependencyId,
    pub workspace_id: WorkspaceId,
    pub url: Seq<char>,
    pub identity_key: Seq<char>,
    pub git_ref: Option<Seq<char>>,
    pub slug: Seq<char>,
    pub status: DependencyStatus,
    pub revision: Option<Seq<char>>,
    pub synced_at: Option<Moment>,
    pub last_error: Option<Seq<char>>,
}

impl View for Dependency {
    type V = DependencyModel;

    open spec fn view(&self) -> DependencyModel {
        DependencyModel {
            id: self.id,
            workspace_id: self.workspace_id,
            url: self.url@,
            identity_key: self.identity_key@,
            git_ref: self.git_ref.deep_view(),
            slug: self.slug@,
            status: self.status,
            revision: self.revision.deep_view(),
            synced_at: self.synced_at,
            last_error: self.last_error.deep_view(),
        }
    }
}

impl DeepView for Dependency {
    type V = DependencyModel;

    open spec fn deep_view(&self) -> DependencyModel {
        self@
    }
}

impl Dependency {
    /// A copy.
    pub fn dup(&self) -> (r: Self)
        ensures
            r@ == self@,
    {
        Dependency {
            id: self.id,
            workspace_id: self.workspace_id,
            url: copy_text(&self.url),
            identity_key: copy_text(&self.identity_key),
            git_ref: copy_option(&self.git_ref),
            slug: copy_text(&self.slug),
            status: self.status,
            revision: copy_option(&self.revision),
            synced_at: self.synced_at,
            last_error: copy_option(&self.last_error),
        }
    }
}

// --- the path --------------------------------------------------------------

/// A character that may stand in an on-disk name.
pub open spec fn nameable(c: char) -> bool {
    ascii_alphanumeric(c) || c == '.' || c == '-' || c == '_' || c == '+'
}

/// A character that may stand in an on-disk name, or the one that stands for it.
pub open spec fn named(c: char) -> char {
    if nameable(c) {
        c
    } else {
        '-'
    }
}

/// A text with each of its characters nameable.
pub open spec fn all_named(s: Seq<char>) -> Seq<char> {
    Seq::new(s.len(), |i: int| named(s[i]))
}

/// A text with each run of dots as one dot.
pub open spec fn single_dots(s: Seq<char>) -> Seq<char>
    decreases s.len(),
{
    if s.len() == 0 {
        s
    } else {
        let before = single_dots(s.drop_last());
        if s.last() == '.' && before.len() > 0 && before.last() == '.' {
            before
        } else {
            before.push(s.last())
        }
    }
}

/// A segment of an on-disk name. A single dot is needed, hostnames and versions have
/// them, but a run of two is what traverses, so runs collapse and leading dots go.
pub open spec fn sanitised(segment: Seq<char>) -> Seq<char> {
    without_front(single_dots(all_named(segment)), '.')
}

/// The segments of a project's on-disk name.
pub open spec fn slug_segments(identity: Seq<char>) -> Seq<Seq<char>> {
    pieces(identity, marks_of(identity, '/')).map_values(|s: Seq<char>| sanitised(s)).filter(
        |s: Seq<char>| filled(s),
    )
}

/// The on-disk name of a project at a ref.
pub open spec fn slug_of(identity: Seq<char>, git_ref: Option<Seq<char>>) -> Seq<char> {
    let project = joined(slug_segments(identity), "/"@);
    match git_ref {
        Some(reference) => project + "@"@ + sanitised(reference),
        None => project,
    }
}

fn is_nameable(c: char) -> (r: bool)
    ensures
        r == nameable(c),
{
    ('a' <= c && c <= 'z') || ('A' <= c && c <= 'Z') || ('0' <= c && c <= '9') || c == '.' || c
        == '-' || c == '_' || c == '+'
}

/// Restricts a segment of an on-disk name to what cannot traverse.
pub fn sanitise_segment(segment: &str) -> (r: String)
    ensures
        r@ == sanitised(segment@),
{
    let chars = characters(segment);
    let ghost all = all_named(segment@);
    let mut collapsed = String::new();
    let mut dot = false;
    let mut i: usize = 0;
    assert(all.take(0) =~= Seq::<char>::empty());
    assert(collapsed@ =~= Seq::<char>::empty());
    while i < chars.len()
        invariant
            i <= chars@.len(),
            chars@ == segment@,
            all == all_named(segment@),
            collapsed@ == single_dots(all.take(i as int)),
            dot == (collapsed@.len() > 0 && collapsed@.last() == '.'),
        decreases chars@.len() - i,
    {
        let c = if is_nameable(chars[i]) {
            chars[i]
        } else {
            '-'
        };
        assert(all.take(i + 1).drop_last() =~= all.take(i as int));
        assert(all.take(i + 1).last() == c);
        if c != '.' || !dot {
            collapsed.push(c);
            dot = c == '.';
        }
        i += 1;
    }
    assert(all.take(i as int) =~= all);
    trim_front_char(collapsed.as_str(), '.')
}

/// Builds the on-disk name for a project and ref.
///
/// A URL decides a path: every segment is restricted to characters that cannot
/// traverse, and anything else is replaced rather than rejected, so that a legitimate
/// but unusual URL still works.
pub fn slug_for(identity_key: &str, git_ref: &Option<String>) -> (r: String)
    ensures
        r@ == slug_of(identity_key@, git_ref.deep_view()),
{
    let found = split_at_char(identity_key, '/');
    let ghost all = found.deep_view().map_values(|s: Seq<char>| sanitised(s));
    let mut segments: Vec<String> = Vec::new();
    let mut i: usize = 0;
    while i < found.len()
        invariant
            i <= found@.len(),
            all == found.deep_view().map_values(|s: Seq<char>| sanitised(s)),
            segments.deep_view() =~= all.take(i as int),
        decreases found@.len() - i,
    {
        let ghost done = segments.deep_view();
        segments.push(sanitise_segment(found[i].as_str()));
        assert(segments.deep_view() =~= done.push(all[i as int]));
        i += 1;
    }
    assert(all.take(i as int) =~= all);
    let kept = keep_filled(segments);
    let project = join(&kept, "/");
    match git_ref {
        Some(reference) => {
            let clean = sanitise_segment(reference.as_str());
            concat3(project.as_str(), "@", clean.as_str())
        },
        None => project,
    }
}

/// A path below a directory. A path that starts at the root of the filesystem stands
/// for itself.
pub open spec fn below(root: Seq<char>, name: Seq<char>) -> Seq<char> {
    if name.len() > 0 && name[0] == '/' {
        name
    } else if root.len() == 0 || root.last() == '/' {
        root + name
    } else {
        root + "/"@ + name
    }
}

fn path_below(root: &str, name: &str) -> (r: String)
    ensures
        r@ == below(root@, name@),
{
    let named = characters(name);
    if named.len() > 0 && named[0] == '/' {
        return name.to_owned();
    }
    let chars = characters(root);
    if chars.len() == 0 || chars[chars.len() - 1] == '/' {
        concat2(root, name)
    } else {
        concat3(root, "/", name)
    }
}

/// Where a dependency's sources live under `deps_root`.
///
/// The path is a function of the root and the slug: a stored copy could disagree with
/// the filesystem after the state directory moves.
pub fn dependency_checkout(deps_root: &str, dependency: &Dependency) -> (r: String)
    ensures
        r@ == below(deps_root@, dependency@.slug),
{
    path_below(deps_root, dependency.slug.as_str())
}

/// The directories between a checkout and `deps_root`, the innermost first: those a
/// removed checkout may leave empty.
pub open spec fn parents_of(deps_root: Seq<char>, slug: Seq<char>) -> Seq<Seq<char>> {
    let segments = pieces(slug, marks_of(slug, '/'));
    Seq::new(
        (segments.len() - 1) as nat,
        |i: int| below(deps_root, joined(segments.take(segments.len() - 1 - i), "/"@)),
    )
}

/// The directories that removing a checkout may leave empty, the innermost first, up
/// to but never including `deps_root`.
pub fn emptied_parents(deps_root: &str, slug: &str) -> (r: Vec<String>)
    ensures
        r.deep_view() == parents_of(deps_root@, slug@),
{
    let segments = split_at_char(slug, '/');
    let ghost all = segments.deep_view();
    let ghost target = parents_of(deps_root@, slug@);
    let mut rest = segments;
    let mut r: Vec<String> = Vec::new();
    assert(all.take(all.len() as int) =~= all);
    assert(r.deep_view() =~= target.take(0));
    while rest.len() > 1
        invariant
            1 <= rest@.len() <= all.len(),
            all == pieces(slug@, marks_of(slug@, '/')),
            rest.deep_view() == all.take(rest@.len() as int),
            target == parents_of(deps_root@, slug@),
            r.deep_view() =~= target.take(all.len() - rest@.len()),
        decreases rest@.len(),
    {
        let ghost done = r.deep_view();
        let ghost count = rest@.len();
        let ghost before = rest.deep_view();
        let _ = rest.pop();
        assert(rest.deep_view() =~= before.take(count - 1));
        assert(rest.deep_view() =~= all.take(count - 1));
        let inner = join(&rest, "/");
        let path = path_below(deps_root, inner.as_str());
        let ghost next = path@;
        assert(next == target[all.len() - count]);
        r.push(path);
        assert(r.deep_view() =~= done.push(next));
    }
    assert(target.take(all.len() - 1) =~= target);
    r
}

// --- declaring -------------------------------------------------------------

/// The ref that was asked for, if any was.
pub open spec fn wanted_ref(git_ref: Option<Seq<char>>) -> Option<Seq<char>> {
    match git_ref {
        None => None,
        Some(value) => if trimmed(value).len() > 0 {
            Some(trimmed(value))
        } else {
            None
        },
    }
}

/// What a ref is told apart by: following the default branch is a ref of its own.
pub open spec fn ref_key(git_ref: Option<Seq<char>>) -> Seq<char> {
    match git_ref {
        Some(value) => value,
        None => Seq::empty(),
    }
}

/// Being the checkout of a project at a ref, in a workspace.
pub open spec fn is_checkout(
    workspace: WorkspaceId,
    identity: Seq<char>,
    git_ref: Option<Seq<char>>,
) -> spec_fn(DependencyRowModel) -> bool {
    |d: DependencyRowModel|
        d.workspace_id == workspace && d.identity_key == identity && ref_key(d.git_ref) == ref_key(
            git_ref,
        )
}

/// A dependency under another URL.
pub open spec fn respelled(url: Seq<char>) -> spec_fn(DependencyRowModel) -> DependencyRowModel {
    |d: DependencyRowModel| DependencyRowModel { url, ..d }
}

/// A dependency read back. A time that cannot be read is none.
pub open spec fn dependency_of(d: DependencyRowModel) -> DependencyModel {
    DependencyModel {
        id: d.id,
        workspace_id: d.workspace_id,
        url: d.url,
        identity_key: d.identity_key,
        git_ref: d.git_ref,
        slug: d.slug,
        status: d.status,
        revision: d.revision,
        synced_at: match d.synced_at {
            None => None,
            Some(raw) => match moment_of(raw) {
                Ok(moment) => Some(moment),
                Err(_) => None,
            },
        },
        last_error: d.last_error,
    }
}

/// A dependency that has just been declared.
pub open spec fn new_dependency(
    workspace: WorkspaceId,
    asked: DependencySpecModel,
    id: DependencyId,
    now: Seq<char>,
) -> DependencyRowModel {
    let identity = normalized(asked.url);
    DependencyRowModel {
        id,
        workspace_id: workspace,
        url: asked.url,
        identity_key: identity,
        git_ref: wanted_ref(asked.git_ref),
        slug: slug_of(identity, wanted_ref(asked.git_ref)),
        status: DependencyStatus::Declared,
        revision: None,
        synced_at: None,
        last_error: None,
        created_at: now,
    }
}

/// Declaring a dependency. The URL is refreshed rather than ignored: declaring the
/// same project by its HTTPS form after its SSH form is a correction. One that is new needs
/// an identifier that no other has.
pub open spec fn declare_step(
    s: StoreModel,
    workspace: WorkspaceId,
    asked: DependencySpecModel,
    id: DependencyId,
    now: Seq<char>,
) -> (Result<DependencyModel, StoreErrorModel>, StoreModel) {
    let p = is_checkout(workspace, normalized(asked.url), wanted_ref(asked.git_ref));
    match first_row(s.dependencies, p) {
        Some(d) => (
            Ok(dependency_of(respelled(asked.url)(d))),
            StoreModel { dependencies: changed(s.dependencies, p, respelled(asked.url)), ..s },
        ),
        None => if dependency_taken(s, id) {
            (Err(taken("dependencies.id"@)), s)
        } else {
            let added = new_dependency(workspace, asked, id, now);
            (
                Ok(dependency_of(added)),
                StoreModel { dependencies: s.dependencies.push(added), ..s },
            )
        },
    }
}

/// Being the dependency `id`.
pub open spec fn is_dependency(id: DependencyId) -> spec_fn(DependencyRowModel) -> bool {
    |d: DependencyRowModel| d.id == id
}

/// One dependency.
pub open spec fn declared(s: StoreModel, id: DependencyId) -> Result<
    DependencyModel,
    StoreErrorModel,
> {
    match first_row(s.dependencies, is_dependency(id)) {
        Some(d) => Ok(dependency_of(d)),
        None => Err(StoreErrorModel::DependencyNotFound(id)),
    }
}

/// Dependencies ordered by when they were declared.
pub open spec fn declared_keys(dependencies: Seq<DependencyRowModel>) -> Seq<KeyModel> {
    Seq::new(
        dependencies.len(),
        |i: int| KeyModel { rank: 0, weight: 0, text: dependencies[i].created_at },
    )
}

/// The dependencies of a workspace.
pub open spec fn declared_marks(
    dependencies: Seq<DependencyRowModel>,
    workspace: WorkspaceId,
) -> Seq<bool> {
    Seq::new(dependencies.len(), |i: int| dependencies[i].workspace_id == workspace)
}

/// Everything declared for a workspace, oldest first.
pub open spec fn declared_for(s: StoreModel, workspace: WorkspaceId) -> Seq<DependencyModel> {
    let order = arranged(
        declared_keys(s.dependencies),
        declared_marks(s.dependencies, workspace),
        ascending(),
    );
    Seq::new(order.len(), |i: int| dependency_of(s.dependencies[order[i]]))
}

fn read_ref(git_ref: &Option<String>) -> (r: Option<String>)
    ensures
        r.deep_view() == wanted_ref(git_ref.deep_view()),
{
    match git_ref {
        None => None,
        Some(value) => {
            let value = trim(value.as_str());
            if value.as_str().is_empty() {
                None
            } else {
                Some(value)
            }
        },
    }
}

fn same_ref(a: &Option<String>, b: &Option<String>) -> (r: bool)
    ensures
        r == (ref_key(a.deep_view()) == ref_key(b.deep_view())),
{
    match (a, b) {
        (Some(x), Some(y)) => same(x.as_str(), y.as_str()),
        (Some(x), None) => {
            assert(x@.len() == 0 ==> x@ =~= Seq::<char>::empty());
            x.as_str().is_empty()
        },
        (None, Some(y)) => {
            assert(y@.len() == 0 ==> y@ =~= Seq::<char>::empty());
            y.as_str().is_empty()
        },
        (None, None) => true,
    }
}

fn read_dependency(row: &DependencyRow) -> (r: Dependency)
    ensures
        r@ == dependency_of(row@),
{
    let synced_at = match &row.synced_at {
        None => None,
        Some(raw) => match parse_timestamp(raw.as_str()) {
            Ok(moment) => Some(moment),
            Err(_) => None,
        },
    };
    Dependency {
        id: row.id,
        workspace_id: row.workspace_id,
        url: copy_text(&row.url),
        identity_key: copy_text(&row.identity_key),
        git_ref: copy_option(&row.git_ref),
        slug: copy_text(&row.slug),
        status: row.status,
        revision: copy_option(&row.revision),
        synced_at,
        last_error: copy_option(&row.last_error),
    }
}

impl Store {
    fn checkout_at(&self, workspace: WorkspaceId, identity: &str, git_ref: &Option<String>) -> (r:
        Option<usize>)
        ensures
            match r {
                Some(i) => i < self.dependencies@.len() && first_row(
                    self@.dependencies,
                    is_checkout(workspace, identity@, git_ref.deep_view()),
                ) == Some(self@.dependencies[i as int]) && is_checkout(
                    workspace,
                    identity@,
                    git_ref.deep_view(),
                )(self@.dependencies[i as int]),
                None => first_row(
                    self@.dependencies,
                    is_checkout(workspace, identity@, git_ref.deep_view()),
                ) is None,
            },
    {
        let ghost p = is_checkout(workspace, identity@, git_ref.deep_view());
        let mut i: usize = 0;
        while i < self.dependencies.len()
            invariant
                i <= self.dependencies@.len(),
                p == is_checkout(workspace, identity@, git_ref.deep_view()),
                forall|j: int| 0 <= j < i ==> !p(#[trigger] self@.dependencies[j]),
            decreases self.dependencies@.len() - i,
        {
            assert(self@.dependencies[i as int] == self.dependencies@[i as int]@);
            if self.dependencies[i].workspace_id == workspace && same(
                self.dependencies[i].identity_key.as_str(),
                identity,
            ) && same_ref(&self.dependencies[i].git_ref, git_ref) {
                proof {
                    assert(is_first(self@.dependencies, p, i as int));
                    lemma_first(self@.dependencies, p, i as int);
                }
                return Some(i);
            }
            i += 1;
        }
        proof {
            lemma_no_first(self@.dependencies, p);
        }
        None
    }

    fn respell(
        &mut self,
        workspace: WorkspaceId,
        identity: &str,
        git_ref: &Option<String>,
        url: &str,
    )
        ensures
            final(self)@ == (StoreModel {
                dependencies: changed(
                    old(self)@.dependencies,
                    is_checkout(workspace, identity@, git_ref.deep_view()),
                    respelled(url@),
                ),
                ..old(self)@
            }),
    {
        let ghost before = self@;
        let ghost p = is_checkout(workspace, identity@, git_ref.deep_view());
        let ghost after = changed(before.dependencies, p, respelled(url@));
        let mut i: usize = 0;
        while i < self.dependencies.len()
            invariant
                i <= self.dependencies@.len(),
                self.dependencies@.len() == before.dependencies.len(),
                p == is_checkout(workspace, identity@, git_ref.deep_view()),
                after == changed(before.dependencies, p, respelled(url@)),
                self@ == (StoreModel { dependencies: self@.dependencies, ..before }),
                self@.dependencies =~= after.take(i as int) + before.dependencies.skip(i as int),
            decreases self.dependencies@.len() - i,
        {
            let ghost rows = self@.dependencies;
            assert(rows[i as int] == before.dependencies[i as int]);
            if self.dependencies[i].workspace_id == workspace && same(
                self.dependencies[i].identity_key.as_str(),
                identity,
            ) && same_ref(&self.dependencies[i].git_ref, git_ref) {
                self.dependencies[i].url = url.to_owned();
            }
            assert(self@.dependencies[i as int] == after[i as int]);
            assert(self@.dependencies =~= rows.update(i as int, after[i as int]));
            i += 1;
        }
        assert(self@.dependencies =~= after);
    }

    /// Declares a reference checkout under a given identifier, at a given time.
    pub fn declare_dependency_at(
        &mut self,
        workspace: WorkspaceId,
        asked: &DependencySpec,
        id: DependencyId,
        now: &str,
    ) -> (r: Result<Dependency, StoreError>)
        ensures
            (outcome(r), final(self)@) == declare_step(old(self)@, workspace, asked@, id, now@),
    {
        let ghost before = self@;
        let identity = normalize_origin(asked.url.as_str());
        let git_ref = read_ref(&asked.git_ref);
        match self.checkout_at(workspace, identity.as_str(), &git_ref) {
            Some(i) => {
                let ghost p = is_checkout(workspace, identity@, git_ref.deep_view());
                self.respell(workspace, identity.as_str(), &git_ref, asked.url.as_str());
                assert(self@.dependencies.len() == before.dependencies.len());
                assert(self.dependencies@.len() == self@.dependencies.len());
                assert(self@.dependencies[i as int] == respelled(asked@.url)(
                    before.dependencies[i as int],
                ));
                assert(self@.dependencies[i as int] == self.dependencies@[i as int]@);
                Ok(read_dependency(&self.dependencies[i]))
            },
            None => {
                if self.has_dependency(id) {
                    return Err(taken_error("dependencies.id"));
                }
                let slug = slug_for(identity.as_str(), &git_ref);
                let row = DependencyRow {
                    id,
                    workspace_id: workspace,
                    url: copy_text(&asked.url),
                    identity_key: identity,
                    git_ref,
                    slug,
                    status: DependencyStatus::Declared,
                    revision: None,
                    synced_at: None,
                    last_error: None,
                    created_at: now.to_owned(),
                };
                let ghost added = row@;
                assert(added == new_dependency(workspace, asked@, id, now@));
                let r = read_dependency(&row);
                self.dependencies.push(row);
                assert(self@.dependencies =~= before.dependencies.push(added));
                assert(self@ =~= (StoreModel {
                    dependencies: before.dependencies.push(added),
                    ..before
                }));
                Ok(r)
            },
        }
    }

    /// Declares a reference checkout for a workspace.
    ///
    /// Idempotent on the project and ref rather than on an operation: declaring the
    /// same dependency twice is the same request, whoever asks, and inventing a key for
    /// it would only give callers a way to get it wrong.
    pub fn declare_dependency(&mut self, workspace: WorkspaceId, asked: &DependencySpec) -> (r:
        Result<Dependency, StoreError>)
        ensures
            exists|id: DependencyId, now: Seq<char>|
                marked_random(id.0) && clock_text(now) && (outcome(r), final(self)@)
                    == #[trigger] declare_step(
                    old(self)@,
                    workspace,
                    asked@,
                    id,
                    now,
                ),
    {
        let id = DependencyId::new();
        let now = Moment::now().text();
        self.declare_dependency_at(workspace, asked, id, now.as_str())
    }

    /// Everything declared for a workspace, oldest first.
    pub fn dependencies(&self, workspace: WorkspaceId) -> (r: Vec<Dependency>)
        ensures
            r.deep_view() == declared_for(self@, workspace),
    {
        let ghost all_keys = declared_keys(self@.dependencies);
        let ghost all_marks = declared_marks(self@.dependencies, workspace);
        let mut keys: Vec<SortKey> = Vec::new();
        let mut selected: Vec<bool> = Vec::new();
        let mut i: usize = 0;
        while i < self.dependencies.len()
            invariant
                i <= self.dependencies@.len(),
                all_keys == declared_keys(self@.dependencies),
                all_marks == declared_marks(self@.dependencies, workspace),
                keys.deep_view() =~= all_keys.take(i as int),
                selected@ =~= all_marks.take(i as int),
            decreases self.dependencies@.len() - i,
        {
            let key = SortKey {
                rank: 0,
                weight: 0,
                text: copy_text(&self.dependencies[i].created_at),
            };
            assert(key@ == all_keys[i as int]);
            let ghost done = keys.deep_view();
            keys.push(key);
            assert(keys.deep_view() =~= done.push(all_keys[i as int]));
            selected.push(self.dependencies[i].workspace_id == workspace);
            i += 1;
        }
        assert(all_keys.take(i as int) =~= all_keys);
        assert(all_marks.take(i as int) =~= all_marks);
        let order = arrange(
            &keys,
            &selected,
            Arrangement { text_descending: false, newest_row_first: false },
        );
        let ghost target = declared_for(self@, workspace);
        let mut r: Vec<Dependency> = Vec::new();
        let mut k: usize = 0;
        while k < order.len()
            invariant
                k <= order@.len(),
                target == declared_for(self@, workspace),
                row_numbers(order@) == arranged(
                    declared_keys(self@.dependencies),
                    declared_marks(self@.dependencies, workspace),
                    ascending(),
                ),
                forall|i: int|
                    0 <= i < order@.len() ==> #[trigger] order@[i] < self.dependencies@.len(),
                r.deep_view() =~= target.take(k as int),
            decreases order@.len() - k,
        {
            let ghost done = r.deep_view();
            assert(row_numbers(order@)[k as int] == order@[k as int] as int);
            let item = read_dependency(&self.dependencies[order[k]]);
            assert(item@ == target[k as int]);
            r.push(item);
            assert(r.deep_view() =~= done.push(target[k as int]));
            k += 1;
        }
        assert(target.take(k as int) =~= target);
        r
    }

    /// One dependency.
    pub fn dependency(&self, id: DependencyId) -> (r: Result<Dependency, StoreError>)
        ensures
            outcome(r) == declared(self@, id),
    {
        let ghost p = is_dependency(id);
        let mut i: usize = 0;
        while i < self.dependencies.len()
            invariant
                i <= self.dependencies@.len(),
                p == is_dependency(id),
                forall|j: int| 0 <= j < i ==> !p(#[trigger] self@.dependencies[j]),
            decreases self.dependencies@.len() - i,
        {
            assert(self@.dependencies[i as int] == self.dependencies@[i as int]@);
            if self.dependencies[i].id == id {
                proof {
                    assert(is_first(self@.dependencies, p, i as int));
                    lemma_first(self@.dependencies, p, i as int);
                }
                return Ok(read_dependency(&self.dependencies[i]));
            }
            i += 1;
        }
        proof {
            lemma_no_first(self@.dependencies, p);
        }
        Err(StoreError::DependencyNotFound(id))
    }
}

// --- syncing ---------------------------------------------------------------

/// A dependency whose sources are on disk.
pub open spec fn present(revision: Seq<char>, now: Seq<char>) -> spec_fn(
    DependencyRowModel,
) -> DependencyRowModel {
    |d: DependencyRowModel|
        DependencyRowModel {
            status: DependencyStatus::Present,
            revision: Some(revision),
            synced_at: Some(now),
            last_error: None,
            ..d
        }
}

/// A dependency that could not be fetched. The revision is cleared with the checkout:
/// reporting a commit for sources that are no longer there invites citing them.
pub open spec fn absent(reason: Seq<char>) -> spec_fn(DependencyRowModel) -> DependencyRowModel {
    |d: DependencyRowModel|
        DependencyRowModel {
            status: DependencyStatus::Failed,
            revision: None,
            last_error: Some(reason),
            ..d
        }
}

/// What came of bringing a checkout up to date: the revision it now holds, or why it
/// holds none.
pub type Materialised = Result<String, String>;

/// The contents of what came of bringing a checkout up to date.
pub open spec fn reported(result: Materialised) -> Result<Seq<char>, Seq<char>> {
    match result {
        Ok(revision) => Ok(revision@),
        Err(reason) => Err(reason@),
    }
}

/// Recording what came of bringing a checkout up to date. A failure to fetch is
/// recorded and no refusal: a library that cannot be reached right now is a fact about
/// the workspace, not a reason to stop.
pub open spec fn sync_step(
    s: StoreModel,
    id: DependencyId,
    result: Result<Seq<char>, Seq<char>>,
    now: Seq<char>,
) -> (Result<DependencyModel, StoreErrorModel>, StoreModel) {
    let f = match result {
        Ok(revision) => present(revision, now),
        Err(reason) => absent(reason),
    };
    let after = StoreModel { dependencies: changed(s.dependencies, is_dependency(id), f), ..s };
    (declared(after, id), after)
}

/// Being another dependency than `id`.
pub open spec fn is_other(id: DependencyId) -> spec_fn(DependencyRowModel) -> bool {
    |d: DependencyRowModel| d.id != id
}

/// Dropping a declaration, and the checkout that goes with it.
pub open spec fn forget_step(s: StoreModel, id: DependencyId, deps_root: Seq<char>) -> (
    Option<Seq<char>>,
    StoreModel,
) {
    (
        match declared(s, id) {
            Ok(dependency) => Some(below(deps_root, dependency.slug)),
            Err(_) => None,
        },
        StoreModel { dependencies: s.dependencies.filter(is_other(id)), ..s },
    )
}

impl Store {
    /// Records what came of bringing a checkout up to date, at a given time.
    pub fn record_sync_at(&mut self, id: DependencyId, result: &Materialised, now: &str) -> (r:
        Result<Dependency, StoreError>)
        ensures
            (outcome(r), final(self)@) == sync_step(old(self)@, id, reported(*result), now@),
    {
        let ghost before = self@;
        let ghost p = is_dependency(id);
        let ghost f = match reported(*result) {
            Ok(revision) => present(revision, now@),
            Err(reason) => absent(reason),
        };
        let ghost after = changed(before.dependencies, p, f);
        let mut i: usize = 0;
        while i < self.dependencies.len()
            invariant
                i <= self.dependencies@.len(),
                self.dependencies@.len() == before.dependencies.len(),
                p == is_dependency(id),
                f == (match reported(*result) {
                    Ok(revision) => present(revision, now@),
                    Err(reason) => absent(reason),
                }),
                after == changed(before.dependencies, p, f),
                self@ == (StoreModel { dependencies: self@.dependencies, ..before }),
                self@.dependencies =~= after.take(i as int) + before.dependencies.skip(i as int),
            decreases self.dependencies@.len() - i,
        {
            let ghost rows = self@.dependencies;
            assert(rows[i as int] == before.dependencies[i as int]);
            if self.dependencies[i].id == id {
                match result {
                    Ok(revision) => {
                        self.dependencies[i].status = DependencyStatus::Present;
                        self.dependencies[i].revision = Some(copy_text(revision));
                        self.dependencies[i].synced_at = Some(now.to_owned());
                        self.dependencies[i].last_error = None;
                    },
                    Err(reason) => {
                        self.dependencies[i].status = DependencyStatus::Failed;
                        self.dependencies[i].revision = None;
                        self.dependencies[i].last_error = Some(copy_text(reason));
                    },
                }
            }
            assert(self@.dependencies[i as int] == after[i as int]);
            assert(self@.dependencies =~= rows.update(i as int, after[i as int]));
            i += 1;
        }
        assert(self@.dependencies =~= after);
        self.dependency(id)
    }

    /// Records what came of bringing a checkout up to date.
    pub fn record_sync(&mut self, id: DependencyId, result: &Materialised) -> (r: Result<
        Dependency,
        StoreError,
    >)
        ensures
            exists|now: Seq<char>|
                clock_text(now) && (outcome(r), final(self)@) == #[trigger] sync_step(
                    old(self)@,
                    id,
                    reported(*result),
                    now,
                ),
    {
        let now = Moment::now().text();
        self.record_sync_at(id, result, now.as_str())
    }

    /// Drops a declaration. Answers with the checkout that goes with it, if there was a
    /// declaration.
    pub fn forget_dependency(&mut self, id: DependencyId, deps_root: &str) -> (r: Option<String>)
        ensures
            (r.deep_view(), final(self)@) == forget_step(old(self)@, id, deps_root@),
    {
        let ghost before = self@;
        let checkout = match self.dependency(id) {
            Ok(dependency) => Some(dependency_checkout(deps_root, &dependency)),
            Err(_) => None,
        };
        let ghost p = is_other(id);
        let mut kept: Vec<DependencyRow> = Vec::new();
        let mut i: usize = 0;
        assert(before.dependencies.take(0).filter(p) =~= Seq::<DependencyRowModel>::empty()) by {
            reveal(Seq::filter);
        }
        assert(kept.deep_view() =~= Seq::<DependencyRowModel>::empty());
        while i < self.dependencies.len()
            invariant
                i <= self.dependencies@.len(),
                self@ == before,
                p == is_other(id),
                kept.deep_view() =~= before.dependencies.take(i as int).filter(p),
            decreases self.dependencies@.len() - i,
        {
            let ghost row = before.dependencies[i as int];
            proof {
                assert(before.dependencies.take(i + 1) =~= before.dependencies.take(i as int).push(
                    row,
                ));
                before.dependencies.take(i as int).lemma_filter_push(row, p);
            }
            assert(row == self.dependencies@[i as int]@);
            let ghost done = kept.deep_view();
            if self.dependencies[i].id != id {
                kept.push(self.dependencies[i].dup());
                assert(kept.deep_view() =~= done.push(row));
            }
            i += 1;
        }
        assert(before.dependencies.take(i as int) =~= before.dependencies);
        self.dependencies = kept;
        assert(self@ =~= (StoreModel { dependencies: before.dependencies.filter(p), ..before }));
        checkout
    }
}

// --- driving git -----------------------------------------------------------

/// How far bringing a checkout up to date has come: what the command that is running
/// does.
#[derive(Clone, Copy, Debug, PartialEq, Eq, Structural)]
pub enum SyncStage {
    /// Cloning at the ref that is wanted.
    Cloning,
    /// Cloning the default branch, because the ref could not be cloned: `--branch`
    /// takes a branch or a tag and refuses a commit.
    Recloning,
    /// Fetching the wanted ref into a clone of the default branch.
    FetchingPinned,
    /// Moving such a clone to what was fetched.
    ResettingPinned,
    /// Fetching into a checkout that was there before.
    Fetching,
    /// Moving such a checkout to what was fetched.
    Resetting,
    /// Reading the revision the checkout holds.
    ReadingHead,
}

/// What is to be done next.
pub enum SyncStep {
    /// Run git with these arguments, removing the checkout first where it says so.
    Run { stage: SyncStage, clear_first: bool, args: Vec<String> },
    /// Nothing more.
    Finished(Materialised),
}

/// The contents of a [`SyncStep`].
#[verifier::ext_equal]
pub enum SyncStepModel {
    Run { stage: SyncStage, clear_first: bool, args: Seq<Seq<char>> },
    Finished(Result<Seq<char>, Seq<char>>),
}

impl View for SyncStep {
    type V = SyncStepModel;

    open spec fn view(&self) -> SyncStepModel {
        match self {
            SyncStep::Run { stage, clear_first, args } => SyncStepModel::Run {
                stage: *stage,
                clear_first: *clear_first,
                args: args.deep_view(),
            },
            SyncStep::Finished(result) => SyncStepModel::Finished(reported(*result)),
        }
    }
}

/// Cloning at a ref.
pub open spec fn clone_args(
    url: Seq<char>,
    git_ref: Option<Seq<char>>,
    checkout: Seq<char>,
) -> Seq<Seq<char>> {
    match git_ref {
        Some(reference) => seq![
            "clone"@,
            "--depth"@,
            "1"@,
            "--branch"@,
            reference,
            "--"@,
            url,
            checkout,
        ],
        None => seq!["clone"@, "--depth"@, "1"@, "--"@, url, checkout],
    }
}

/// Fetching a ref; the head of the remote where none is wanted.
pub open spec fn fetch_args(git_ref: Option<Seq<char>>, checkout: Seq<char>) -> Seq<Seq<char>> {
    let reference = match git_ref {
        Some(reference) => reference,
        None => "HEAD"@,
    };
    seq!["-C"@, checkout, "fetch"@, "--depth"@, "1"@, "origin"@, reference]
}

/// Moving a checkout to what was fetched. Reset rather than merge: a reference
/// checkout has no local work to preserve.
pub open spec fn reset_args(checkout: Seq<char>) -> Seq<Seq<char>> {
    seq!["-C"@, checkout, "reset"@, "--hard"@, "FETCH_HEAD"@]
}

/// Reading the revision of a checkout.
pub open spec fn head_args(checkout: Seq<char>) -> Seq<Seq<char>> {
    seq!["-C"@, checkout, "rev-parse"@, "HEAD"@]
}

/// The first step: a checkout that is there is updated, and otherwise cloned.
pub open spec fn first_step(
    dependency: DependencyModel,
    checkout: Seq<char>,
    is_there: bool,
) -> SyncStepModel {
    if is_there {
        SyncStepModel::Run {
            stage: SyncStage::Fetching,
            clear_first: false,
            args: fetch_args(dependency.git_ref, checkout),
        }
    } else {
        SyncStepModel::Run {
            stage: SyncStage::Cloning,
            clear_first: false,
            args: clone_args(dependency.url, dependency.git_ref, checkout),
        }
    }
}

/// Reading the revision, as a step.
pub open spec fn reading_step(checkout: Seq<char>) -> SyncStepModel {
    SyncStepModel::Run {
        stage: SyncStage::ReadingHead,
        clear_first: false,
        args: head_args(checkout),
    }
}

/// Why a pinned ref could not be checked out.
pub open spec fn unresolved(reference: Seq<char>, reason: Seq<char>) -> Seq<char> {
    "cloned, but "@ + reference + " could not be resolved: "@ + reason
}

/// The step after a command came to an end: with what it printed, or why it failed.
pub open spec fn step_after(
    dependency: DependencyModel,
    checkout: Seq<char>,
    stage: SyncStage,
    came: Result<Seq<char>, Seq<char>>,
) -> SyncStepModel {
    match (stage, came) {
        (SyncStage::Cloning, Ok(_)) => reading_step(checkout),
        (SyncStage::Cloning, Err(_)) => SyncStepModel::Run {
            stage: SyncStage::Recloning,
            clear_first: true,
            args: clone_args(dependency.url, None, checkout),
        },
        (SyncStage::Recloning, Ok(_)) => match dependency.git_ref {
            Some(_) => SyncStepModel::Run {
                stage: SyncStage::FetchingPinned,
                clear_first: false,
                args: fetch_args(dependency.git_ref, checkout),
            },
            None => reading_step(checkout),
        },
        (SyncStage::FetchingPinned, Ok(_)) => SyncStepModel::Run {
            stage: SyncStage::ResettingPinned,
            clear_first: false,
            args: reset_args(checkout),
        },
        (SyncStage::Fetching, Ok(_)) => SyncStepModel::Run {
            stage: SyncStage::Resetting,
            clear_first: false,
            args: reset_args(checkout),
        },
        (SyncStage::ResettingPinned, Ok(_)) => reading_step(checkout),
        (SyncStage::Resetting, Ok(_)) => reading_step(checkout),
        (SyncStage::ReadingHead, Ok(printed)) => SyncStepModel::Finished(Ok(trimmed(printed))),
        (SyncStage::FetchingPinned, Err(reason)) => SyncStepModel::Finished(
            Err(unresolved(ref_key(dependency.git_ref), reason)),
        ),
        (SyncStage::ResettingPinned, Err(reason)) => SyncStepModel::Finished(
            Err(unresolved(ref_key(dependency.git_ref), reason)),
        ),
        (_, Err(reason)) => SyncStepModel::Finished(Err(reason)),
    }
}

fn push_text(list: &mut Vec<String>, text: &str)
    ensures
        final(list).deep_view() == old(list).deep_view().push(text@),
{
    let ghost before = list.deep_view();
    list.push(text.to_owned());
    assert(list.deep_view() =~= before.push(text@));
}

fn clone_arguments(url: &str, git_ref: &Option<String>, checkout: &str) -> (r: Vec<String>)
    ensures
        r.deep_view() == clone_args(url@, git_ref.deep_view(), checkout@),
{
    let mut args: Vec<String> = Vec::new();
    push_text(&mut args, "clone");
    push_text(&mut args, "--depth");
    push_text(&mut args, "1");
    if let Some(reference) = git_ref {
        push_text(&mut args, "--branch");
        push_text(&mut args, reference.as_str());
    }
    push_text(&mut args, "--");
    push_text(&mut args, url);
    push_text(&mut args, checkout);
    assert(args.deep_view() =~= clone_args(url@, git_ref.deep_view(), checkout@));
    args
}

fn fetch_arguments(git_ref: &Option<String>, checkout: &str) -> (r: Vec<String>)
    ensures
        r.deep_view() == fetch_args(git_ref.deep_view(), checkout@),
{
    let mut args: Vec<String> = Vec::new();
    push_text(&mut args, "-C");
    push_text(&mut args, checkout);
    push_text(&mut args, "fetch");
    push_text(&mut args, "--depth");
    push_text(&mut args, "1");
    push_text(&mut args, "origin");
    match git_ref {
        Some(reference) => {
            push_text(&mut args, reference.as_str());
        },
        None => {
            push_text(&mut args, "HEAD");
        },
    }
    assert(args.deep_view() =~= fetch_args(git_ref.deep_view(), checkout@));
    args
}

fn reset_arguments(checkout: &str) -> (r: Vec<String>)
    ensures
        r.deep_view() == reset_args(checkout@),
{
    let mut args: Vec<String> = Vec::new();
    push_text(&mut args, "-C");
    push_text(&mut args, checkout);
    push_text(&mut args, "reset");
    push_text(&mut args, "--hard");
    push_text(&mut args, "FETCH_HEAD");
    assert(args.deep_view() =~= reset_args(checkout@));
    args
}

fn head_arguments(checkout: &str) -> (r: Vec<String>)
    ensures
        r.deep_view() == head_args(checkout@),
{
    let mut args: Vec<String> = Vec::new();
    push_text(&mut args, "-C");
    push_text(&mut args, checkout);
    push_text(&mut args, "rev-parse");
    push_text(&mut args, "HEAD");
    assert(args.deep_view() =~= head_args(checkout@));
    args
}

fn run_step(stage: SyncStage, clear_first: bool, args: Vec<String>) -> (r: SyncStep)
    ensures
        r@ == (SyncStepModel::Run { stage, clear_first, args: args.deep_view() }),
{
    SyncStep::Run { stage, clear_first, args }
}

/// How bringing a checkout up to date begins. `is_there` says whether the checkout is
/// a repository already.
pub fn begin_sync(dependency: &Dependency, checkout: &str, is_there: bool) -> (r: SyncStep)
    ensures
        r@ == first_step(dependency@, checkout@, is_there),
{
    if is_there {
        run_step(SyncStage::Fetching, false, fetch_arguments(&dependency.git_ref, checkout))
    } else {
        run_step(
            SyncStage::Cloning,
            false,
            clone_arguments(dependency.url.as_str(), &dependency.git_ref, checkout),
        )
    }
}

/// How bringing a checkout up to date goes on when a command came to an end: with what
/// it printed, or why it failed.
pub fn continue_sync(
    dependency: &Dependency,
    checkout: &str,
    stage: SyncStage,
    came: &Materialised,
) -> (r: SyncStep)
    ensures
        r@ == step_after(dependency@, checkout@, stage, reported(*came)),
{
    match came {
        Ok(printed) => match stage {
            SyncStage::Cloning | SyncStage::ResettingPinned | SyncStage::Resetting => run_step(
                SyncStage::ReadingHead,
                false,
                head_arguments(checkout),
            ),
            SyncStage::Recloning => if dependency.git_ref.is_some() {
                run_step(
                    SyncStage::FetchingPinned,
                    false,
                    fetch_arguments(&dependency.git_ref, checkout),
                )
            } else {
                run_step(SyncStage::ReadingHead, false, head_arguments(checkout))
            },
            SyncStage::FetchingPinned => run_step(
                SyncStage::ResettingPinned,
                false,
                reset_arguments(checkout),
            ),
            SyncStage::Fetching => run_step(SyncStage::Resetting, false, reset_arguments(checkout)),
            SyncStage::ReadingHead => SyncStep::Finished(Ok(trim(printed.as_str()))),
        },
        Err(reason) => match stage {
            SyncStage::Cloning => run_step(
                SyncStage::Recloning,
                true,
                clone_arguments(dependency.url.as_str(), &None, checkout),
            ),
            SyncStage::FetchingPinned | SyncStage::ResettingPinned => {
                let wanted = match &dependency.git_ref {
                    Some(reference) => copy_text(reference),
                    None => String::new(),
                };
                assert(wanted@ =~= ref_key(dependency@.git_ref));
                let first = concat3("cloned, but ", wanted.as_str(), " could not be resolved: ");
                SyncStep::Finished(Err(concat2(first.as_str(), reason.as_str())))
            },
            _ => SyncStep::Finished(Err(copy_text(reason))),
        },
    }
}

/// The last line that is not blank, without the space around it; a plain statement
/// where there is none.
pub open spec fn last_words(found: Seq<Seq<char>>) -> Seq<char>
    decreases found.len(),
{
    if found.len() == 0 {
        "git failed"@
    } else if trimmed(found.last()).len() > 0 {
        trimmed(found.last())
    } else {
        last_words(found.drop_last())
    }
}

/// The useful line of what git printed about a failure: its diagnostics are verbose and
/// it is usually the last one.
pub fn diagnosis(text: &str) -> (r: String)
    ensures
        r@ == last_words(lines_of(text@)),
{
    let found = lines(text);
    let ghost all = found.deep_view();
    let mut i: usize = found.len();
    assert(all.take(i as int) =~= all);
    while i > 0
        invariant
            i <= found@.len(),
            all == found.deep_view(),
            all == lines_of(text@),
            last_words(all) == last_words(all.take(i as int)),
        decreases i,
    {
        i -= 1;
        assert(all.take(i + 1).last() == found@[i as int]@);
        assert(all.take(i + 1).drop_last() =~= all.take(i as int));
        let line = trim(found[i].as_str());
        if !line.as_str().is_empty() {
            return line;
        }
    }
    "git failed".to_owned()
}

/// The useful line of git's standard error.
pub fn stderr_of(stderr: &Vec<u8>) -> (r: String)
    ensures
        r@ == last_words(lines_of(utf8_lossy(stderr@))),
{
    let text = decode_utf8_lossy(stderr);
    diagnosis(text.as_str())
}

// --- laws ------------------------------------------------------------------

/// Holding no two dots in a row.
pub open spec fn no_dot_pair(s: Seq<char>) -> bool {
    forall|i: int, j: int|
        0 <= i && j == i + 1 && j < s.len() && #[trigger] s[i] == '.' ==> #[trigger] s[j] != '.'
}

/// A name that cannot traverse: no slash in it, no two dots in a row, and none at its
/// front.
pub open spec fn harmless(s: Seq<char>) -> bool {
    &&& no_dot_pair(s)
    &&& s.len() > 0 ==> s[0] != '.'
    &&& forall|i: int| 0 <= i < s.len() ==> nameable(#[trigger] s[i])
}

proof fn lemma_single_dots(s: Seq<char>)
    requires
        forall|i: int| 0 <= i < s.len() ==> nameable(#[trigger] s[i]),
    ensures
        no_dot_pair(single_dots(s)),
        forall|i: int| 0 <= i < single_dots(s).len() ==> nameable(#[trigger] single_dots(s)[i]),
    decreases s.len(),
{
    if s.len() > 0 {
        lemma_single_dots(s.drop_last());
    }
}

proof fn lemma_skip_while_is_suffix(s: Seq<char>, p: spec_fn(char) -> bool) -> (k: int)
    ensures
        0 <= k <= s.len(),
        skip_while(s, p) == s.skip(k),
        k < s.len() ==> !p(s[k]),
    decreases s.len(),
{
    if s.len() > 0 && p(s[0]) {
        let k = lemma_skip_while_is_suffix(s.drop_first(), p);
        assert(s.drop_first().skip(k) =~= s.skip(k + 1));
        k + 1
    } else {
        assert(s.skip(0) =~= s);
        0
    }
}

/// Whatever a segment was, its on-disk name cannot traverse.
pub proof fn law_a_segment_is_harmless(segment: Seq<char>)
    ensures
        harmless(sanitised(segment)),
{
    let mapped = all_named(segment);
    lemma_single_dots(mapped);
    let collapsed = single_dots(mapped);
    let k = lemma_skip_while_is_suffix(collapsed, being('.'));
    let r = sanitised(segment);
    assert(r == collapsed.skip(k));
    assert forall|i: int, j: int|
        0 <= i && j == i + 1 && j < r.len() && #[trigger] r[i] == '.' implies #[trigger] r[j]
        != '.' by {
        assert(r[i] == collapsed[i + k]);
        assert(r[j] == collapsed[j + k]);
    }
    assert forall|i: int| 0 <= i < r.len() implies nameable(#[trigger] r[i]) by {
        assert(r[i] == collapsed[i + k]);
    }
}

proof fn lemma_concat_no_dot_pair(a: Seq<char>, b: Seq<char>)
    requires
        no_dot_pair(a),
        no_dot_pair(b),
        b.len() > 0 ==> b[0] != '.',
    ensures
        no_dot_pair(a + b),
{
    let s = a + b;
    assert forall|i: int, j: int|
        0 <= i && j == i + 1 && j < s.len() && #[trigger] s[i] == '.' implies #[trigger] s[j]
        != '.' by {
        if j < a.len() {
            assert(a[i] == s[i] && a[j] == s[j]);
        } else if i >= a.len() {
            assert(b[i - a.len()] == s[i] && b[j - a.len()] == s[j]);
        } else {
            assert(b[0] == s[j]);
        }
    }
}

proof fn lemma_joined_is_harmless(parts: Seq<Seq<char>>)
    requires
        forall|i: int|
            0 <= i < parts.len() ==> (#[trigger] parts[i]).len() > 0 && harmless(parts[i]),
    ensures
        no_dot_pair(joined(parts, "/"@)),
        parts.len() > 0 ==> joined(parts, "/"@).len() > 0,
        joined(parts, "/"@).len() > 0 ==> joined(parts, "/"@)[0] != '.' && joined(parts, "/"@)[0]
            != '/',
    decreases parts.len(),
{
    reveal_strlit("/");
    if parts.len() == 1 {
        assert(nameable(parts[0][0]));
    } else if parts.len() > 1 {
        let front = joined(parts.drop_last(), "/"@);
        lemma_joined_is_harmless(parts.drop_last());
        lemma_concat_no_dot_pair(front, "/"@);
        lemma_concat_no_dot_pair(front + "/"@, parts.last());
    }
}

/// A URL decides a path, and whatever the URL and the ref, the path stays below the
/// directory of the checkouts: the on-disk name holds no `..` and does not start at the
/// root of the filesystem, so that every checkout's path starts with that directory.
pub proof fn law_a_slug_stays_below_the_root(
    deps_root: Seq<char>,
    identity: Seq<char>,
    git_ref: Option<Seq<char>>,
)
    ensures
        !occurs_in(".."@, slug_of(identity, git_ref)),
        slug_of(identity, git_ref).len() > 0 ==> slug_of(identity, git_ref)[0] != '/',
        deps_root.is_prefix_of(below(deps_root, slug_of(identity, git_ref))),
{
    reveal_strlit("..");
    reveal_strlit("/");
    reveal_strlit("@");
    let whole = pieces(identity, marks_of(identity, '/')).map_values(|s: Seq<char>| sanitised(s));
    let parts = slug_segments(identity);
    assert forall|i: int| 0 <= i < parts.len() implies (#[trigger] parts[i]).len() > 0 && harmless(
        parts[i],
    ) by {
        whole.lemma_filter_contains_rev(|s: Seq<char>| filled(s), parts[i]);
        let j = choose|j: int| 0 <= j < whole.len() && whole[j] == parts[i];
        law_a_segment_is_harmless(pieces(identity, marks_of(identity, '/'))[j]);
    }
    lemma_joined_is_harmless(parts);
    let slug = slug_of(identity, git_ref);
    let project = joined(parts, "/"@);
    if let Some(reference) = git_ref {
        law_a_segment_is_harmless(reference);
        lemma_concat_no_dot_pair(project, "@"@);
        lemma_concat_no_dot_pair(project + "@"@, sanitised(reference));
    }
    assert(no_dot_pair(slug));
    if occurs_in(".."@, slug) {
        let at = choose|at: int| stands_at(slug, ".."@, at);
        assert(slug.subrange(at, at + 2)[0] == slug[at]);
        assert(slug.subrange(at, at + 2)[1] == slug[at + 1]);
    }
}

/// A status survives being written and read.
pub proof fn law_a_status_reads_back(status: DependencyStatus)
    ensures
        status_of(status_text(status)) == status,
{
    reveal_strlit("declared");
    reveal_strlit("present");
    reveal_strlit("failed");
    assert("declared"@.len() == 8 && "present"@.len() == 7 && "failed"@.len() == 6);
}

/// Declaring the same project at the same ref again, in whichever form its URL is
/// written, is the same dependency: no second checkout is added, and the identifier
/// stays.
pub proof fn law_declaring_again_adds_nothing(
    s: StoreModel,
    workspace: WorkspaceId,
    asked: DependencySpecModel,
    again: DependencySpecModel,
    id: DependencyId,
    other: DependencyId,
    now: Seq<char>,
    later: Seq<char>,
)
    requires
        normalized(again.url) == normalized(asked.url),
        wanted_ref(again.git_ref) == wanted_ref(asked.git_ref),
        declare_step(s, workspace, asked, id, now).0 is Ok,
    ensures
        ({
            let (first, after) = declare_step(s, workspace, asked, id, now);
            let (second, last) = declare_step(after, workspace, again, other, later);
            &&& second is Ok
            &&& second->Ok_0 == (DependencyModel { url: again.url, ..first->Ok_0 })
            &&& last.dependencies.len() == after.dependencies.len()
        }),
{
    let p = is_checkout(workspace, normalized(asked.url), wanted_ref(asked.git_ref));
    let f = respelled(asked.url);
    let after = declare_step(s, workspace, asked, id, now).1;
    lemma_first_is_first(s.dependencies, p);
    match first_index(s.dependencies, p) {
        Some(i) => {
            lemma_first(s.dependencies, p, i);
            assert(is_first(after.dependencies, p, i));
            lemma_first(after.dependencies, p, i);
        },
        None => {
            lemma_first_pushed(
                s.dependencies,
                p,
                new_dependency(workspace, asked, id, now),
            );
        },
    }
}

/// Another ref of a project is another dependency: it gets a checkout of its own under an
/// identifier that no other has, and the one that was there stays as it is.
pub proof fn law_another_ref_is_another_dependency(
    s: StoreModel,
    workspace: WorkspaceId,
    asked: DependencySpecModel,
    id: DependencyId,
    now: Seq<char>,
)
    requires
        forall|i: int|
            0 <= i < s.dependencies.len() ==> {
                let d = #[trigger] s.dependencies[i];
                d.workspace_id != workspace || d.identity_key != normalized(asked.url) || ref_key(
                    d.git_ref,
                ) != ref_key(wanted_ref(asked.git_ref))
            },
        declare_step(s, workspace, asked, id, now).0 is Ok,
    ensures
        declare_step(s, workspace, asked, id, now).1.dependencies == s.dependencies.push(
            new_dependency(workspace, asked, id, now),
        ),
        declare_step(s, workspace, asked, id, now).0->Ok_0.id == id,
        !dependency_taken(s, id),
{
    let p = is_checkout(workspace, normalized(asked.url), wanted_ref(asked.git_ref));
    assert(forall|i: int| 0 <= i < s.dependencies.len() ==> !p(#[trigger] s.dependencies[i]));
    lemma_no_first(s.dependencies, p);
}

/// Declared in another workspace, or at another ref, or of another project, a dependency is
/// not the one that was declared before: it has another identifier.
pub proof fn law_another_declaration_is_another_dependency(
    s: StoreModel,
    workspace: WorkspaceId,
    asked: DependencySpecModel,
    id: DependencyId,
    now: Seq<char>,
    other_workspace: WorkspaceId,
    other: DependencySpecModel,
    other_id: DependencyId,
    later: Seq<char>,
)
    requires
        s.well_formed(),
        declare_step(s, workspace, asked, id, now).0 is Ok,
        declare_step(
            declare_step(s, workspace, asked, id, now).1,
            other_workspace,
            other,
            other_id,
            later,
        ).0 is Ok,
        other_workspace != workspace || normalized(other.url) != normalized(asked.url) || ref_key(
            wanted_ref(other.git_ref),
        ) != ref_key(wanted_ref(asked.git_ref)),
    ensures
        ({
            let (first, after) = declare_step(s, workspace, asked, id, now);
            declare_step(after, other_workspace, other, other_id, later).0->Ok_0.id
                != first->Ok_0.id
        }),
{
    let p = is_checkout(workspace, normalized(asked.url), wanted_ref(asked.git_ref));
    let q = is_checkout(other_workspace, normalized(other.url), wanted_ref(other.git_ref));
    let (first, after) = declare_step(s, workspace, asked, id, now);
    let rows = after.dependencies;
    lemma_first_is_first(s.dependencies, p);
    lemma_first_is_first(rows, q);
    let at: int = match first_index(s.dependencies, p) {
        Some(i) => i,
        None => s.dependencies.len() as int,
    };
    assert(0 <= at < rows.len() && p(rows[at]) && rows[at].id == first->Ok_0.id) by {
        if let Some(i) = first_index(s.dependencies, p) {
            lemma_first(s.dependencies, p, i);
        } else {
            lemma_no_first(s.dependencies, p);
        }
    }
    assert forall|i: int, j: int| 0 <= i < j < rows.len() implies (#[trigger] rows[i]).id != (
    #[trigger] rows[j]).id by {
        if j < s.dependencies.len() {
            assert(s.dependencies[i].id != s.dependencies[j].id);
        } else {
            assert(s.dependencies[i].id != id);
        }
    }
    match first_index(rows, q) {
        Some(k) => {
            lemma_first(rows, q, k);
            assert(q(rows[k]));
            assert(k != at);
        },
        None => {
            assert(rows[at].id != other_id);
        },
    }
}

/// A dependency belongs to the workspace that declared it: what is declared for any
/// other workspace stays what it was.
pub proof fn law_a_dependency_belongs_to_its_workspace(
    s: StoreModel,
    workspace: WorkspaceId,
    asked: DependencySpecModel,
    id: DependencyId,
    now: Seq<char>,
    other: WorkspaceId,
)
    requires
        other != workspace,
    ensures
        declared_for(declare_step(s, workspace, asked, id, now).1, other) == declared_for(s, other),
{
    let after = declare_step(s, workspace, asked, id, now).1;
    let keys = declared_keys(s.dependencies);
    let marks = declared_marks(s.dependencies, other);
    let more_keys = declared_keys(after.dependencies);
    let more_marks = declared_marks(after.dependencies, other);
    law_unselected_rows_do_not_matter(keys, marks, more_keys, more_marks, ascending());
    law_arranged_lists_the_selected(keys, marks, ascending());
    let order = arranged(keys, marks, ascending());
    assert forall|i: int| 0 <= i < order.len() implies dependency_of(
        after.dependencies[#[trigger] order[i]],
    ) == dependency_of(s.dependencies[order[i]]) by {
        assert(marks[order[i]]);
    }
    assert(declared_for(after, other) =~= declared_for(s, other));
}

/// Bringing a checkout up to date settles where a dependency stands: with its sources
/// it is present at their revision and no error is left of an earlier attempt; without
/// them it has failed, says why, and cites no revision.
pub proof fn law_a_sync_settles_the_dependency(
    s: StoreModel,
    id: DependencyId,
    result: Result<Seq<char>, Seq<char>>,
    now: Seq<char>,
)
    requires
        declared(s, id) is Ok,
    ensures
        match (result, sync_step(s, id, result, now).0) {
            (Ok(revision), Ok(d)) => d.status == DependencyStatus::Present && d.revision == Some(
                revision,
            ) && d.last_error is None,
            (Err(reason), Ok(d)) => d.status == DependencyStatus::Failed && d.revision is None
                && d.last_error == Some(reason),
            _ => false,
        },
{
    let p = is_dependency(id);
    let after = sync_step(s, id, result, now).1;
    lemma_first_is_first(s.dependencies, p);
    if let Some(i) = first_index(s.dependencies, p) {
        assert(is_first(after.dependencies, p, i));
        lemma_first(after.dependencies, p, i);
    }
}

/// A forgotten dependency is gone, and every other one is still there.
pub proof fn law_forgetting_removes_just_that(s: StoreModel, id: DependencyId, other: DependencyId)
    ensures
        ({
            let after = StoreModel { dependencies: s.dependencies.filter(is_other(id)), ..s };
            &&& declared(after, id) is Err
            &&& other != id ==> (declared(after, other) is Ok <==> declared(s, other) is Ok)
        }),
{
    let kept = s.dependencies.filter(is_other(id));
    let p = is_dependency(id);
    assert forall|i: int| 0 <= i < kept.len() implies !p(#[trigger] kept[i]) by {
        s.dependencies.lemma_filter_pred(is_other(id), i);
    }
    lemma_no_first(kept, p);
    if other != id {
        let q = is_dependency(other);
        lemma_first_is_first(s.dependencies, q);
        lemma_first_is_first(kept, q);
        if let Some(i) = first_index(s.dependencies, q) {
            s.dependencies.lemma_filter_contains(is_other(id), i);
            let k = choose|k: int| 0 <= k < kept.len() && kept[k] == s.dependencies[i];
            assert(q(kept[k]));
        }
        if let Some(i) = first_index(kept, q) {
            s.dependencies.lemma_filter_contains_rev(is_other(id), kept[i]);
            let k = choose|k: int| 0 <= k < s.dependencies.len() && s.dependencies[k] == kept[i];
            assert(q(s.dependencies[k]));
        }
    }
}

/// How many commands may still follow a stage.
pub open spec fn commands_left(stage: SyncStage) -> nat {
    match stage {
        SyncStage::Cloning => 5,
        SyncStage::Recloning => 4,
        SyncStage::FetchingPinned => 3,
        SyncStage::ResettingPinned => 2,
        SyncStage::Fetching => 3,
        SyncStage::Resetting => 2,
        SyncStage::ReadingHead => 1,
    }
}

/// Bringing a checkout up to date comes to an end, whatever git answers: each command
/// leaves fewer to run.
pub proof fn law_a_sync_ends(
    dependency: DependencyModel,
    checkout: Seq<char>,
    stage: SyncStage,
    came: Result<Seq<char>, Seq<char>>,
)
    ensures
        step_after(dependency, checkout, stage, came) matches SyncStepModel::Run {
            stage: next,
            ..
        } ==> commands_left(next) < commands_left(stage),
{
}

} // verus!
