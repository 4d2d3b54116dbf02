//! Noticing what has not been set up, and proposing it.
//!
//! A repository is registered the first time a session opens in it, so nothing has to
//! be configured before it works. That leaves one thing undone: grouping. Fifty
//! checkouts of one organisation side by side are not fifty projects. Grouping cannot
//! be inferred safely enough to do silently, since a parent directory is also where
//! unrelated work lives, so it is proposed and confirmed instead.

use vstd::prelude::*;

use crate::git::{
    https_form, law_ssh_and_https_forms_agree, normalize_origin, normalized, plain_host,
    plain_path, ssh_form, RepositoryProbe, RepositoryProbeModel,
};
use crate::ids::WorkspaceId;
use crate::order::{
    arrange, arranged, law_arranged_lists_the_selected, row_numbers, Arrangement, KeyModel, SortKey,
};
use crate::paths::{parent_name, parent_name_of};
use crate::plan::ascending;
use crate::rows::{first_row, is_first, lemma_first, lemma_no_first};
use crate::tables::{RepositoryRowModel, Store, StoreModel, WorkspaceRowModel};
use crate::text::{
    after_last, characters, concat3, copy_option, copy_text, cut_at, lines, lines_of,
    list_contains, lower, lowered, marks_of, pieces, same, same_option, split_at_char, split_once,
    tail_after, trim, trimmed,
};

verus! {

/// How many checkouts it takes to be worth asking about: one repository is not a group.
pub const MIN_GROUP: usize = 2;

/// A directory beside the repository in question, and its origin.
#[derive(Debug, PartialEq, Eq)]
pub struct Sibling {
    pub root: String,
    pub origin_url: Option<String>,
}

/// The contents of a [`Sibling`].
#[verifier::ext_equal]
pub struct SiblingModel {
    pub root: Seq<char>,
    pub origin_url: Option<Seq<char>>,
}

impl View for Sibling {
    type V = SiblingModel;

    open spec fn view(&self) -> SiblingModel {
        SiblingModel {
            root: self.root@,
            origin_url: self.origin_url.deep_view(),
        }
    }
}

impl DeepView for Sibling {
    type V = SiblingModel;

    open spec fn deep_view(&self) -> SiblingModel {
        self@
    }
}

impl Sibling {
    /// A copy.
    pub fn dup(&self) -> (r: Self)
        ensures
            r@ == self@,
    {
        Sibling {
            root: copy_text(&self.root),
            origin_url: copy_option(&self.origin_url),
        }
    }
}

/// What setup found, and what it would do about it.
#[derive(Debug, PartialEq, Eq)]
pub struct GroupingProposal {
    /// The repository the question was asked from.
    pub root: String,
    /// The organisation these checkouts share, `github.com/wbbank`.
    pub organisation: Option<String>,
    /// What the group would be called. `None` when there is nothing to propose.
    pub suggested_name: Option<String>,
    /// Everything the group would contain, the repository itself included.
    pub siblings: Vec<Sibling>,
    /// True when these already share a named workspace.
    pub already_grouped: bool,
    pub workspace_name: Option<String>,
}

/// The contents of a [`GroupingProposal`].
#[verifier::ext_equal]
pub struct GroupingProposalModel {
    pub root: Seq<char>,
    pub organisation: Option<Seq<char>>,
    pub suggested_name: Option<Seq<char>>,
    pub siblings: Seq<SiblingModel>,
    pub already_grouped: bool,
    pub workspace_name: Option<Seq<char>>,
}

impl View for GroupingProposal {
    type V = GroupingProposalModel;

    open spec fn view(&self) -> GroupingProposalModel {
        GroupingProposalModel {
            root: self.root@,
            organisation: self.organisation.deep_view(),
            suggested_name: self.suggested_name.deep_view(),
            siblings: self.siblings.deep_view(),
            already_grouped: self.already_grouped,
            workspace_name: self.workspace_name.deep_view(),
        }
    }
}

impl DeepView for GroupingProposal {
    type V = GroupingProposalModel;

    open spec fn deep_view(&self) -> GroupingProposalModel {
        self@
    }
}

// --- whose checkouts these are ---------------------------------------------

/// The host and organisation part of a normalised origin. Deliberately not the host
/// alone: two projects on one host have nothing in common.
pub open spec fn organisation_in(identity: Seq<char>) -> Option<Seq<char>> {
    let parts = pieces(identity, marks_of(identity, '/'));
    if parts.len() >= 2 && parts[0].len() > 0 && parts[1].len() > 0 {
        Some(parts[0] + "/"@ + parts[1])
    } else {
        None
    }
}

/// The host and organisation part of an origin.
pub open spec fn organisation(origin: Seq<char>) -> Option<Seq<char>> {
    organisation_in(normalized(origin))
}

/// The organisation an optional origin belongs to.
pub open spec fn organisation_behind(origin: Option<Seq<char>>) -> Option<Seq<char>> {
    match origin {
        Some(url) => organisation(url),
        None => None,
    }
}

/// The host and organisation part of a normalised origin.
pub fn organisation_part(identity: &str) -> (r: Option<String>)
    ensures
        r.deep_view() == organisation_in(identity@),
{
    let parts = split_at_char(identity, '/');
    assert(parts.deep_view().len() == parts@.len());
    if parts.len() >= 2 && !parts[0].as_str().is_empty() && !parts[1].as_str().is_empty() {
        Some(concat3(parts[0].as_str(), "/", parts[1].as_str()))
    } else {
        None
    }
}

/// The host and organisation part of an origin: `github.com/wbbank`.
pub fn organisation_of(origin: &str) -> (r: Option<String>)
    ensures
        r.deep_view() == organisation(origin@),
{
    let identity = normalize_origin(origin);
    organisation_part(identity.as_str())
}

fn organisation_if_any(origin: &Option<String>) -> (r: Option<String>)
    ensures
        r.deep_view() == organisation_behind(origin.deep_view()),
{
    match origin {
        Some(url) => organisation_of(url.as_str()),
        None => None,
    }
}

// --- what is beside it -----------------------------------------------------

/// Neighbours ordered by where they are.
pub open spec fn root_keys(neighbours: Seq<SiblingModel>) -> Seq<KeyModel> {
    Seq::new(neighbours.len(), |i: int| KeyModel { rank: 0, weight: 0, text: neighbours[i].root })
}

/// The neighbours that belong to an organisation.
pub open spec fn sharing_marks(neighbours: Seq<SiblingModel>, of: Seq<char>) -> Seq<bool> {
    Seq::new(
        neighbours.len(),
        |i: int| organisation_behind(neighbours[i].origin_url) == Some(of),
    )
}

/// The neighbours that belong to an organisation, in order.
pub open spec fn sharing(neighbours: Seq<SiblingModel>, of: Seq<char>) -> Seq<SiblingModel> {
    let order = arranged(root_keys(neighbours), sharing_marks(neighbours, of), ascending());
    Seq::new(order.len(), |i: int| neighbours[order[i]])
}

/// Checkouts among `neighbours` that share `of`, in order of where they are.
pub fn siblings_sharing(neighbours: &Vec<Sibling>, of: &str) -> (r: Vec<Sibling>)
    ensures
        r.deep_view() == sharing(neighbours.deep_view(), of@),
{
    let ghost all = neighbours.deep_view();
    let ghost all_keys = root_keys(all);
    let ghost all_marks = sharing_marks(all, of@);
    let mut keys: Vec<SortKey> = Vec::new();
    let mut selected: Vec<bool> = Vec::new();
    let mut i: usize = 0;
    while i < neighbours.len()
        invariant
            i <= neighbours@.len(),
            all == neighbours.deep_view(),
            all_keys == root_keys(all),
            all_marks == sharing_marks(all, of@),
            keys.deep_view() =~= all_keys.take(i as int),
            selected@ =~= all_marks.take(i as int),
        decreases neighbours@.len() - i,
    {
        assert(all[i as int] == neighbours@[i as int]@);
        let key = SortKey { rank: 0, weight: 0, text: copy_text(&neighbours[i].root) };
        assert(key@ == all_keys[i as int]);
        let ghost done = keys.deep_view();
        keys.push(key);
        assert(keys.deep_view() =~= done.push(all_keys[i as int]));
        let shares = match organisation_if_any(&neighbours[i].origin_url) {
            Some(found) => same(found.as_str(), of),
            None => false,
        };
        selected.push(shares);
        i += 1;
    }
    assert(all_keys.take(i as int) =~= all_keys);
    assert(all_marks.take(i as int) =~= all_marks);
    let order = arrange(
        &keys,
        &selected,
        Arrangement { text_descending: false, newest_row_first: false },
    );
    let ghost target = sharing(all, of@);
    let mut r: Vec<Sibling> = Vec::new();
    let mut k: usize = 0;
    while k < order.len()
        invariant
            k <= order@.len(),
            all == neighbours.deep_view(),
            target == sharing(all, of@),
            row_numbers(order@) == arranged(root_keys(all), sharing_marks(all, of@), ascending()),
            forall|i: int| 0 <= i < order@.len() ==> #[trigger] order@[i] < neighbours@.len(),
            r.deep_view() =~= target.take(k as int),
        decreases order@.len() - k,
    {
        let ghost done = r.deep_view();
        assert(row_numbers(order@)[k as int] == order@[k as int] as int);
        let item = neighbours[order[k]].dup();
        assert(item@ == target[k as int]);
        r.push(item);
        assert(r.deep_view() =~= done.push(target[k as int]));
        k += 1;
    }
    assert(target.take(k as int) =~= target);
    r
}

// --- what to call it -------------------------------------------------------

/// Where code is kept, not what it is called.
pub open spec fn containers() -> Seq<Seq<char>> {
    seq![
        "code"@,
        "src"@,
        "source"@,
        "projects"@,
        "project"@,
        "programming"@,
        "repos"@,
        "repositories"@,
        "git"@,
        "work"@,
        "workspace"@,
        "dev"@,
    ]
}

/// What a group is called: after the directory that holds the checkouts, in lower case,
/// when that is a name rather than a place to keep things, and else after the
/// organisation. A directory name is a choice someone made; an organisation is an
/// accident of hosting.
pub open spec fn called(parent: Option<Seq<char>>, of: Seq<char>) -> Seq<char> {
    match parent {
        Some(name) => if containers().contains(name) {
            after_last(of, '/')
        } else {
            name
        },
        None => after_last(of, '/'),
    }
}

/// The name of the directory that holds a checkout, in lower case.
pub open spec fn holder(root: Seq<char>) -> Option<Seq<char>> {
    match parent_name_of(root) {
        Some(name) => Some(lowered(name)),
        None => None,
    }
}

/// What to call a group of checkouts of an organisation, given the name, in lower case,
/// of the directory that holds them.
pub fn name_under(parent: &Option<String>, of: &str) -> (r: String)
    ensures
        r@ == called(parent.deep_view(), of@),
{
    match parent {
        Some(name) => {
            let mut places: Vec<String> = Vec::new();
            places.push("code".to_owned());
            places.push("src".to_owned());
            places.push("source".to_owned());
            places.push("projects".to_owned());
            places.push("project".to_owned());
            places.push("programming".to_owned());
            places.push("repos".to_owned());
            places.push("repositories".to_owned());
            places.push("git".to_owned());
            places.push("work".to_owned());
            places.push("workspace".to_owned());
            places.push("dev".to_owned());
            assert(places.deep_view() =~= containers());
            if list_contains(&places, name.as_str()) {
                tail_after(of, '/')
            } else {
                copy_text(name)
            }
        },
        None => tail_after(of, '/'),
    }
}

/// What to call a group of checkouts of an organisation, seen from one of them.
pub fn name_for(root: &str, of: &str) -> (r: String)
    ensures
        r@ == called(holder(root@), of@),
{
    let parent = match parent_name(root) {
        Some(name) => Some(lower(name.as_str())),
        None => None,
    };
    name_under(&parent, of)
}

/// Whether a checkout merely sits in the home directory, given where its parent and the
/// home directory really are. `$HOME` is where everything lives, and a group of what is
/// there would put unrelated work into one memory.
pub fn is_loose_in_home(parent: &Option<String>, home: &Option<String>) -> (r: bool)
    ensures
        r == (home is Some && parent.deep_view() == home.deep_view()),
{
    home.is_some() && same_option(parent, home)
}

// --- whether it was done ---------------------------------------------------

/// Being the workspace `id`.
pub open spec fn is_workspace(id: WorkspaceId) -> spec_fn(WorkspaceRowModel) -> bool {
    |w: WorkspaceRowModel| w.id == id
}

/// Being the repository at a path, in a workspace that is there.
pub open spec fn seated_at(workspaces: Seq<WorkspaceRowModel>, root: Seq<char>) -> spec_fn(
    RepositoryRowModel,
) -> bool {
    |r: RepositoryRowModel|
        r.canonical_root == root && first_row(workspaces, is_workspace(r.workspace_id)) is Some
}

/// The name somebody gave the workspace that the repository at a path is in.
pub open spec fn group_of(s: StoreModel, root: Seq<char>) -> Option<Seq<char>> {
    match first_row(s.repositories, seated_at(s.workspaces, root)) {
        None => None,
        Some(r) => match first_row(s.workspaces, is_workspace(r.workspace_id)) {
            Some(w) => if w.explicit {
                Some(w.name)
            } else {
                None
            },
            None => None,
        },
    }
}

/// Looking around a repository. Everything found is reported, since seeing the siblings
/// is useful even where grouping them is not, but a name is offered only for a group
/// that is worth it.
pub open spec fn proposed(
    s: StoreModel,
    probe: RepositoryProbeModel,
    neighbours: Seq<SiblingModel>,
    loose_in_home: bool,
) -> GroupingProposalModel {
    match organisation_behind(probe.origin_url) {
        None => GroupingProposalModel {
            root: probe.root,
            organisation: None,
            suggested_name: None,
            siblings: Seq::empty(),
            already_grouped: false,
            workspace_name: None,
        },
        Some(of) => {
            let siblings = sharing(neighbours, of);
            GroupingProposalModel {
                root: probe.root,
                organisation: Some(of),
                suggested_name: if siblings.len() >= MIN_GROUP && !loose_in_home {
                    Some(called(holder(probe.root), of))
                } else {
                    None
                },
                siblings,
                already_grouped: group_of(s, probe.root) is Some,
                workspace_name: group_of(s, probe.root),
            }
        },
    }
}

impl Store {
    fn workspace_at(&self, id: WorkspaceId) -> (r: Option<usize>)
        ensures
            match r {
                Some(i) => i < self.workspaces@.len() && first_row(
                    self@.workspaces,
                    is_workspace(id),
                ) == Some(self.workspaces@[i as int]@),
                None => first_row(self@.workspaces, is_workspace(id)) is None,
            },
    {
        let ghost p = is_workspace(id);
        let mut i: usize = 0;
        while i < self.workspaces.len()
            invariant
                i <= self.workspaces@.len(),
                p == is_workspace(id),
                forall|j: int| 0 <= j < i ==> !p(#[trigger] self@.workspaces[j]),
            decreases self.workspaces@.len() - i,
        {
            assert(self@.workspaces[i as int] == self.workspaces@[i as int]@);
            if self.workspaces[i].id == id {
                proof {
                    assert(is_first(self@.workspaces, p, i as int));
                    lemma_first(self@.workspaces, p, i as int);
                }
                return Some(i);
            }
            i += 1;
        }
        proof {
            lemma_no_first(self@.workspaces, p);
        }
        None
    }

    /// The name somebody gave the workspace that the repository at `root` is in.
    pub fn grouping_state(&self, root: &str) -> (r: Option<String>)
        ensures
            r.deep_view() == group_of(self@, root@),
    {
        let ghost p = seated_at(self@.workspaces, root@);
        let mut i: usize = 0;
        while i < self.repositories.len()
            invariant
                i <= self.repositories@.len(),
                p == seated_at(self@.workspaces, root@),
                forall|j: int| 0 <= j < i ==> !p(#[trigger] self@.repositories[j]),
            decreases self.repositories@.len() - i,
        {
            assert(self@.repositories[i as int] == self.repositories@[i as int]@);
            if same(self.repositories[i].canonical_root.as_str(), root) {
                if let Some(w) = self.workspace_at(self.repositories[i].workspace_id) {
                    proof {
                        assert(is_first(self@.repositories, p, i as int));
                        lemma_first(self@.repositories, p, i as int);
                    }
                    if self.workspaces[w].explicit {
                        return Some(copy_text(&self.workspaces[w].name));
                    }
                    return None;
                }
            }
            i += 1;
        }
        proof {
            lemma_no_first(self@.repositories, p);
        }
        None
    }

    /// Looks around a probed repository for checkouts that belong together, given the
    /// directories beside it and whether it merely sits in the home directory.
    ///
    /// Read-only in every sense: an agent that merely looked must not have decided
    /// anything.
    pub fn propose_grouping_from(
        &self,
        probe: &RepositoryProbe,
        neighbours: &Vec<Sibling>,
        loose_in_home: bool,
    ) -> (r: GroupingProposal)
        ensures
            r@ == proposed(self@, probe@, neighbours.deep_view(), loose_in_home),
    {
        match organisation_if_any(&probe.origin_url) {
            None => {
                // No origin means nothing to group on. A directory's name says where it
                // sits, not who it belongs to.
                let siblings: Vec<Sibling> = Vec::new();
                assert(siblings.deep_view() =~= Seq::<SiblingModel>::empty());
                GroupingProposal {
                    root: copy_text(&probe.root),
                    organisation: None,
                    suggested_name: None,
                    siblings,
                    already_grouped: false,
                    workspace_name: None,
                }
            },
            Some(of) => {
                let siblings = siblings_sharing(neighbours, of.as_str());
                assert(siblings.deep_view().len() == siblings@.len());
                let workspace_name = self.grouping_state(probe.root.as_str());
                let suggested_name = if siblings.len() >= MIN_GROUP && !loose_in_home {
                    Some(name_for(probe.root.as_str(), of.as_str()))
                } else {
                    None
                };
                GroupingProposal {
                    root: copy_text(&probe.root),
                    organisation: Some(of),
                    suggested_name,
                    siblings,
                    already_grouped: workspace_name.is_some(),
                    workspace_name,
                }
            },
        }
    }

    /// As [`Store::propose_grouping_from`], given where the parent of the repository and
    /// the home directory really are.
    pub fn propose_grouping(
        &self,
        probe: &RepositoryProbe,
        neighbours: &Vec<Sibling>,
        parent: &Option<String>,
        home: &Option<String>,
    ) -> (r: GroupingProposal)
        ensures
            r@ == proposed(
                self@,
                probe@,
                neighbours.deep_view(),
                home is Some && parent.deep_view() == home.deep_view(),
            ),
    {
        self.propose_grouping_from(probe, neighbours, is_loose_in_home(parent, home))
    }
}

// --- reading a git configuration -------------------------------------------

/// Not being a space.
pub open spec fn not_space() -> spec_fn(char) -> bool {
    |c: char| c != ' '
}

/// Whether a line opens the section of the origin. Both spellings occur: with a space
/// before the name of the remote, as git writes it, and without.
pub open spec fn opens_origin(line: Seq<char>) -> bool {
    line.filter(not_space()) == "[remote\"origin\"]"@
}

/// The origin some lines of a git configuration give, inside the section of the origin
/// or not.
pub open spec fn origin_given(found: Seq<Seq<char>>, in_origin: bool) -> Option<Seq<char>>
    decreases found.len(),
{
    if found.len() == 0 {
        None
    } else {
        let line = trimmed(found[0]);
        if line.len() > 0 && line[0] == '[' {
            origin_given(found.skip(1), opens_origin(line))
        } else {
            match cut_at(line, '=') {
                Some((key, value)) => if in_origin && trimmed(key) == "url"@ {
                    Some(trimmed(value))
                } else {
                    origin_given(found.skip(1), in_origin)
                },
                None => origin_given(found.skip(1), in_origin),
            }
        }
    }
}

fn without_spaces(text: &str) -> (r: String)
    ensures
        r@ == text@.filter(not_space()),
{
    let chars = characters(text);
    let ghost p = not_space();
    let mut r = String::new();
    let mut i: usize = 0;
    assert(chars@.take(0).filter(p) =~= Seq::<char>::empty()) by {
        reveal(Seq::filter);
    }
    assert(r@ =~= Seq::<char>::empty());
    while i < chars.len()
        invariant
            i <= chars@.len(),
            p == not_space(),
            r@ =~= chars@.take(i as int).filter(p),
        decreases chars@.len() - i,
    {
        proof {
            assert(chars@.take(i + 1) =~= chars@.take(i as int).push(chars@[i as int]));
            chars@.take(i as int).lemma_filter_push(chars@[i as int], p);
        }
        if chars[i] != ' ' {
            r.push(chars[i]);
        }
        i += 1;
    }
    assert(chars@.take(i as int) =~= chars@);
    r
}

/// Pulls `url` out of the `[remote "origin"]` section of a git configuration.
pub fn origin_url_in(config: &str) -> (r: Option<String>)
    ensures
        r.deep_view() == origin_given(lines_of(config@), false),
{
    let found = lines(config);
    let ghost all = found.deep_view();
    let mut in_origin = false;
    let mut i: usize = 0;
    assert(all.skip(0) =~= all);
    while i < found.len()
        invariant
            i <= found@.len(),
            all == found.deep_view(),
            all == lines_of(config@),
            origin_given(all, false) == origin_given(all.skip(i as int), in_origin),
        decreases found@.len() - i,
    {
        assert(all.skip(i as int)[0] == found@[i as int]@);
        assert(all.skip(i as int).skip(1) =~= all.skip(i + 1));
        let line = trim(found[i].as_str());
        let chars = characters(line.as_str());
        if chars.len() > 0 && chars[0] == '[' {
            let bare = without_spaces(line.as_str());
            in_origin = same(bare.as_str(), "[remote\"origin\"]");
        } else if let Some((key, value)) = split_once(line.as_str(), '=') {
            let key = trim(key.as_str());
            if in_origin && same(key.as_str(), "url") {
                return Some(trim(value.as_str()));
            }
        }
        i += 1;
    }
    None
}

// --- laws ------------------------------------------------------------------

/// Only what shares the organisation is proposed: whatever lies beside it with another
/// origin, or with none, is left out.
pub proof fn law_only_the_organisation_is_proposed(
    s: StoreModel,
    probe: RepositoryProbeModel,
    neighbours: Seq<SiblingModel>,
    loose_in_home: bool,
    i: int,
)
    requires
        0 <= i < proposed(s, probe, neighbours, loose_in_home).siblings.len(),
    ensures
        ({
            let found = proposed(s, probe, neighbours, loose_in_home);
            &&& neighbours.contains(found.siblings[i])
            &&& organisation_behind(found.siblings[i].origin_url) == found.organisation
        }),
{
    let of = organisation_behind(probe.origin_url)->0;
    let keys = root_keys(neighbours);
    let marks = sharing_marks(neighbours, of);
    let order = arranged(keys, marks, ascending());
    law_arranged_lists_the_selected(keys, marks, ascending());
    assert(marks[order[i]]);
}

/// Nothing that shares the organisation is left out, the repository the question was
/// asked from least of all.
pub proof fn law_the_whole_organisation_is_proposed(
    s: StoreModel,
    probe: RepositoryProbeModel,
    neighbours: Seq<SiblingModel>,
    loose_in_home: bool,
    k: int,
)
    requires
        0 <= k < neighbours.len(),
        organisation_behind(probe.origin_url) is Some,
        organisation_behind(neighbours[k].origin_url) == organisation_behind(probe.origin_url),
    ensures
        proposed(s, probe, neighbours, loose_in_home).siblings.contains(neighbours[k]),
{
    let of = organisation_behind(probe.origin_url)->0;
    let keys = root_keys(neighbours);
    let marks = sharing_marks(neighbours, of);
    let order = arranged(keys, marks, ascending());
    law_arranged_lists_the_selected(keys, marks, ascending());
    assert(marks[k]);
    let i = choose|i: int| 0 <= i < order.len() && order[i] == k;
    assert(sharing(neighbours, of)[i] == neighbours[k]);
}

/// One repository is not a group, and neither is what is loose in the home directory:
/// no name is suggested for it.
pub proof fn law_no_name_without_a_group(
    s: StoreModel,
    probe: RepositoryProbeModel,
    neighbours: Seq<SiblingModel>,
    loose_in_home: bool,
)
    ensures
        ({
            let found = proposed(s, probe, neighbours, loose_in_home);
            loose_in_home || found.siblings.len() < MIN_GROUP ==> found.suggested_name is None
        }),
{
}

/// The SSH and HTTPS forms of one origin belong to one organisation.
pub proof fn law_the_form_of_an_origin_does_not_split_an_organisation(
    host: Seq<char>,
    path: Seq<char>,
)
    requires
        plain_host(host),
        plain_path(path),
    ensures
        organisation(ssh_form(host, path)) == organisation(https_form(host, path)),
{
    law_ssh_and_https_forms_agree(host, path);
}

} // verus!
