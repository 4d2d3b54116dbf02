//! What git reports of a directory.
//!
//! Repository state is observed for context and handoff. Nothing here writes to
//! a working tree.

use vstd::prelude::*;

use crate::domain::{GitState, GitStateModel};
use crate::text::{
    after_last, after_prefix, all_ascii, ascii, ascii_lower, being, concat2, concat3, contains,
    copy_text, cut_at, drop_back_while, first_at, lemma_cut_at, lemma_drop_back_is_front, lines,
    lines_of, lower, lowered, same, skip_while, split_once, starts_with, strip_prefix,
    strip_suffixes, tail_after, trim, trim_back_char, trim_front_char, trimmed, trimmed_end, white,
    without_back, without_front, without_suffixes,
};

verus! {

// --- origins ---------------------------------------------------------------

/// What follows the scheme, when there is one.
pub open spec fn after_scheme(s: Seq<char>) -> Option<Seq<char>> {
    if "https://"@.is_prefix_of(s) {
        after_prefix(s, "https://"@)
    } else if "http://"@.is_prefix_of(s) {
        after_prefix(s, "http://"@)
    } else if "ssh://"@.is_prefix_of(s) {
        after_prefix(s, "ssh://"@)
    } else if "git://"@.is_prefix_of(s) {
        after_prefix(s, "git://"@)
    } else {
        after_prefix(s, "file://"@)
    }
}

/// The part of an origin that follows its scheme.
pub fn strip_scheme(value: &str) -> (r: Option<String>)
    ensures
        r.deep_view() == after_scheme(value@),
{
    if starts_with(value, "https://") {
        strip_prefix(value, "https://")
    } else if starts_with(value, "http://") {
        strip_prefix(value, "http://")
    } else if starts_with(value, "ssh://") {
        strip_prefix(value, "ssh://")
    } else if starts_with(value, "git://") {
        strip_prefix(value, "git://")
    } else {
        strip_prefix(value, "file://")
    }
}

/// An address without what stands before an `@` of its authority.
pub open spec fn credentials_removed(s: Seq<char>) -> Seq<char> {
    match cut_at(s, '/') {
        Some((authority, rest)) => after_last(authority, '@') + "/"@ + rest,
        None => after_last(s, '@'),
    }
}

/// An address without the credentials in its authority.
pub fn without_credentials(value: &str) -> (r: String)
    ensures
        r@ == credentials_removed(value@),
{
    match split_once(value, '/') {
        Some((authority, rest)) => concat3(
            tail_after(authority.as_str(), '@').as_str(),
            "/",
            rest.as_str(),
        ),
        None => tail_after(value, '@'),
    }
}

/// An origin in the form `host/path`, whichever of its forms it was written in:
/// with a scheme, or as `[user@]host:path`.
pub open spec fn address(s: Seq<char>) -> Seq<char> {
    match after_scheme(s) {
        Some(rest) => rest,
        None => match cut_at(s, ':') {
            Some((prefix, path)) => if !"/"@.is_prefix_of(path) && !prefix.contains('/') {
                after_last(prefix, '@') + "/"@ + path
            } else {
                s
            },
            None => s,
        },
    }
}

/// The host of an origin and the path on it.
pub open spec fn host_and_path(origin: Seq<char>) -> (Seq<char>, Seq<char>) {
    let bare = credentials_removed(address(without_back(trimmed(origin), '/')));
    match cut_at(bare, '/') {
        Some((host, path)) => (host, without_suffixes(without_front(path, '/'), ".git"@)),
        None => (bare, Seq::empty()),
    }
}

/// A host and a path as one text.
pub open spec fn as_identity(host: Seq<char>, path: Seq<char>) -> Seq<char> {
    if path.len() == 0 {
        host
    } else {
        host + "/"@ + path
    }
}

/// An origin in the form all its spellings share. The host is lowercased because
/// names of hosts are case-insensitive; the path is not, because on some forges
/// it is significant.
pub open spec fn normalized(origin: Seq<char>) -> Seq<char> {
    as_identity(lowered(host_and_path(origin).0), host_and_path(origin).1)
}

/// The host of an origin and the path on it.
pub fn split_origin(origin: &str) -> (r: (String, String))
    ensures
        (r.0@, r.1@) == host_and_path(origin@),
{
    let bare = trim_back_char(trim(origin).as_str(), '/');
    let located = match strip_scheme(bare.as_str()) {
        Some(rest) => rest,
        None => match split_once(bare.as_str(), ':') {
            Some((prefix, path)) => {
                if !starts_with(path.as_str(), "/") && !has_char(prefix.as_str(), '/') {
                    concat3(tail_after(prefix.as_str(), '@').as_str(), "/", path.as_str())
                } else {
                    copy_text(&bare)
                }
            },
            None => copy_text(&bare),
        },
    };
    let plain = without_credentials(located.as_str());
    match split_once(plain.as_str(), '/') {
        Some((host, path)) => {
            let rest = trim_front_char(path.as_str(), '/');
            (host, strip_suffixes(rest.as_str(), ".git"))
        },
        None => (plain, String::new()),
    }
}

fn has_char(text: &str, wanted: char) -> (r: bool)
    ensures
        r == text@.contains(wanted),
{
    split_once(text, wanted).is_some()
}

/// A host and a path as one text.
pub fn join_origin(host: &str, path: &str) -> (r: String)
    ensures
        r@ == as_identity(host@, path@),
{
    if path.is_empty() {
        host.to_owned()
    } else {
        concat3(host, "/", path)
    }
}

/// Normalises an origin so that its SSH and HTTPS forms agree: both
/// `git@github.com:acme/thing.git` and `https://github.com/acme/thing` become
/// `github.com/acme/thing`.
pub fn normalize_origin(origin: &str) -> (r: String)
    ensures
        r@ == normalized(origin@),
{
    let (host, path) = split_origin(origin);
    join_origin(lower(host.as_str()).as_str(), path.as_str())
}

// --- a probed directory ----------------------------------------------------

/// What a working directory turned out to be.
#[derive(Debug, PartialEq, Eq)]
pub struct RepositoryProbe {
    /// Canonical repository root, or the canonical directory itself when the
    /// path is not inside a repository.
    pub root: String,
    pub origin_url: Option<String>,
    pub git: Option<GitState>,
}

/// The contents of a [`RepositoryProbe`].
#[verifier::ext_equal]
pub struct RepositoryProbeModel {
    pub root: Seq<char>,
    pub origin_url: Option<Seq<char>>,
    pub git: Option<GitStateModel>,
}

impl View for RepositoryProbe {
    type V = RepositoryProbeModel;

    open spec fn view(&self) -> RepositoryProbeModel {
        RepositoryProbeModel {
            root: self.root@,
            origin_url: self.origin_url.deep_view(),
            git: self.git.deep_view(),
        }
    }
}

impl DeepView for RepositoryProbe {
    type V = RepositoryProbeModel;

    open spec fn deep_view(&self) -> RepositoryProbeModel {
        self@
    }
}

/// The key a probed directory is stored under: its normalised origin, so that
/// clones, checkouts and worktrees of one project collapse into one identity;
/// its path where there is no origin.
pub open spec fn key_of(probe: RepositoryProbeModel) -> Seq<char> {
    match probe.origin_url {
        Some(origin) => "git:"@ + normalized(origin),
        None => "path:"@ + probe.root,
    }
}

impl RepositoryProbe {
    /// Stable key a repository is stored under.
    pub fn identity_key(&self) -> (r: String)
        ensures
            r@ == key_of(self@),
    {
        match &self.origin_url {
            Some(origin) => concat2("git:", normalize_origin(origin.as_str()).as_str()),
            None => concat2("path:", self.root.as_str()),
        }
    }
}

// --- the state of a working tree -------------------------------------------

/// A value, unless it is the placeholder git writes in its place.
pub open spec fn unless(value: Seq<char>, placeholder: Seq<char>) -> Option<Seq<char>> {
    if value == placeholder {
        None
    } else {
        Some(value)
    }
}

/// One line more of `git status --porcelain=v2 --branch`. Changed, unmerged and
/// untracked entries all count: a file that was created but never committed is
/// still work that must not be lost.
pub open spec fn with_status_line(before: GitStateModel, line: Seq<char>) -> GitStateModel {
    match after_prefix(line, "# "@) {
        Some(header) => match after_prefix(header, "branch.oid "@) {
            Some(value) => GitStateModel { sha: unless(value, "(initial)"@), ..before },
            None => match after_prefix(header, "branch.head "@) {
                Some(value) => GitStateModel { branch: unless(value, "(detached)"@), ..before },
                None => before,
            },
        },
        None => if trimmed(line).len() > 0 && before.dirty_files < u32::MAX {
            GitStateModel { dirty_files: (before.dirty_files + 1) as u32, ..before }
        } else {
            before
        },
    }
}

/// What a status report says.
pub open spec fn reported(report: Seq<Seq<char>>) -> GitStateModel
    decreases report.len(),
{
    if report.len() == 0 {
        GitStateModel { branch: None, sha: None, dirty_files: 0 }
    } else {
        with_status_line(reported(report.drop_last()), report.last())
    }
}

fn value_unless(value: String, placeholder: &str) -> (r: Option<String>)
    ensures
        r.deep_view() == unless(value@, placeholder@),
{
    if same(value.as_str(), placeholder) {
        None
    } else {
        Some(value)
    }
}

/// Reads the output of `git status --porcelain=v2 --branch`, which reports HEAD,
/// the branch and every change in a single pass.
pub fn state(output: &str) -> (r: GitState)
    ensures
        r@ == reported(lines_of(output@)),
{
    let report = lines(output);
    let ghost all = report.deep_view();
    let mut found = GitState { branch: None, sha: None, dirty_files: 0 };
    let mut i: usize = 0;
    while i < report.len()
        invariant
            i <= report@.len(),
            all == report.deep_view(),
            found@ == reported(all.take(i as int)),
        decreases report@.len() - i,
    {
        assert(all.take(i + 1).drop_last() =~= all.take(i as int));
        assert(all.take(i + 1).last() == all[i as int]);
        let line = report[i].as_str();
        match strip_prefix(line, "# ") {
            Some(header) => {
                match strip_prefix(header.as_str(), "branch.oid ") {
                    Some(value) => {
                        found.sha = value_unless(value, "(initial)");
                    },
                    None => {
                        match strip_prefix(header.as_str(), "branch.head ") {
                            Some(value) => {
                                found.branch = value_unless(value, "(detached)");
                            },
                            None => {},
                        }
                    },
                }
            },
            None => {
                if !trim(line).as_str().is_empty() && found.dirty_files < u32::MAX {
                    found.dirty_files = found.dirty_files + 1;
                }
            },
        }
        i += 1;
    }
    assert(all.take(i as int) =~= all);
    found
}

// --- laws ------------------------------------------------------------------

/// A host as it stands in an origin: not empty, and without what marks the end of one.
pub open spec fn plain_host(host: Seq<char>) -> bool {
    &&& host.len() > 0
    &&& forall|i: int|
        0 <= i < host.len() ==> #[trigger] host[i] != '/' && host[i] != ':' && host[i] != '@'
            && !white(host[i])
}

/// A path as it stands in an origin: not empty, neither starting nor ending with a slash,
/// and without space behind it.
pub open spec fn plain_path(path: Seq<char>) -> bool {
    &&& path.len() > 0
    &&& path[0] != '/'
    &&& path.last() != '/'
    &&& !white(path.last())
}

/// The origin of a project over SSH.
pub open spec fn ssh_form(host: Seq<char>, path: Seq<char>) -> Seq<char> {
    "git@"@ + host + ":"@ + path + ".git"@
}

/// The origin of a project over HTTPS.
pub open spec fn https_form(host: Seq<char>, path: Seq<char>) -> Seq<char> {
    "https://"@ + host + "/"@ + path
}

pub proof fn lemma_no_trim(s: Seq<char>)
    requires
        s.len() > 0,
        !white(s[0]),
        !white(s.last()),
        s.last() != '/',
    ensures
        without_back(trimmed(s), '/') == s,
{
}

proof fn lemma_no_at(s: Seq<char>)
    requires
        forall|i: int| 0 <= i < s.len() ==> #[trigger] s[i] != '@',
    ensures
        after_last(s, '@') == s,
    decreases s.len(),
{
    if s.len() > 0 {
        assert forall|i: int| 0 <= i < s.drop_last().len() implies #[trigger] s.drop_last()[i]
            != '@' by {
            assert(s.drop_last()[i] == s[i]);
        }
        lemma_no_at(s.drop_last());
        assert(s.drop_last().push(s.last()) =~= s);
    }
}

pub proof fn lemma_after_at(front: Seq<char>, host: Seq<char>)
    requires
        front.len() > 0,
        front.last() == '@',
        forall|i: int| 0 <= i < host.len() ==> #[trigger] host[i] != '@',
    ensures
        after_last(front + host, '@') == host,
    decreases host.len(),
{
    let s = front + host;
    if host.len() == 0 {
        assert(s.last() == '@');
        assert(host =~= Seq::empty());
    } else {
        assert(s.last() == host.last());
        assert(s.drop_last() =~= front + host.drop_last());
        assert forall|i: int| 0 <= i < host.drop_last().len() implies #[trigger] host.drop_last()[i]
            != '@' by {
            assert(host.drop_last()[i] == host[i]);
        }
        lemma_after_at(front, host.drop_last());
        assert(host.drop_last().push(host.last()) =~= host);
    }
}

/// The host and the path of an address in the form `host/path`.
pub proof fn lemma_plain_address(host: Seq<char>, path: Seq<char>)
    requires
        plain_host(host),
        path.len() > 0,
        path[0] != '/',
    ensures
        credentials_removed(host + "/"@ + path) == host + "/"@ + path,
        cut_at(host + "/"@ + path, '/') == Some((host, path)),
        without_front(path, '/') == path,
{
    reveal_strlit("/");
    let s = host + "/"@ + path;
    let at = host.len() as int;
    assert(s[at] == '/');
    assert forall|j: int| 0 <= j < at implies s[j] != '/' by {
        assert(s[j] == host[j]);
    }
    assert(first_at(s, '/', at));
    lemma_cut_at(s, '/', at);
    assert(s.take(at) =~= host);
    assert(s.skip(at + 1) =~= path);
    lemma_no_at(host);
}

/// The HTTPS form of an origin gives its host, and its path without the suffix of a bare
/// repository.
pub proof fn law_the_https_form_is_read(host: Seq<char>, path: Seq<char>)
    requires
        plain_host(host),
        plain_path(path),
    ensures
        host_and_path(https_form(host, path)) == (host, without_suffixes(path, ".git"@)),
{
    reveal_strlit("https://");
    reveal_strlit("/");
    let s = https_form(host, path);
    assert(s[0] == 'h');
    assert(s.last() == path.last());
    lemma_no_trim(s);
    let rest = host + "/"@ + path;
    assert("https://"@.is_prefix_of(s)) by {
        assert(s.subrange(0, 8) =~= "https://"@);
    }
    assert(s.skip(8) =~= rest);
    assert(address(s) == rest);
    lemma_plain_address(host, path);
}

/// The SSH form of an origin gives the same host and path as the HTTPS form.
pub proof fn law_the_ssh_form_is_read(host: Seq<char>, path: Seq<char>)
    requires
        plain_host(host),
        plain_path(path),
    ensures
        host_and_path(ssh_form(host, path)) == (host, without_suffixes(path, ".git"@)),
{
    reveal_strlit("git@");
    reveal_strlit(":");
    reveal_strlit("/");
    reveal_strlit(".git");
    reveal_strlit("https://");
    reveal_strlit("http://");
    reveal_strlit("ssh://");
    reveal_strlit("git://");
    reveal_strlit("file://");
    let s = ssh_form(host, path);
    assert(s[0] == 'g' && s[1] == 'i' && s[2] == 't' && s[3] == '@');
    assert(s.last() == 't');
    lemma_no_trim(s);
    assert(!"https://"@.is_prefix_of(s)) by {
        assert("https://"@[0] == 'h');
    }
    assert(!"http://"@.is_prefix_of(s)) by {
        assert("http://"@[0] == 'h');
    }
    assert(!"ssh://"@.is_prefix_of(s)) by {
        assert("ssh://"@[0] == 's');
    }
    assert(!"git://"@.is_prefix_of(s)) by {
        assert("git://"@[3] == ':');
    }
    assert(!"file://"@.is_prefix_of(s)) by {
        assert("file://"@[0] == 'f');
    }
    let at: int = 4 + host.len() as int;
    let prefix = "git@"@ + host;
    let tail = path + ".git"@;
    assert(s[at] == ':');
    assert forall|j: int| 0 <= j < at implies s[j] != ':' by {
        if j >= 4 {
            assert(s[j] == host[j - 4]);
        } else {
            assert(s[j] == "git@"@[j]);
        }
    }
    assert(first_at(s, ':', at));
    lemma_cut_at(s, ':', at);
    assert(s.take(at) =~= prefix);
    assert(s.skip(at + 1) =~= tail);
    assert(!"/"@.is_prefix_of(tail)) by {
        assert("/"@[0] == '/');
        assert(tail[0] == path[0]);
    }
    assert(!prefix.contains('/')) by {
        if prefix.contains('/') {
            let j = choose|j: int| 0 <= j < prefix.len() && prefix[j] == '/';
            if j >= 4 {
                assert(prefix[j] == host[j - 4]);
            } else {
                assert(prefix[j] == "git@"@[j]);
            }
        }
    }
    lemma_after_at("git@"@, host);
    assert(address(s) == host + "/"@ + tail);
    assert(tail[0] == path[0]);
    lemma_plain_address(host, tail);
    assert(".git"@.is_suffix_of(tail)) by {
        assert(tail.subrange(tail.len() - 4, tail.len() as int) =~= ".git"@);
    }
    assert(tail.take(tail.len() - 4) =~= path);
}

/// The SSH and HTTPS forms of one origin normalise together: cloning a project the other
/// way does not hand it a second, empty memory.
pub proof fn law_ssh_and_https_forms_agree(host: Seq<char>, path: Seq<char>)
    requires
        plain_host(host),
        plain_path(path),
    ensures
        normalized(ssh_form(host, path)) == normalized(https_form(host, path)),
{
    law_the_ssh_form_is_read(host, path);
    law_the_https_form_is_read(host, path);
}

/// Spellings of a host that differ in case are one host.
pub proof fn law_the_case_of_a_host_does_not_matter(
    one: Seq<char>,
    other: Seq<char>,
    path: Seq<char>,
)
    requires
        plain_host(one),
        plain_host(other),
        plain_path(path),
        lowered(one) == lowered(other),
    ensures
        normalized(https_form(one, path)) == normalized(https_form(other, path)),
{
    law_the_https_form_is_read(one, path);
    law_the_https_form_is_read(other, path);
}

/// Different paths on one host stay distinct, paths that differ in case alone included,
/// whichever form their origins are written in.
pub proof fn law_different_paths_stay_distinct(host: Seq<char>, one: Seq<char>, other: Seq<char>)
    requires
        plain_host(host),
        plain_path(one),
        plain_path(other),
        without_suffixes(one, ".git"@) != without_suffixes(other, ".git"@),
    ensures
        normalized(https_form(host, one)) != normalized(https_form(host, other)),
        normalized(ssh_form(host, one)) != normalized(ssh_form(host, other)),
        normalized(ssh_form(host, one)) != normalized(https_form(host, other)),
{
    reveal_strlit("/");
    law_ssh_and_https_forms_agree(host, one);
    law_ssh_and_https_forms_agree(host, other);
    law_the_https_form_is_read(host, one);
    law_the_https_form_is_read(host, other);
    let front = lowered(host);
    let a = without_suffixes(one, ".git"@);
    let b = without_suffixes(other, ".git"@);
    let x = as_identity(front, a);
    let y = as_identity(front, b);
    if x == y {
        assert(a.len() > 0 ==> x.len() == front.len() + 1 + a.len());
        assert(b.len() > 0 ==> y.len() == front.len() + 1 + b.len());
        assert(a.len() == b.len());
        if a.len() > 0 {
            assert(x.skip(front.len() as int + 1) =~= a);
            assert(y.skip(front.len() as int + 1) =~= b);
        } else {
            assert(a =~= b);
        }
    }
}

/// What stands before a text of which something is left does not matter.
proof fn lemma_drop_back_behind(front: Seq<char>, s: Seq<char>, p: spec_fn(char) -> bool)
    requires
        drop_back_while(s, p).len() > 0,
    ensures
        drop_back_while(front + s, p) == front + drop_back_while(s, p),
    decreases s.len(),
{
    assert((front + s).last() == s.last());
    if p(s.last()) {
        assert((front + s).drop_last() =~= front + s.drop_last());
        lemma_drop_back_behind(front, s.drop_last(), p);
    }
}

/// An origin without space around it and slashes behind it, given what stands before its
/// host.
proof fn lemma_trimmed_origin(front: Seq<char>, host: Seq<char>, path: Seq<char>) -> (rest: Seq<
    char,
>)
    requires
        front.len() > 0,
        !white(front[0]),
        host.len() > 0,
        !host.contains('/'),
    ensures
        without_back(trimmed(front + host + "/"@ + path), '/') == front + rest,
        rest == without_back(trimmed_end(host + "/"@ + path), '/'),
        host.len() <= rest.len(),
        rest.take(host.len() as int) == host,
        rest.len() > host.len() ==> rest[host.len() as int] == '/',
{
    reveal_strlit("/");
    let spaces = |c: char| white(c);
    let slashes = being('/');
    let tail = host + "/"@ + path;
    let s = front + host + "/"@ + path;
    let at = host.len() as int;
    assert(s =~= front + tail);
    assert(s[0] == front[0]);
    assert(tail[at] == '/');
    lemma_drop_back_is_front(tail, spaces);
    let inner = drop_back_while(tail, spaces);
    assert(inner.len() > at);
    lemma_drop_back_behind(front, tail, spaces);
    lemma_drop_back_is_front(inner, slashes);
    let rest = drop_back_while(inner, slashes);
    assert(inner[at - 1] == host[at - 1]);
    assert(host[at - 1] != '/') by {
        if host[at - 1] == '/' {
            assert(host.contains('/'));
        }
    }
    assert(!slashes(inner[at - 1]));
    assert(rest.len() >= at);
    lemma_drop_back_behind(front, inner, slashes);
    assert(rest.take(at) =~= host);
    rest
}

/// The address left when the credentials before a host are removed.
proof fn lemma_credentials_go(front: Seq<char>, host: Seq<char>, rest: Seq<char>)
    requires
        front.len() > 0 ==> front.last() == '@',
        !front.contains('/'),
        !host.contains('/'),
        !host.contains('@'),
        host.len() <= rest.len(),
        rest.take(host.len() as int) == host,
        rest.len() > host.len() ==> rest[host.len() as int] == '/',
    ensures
        credentials_removed(front + rest) == rest,
{
    reveal_strlit("/");
    let s = front + rest;
    let at = host.len() as int;
    assert forall|i: int| 0 <= i < host.len() implies #[trigger] host[i] != '@' by {
        if host[i] == '@' {
            assert(host.contains('@'));
        }
    }
    assert(after_last(front + host, '@') == host) by {
        if front.len() > 0 {
            lemma_after_at(front, host);
        } else {
            assert(front + host =~= host);
            lemma_no_at(host);
        }
    }
    assert forall|j: int| 0 <= j < front.len() + at implies s[j] != '/' by {
        if j < front.len() {
            assert(s[j] == front[j]);
            if front[j] == '/' {
                assert(front.contains('/'));
            }
        } else {
            assert(s[j] == rest.take(at)[j - front.len()]);
            if host[j - front.len()] == '/' {
                assert(host.contains('/'));
            }
        }
    }
    if rest.len() > at {
        let cut: int = front.len() as int + at;
        assert(s[cut] == '/');
        assert(first_at(s, '/', cut));
        lemma_cut_at(s, '/', cut);
        assert(s.take(cut) =~= front + host);
        assert(host + "/"@ + s.skip(cut + 1) =~= rest);
    } else {
        assert(rest =~= host);
        assert(!s.contains('/'));
    }
}

/// Credentials never show: whatever user name or token stands before the `@` of an origin,
/// it normalises as it does without.
pub proof fn law_credentials_never_show(
    credentials: Seq<char>,
    host: Seq<char>,
    path: Seq<char>,
)
    requires
        !credentials.contains('/'),
        host.len() > 0,
        !host.contains('/'),
        !host.contains('@'),
    ensures
        normalized("https://"@ + credentials + "@"@ + host + "/"@ + path) == normalized(
            "https://"@ + host + "/"@ + path,
        ),
{
    reveal_strlit("https://");
    reveal_strlit("@");
    reveal_strlit("/");
    let scheme = "https://"@;
    let user = credentials + "@"@;
    let none = Seq::<char>::empty();
    let secret = scheme + credentials + "@"@ + host + "/"@ + path;
    let open = scheme + host + "/"@ + path;
    assert(secret =~= (scheme + user) + host + "/"@ + path);
    let rest = lemma_trimmed_origin(scheme + user, host, path);
    let same_rest = lemma_trimmed_origin(scheme, host, path);
    assert(scheme.is_prefix_of(scheme + user + rest)) by {
        assert((scheme + user + rest).subrange(0, 8) =~= scheme);
    }
    assert(scheme.is_prefix_of(scheme + rest)) by {
        assert((scheme + rest).subrange(0, 8) =~= scheme);
    }
    assert((scheme + user + rest).skip(8) =~= user + rest);
    assert((scheme + rest).skip(8) =~= rest);
    assert(!user.contains('/')) by {
        if user.contains('/') {
            let i = choose|i: int| 0 <= i < user.len() && user[i] == '/';
            if i < credentials.len() {
                assert(credentials[i] == '/');
            }
        }
    }
    lemma_credentials_go(user, host, rest);
    lemma_credentials_go(none, host, rest);
    assert(none + rest =~= rest);
}

/// What follows the last of a character does not hold it.
proof fn lemma_after_last_is_clear(s: Seq<char>, c: char)
    ensures
        !after_last(s, c).contains(c),
        forall|d: char| #[trigger] after_last(s, c).contains(d) ==> s.contains(d),
    decreases s.len(),
{
    if s.len() > 0 && s.last() != c {
        let before = after_last(s.drop_last(), c);
        lemma_after_last_is_clear(s.drop_last(), c);
        assert forall|d: char| after_last(s, c).contains(d) implies s.contains(d) && d != c by {
            let i = choose|i: int| 0 <= i < after_last(s, c).len() && after_last(s, c)[i] == d;
            if i < before.len() {
                assert(before[i] == d);
                assert(before.contains(d));
                assert(s.drop_last().contains(d));
                let j = choose|j: int| 0 <= j < s.drop_last().len() && s.drop_last()[j] == d;
                assert(s[j] == d);
            } else {
                assert(s[s.len() - 1] == d);
            }
        }
    }
}

/// The first half of a text cut at a character does not hold it.
proof fn lemma_cut_half(s: Seq<char>, c: char) -> (at: int)
    requires
        s.contains(c),
    ensures
        first_at(s, c, at),
        cut_at(s, c) == Some((s.take(at), s.skip(at + 1))),
        !s.take(at).contains(c),
{
    let i = choose|i: int| 0 <= i < s.len() && s[i] == c;
    let at = lemma_some_first_at(s, c, i);
    lemma_cut_at(s, c, at);
    assert(!s.take(at).contains(c)) by {
        if s.take(at).contains(c) {
            let j = choose|j: int| 0 <= j < at && s.take(at)[j] == c;
            assert(s[j] == c);
        }
    }
    at
}

proof fn lemma_some_first_at(s: Seq<char>, c: char, i: int) -> (at: int)
    requires
        0 <= i < s.len(),
        s[i] == c,
    ensures
        first_at(s, c, at),
    decreases i,
{
    if exists|j: int| 0 <= j < i && s[j] == c {
        let j = choose|j: int| 0 <= j < i && s[j] == c;
        lemma_some_first_at(s, c, j)
    } else {
        assert(first_at(s, c, i));
        i
    }
}

/// A host as it comes out of an origin holds neither a slash nor an `@`.
proof fn lemma_host_is_clear(origin: Seq<char>)
    ensures
        !host_and_path(origin).0.contains('/'),
        !host_and_path(origin).0.contains('@'),
{
    reveal_strlit("/");
    let x = address(without_back(trimmed(origin), '/'));
    let bare = credentials_removed(x);
    if x.contains('/') {
        let at = lemma_cut_half(x, '/');
        let authority = x.take(at);
        let host = after_last(authority, '@');
        let rest = x.skip(at + 1);
        lemma_after_last_is_clear(authority, '@');
        assert(!host.contains('/'));
        assert(bare == host + "/"@ + rest);
        assert(bare[host.len() as int] == '/');
        assert forall|j: int| 0 <= j < host.len() implies bare[j] != '/' by {
            if bare[j] == '/' {
                assert(host[j] == '/');
                assert(host.contains('/'));
            }
        }
        assert(first_at(bare, '/', host.len() as int));
        lemma_cut_at(bare, '/', host.len() as int);
        assert(bare.take(host.len() as int) =~= host);
    } else {
        lemma_after_last_is_clear(x, '@');
        assert(!bare.contains('/'));
    }
}

/// What is left of a text without a suffix does not end with it, and is its front.
proof fn lemma_without_suffixes(s: Seq<char>, suffix: Seq<char>)
    requires
        suffix.len() > 0,
    ensures
        !suffix.is_suffix_of(without_suffixes(s, suffix)),
        without_suffixes(without_suffixes(s, suffix), suffix) == without_suffixes(s, suffix),
        without_suffixes(s, suffix).len() > 0 ==> without_suffixes(s, suffix)[0] == s[0],
    decreases s.len(),
{
    if suffix.is_suffix_of(s) {
        lemma_without_suffixes(s.take(s.len() - suffix.len()), suffix);
    }
}

/// A path as it comes out of an origin has neither a slash before it nor the suffix of a bare
/// repository behind it.
proof fn lemma_path_is_clear(origin: Seq<char>)
    ensures
        ({
            let path = host_and_path(origin).1;
            without_suffixes(without_front(path, '/'), ".git"@) == path
        }),
{
    reveal_strlit(".git");
    let bare = credentials_removed(address(without_back(trimmed(origin), '/')));
    if let Some((host, raw)) = cut_at(bare, '/') {
        let kept = without_front(raw, '/');
        lemma_skip_while_ends(raw, being('/'));
        lemma_without_suffixes(kept, ".git"@);
    }
}

proof fn lemma_skip_while_ends(s: Seq<char>, p: spec_fn(char) -> bool)
    ensures
        skip_while(s, p).len() > 0 ==> !p(skip_while(s, p)[0]),
    decreases s.len(),
{
    if s.len() > 0 && p(s[0]) {
        lemma_skip_while_ends(s.drop_first(), p);
    }
}

/// A host in lower case stays as it is when it is read again: lower case of it is itself,
/// and nothing in it marks its end. So it is of every ASCII host.
pub open spec fn settled_host(host: Seq<char>) -> bool {
    lowered(host) == host && !host.contains('/') && !host.contains('@')
}

proof fn lemma_ascii_host_settles(host: Seq<char>)
    requires
        all_ascii(host),
        !host.contains('/'),
        !host.contains('@'),
    ensures
        settled_host(lowered(host)),
{
    let low = lowered(host);
    assert forall|i: int| 0 <= i < low.len() implies ascii(#[trigger] low[i]) && ascii_lower(low[i])
        == low[i] && low[i] != '/' && low[i] != '@' by {
        assert(low[i] == ascii_lower(host[i]));
        assert(ascii(host[i]));
        if host[i] == '/' {
            assert(host.contains('/'));
        }
        if host[i] == '@' {
            assert(host.contains('@'));
        }
    }
    assert(lowered(low) =~= low);
}

/// Normalising an origin twice is normalising it once, where what came out has no colon, no
/// space around it and no slash behind it. Of a host that is not ASCII it is only known under
/// the condition that lower case of it stays as it is.
pub proof fn law_normalising_twice_changes_nothing(origin: Seq<char>)
    requires
        !normalized(origin).contains(':'),
        trimmed(normalized(origin)) == normalized(origin),
        normalized(origin).len() > 0 ==> normalized(origin).last() != '/',
        !all_ascii(host_and_path(origin).0) ==> settled_host(lowered(host_and_path(origin).0)),
    ensures
        normalized(normalized(origin)) == normalized(origin),
{
    reveal_strlit("/");
    reveal_strlit("https://");
    reveal_strlit("http://");
    reveal_strlit("ssh://");
    reveal_strlit("git://");
    reveal_strlit("file://");
    let (host, path) = host_and_path(origin);
    let low = lowered(host);
    let n = normalized(origin);
    lemma_host_is_clear(origin);
    lemma_path_is_clear(origin);
    if all_ascii(host) {
        lemma_ascii_host_settles(host);
    }
    assert(without_back(trimmed(n), '/') == n);
    assert(after_scheme(n) is None) by {
        if "https://"@.is_prefix_of(n) {
            assert(n[5] == "https://"@[5]);
        }
        if "http://"@.is_prefix_of(n) {
            assert(n[4] == "http://"@[4]);
        }
        if "ssh://"@.is_prefix_of(n) {
            assert(n[3] == "ssh://"@[3]);
        }
        if "git://"@.is_prefix_of(n) {
            assert(n[3] == "git://"@[3]);
        }
        if "file://"@.is_prefix_of(n) {
            assert(n[4] == "file://"@[4]);
        }
    }
    assert(address(n) == n);
    let none = Seq::<char>::empty();
    assert(n.take(low.len() as int) =~= low);
    lemma_credentials_go(none, low, n);
    assert(none + n =~= n);
    if path.len() == 0 {
        assert(n == low);
    } else {
        let at = low.len() as int;
        assert(n[at] == '/');
        assert forall|j: int| 0 <= j < at implies n[j] != '/' by {
            if n[j] == '/' {
                assert(low[j] == '/');
                assert(low.contains('/'));
            }
        }
        assert(first_at(n, '/', at));
        lemma_cut_at(n, '/', at);
        assert(n.skip(at + 1) =~= path);
    }
}

} // verus!
