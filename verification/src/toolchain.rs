//! Learning a repository's toolchain from what it declares.
//!
//! Every fact produced here says what a file contains, cites that file, and stops.
//! None of it claims a command was run, a linter exists on `PATH`, or a version
//! matches what CI uses.
//!
//! Parsing is deliberately shallow. A repository can hold anything, including a
//! truncated or binary manifest, and detection runs at session start: it must not
//! be a way to break a session.

use vstd::prelude::*;

use crate::curation::edit_step;
use crate::domain::{Evidence, EvidenceModel, RememberCommand, RememberCommandModel};
use crate::error::{outcome, DomainError, DomainErrorModel, StoreError, StoreErrorModel};
use crate::facts::{remember_step, FactContext, FactContextModel};
use crate::ids::{FactId, OperationId};
use crate::moment::{clock_text, Moment};
use crate::operations::is_operation;
use crate::outside::{
    decode_utf8_lossy, json_entries_under, marked_random, read_json_entries, utf8_lossy,
};
use crate::rows::{any_row, first_row, is_first, lemma_first, lemma_no_first};
use crate::states::{Cardinality, FactKind, FactScope, FactStatus, RelationKind};
use crate::tables::{FactRowModel, Store, StoreModel};
use crate::text::{
    after_prefix, characters, concat2, concat3, contains, copy_option, copy_text, cut_at, join,
    joined, lines, lines_of, occurs_in, same, same_option, split_once, strip_prefix, trim,
    trim_back_char, trim_front_char, trim_start, trimmed, trimmed_start, without_back,
    without_front,
};

verus! {

/// Read out of a file rather than checked by running it: the bits of nine tenths.
pub const DETECTED_CONFIDENCE: u64 = 4606281698874543309;

/// Largest manifest worth reading. A lockfile can be megabytes and holds nothing
/// this needs; the cap keeps a pathological repository from stalling session start.
pub const MAX_MANIFEST_BYTES: u64 = 524288;

// --- what a repository holds ----------------------------------------------

/// A regular file at the root of a repository, as it was found.
#[derive(Debug, PartialEq, Eq)]
pub struct RootFile {
    pub name: String,
    pub size: u64,
    /// `None` where the file could not be read.
    pub contents: Option<Vec<u8>>,
}

/// The contents of a [`RootFile`].
#[verifier::ext_equal]
pub struct RootFileModel {
    pub name: Seq<char>,
    pub size: u64,
    pub contents: Option<Seq<u8>>,
}

impl View for RootFile {
    type V = RootFileModel;

    open spec fn view(&self) -> RootFileModel {
        RootFileModel {
            name: self.name@,
            size: self.size,
            contents: match self.contents {
                Some(bytes) => Some(bytes@),
                None => None,
            },
        }
    }
}

impl DeepView for RootFile {
    type V = RootFileModel;

    open spec fn deep_view(&self) -> RootFileModel {
        self@
    }
}

/// A regular file at the root of a repository, as text.
#[derive(Debug, PartialEq, Eq)]
pub struct TextFile {
    pub name: String,
    /// `None` where the file is too large to be worth reading, or could not be read.
    pub text: Option<String>,
}

/// The contents of a [`TextFile`].
#[verifier::ext_equal]
pub struct TextFileModel {
    pub name: Seq<char>,
    pub text: Option<Seq<char>>,
}

impl View for TextFile {
    type V = TextFileModel;

    open spec fn view(&self) -> TextFileModel {
        TextFileModel {
            name: self.name@,
            text: self.text.deep_view(),
        }
    }
}

impl DeepView for TextFile {
    type V = TextFileModel;

    open spec fn deep_view(&self) -> TextFileModel {
        self@
    }
}

/// What a manifest declares.
#[derive(Debug, PartialEq, Eq)]
pub struct Detected {
    pub name: String,
    pub title: String,
    pub body: String,
    /// The files it was read from, relative to the root, so that the fact still
    /// resolves in a different checkout of the same project.
    pub cites: Vec<String>,
}

/// The contents of a [`Detected`].
#[verifier::ext_equal]
pub struct DetectedModel {
    pub name: Seq<char>,
    pub title: Seq<char>,
    pub body: Seq<char>,
    pub cites: Seq<Seq<char>>,
}

impl View for Detected {
    type V = DetectedModel;

    open spec fn view(&self) -> DetectedModel {
        DetectedModel {
            name: self.name@,
            title: self.title@,
            body: self.body@,
            cites: self.cites.deep_view(),
        }
    }
}

impl DeepView for Detected {
    type V = DetectedModel;

    open spec fn deep_view(&self) -> DetectedModel {
        self@
    }
}

/// A file as text: nothing that is implausibly large, and decoded loosely, since a
/// manifest with invalid UTF-8 is malformed and no reason to fail.
pub open spec fn as_text(file: RootFileModel) -> TextFileModel {
    TextFileModel {
        name: file.name,
        text: if file.size > MAX_MANIFEST_BYTES {
            None
        } else {
            match file.contents {
                Some(bytes) => Some(utf8_lossy(bytes)),
                None => None,
            }
        },
    }
}

/// Files as text.
pub open spec fn as_texts(files: Seq<RootFileModel>) -> Seq<TextFileModel> {
    Seq::new(files.len(), |i: int| as_text(files[i]))
}

/// Being called that.
pub open spec fn is_called(name: Seq<char>) -> spec_fn(TextFileModel) -> bool {
    |f: TextFileModel| f.name == name
}

/// Whether a repository holds a file.
pub open spec fn holds(files: Seq<TextFileModel>, name: Seq<char>) -> bool {
    any_row(files, is_called(name))
}

/// The text of a file of a repository.
pub open spec fn text_of(files: Seq<TextFileModel>, name: Seq<char>) -> Option<Seq<char>> {
    match first_row(files, is_called(name)) {
        Some(file) => file.text,
        None => None,
    }
}

/// The first of some names that a repository holds a file of.
pub open spec fn first_held(files: Seq<TextFileModel>, names: Seq<Seq<char>>) -> Option<Seq<char>>
    decreases names.len(),
{
    if names.len() == 0 {
        None
    } else if holds(files, names[0]) {
        Some(names[0])
    } else {
        first_held(files, names.skip(1))
    }
}

/// Reads the files that are worth it.
pub fn read_texts(files: &Vec<RootFile>) -> (r: Vec<TextFile>)
    ensures
        r.deep_view() == as_texts(files.deep_view()),
{
    let ghost all = as_texts(files.deep_view());
    let mut r: Vec<TextFile> = Vec::new();
    let mut i: usize = 0;
    while i < files.len()
        invariant
            i <= files@.len(),
            all == as_texts(files.deep_view()),
            r.deep_view() =~= all.take(i as int),
        decreases files@.len() - i,
    {
        let ghost listed = r.deep_view();
        let text = if files[i].size > MAX_MANIFEST_BYTES {
            None
        } else {
            match &files[i].contents {
                Some(bytes) => Some(decode_utf8_lossy(bytes)),
                None => None,
            }
        };
        let file = TextFile { name: copy_text(&files[i].name), text };
        assert(file@ == all[i as int]);
        r.push(file);
        assert(r.deep_view() =~= listed.push(all[i as int]));
        i += 1;
    }
    assert(all.take(i as int) =~= all);
    r
}

fn is_held(files: &Vec<TextFile>, name: &str) -> (r: bool)
    ensures
        r == holds(files.deep_view(), name@),
{
    let ghost all = files.deep_view();
    let ghost p = is_called(name@);
    let mut i: usize = 0;
    while i < files.len()
        invariant
            i <= files@.len(),
            all == files.deep_view(),
            p == is_called(name@),
            forall|j: int| 0 <= j < i ==> !p(#[trigger] all[j]),
        decreases files@.len() - i,
    {
        assert(all[i as int] == files@[i as int]@);
        if same(files[i].name.as_str(), name) {
            assert(p(all[i as int]));
            return true;
        }
        i += 1;
    }
    false
}

fn read(files: &Vec<TextFile>, name: &str) -> (r: Option<String>)
    ensures
        r.deep_view() == text_of(files.deep_view(), name@),
{
    let ghost all = files.deep_view();
    let ghost p = is_called(name@);
    let mut i: usize = 0;
    while i < files.len()
        invariant
            i <= files@.len(),
            all == files.deep_view(),
            p == is_called(name@),
            forall|j: int| 0 <= j < i ==> !p(#[trigger] all[j]),
        decreases files@.len() - i,
    {
        assert(all[i as int] == files@[i as int]@);
        if same(files[i].name.as_str(), name) {
            proof {
                assert(is_first(all, p, i as int));
                lemma_first(all, p, i as int);
            }
            return copy_option(&files[i].text);
        }
        i += 1;
    }
    proof {
        lemma_no_first(all, p);
    }
    None
}

fn one(name: &str) -> (r: Vec<String>)
    ensures
        r.deep_view() == seq![name@],
{
    let mut r: Vec<String> = Vec::new();
    r.push(name.to_owned());
    assert(r.deep_view() =~= seq![name@]);
    r
}

// --- reading lines ---------------------------------------------------------

/// The first value some lines give.
pub open spec fn first_given(
    found: Seq<Seq<char>>,
    given: spec_fn(Seq<char>) -> Option<Seq<char>>,
) -> Option<Seq<char>>
    decreases found.len(),
{
    if found.len() == 0 {
        None
    } else {
        match given(found[0]) {
            Some(value) => Some(value),
            None => first_given(found.skip(1), given),
        }
    }
}

/// `<keyword> <value>` on a line of its own.
pub open spec fn directive_on(keyword: Seq<char>) -> spec_fn(Seq<char>) -> Option<Seq<char>> {
    |line: Seq<char>|
        match after_prefix(trimmed(line), keyword) {
            None => None,
            Some(rest) => match after_prefix(rest, " "@) {
                None => None,
                Some(value) => if trimmed(value).len() > 0 {
                    Some(trimmed(value))
                } else {
                    None
                },
            },
        }
}

/// A value without the quotes around it.
pub open spec fn without_quotes(value: Seq<char>, quote: char) -> Seq<char> {
    without_back(without_front(value, quote), quote)
}

/// `key = "value"` on a line of its own.
pub open spec fn quoted_on(key: Seq<char>) -> spec_fn(Seq<char>) -> Option<Seq<char>> {
    |line: Seq<char>|
        match after_prefix(trimmed(line), key) {
            None => None,
            Some(rest) => match after_prefix(trimmed_start(rest), "="@) {
                None => None,
                Some(given) => {
                    let value = trimmed(given);
                    let unquoted = trimmed(without_quotes(value, '"'));
                    if unquoted.len() > 0 && unquoted != without_quotes(value, '\'') {
                        Some(unquoted)
                    } else {
                        None
                    }
                },
            },
        }
}

fn directive_of(line: &str, keyword: &str) -> (r: Option<String>)
    ensures
        r.deep_view() == directive_on(keyword@)(line@),
{
    let bare = trim(line);
    match strip_prefix(bare.as_str(), keyword) {
        None => None,
        Some(rest) => match strip_prefix(rest.as_str(), " ") {
            None => None,
            Some(value) => {
                let value = trim(value.as_str());
                if value.as_str().is_empty() {
                    None
                } else {
                    Some(value)
                }
            },
        },
    }
}

fn unquote(value: &str, quote: char) -> (r: String)
    ensures
        r@ == without_quotes(value@, quote),
{
    let front = trim_front_char(value, quote);
    trim_back_char(front.as_str(), quote)
}

fn quoted_of(line: &str, key: &str) -> (r: Option<String>)
    ensures
        r.deep_view() == quoted_on(key@)(line@),
{
    let bare = trim(line);
    match strip_prefix(bare.as_str(), key) {
        None => None,
        Some(rest) => {
            let rest = trim_start(rest.as_str());
            match strip_prefix(rest.as_str(), "=") {
                None => None,
                Some(given) => {
                    let value = trim(given.as_str());
                    let inner = unquote(value.as_str(), '"');
                    let unquoted = trim(inner.as_str());
                    let single = unquote(value.as_str(), '\'');
                    if !unquoted.as_str().is_empty() && !same(unquoted.as_str(), single.as_str()) {
                        Some(unquoted)
                    } else {
                        None
                    }
                },
            }
        },
    }
}

/// `go.mod`-style `<directive> <value>` at the start of a line.
pub fn directive(text: &str, keyword: &str) -> (r: Option<String>)
    ensures
        r.deep_view() == first_given(lines_of(text@), directive_on(keyword@)),
{
    let found = lines(text);
    let ghost all = found.deep_view();
    let ghost given = directive_on(keyword@);
    let mut i: usize = 0;
    assert(all.skip(0) =~= all);
    while i < found.len()
        invariant
            i <= found@.len(),
            all == found.deep_view(),
            all == lines_of(text@),
            given == directive_on(keyword@),
            first_given(all, given) == first_given(all.skip(i as int), given),
        decreases found@.len() - i,
    {
        assert(all.skip(i as int)[0] == found@[i as int]@);
        assert(all.skip(i as int).skip(1) =~= all.skip(i + 1));
        if let Some(value) = directive_of(found[i].as_str(), keyword) {
            return Some(value);
        }
        i += 1;
    }
    None
}

/// TOML-style `key = "value"`, without a parser for two lookups.
pub fn quoted_value(text: &str, key: &str) -> (r: Option<String>)
    ensures
        r.deep_view() == first_given(lines_of(text@), quoted_on(key@)),
{
    let found = lines(text);
    let ghost all = found.deep_view();
    let ghost given = quoted_on(key@);
    let mut i: usize = 0;
    assert(all.skip(0) =~= all);
    while i < found.len()
        invariant
            i <= found@.len(),
            all == found.deep_view(),
            all == lines_of(text@),
            given == quoted_on(key@),
            first_given(all, given) == first_given(all.skip(i as int), given),
        decreases found@.len() - i,
    {
        assert(all.skip(i as int)[0] == found@[i as int]@);
        assert(all.skip(i as int).skip(1) =~= all.skip(i + 1));
        if let Some(value) = quoted_of(found[i].as_str(), key) {
            return Some(value);
        }
        i += 1;
    }
    None
}

// --- Go --------------------------------------------------------------------

/// What `go.mod` declares.
pub open spec fn go_toolchain(manifest: Seq<char>) -> DetectedModel {
    let found = lines_of(manifest);
    DetectedModel {
        name: "toolchain-go"@,
        title: match first_given(found, directive_on("go"@)) {
            Some(version) => "Go "@ + version,
            None => "Go module"@,
        },
        body: "Declared in go.mod"@ + (match first_given(found, directive_on("module"@)) {
            Some(module) => "; module "@ + module,
            None => ""@,
        })
            + ".\n\nThe conventional commands are `go test ./...` and `go build ./...`. The Go version above is what the module declares, which is not necessarily what CI installs."@,
        cites: seq!["go.mod"@],
    }
}

/// The names a golangci-lint configuration goes by.
pub open spec fn linter_configs() -> Seq<Seq<char>> {
    seq![".golangci.yml"@, ".golangci.yaml"@, ".golangci.toml"@]
}

/// What a golangci-lint configuration declares: intent, and no working setup.
pub open spec fn go_linter(config: Seq<char>) -> DetectedModel {
    DetectedModel {
        name: "linter-go"@,
        title: "golangci-lint is configured"@,
        body:
            "A configuration file is present, so the project intends to use golangci-lint. Whether the binary exists, and at which version, has not been checked here."@,
        cites: seq![config],
    }
}

/// What a repository declares about Go.
pub open spec fn go_facts(files: Seq<TextFileModel>) -> Seq<DetectedModel> {
    match text_of(files, "go.mod"@) {
        None => Seq::empty(),
        Some(manifest) => match first_held(files, linter_configs()) {
            None => seq![go_toolchain(manifest)],
            Some(config) => seq![go_toolchain(manifest), go_linter(config)],
        },
    }
}

fn first_held_of(files: &Vec<TextFile>, names: &Vec<String>) -> (r: Option<String>)
    ensures
        r.deep_view() == first_held(files.deep_view(), names.deep_view()),
{
    let ghost held = files.deep_view();
    let ghost all = names.deep_view();
    let mut i: usize = 0;
    assert(all.skip(0) =~= all);
    while i < names.len()
        invariant
            i <= names@.len(),
            held == files.deep_view(),
            all == names.deep_view(),
            first_held(held, all) == first_held(held, all.skip(i as int)),
        decreases names@.len() - i,
    {
        assert(all.skip(i as int)[0] == names@[i as int]@);
        assert(all.skip(i as int).skip(1) =~= all.skip(i + 1));
        if is_held(files, names[i].as_str()) {
            return Some(copy_text(&names[i]));
        }
        i += 1;
    }
    None
}

/// Reads what a repository declares about Go.
pub fn detect_go(files: &Vec<TextFile>) -> (r: Vec<Detected>)
    ensures
        r.deep_view() == go_facts(files.deep_view()),
{
    let mut facts: Vec<Detected> = Vec::new();
    if let Some(manifest) = read(files, "go.mod") {
        let title = match directive(manifest.as_str(), "go") {
            Some(version) => concat2("Go ", version.as_str()),
            None => "Go module".to_owned(),
        };
        let module = match directive(manifest.as_str(), "module") {
            Some(module) => concat2("; module ", module.as_str()),
            None => "".to_owned(),
        };
        let body = concat3(
            "Declared in go.mod",
            module.as_str(),
            ".\n\nThe conventional commands are `go test ./...` and `go build ./...`. The Go version above is what the module declares, which is not necessarily what CI installs.",
        );
        facts.push(Detected { name: "toolchain-go".to_owned(), title, body, cites: one("go.mod") });

        let mut configs: Vec<String> = Vec::new();
        configs.push(".golangci.yml".to_owned());
        configs.push(".golangci.yaml".to_owned());
        configs.push(".golangci.toml".to_owned());
        assert(configs.deep_view() =~= linter_configs());
        if let Some(config) = first_held_of(files, &configs) {
            facts.push(
                Detected {
                    name: "linter-go".to_owned(),
                    title: "golangci-lint is configured".to_owned(),
                    body:
                        "A configuration file is present, so the project intends to use golangci-lint. Whether the binary exists, and at which version, has not been checked here.".to_owned(),
                    cites: one(config.as_str()),
                },
            );
        }
    }
    assert(facts.deep_view() =~= go_facts(files.deep_view()));
    facts
}

// --- Rust ------------------------------------------------------------------

/// The channel a repository pins. It lives in `rust-toolchain.toml`, and not in
/// `Cargo.toml`.
pub open spec fn pinned_channel(files: Seq<TextFileModel>) -> Option<Seq<char>> {
    match text_of(files, "rust-toolchain.toml"@) {
        None => None,
        Some(text) => first_given(lines_of(text), quoted_on("channel"@)),
    }
}

/// What a repository declares about Rust.
pub open spec fn rust_facts(files: Seq<TextFileModel>) -> Seq<DetectedModel> {
    if text_of(files, "Cargo.toml"@) is None {
        Seq::empty()
    } else {
        match pinned_channel(files) {
            Some(channel) => seq![
                DetectedModel {
                    name: "toolchain-rust"@,
                    title: "Rust pinned to "@ + channel,
                    body:
                        "The channel comes from rust-toolchain.toml. Conventional commands are `cargo test`, `cargo clippy --all-targets` and `cargo fmt --all --check`."@,
                    cites: seq!["Cargo.toml"@, "rust-toolchain.toml"@],
                },
            ],
            None => seq![
                DetectedModel {
                    name: "toolchain-rust"@,
                    title: "Rust, no pinned toolchain"@,
                    body:
                        "No rust-toolchain.toml, so the version is whatever rustup resolves for the caller. Conventional commands are `cargo test`, `cargo clippy --all-targets` and `cargo fmt --all --check`."@,
                    cites: seq!["Cargo.toml"@],
                },
            ],
        }
    }
}

fn two(first: &str, second: &str) -> (r: Vec<String>)
    ensures
        r.deep_view() == seq![first@, second@],
{
    let mut r: Vec<String> = Vec::new();
    r.push(first.to_owned());
    r.push(second.to_owned());
    assert(r.deep_view() =~= seq![first@, second@]);
    r
}

/// Reads what a repository declares about Rust.
pub fn detect_rust(files: &Vec<TextFile>) -> (r: Vec<Detected>)
    ensures
        r.deep_view() == rust_facts(files.deep_view()),
{
    let mut facts: Vec<Detected> = Vec::new();
    if read(files, "Cargo.toml").is_some() {
        let pinned = match read(files, "rust-toolchain.toml") {
            None => None,
            Some(text) => quoted_value(text.as_str(), "channel"),
        };
        match pinned {
            Some(channel) => {
                facts.push(
                    Detected {
                        name: "toolchain-rust".to_owned(),
                        title: concat2("Rust pinned to ", channel.as_str()),
                        body:
                            "The channel comes from rust-toolchain.toml. Conventional commands are `cargo test`, `cargo clippy --all-targets` and `cargo fmt --all --check`.".to_owned(),
                        cites: two("Cargo.toml", "rust-toolchain.toml"),
                    },
                );
            },
            None => {
                facts.push(
                    Detected {
                        name: "toolchain-rust".to_owned(),
                        title: "Rust, no pinned toolchain".to_owned(),
                        body:
                            "No rust-toolchain.toml, so the version is whatever rustup resolves for the caller. Conventional commands are `cargo test`, `cargo clippy --all-targets` and `cargo fmt --all --check`.".to_owned(),
                        cites: one("Cargo.toml"),
                    },
                );
            },
        }
    }
    assert(facts.deep_view() =~= rust_facts(files.deep_view()));
    facts
}

// --- Node ------------------------------------------------------------------

/// The lockfiles, in the order they are looked for.
pub open spec fn lockfiles() -> Seq<Seq<char>> {
    seq!["bun.lockb"@, "bun.lock"@, "pnpm-lock.yaml"@, "yarn.lock"@, "package-lock.json"@]
}

/// The package manager that writes a lockfile.
pub open spec fn manager_of(lockfile: Seq<char>) -> Seq<char> {
    if lockfile == "bun.lockb"@ || lockfile == "bun.lock"@ {
        "bun"@
    } else if lockfile == "pnpm-lock.yaml"@ {
        "pnpm"@
    } else if lockfile == "yarn.lock"@ {
        "yarn"@
    } else {
        "npm"@
    }
}

/// What a repository declares about Node. The lockfile is the only honest signal of
/// which package manager is in use.
pub open spec fn node_toolchain(files: Seq<TextFileModel>) -> DetectedModel {
    match first_held(files, lockfiles()) {
        Some(lockfile) => DetectedModel {
            name: "toolchain-node"@,
            title: "Node.js project"@,
            body: "Package manager is "@ + manager_of(lockfile) + ", from the presence of "@
                + lockfile + "."@,
            cites: seq!["package.json"@, lockfile],
        },
        None => DetectedModel {
            name: "toolchain-node"@,
            title: "Node.js project"@,
            body: "No lockfile, so the package manager is unknown. Do not assume npm."@,
            cites: seq!["package.json"@],
        },
    }
}

/// The entries of a manifest's scripts that are text, one to a line.
pub open spec fn script_lines(entries: Seq<(Seq<char>, Option<Seq<char>>)>) -> Seq<char>
    decreases entries.len(),
{
    if entries.len() == 0 {
        Seq::empty()
    } else {
        let before = script_lines(entries.drop_last());
        match entries.last().1 {
            None => before,
            Some(command) => before + ("- `"@ + entries.last().0 + "`: `"@ + command + "`\n"@),
        }
    }
}

/// Whether any entry of a manifest's scripts is text.
pub open spec fn any_script(entries: Seq<(Seq<char>, Option<Seq<char>>)>) -> bool {
    exists|i: int| 0 <= i < entries.len() && (#[trigger] entries[i]).1 is Some
}

/// What a manifest's scripts declare.
pub open spec fn node_commands(entries: Seq<(Seq<char>, Option<Seq<char>>)>) -> DetectedModel {
    DetectedModel {
        name: "commands-node"@,
        title: "Scripts this project declares"@,
        body: "Declared in package.json:\n"@ + script_lines(entries)
            + "\nThese are what the project declares; none has been run here."@,
        cites: seq!["package.json"@],
    }
}

/// What a repository with a `package.json` declares about Node, given what stands
/// under `scripts` in it.
pub open spec fn node_facts_with(
    files: Seq<TextFileModel>,
    scripts: Option<Seq<(Seq<char>, Option<Seq<char>>)>>,
) -> Seq<DetectedModel> {
    match scripts {
        Some(entries) => if any_script(entries) {
            seq![node_toolchain(files), node_commands(entries)]
        } else {
            seq![node_toolchain(files)]
        },
        None => seq![node_toolchain(files)],
    }
}

/// What a repository declares about Node.
pub open spec fn node_facts(files: Seq<TextFileModel>) -> Seq<DetectedModel> {
    match text_of(files, "package.json"@) {
        None => Seq::empty(),
        Some(manifest) => node_facts_with(files, json_entries_under(manifest, "scripts"@)),
    }
}

/// The package manager that writes a lockfile.
fn manager(lockfile: &str) -> (r: &'static str)
    ensures
        r@ == manager_of(lockfile@),
{
    if same(lockfile, "bun.lockb") || same(lockfile, "bun.lock") {
        "bun"
    } else if same(lockfile, "pnpm-lock.yaml") {
        "pnpm"
    } else if same(lockfile, "yarn.lock") {
        "yarn"
    } else {
        "npm"
    }
}

fn list_scripts(entries: &Vec<(String, Option<String>)>) -> (r: Option<String>)
    ensures
        r is Some <==> any_script(entries.deep_view()),
        r matches Some(text) ==> text@ == script_lines(entries.deep_view()),
{
    let ghost all = entries.deep_view();
    let mut found = false;
    let mut text = String::new();
    let mut i: usize = 0;
    assert(all.take(0) =~= Seq::<(Seq<char>, Option<Seq<char>>)>::empty());
    assert(text@ =~= Seq::<char>::empty());
    while i < entries.len()
        invariant
            i <= entries@.len(),
            all == entries.deep_view(),
            text@ == script_lines(all.take(i as int)),
            found == (exists|j: int| 0 <= j < i && (#[trigger] all[j]).1 is Some),
        decreases entries@.len() - i,
    {
        assert(all[i as int] == entries@[i as int].deep_view());
        assert(all.take(i + 1).drop_last() =~= all.take(i as int));
        assert(all.take(i + 1).last() == all[i as int]);
        if let Some(command) = &entries[i].1 {
            let name = concat3("- `", entries[i].0.as_str(), "`: `");
            let line = concat3(name.as_str(), command.as_str(), "`\n");
            text = concat2(text.as_str(), line.as_str());
            found = true;
            assert(all[i as int].1 is Some);
        }
        i += 1;
    }
    assert(all.take(i as int) =~= all);
    if found {
        Some(text)
    } else {
        None
    }
}

/// Reads what a repository with a `package.json` declares about Node, given what
/// stands under `scripts` in it.
pub fn detect_node_with(
    files: &Vec<TextFile>,
    scripts: &Option<Vec<(String, Option<String>)>>,
) -> (r: Vec<Detected>)
    ensures
        r.deep_view() == node_facts_with(files.deep_view(), scripts.deep_view()),
{
    let mut names: Vec<String> = Vec::new();
    names.push("bun.lockb".to_owned());
    names.push("bun.lock".to_owned());
    names.push("pnpm-lock.yaml".to_owned());
    names.push("yarn.lock".to_owned());
    names.push("package-lock.json".to_owned());
    assert(names.deep_view() =~= lockfiles());
    let mut facts: Vec<Detected> = Vec::new();
    match first_held_of(files, &names) {
        Some(lockfile) => {
            let first = concat3(
                "Package manager is ",
                manager(lockfile.as_str()),
                ", from the presence of ",
            );
            facts.push(
                Detected {
                    name: "toolchain-node".to_owned(),
                    title: "Node.js project".to_owned(),
                    body: concat3(first.as_str(), lockfile.as_str(), "."),
                    cites: two("package.json", lockfile.as_str()),
                },
            );
        },
        None => {
            facts.push(
                Detected {
                    name: "toolchain-node".to_owned(),
                    title: "Node.js project".to_owned(),
                    body:
                        "No lockfile, so the package manager is unknown. Do not assume npm.".to_owned(),
                    cites: one("package.json"),
                },
            );
        },
    }
    if let Some(entries) = scripts {
        if let Some(listed) = list_scripts(entries) {
            facts.push(
                Detected {
                    name: "commands-node".to_owned(),
                    title: "Scripts this project declares".to_owned(),
                    body: concat3(
                        "Declared in package.json:\n",
                        listed.as_str(),
                        "\nThese are what the project declares; none has been run here.",
                    ),
                    cites: one("package.json"),
                },
            );
        }
    }
    assert(facts.deep_view() =~= node_facts_with(files.deep_view(), scripts.deep_view()));
    facts
}

/// Reads what a repository declares about Node.
pub fn detect_node(files: &Vec<TextFile>) -> (r: Vec<Detected>)
    ensures
        r.deep_view() == node_facts(files.deep_view()),
{
    match read(files, "package.json") {
        None => {
            let none: Vec<Detected> = Vec::new();
            assert(none.deep_view() =~= Seq::<DetectedModel>::empty());
            none
        },
        Some(manifest) => {
            let scripts = read_json_entries(manifest.as_str(), "scripts");
            detect_node_with(files, &scripts)
        },
    }
}

// --- Python ----------------------------------------------------------------

/// The tools a `pyproject.toml` may name, and what naming one says.
pub open spec fn python_notes() -> Seq<(Seq<char>, Seq<char>)> {
    seq![
        ("[tool.poetry]"@, "Managed with Poetry."@),
        ("[tool.uv]"@, "Managed with uv."@),
        ("[tool.hatch"@, "Managed with Hatch."@),
        ("[tool.ruff"@, "Ruff is configured."@),
    ]
}

/// What the tools named in a manifest say.
pub open spec fn notes_on(manifest: Seq<char>, notes: Seq<(Seq<char>, Seq<char>)>) -> Seq<char>
    decreases notes.len(),
{
    if notes.len() == 0 {
        Seq::empty()
    } else {
        let before = notes_on(manifest, notes.drop_last());
        if occurs_in(notes.last().0, manifest) {
            before + (" "@ + notes.last().1)
        } else {
            before
        }
    }
}

/// What a repository declares about Python.
pub open spec fn python_facts(files: Seq<TextFileModel>) -> Seq<DetectedModel> {
    match text_of(files, "pyproject.toml"@) {
        None => Seq::empty(),
        Some(manifest) => seq![
            DetectedModel {
                name: "toolchain-python"@,
                title: match first_given(lines_of(manifest), quoted_on("requires-python"@)) {
                    Some(version) => "Python "@ + version,
                    None => "Python project"@,
                },
                body: "Declared in pyproject.toml."@ + notes_on(manifest, python_notes()),
                cites: seq!["pyproject.toml"@],
            },
        ],
    }
}

fn note_on(manifest: &str, notes: &Vec<(String, String)>) -> (r: String)
    ensures
        r@ == notes_on(manifest@, notes.deep_view()),
{
    let ghost all = notes.deep_view();
    let mut r = String::new();
    let mut i: usize = 0;
    assert(all.take(0) =~= Seq::<(Seq<char>, Seq<char>)>::empty());
    assert(r@ =~= Seq::<char>::empty());
    while i < notes.len()
        invariant
            i <= notes@.len(),
            all == notes.deep_view(),
            r@ == notes_on(manifest@, all.take(i as int)),
        decreases notes@.len() - i,
    {
        assert(all[i as int] == notes@[i as int].deep_view());
        assert(all.take(i + 1).drop_last() =~= all.take(i as int));
        assert(all.take(i + 1).last() == all[i as int]);
        if contains(manifest, notes[i].0.as_str()) {
            let note = concat2(" ", notes[i].1.as_str());
            r = concat2(r.as_str(), note.as_str());
        }
        i += 1;
    }
    assert(all.take(i as int) =~= all);
    r
}

/// Reads what a repository declares about Python.
pub fn detect_python(files: &Vec<TextFile>) -> (r: Vec<Detected>)
    ensures
        r.deep_view() == python_facts(files.deep_view()),
{
    let mut facts: Vec<Detected> = Vec::new();
    if let Some(manifest) = read(files, "pyproject.toml") {
        let title = match quoted_value(manifest.as_str(), "requires-python") {
            Some(version) => concat2("Python ", version.as_str()),
            None => "Python project".to_owned(),
        };
        let mut notes: Vec<(String, String)> = Vec::new();
        notes.push(("[tool.poetry]".to_owned(), "Managed with Poetry.".to_owned()));
        notes.push(("[tool.uv]".to_owned(), "Managed with uv.".to_owned()));
        notes.push(("[tool.hatch".to_owned(), "Managed with Hatch.".to_owned()));
        notes.push(("[tool.ruff".to_owned(), "Ruff is configured.".to_owned()));
        assert(notes.deep_view() =~= python_notes());
        let noted = note_on(manifest.as_str(), &notes);
        facts.push(
            Detected {
                name: "toolchain-python".to_owned(),
                title,
                body: concat2("Declared in pyproject.toml.", noted.as_str()),
                cites: one("pyproject.toml"),
            },
        );
    }
    assert(facts.deep_view() =~= python_facts(files.deep_view()));
    facts
}

// --- JVM -------------------------------------------------------------------

/// What no build file says about the JDK.
pub open spec fn jdk_note() -> Seq<char> {
    "\n\nThe JDK version has not been checked here; it is set by the environment or by CI rather than by this file alone."@
}

/// What a repository declares about the JVM. A Gradle wrapper pins the build tool's
/// own version, so that invoking a system gradle is a different build from the one
/// CI runs.
pub open spec fn jvm_facts(files: Seq<TextFileModel>) -> Seq<DetectedModel> {
    match first_held(files, seq!["build.gradle"@, "build.gradle.kts"@]) {
        Some(manifest) => if holds(files, "gradlew"@) {
            seq![
                DetectedModel {
                    name: "toolchain-jvm"@,
                    title: "JVM project"@,
                    body:
                        "Gradle, with a wrapper: use `./gradlew` rather than a system gradle, since the wrapper pins the build's own version."@
                        + jdk_note(),
                    cites: seq![manifest, "gradlew"@],
                },
            ]
        } else {
            seq![
                DetectedModel {
                    name: "toolchain-jvm"@,
                    title: "JVM project"@,
                    body: "Gradle, with no wrapper checked in."@ + jdk_note(),
                    cites: seq![manifest],
                },
            ]
        },
        None => if holds(files, "pom.xml"@) {
            seq![
                DetectedModel {
                    name: "toolchain-jvm"@,
                    title: "JVM project"@,
                    body: "Maven. Conventional commands are `mvn test` and `mvn package`."@
                        + jdk_note(),
                    cites: seq!["pom.xml"@],
                },
            ]
        } else {
            Seq::empty()
        },
    }
}

fn jvm_fact(declared: &str, cites: Vec<String>) -> (r: Detected)
    ensures
        r@ == (DetectedModel {
            name: "toolchain-jvm"@,
            title: "JVM project"@,
            body: declared@ + jdk_note(),
            cites: cites.deep_view(),
        }),
{
    Detected {
        name: "toolchain-jvm".to_owned(),
        title: "JVM project".to_owned(),
        body: concat2(
            declared,
            "\n\nThe JDK version has not been checked here; it is set by the environment or by CI rather than by this file alone.",
        ),
        cites,
    }
}

/// Reads what a repository declares about the JVM.
pub fn detect_jvm(files: &Vec<TextFile>) -> (r: Vec<Detected>)
    ensures
        r.deep_view() == jvm_facts(files.deep_view()),
{
    let mut facts: Vec<Detected> = Vec::new();
    let names = two("build.gradle", "build.gradle.kts");
    match first_held_of(files, &names) {
        Some(manifest) => if is_held(files, "gradlew") {
            facts.push(
                jvm_fact(
                    "Gradle, with a wrapper: use `./gradlew` rather than a system gradle, since the wrapper pins the build's own version.",
                    two(manifest.as_str(), "gradlew"),
                ),
            );
        } else {
            facts.push(jvm_fact("Gradle, with no wrapper checked in.", one(manifest.as_str())));
        },
        None => if is_held(files, "pom.xml") {
            facts.push(
                jvm_fact(
                    "Maven. Conventional commands are `mvn test` and `mvn package`.",
                    one("pom.xml"),
                ),
            );
        },
    }
    assert(facts.deep_view() =~= jvm_facts(files.deep_view()));
    facts
}

// --- Make ------------------------------------------------------------------

/// What a name that is no plain target holds: an assignment, a pattern rule, a
/// variable, or several names.
pub open spec fn out_of_place(c: char) -> bool {
    c == '=' || c == '%' || c == '$' || c == ' '
}

/// Being a plain target.
pub open spec fn plain_target(name: Seq<char>) -> bool {
    &&& name.len() > 0
    &&& name[0] != '.'
    &&& forall|i: int| 0 <= i < name.len() ==> !out_of_place(#[trigger] name[i])
}

/// Starting with a character.
pub open spec fn starts(s: Seq<char>, c: char) -> bool {
    s.len() > 0 && s[0] == c
}

/// The target a line of a Makefile declares.
pub open spec fn target_on(line: Seq<char>) -> Option<Seq<char>> {
    if starts(line, '\t') || starts(line, '#') {
        None
    } else {
        match cut_at(line, ':') {
            None => None,
            Some((name, rest)) => if plain_target(trimmed(name)) && !starts(rest, '=') {
                Some(trimmed(name))
            } else {
                None
            },
        }
    }
}

/// The targets some lines of a Makefile declare.
pub open spec fn targets_on(found: Seq<Seq<char>>) -> Seq<Seq<char>>
    decreases found.len(),
{
    if found.len() == 0 {
        Seq::empty()
    } else {
        let before = targets_on(found.drop_last());
        match target_on(found.last()) {
            None => before,
            Some(target) => before.push(target),
        }
    }
}

/// What a repository declares about Make.
pub open spec fn make_facts(files: Seq<TextFileModel>) -> Seq<DetectedModel> {
    match text_of(files, "Makefile"@) {
        None => Seq::empty(),
        Some(makefile) => {
            let found = targets_on(lines_of(makefile));
            if found.len() == 0 {
                Seq::empty()
            } else {
                seq![
                    DetectedModel {
                        name: "commands-make"@,
                        title: "Make targets this project declares"@,
                        body: "Targets declared in the Makefile: "@ + joined(found, ", "@)
                            + ".\n\nRun with `make <target>`. None has been run here."@,
                        cites: seq!["Makefile"@],
                    },
                ]
            }
        },
    }
}

fn is_plain_target(name: &str) -> (r: bool)
    ensures
        r == plain_target(name@),
{
    let chars = characters(name);
    if chars.len() == 0 || chars[0] == '.' {
        return false;
    }
    let mut i: usize = 0;
    while i < chars.len()
        invariant
            i <= chars@.len(),
            chars@ == name@,
            forall|j: int| 0 <= j < i ==> !out_of_place(#[trigger] chars@[j]),
        decreases chars@.len() - i,
    {
        let c = chars[i];
        if c == '=' || c == '%' || c == '$' || c == ' ' {
            assert(out_of_place(name@[i as int]));
            return false;
        }
        i += 1;
    }
    true
}

fn starts_char(text: &str, c: char) -> (r: bool)
    ensures
        r == starts(text@, c),
{
    let chars = characters(text);
    chars.len() > 0 && chars[0] == c
}

fn target_of(line: &str) -> (r: Option<String>)
    ensures
        r.deep_view() == target_on(line@),
{
    if starts_char(line, '\t') || starts_char(line, '#') {
        return None;
    }
    match split_once(line, ':') {
        None => None,
        Some((name, rest)) => {
            let name = trim(name.as_str());
            // Skip variable assignments and pattern rules.
            if is_plain_target(name.as_str()) && !starts_char(rest.as_str(), '=') {
                Some(name)
            } else {
                None
            }
        },
    }
}

/// The targets a Makefile declares.
pub fn make_targets(makefile: &str) -> (r: Vec<String>)
    ensures
        r.deep_view() == targets_on(lines_of(makefile@)),
{
    let found = lines(makefile);
    let ghost all = found.deep_view();
    let mut r: Vec<String> = Vec::new();
    let mut i: usize = 0;
    assert(all.take(0) =~= Seq::<Seq<char>>::empty());
    assert(r.deep_view() =~= Seq::<Seq<char>>::empty());
    while i < found.len()
        invariant
            i <= found@.len(),
            all == found.deep_view(),
            r.deep_view() == targets_on(all.take(i as int)),
        decreases found@.len() - i,
    {
        assert(all.take(i + 1).drop_last() =~= all.take(i as int));
        assert(all.take(i + 1).last() == found@[i as int]@);
        let ghost listed = r.deep_view();
        if let Some(target) = target_of(found[i].as_str()) {
            let ghost next = target@;
            r.push(target);
            assert(r.deep_view() =~= listed.push(next));
        }
        i += 1;
    }
    assert(all.take(i as int) =~= all);
    r
}

/// Reads what a repository declares about Make.
pub fn detect_make(files: &Vec<TextFile>) -> (r: Vec<Detected>)
    ensures
        r.deep_view() == make_facts(files.deep_view()),
{
    let mut facts: Vec<Detected> = Vec::new();
    if let Some(makefile) = read(files, "Makefile") {
        let found = make_targets(makefile.as_str());
        if found.len() > 0 {
            let listed = join(&found, ", ");
            facts.push(
                Detected {
                    name: "commands-make".to_owned(),
                    title: "Make targets this project declares".to_owned(),
                    body: concat3(
                        "Targets declared in the Makefile: ",
                        listed.as_str(),
                        ".\n\nRun with `make <target>`. None has been run here.",
                    ),
                    cites: one("Makefile"),
                },
            );
        }
    }
    assert(facts.deep_view() =~= make_facts(files.deep_view()));
    facts
}

// --- all of it -------------------------------------------------------------

/// What a repository's manifests declare.
pub open spec fn declared_facts(files: Seq<TextFileModel>) -> Seq<DetectedModel> {
    go_facts(files) + rust_facts(files) + node_facts(files) + python_facts(files) + jvm_facts(
        files,
    ) + make_facts(files)
}

/// The citations of a detected fact.
pub open spec fn citations(cites: Seq<Seq<char>>) -> Seq<EvidenceModel> {
    Seq::new(cites.len(), |i: int| EvidenceModel { locator: cites[i], excerpt: None })
}

/// A detected fact as it is remembered.
pub open spec fn fact_from(
    detected: DetectedModel,
    operation_id: OperationId,
) -> RememberCommandModel {
    RememberCommandModel {
        operation_id,
        name: detected.name,
        title: detected.title,
        body: detected.body,
        kind: FactKind::Project,
        scope: FactScope::Repository,
        // Re-derived whenever a manifest changes, so a new value replaces the old
        // rather than piling up beside it.
        cardinality: Cardinality::Single,
        // Read, not run. Marking this verified would make the strongest status the
        // cheapest one to earn.
        status: FactStatus::Observed,
        confidence: DETECTED_CONFIDENCE,
        evidence: citations(detected.cites),
        relates_to: Seq::empty(),
    }
}

/// Being `declared` as remembered, each under an operation that was drawn for it.
pub open spec fn remembers(facts: Seq<RememberCommandModel>, declared: Seq<DetectedModel>) -> bool {
    &&& facts.len() == declared.len()
    &&& forall|i: int|
        0 <= i < facts.len() ==> marked_random((#[trigger] facts[i]).operation_id.0) && facts[i]
            == fact_from(declared[i], facts[i].operation_id)
}

fn append(facts: &mut Vec<Detected>, more: Vec<Detected>)
    ensures
        final(facts).deep_view() == old(facts).deep_view() + more.deep_view(),
{
    let ghost before = facts.deep_view();
    let ghost added = more.deep_view();
    let mut more = more;
    facts.append(&mut more);
    assert(facts.deep_view() =~= before + added);
}

/// Reads what a repository's manifests declare.
pub fn detect_declared(files: &Vec<TextFile>) -> (r: Vec<Detected>)
    ensures
        r.deep_view() == declared_facts(files.deep_view()),
{
    let mut facts = detect_go(files);
    append(&mut facts, detect_rust(files));
    append(&mut facts, detect_node(files));
    append(&mut facts, detect_python(files));
    append(&mut facts, detect_jvm(files));
    append(&mut facts, detect_make(files));
    facts
}

fn cite(names: &Vec<String>) -> (r: Vec<Evidence>)
    ensures
        r.deep_view() == citations(names.deep_view()),
{
    let ghost all = citations(names.deep_view());
    let mut r: Vec<Evidence> = Vec::new();
    let mut i: usize = 0;
    while i < names.len()
        invariant
            i <= names@.len(),
            all == citations(names.deep_view()),
            r.deep_view() =~= all.take(i as int),
        decreases names@.len() - i,
    {
        let ghost listed = r.deep_view();
        r.push(Evidence { locator: copy_text(&names[i]), excerpt: None });
        assert(r.deep_view() =~= listed.push(all[i as int]));
        i += 1;
    }
    assert(all.take(i as int) =~= all);
    r
}

fn fact(detected: &Detected, operation_id: OperationId) -> (r: RememberCommand)
    ensures
        r@ == fact_from(detected@, operation_id),
{
    let relates_to: Vec<(String, RelationKind)> = Vec::new();
    assert(relates_to.deep_view() =~= Seq::<(Seq<char>, RelationKind)>::empty());
    RememberCommand {
        operation_id,
        name: copy_text(&detected.name),
        title: copy_text(&detected.title),
        body: copy_text(&detected.body),
        kind: FactKind::Project,
        scope: FactScope::Repository,
        cardinality: Cardinality::Single,
        status: FactStatus::Observed,
        confidence: DETECTED_CONFIDENCE,
        evidence: cite(&detected.cites),
        relates_to,
    }
}

/// Facts a repository's manifests support.
///
/// Empty for a directory that declares nothing, which is a normal state rather than
/// a failure.
pub fn detect_toolchain(files: &Vec<RootFile>) -> (r: Vec<RememberCommand>)
    ensures
        remembers(r.deep_view(), declared_facts(as_texts(files.deep_view()))),
{
    let texts = read_texts(files);
    let declared = detect_declared(&texts);
    let ghost all = declared.deep_view();
    let mut r: Vec<RememberCommand> = Vec::new();
    let mut i: usize = 0;
    while i < declared.len()
        invariant
            i <= declared@.len(),
            all == declared.deep_view(),
            remembers(r.deep_view(), all.take(i as int)),
        decreases declared@.len() - i,
    {
        let ghost listed = r.deep_view();
        let operation = OperationId::new();
        let next = fact(&declared[i], operation);
        let ghost added = next@;
        assert(added == fact_from(all[i as int], operation));
        r.push(next);
        assert(r.deep_view() =~= listed.push(added));
        i += 1;
    }
    assert(all.take(i as int) =~= all);
    r
}

// --- reading a repository once ---------------------------------------------

/// Being a fact that was read off the manifests of a namespace, whatever became of it.
pub open spec fn was_detected(namespace: Option<Seq<char>>) -> spec_fn(FactRowModel) -> bool {
    |f: FactRowModel|
        f.provenance == "detected"@ && f.namespace == namespace
}

/// Where detected facts are written from.
pub open spec fn detecting(context: FactContextModel) -> FactContextModel {
    FactContextModel { provenance: "detected"@, ..context }
}

/// Writing the first `count` of some facts, each under its identifier and at its
/// time, up to the first that is refused.
pub open spec fn remembered_up_to(
    s: StoreModel,
    commands: Seq<RememberCommandModel>,
    refusals: Seq<Option<DomainErrorModel>>,
    context: FactContextModel,
    stamps: Seq<(FactId, Seq<char>)>,
    count: int,
) -> (Result<(), StoreErrorModel>, StoreModel)
    decreases count,
{
    if count <= 0 {
        (Ok(()), s)
    } else {
        match remembered_up_to(s, commands, refusals, context, stamps, count - 1) {
            (Err(error), t) => (Err(error), t),
            (Ok(_), t) => match remember_step(
                t,
                commands[count - 1],
                refusals[count - 1],
                context,
                stamps[count - 1].0,
                stamps[count - 1].1,
            ) {
                (Err(error), u) => (Err(error), u),
                (Ok(_), u) => (Ok(()), u),
            },
        }
    }
}

/// Recording what a repository declares, once.
pub open spec fn detect_step(
    s: StoreModel,
    detected: Seq<RememberCommandModel>,
    refusals: Seq<Option<DomainErrorModel>>,
    context: FactContextModel,
    stamps: Seq<(FactId, Seq<char>)>,
) -> (Result<usize, StoreErrorModel>, StoreModel) {
    if any_row(s.facts, was_detected(context.namespace)) {
        (Ok(0), s)
    } else {
        match remembered_up_to(
            s,
            detected,
            refusals,
            detecting(context),
            stamps,
            detected.len() as int,
        ) {
            (Err(error), t) => (Err(error), t),
            (Ok(_), t) => (Ok(detected.len() as usize), t),
        }
    }
}

proof fn lemma_refused_stays(
    s: StoreModel,
    commands: Seq<RememberCommandModel>,
    refusals: Seq<Option<DomainErrorModel>>,
    context: FactContextModel,
    stamps: Seq<(FactId, Seq<char>)>,
    count: int,
    more: int,
)
    requires
        count <= more,
        remembered_up_to(s, commands, refusals, context, stamps, count).0 is Err,
    ensures
        remembered_up_to(s, commands, refusals, context, stamps, more) == remembered_up_to(
            s,
            commands,
            refusals,
            context,
            stamps,
            count,
        ),
    decreases more - count,
{
    if count < more {
        lemma_refused_stays(s, commands, refusals, context, stamps, count, more - 1);
    }
}

impl Store {
    /// Whether this repository's manifests have already been read.
    pub fn has_detected_facts(&self, context: &FactContext) -> (r: bool)
        ensures
            r == any_row(self@.facts, was_detected(context@.namespace)),
    {
        let ghost p = was_detected(context@.namespace);
        let mut i: usize = 0;
        while i < self.facts.len()
            invariant
                i <= self.facts@.len(),
                p == was_detected(context@.namespace),
                forall|j: int| 0 <= j < i ==> !p(#[trigger] self@.facts[j]),
            decreases self.facts@.len() - i,
        {
            assert(self@.facts[i as int] == self.facts@[i as int]@);
            if same(self.facts[i].provenance.as_str(), "detected") && same_option(
                &self.facts[i].namespace,
                &context.namespace,
            ) {
                assert(p(self@.facts[i as int]));
                return true;
            }
            i += 1;
        }
        false
    }

    /// Records what a repository declares about its toolchain, once, under given
    /// identifiers and at given times.
    pub fn detect_toolchain_once_at(
        &mut self,
        detected: &Vec<RememberCommand>,
        refusals: &Vec<Option<DomainError>>,
        context: &FactContext,
        stamps: &Vec<(FactId, String)>,
    ) -> (r: Result<usize, StoreError>)
        requires
            refusals@.len() == detected@.len(),
            stamps@.len() == detected@.len(),
        ensures
            (outcome(r), final(self)@) == detect_step(
                old(self)@,
                detected.deep_view(),
                refusals.deep_view(),
                context@,
                stamps.deep_view(),
            ),
    {
        if self.has_detected_facts(context) {
            return Ok(0);
        }
        let from = FactContext {
            workspace_id: context.workspace_id,
            run_id: context.run_id,
            namespace: copy_option(&context.namespace),
            provenance: "detected".to_owned(),
        };
        let ghost before = self@;
        let ghost commands = detected.deep_view();
        let ghost refused = refusals.deep_view();
        let ghost stamped = stamps.deep_view();
        let mut i: usize = 0;
        while i < detected.len()
            invariant
                i <= detected@.len(),
                refusals@.len() == detected@.len(),
                stamps@.len() == detected@.len(),
                commands == detected.deep_view(),
                refused == refusals.deep_view(),
                stamped == stamps.deep_view(),
                before == old(self)@,
                from@ == detecting(context@),
                !any_row(before.facts, was_detected(context@.namespace)),
                remembered_up_to(before, commands, refused, from@, stamped, i as int) == (
                    Ok::<(), StoreErrorModel>(()),
                    self@,
                ),
            decreases detected@.len() - i,
        {
            assert(commands[i as int] == detected@[i as int]@);
            assert(refused[i as int] == refusals@[i as int].deep_view());
            assert(stamped[i as int] == stamps@[i as int].deep_view());
            let written = self.remember_at(
                &detected[i],
                &refusals[i],
                &from,
                stamps[i].0,
                stamps[i].1.as_str(),
            );
            if let Err(error) = written {
                proof {
                    lemma_refused_stays(
                        before,
                        commands,
                        refused,
                        from@,
                        stamped,
                        i + 1,
                        commands.len() as int,
                    );
                }
                return Err(error);
            }
            i += 1;
        }
        Ok(detected.len())
    }

    /// Records what a repository declares about its toolchain, once. `refusals` says
    /// of each fact why it is no valid command, if it is not.
    ///
    /// Detection is cheap but not free, and its facts only change when a manifest
    /// does, so it runs when a repository is first seen rather than on every session.
    /// Returns how many facts were written; zero means either the repository declares
    /// nothing or it has already been read.
    pub fn detect_toolchain_once(
        &mut self,
        detected: &Vec<RememberCommand>,
        refusals: &Vec<Option<DomainError>>,
        context: &FactContext,
    ) -> (r: Result<usize, StoreError>)
        requires
            refusals@.len() == detected@.len(),
        ensures
            exists|stamps: Seq<(FactId, Seq<char>)>|
                {
                    let detected_once = #[trigger] detect_step(
                        old(self)@,
                        detected.deep_view(),
                        refusals.deep_view(),
                        context@,
                        stamps,
                    );
                    &&& stamps.len() == detected@.len()
                    &&& forall|i: int|
                        0 <= i < stamps.len() ==> marked_random((#[trigger] stamps[i]).0.0)
                            && clock_text(stamps[i].1)
                    &&& (outcome(r), final(self)@) == detected_once
                },
    {
        let mut stamps: Vec<(FactId, String)> = Vec::new();
        let mut i: usize = 0;
        while i < detected.len()
            invariant
                i <= detected@.len(),
                stamps@.len() == i,
                forall|j: int|
                    0 <= j < i ==> marked_random((#[trigger] stamps@[j]).0.0) && clock_text(
                        stamps@[j].1@,
                    ),
            decreases detected@.len() - i,
        {
            let now = Moment::now().text();
            stamps.push((FactId::new(), now));
            i += 1;
        }
        assert forall|j: int| 0 <= j < stamps.deep_view().len() implies marked_random(
            (#[trigger] stamps.deep_view()[j]).0.0,
        ) && clock_text(stamps.deep_view()[j].1) by {
            assert(marked_random(stamps@[j].0.0) && clock_text(stamps@[j].1@));
        }
        self.detect_toolchain_once_at(detected, refusals, context, &stamps)
    }
}

// --- laws ------------------------------------------------------------------

/// A citation that resolves in any checkout: relative to the root of the repository.
pub open spec fn relative(cite: Seq<char>) -> bool {
    cite.len() > 0 && cite[0] != '/'
}

/// Citing at least one file, and each relative to the root.
pub open spec fn well_cited(detected: DetectedModel) -> bool {
    &&& detected.cites.len() > 0
    &&& forall|i: int| 0 <= i < detected.cites.len() ==> relative(#[trigger] detected.cites[i])
}

proof fn lemma_first_held_is_named(files: Seq<TextFileModel>, names: Seq<Seq<char>>)
    ensures
        first_held(files, names) matches Some(name) ==> names.contains(name),
    decreases names.len(),
{
    if names.len() > 0 && !holds(files, names[0]) {
        lemma_first_held_is_named(files, names.skip(1));
        if let Some(name) = first_held(files, names.skip(1)) {
            let i = choose|i: int| 0 <= i < names.skip(1).len() && names.skip(1)[i] == name;
            assert(names[i + 1] == name);
        }
    } else if names.len() > 0 {
        assert(names.contains(names[0]));
    }
}

/// Every one of some facts is well cited.
pub open spec fn all_well_cited(facts: Seq<DetectedModel>) -> bool {
    forall|i: int| 0 <= i < facts.len() ==> well_cited(#[trigger] facts[i])
}

proof fn lemma_go_facts_are_well_cited(files: Seq<TextFileModel>)
    ensures
        all_well_cited(go_facts(files)),
{
    reveal_strlit("go.mod");
    reveal_strlit(".golangci.yml");
    reveal_strlit(".golangci.yaml");
    reveal_strlit(".golangci.toml");
    lemma_first_held_is_named(files, linter_configs());
}

proof fn lemma_rust_facts_are_well_cited(files: Seq<TextFileModel>)
    ensures
        all_well_cited(rust_facts(files)),
{
    reveal_strlit("Cargo.toml");
    reveal_strlit("rust-toolchain.toml");
}

proof fn lemma_node_facts_are_well_cited(files: Seq<TextFileModel>)
    ensures
        all_well_cited(node_facts(files)),
{
    reveal_strlit("package.json");
    reveal_strlit("bun.lockb");
    reveal_strlit("bun.lock");
    reveal_strlit("pnpm-lock.yaml");
    reveal_strlit("yarn.lock");
    reveal_strlit("package-lock.json");
    lemma_first_held_is_named(files, lockfiles());
}

proof fn lemma_python_facts_are_well_cited(files: Seq<TextFileModel>)
    ensures
        all_well_cited(python_facts(files)),
{
    reveal_strlit("pyproject.toml");
}

proof fn lemma_jvm_facts_are_well_cited(files: Seq<TextFileModel>)
    ensures
        all_well_cited(jvm_facts(files)),
{
    reveal_strlit("build.gradle");
    reveal_strlit("build.gradle.kts");
    reveal_strlit("gradlew");
    reveal_strlit("pom.xml");
    lemma_first_held_is_named(files, seq!["build.gradle"@, "build.gradle.kts"@]);
}

proof fn lemma_make_facts_are_well_cited(files: Seq<TextFileModel>)
    ensures
        all_well_cited(make_facts(files)),
{
    reveal_strlit("Makefile");
}

proof fn lemma_joined_are_well_cited(a: Seq<DetectedModel>, b: Seq<DetectedModel>)
    requires
        all_well_cited(a),
        all_well_cited(b),
    ensures
        all_well_cited(a + b),
{
}

/// Whatever a repository holds, every detected fact cites the file it was read from,
/// and cites it relative to the root.
pub proof fn law_every_detected_fact_cites_a_file(files: Seq<TextFileModel>, i: int)
    requires
        0 <= i < declared_facts(files).len(),
    ensures
        well_cited(declared_facts(files)[i]),
{
    lemma_go_facts_are_well_cited(files);
    lemma_rust_facts_are_well_cited(files);
    lemma_node_facts_are_well_cited(files);
    lemma_python_facts_are_well_cited(files);
    lemma_jvm_facts_are_well_cited(files);
    lemma_make_facts_are_well_cited(files);
    lemma_joined_are_well_cited(go_facts(files), rust_facts(files));
    let two = go_facts(files) + rust_facts(files);
    lemma_joined_are_well_cited(two, node_facts(files));
    let three = two + node_facts(files);
    lemma_joined_are_well_cited(three, python_facts(files));
    let four = three + python_facts(files);
    lemma_joined_are_well_cited(four, jvm_facts(files));
    let five = four + jvm_facts(files);
    lemma_joined_are_well_cited(five, make_facts(files));
    assert(well_cited((five + make_facts(files))[i]));
}

/// Everything detected was read and not run, and replaces what was detected before:
/// each fact is merely observed, and single-valued.
pub proof fn law_detected_facts_are_observed_and_single_valued(
    facts: Seq<RememberCommandModel>,
    files: Seq<RootFileModel>,
    i: int,
)
    requires
        remembers(facts, declared_facts(as_texts(files))),
        0 <= i < facts.len(),
    ensures
        facts[i].status == FactStatus::Observed,
        facts[i].cardinality == Cardinality::Single,
{
    assert(facts[i] == fact_from(declared_facts(as_texts(files))[i], facts[i].operation_id));
}

/// A directory without manifests declares nothing.
pub proof fn law_nothing_declared_without_manifests(files: Seq<TextFileModel>)
    requires
        !holds(files, "go.mod"@),
        !holds(files, "Cargo.toml"@),
        !holds(files, "package.json"@),
        !holds(files, "pyproject.toml"@),
        !holds(files, "build.gradle"@),
        !holds(files, "build.gradle.kts"@),
        !holds(files, "pom.xml"@),
        !holds(files, "Makefile"@),
    ensures
        declared_facts(files) == Seq::<DetectedModel>::empty(),
{
    lemma_no_first(files, is_called("go.mod"@));
    lemma_no_first(files, is_called("Cargo.toml"@));
    lemma_no_first(files, is_called("package.json"@));
    lemma_no_first(files, is_called("pyproject.toml"@));
    lemma_no_first(files, is_called("Makefile"@));
    let gradle = seq!["build.gradle"@, "build.gradle.kts"@];
    assert(gradle.skip(1)[0] == gradle[1]);
    assert(gradle.skip(1).skip(1).len() == 0);
    reveal_with_fuel(first_held, 3);
    assert(declared_facts(files) =~= Seq::<DetectedModel>::empty());
}

proof fn lemma_detected_fact_is_found(
    s: StoreModel,
    command: RememberCommandModel,
    refusal: Option<DomainErrorModel>,
    context: FactContextModel,
    id: FactId,
    now: Seq<char>,
)
    requires
        context.provenance == "detected"@,
        remember_step(s, command, refusal, context, id, now).0 is Ok,
        any_row(s.facts, was_detected(context.namespace)) || first_row(
            s.operations,
            is_operation(command.operation_id),
        ) is None,
    ensures
        any_row(
            remember_step(s, command, refusal, context, id, now).1.facts,
            was_detected(context.namespace),
        ),
{
    let after = remember_step(s, command, refusal, context, id, now).1;
    let p = was_detected(context.namespace);
    if first_row(s.operations, is_operation(command.operation_id)) is None {
        assert(after.facts.len() == s.facts.len() + 1);
        assert(p(after.facts[s.facts.len() as int]));
    }
}

proof fn lemma_detected_facts_are_found(
    s: StoreModel,
    commands: Seq<RememberCommandModel>,
    refusals: Seq<Option<DomainErrorModel>>,
    context: FactContextModel,
    stamps: Seq<(FactId, Seq<char>)>,
    count: int,
)
    requires
        1 <= count,
        context.provenance == "detected"@,
        first_row(s.operations, is_operation(commands[0].operation_id)) is None,
        remembered_up_to(s, commands, refusals, context, stamps, count).0 is Ok,
    ensures
        any_row(
            remembered_up_to(s, commands, refusals, context, stamps, count).1.facts,
            was_detected(context.namespace),
        ),
    decreases count,
{
    let t = remembered_up_to(s, commands, refusals, context, stamps, count - 1).1;
    if count > 1 {
        lemma_detected_facts_are_found(s, commands, refusals, context, stamps, count - 1);
    }
    lemma_detected_fact_is_found(
        t,
        commands[count - 1],
        refusals[count - 1],
        context,
        stamps[count - 1].0,
        stamps[count - 1].1,
    );
}

/// Every fact of `before` is in `after` too, filed where it was and known to come from where
/// it came from. Whatever else is done to a fact, superseding, rewording, withdrawing or
/// moving it, keeps that.
pub open spec fn keeps_facts(before: StoreModel, after: StoreModel) -> bool {
    &&& before.facts.len() <= after.facts.len()
    &&& forall|i: int|
        0 <= i < before.facts.len() ==> (#[trigger] after.facts[i]).provenance
            == before.facts[i].provenance && after.facts[i].namespace == before.facts[i].namespace
}

/// A repository whose manifests declared anything is read once: when they have been
/// recorded, then whatever was done to the facts since, and whatever the manifests declare
/// by then, recording them writes nothing.
pub proof fn law_detection_runs_once(
    s: StoreModel,
    detected: Seq<RememberCommandModel>,
    refusals: Seq<Option<DomainErrorModel>>,
    context: FactContextModel,
    stamps: Seq<(FactId, Seq<char>)>,
    t: StoreModel,
    again: Seq<RememberCommandModel>,
    refused: Seq<Option<DomainErrorModel>>,
    later: Seq<(FactId, Seq<char>)>,
)
    requires
        detected.len() > 0,
        first_row(s.operations, is_operation(detected[0].operation_id)) is None,
        detect_step(s, detected, refusals, context, stamps).0 is Ok,
        keeps_facts(detect_step(s, detected, refusals, context, stamps).1, t),
    ensures
        detect_step(t, again, refused, context, later) == (Ok::<usize, StoreErrorModel>(0), t),
{
    let after = detect_step(s, detected, refusals, context, stamps).1;
    let p = was_detected(context.namespace);
    if !any_row(s.facts, p) {
        lemma_detected_facts_are_found(
            s,
            detected,
            refusals,
            detecting(context),
            stamps,
            detected.len() as int,
        );
    }
    let i = choose|i: int| 0 <= i < after.facts.len() && p(#[trigger] after.facts[i]);
    assert(p(t.facts[i]));
}

/// A detected fact that was reworded by hand is not detected again: correcting what was read
/// off a manifest lasts.
pub proof fn law_a_correction_of_a_detected_fact_lasts(
    s: StoreModel,
    id: FactId,
    title: Seq<char>,
    body: Seq<char>,
    replacement: FactId,
    now: Seq<char>,
    context: FactContextModel,
    again: Seq<RememberCommandModel>,
    refused: Seq<Option<DomainErrorModel>>,
    later: Seq<(FactId, Seq<char>)>,
)
    requires
        any_row(s.facts, was_detected(context.namespace)),
    ensures
        ({
            let t = edit_step(s, id, title, body, replacement, now).1;
            detect_step(t, again, refused, context, later) == (Ok::<usize, StoreErrorModel>(0), t)
        }),
{
    let t = edit_step(s, id, title, body, replacement, now).1;
    let p = was_detected(context.namespace);
    let i = choose|i: int| 0 <= i < s.facts.len() && p(#[trigger] s.facts[i]);
    assert(p(t.facts[i]));
}

} // verus!
