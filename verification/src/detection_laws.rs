//! What holds of what a repository declares about its toolchain.

use vstd::prelude::*;

use crate::domain::{EvidenceModel, RememberCommandModel};
use crate::facts::FactContextModel;
use crate::ids::OperationId;
use crate::outside::utf8_lossy;
use crate::rows::{is_first, lemma_first, lemma_no_first};
use crate::states::{Cardinality, FactKind, FactScope, FactStatus};
use crate::text::{
    being, first_at, joined, lemma_cut_at, lemma_drop_back_at, lemma_skip_while_at, lines_of,
    occurs_in, trimmed, trimmed_start, white,
};
use crate::text_laws::{blank, flush, law_whitespace_around_a_text_does_not_matter};
use crate::toolchain::{
    any_script, as_text, declared_facts, detecting, directive_on, fact_from, first_given,
    first_held, go_facts, go_toolchain, holds, is_called, jvm_facts, linter_configs, lockfiles,
    make_facts, manager_of, node_commands, node_facts, node_toolchain, notes_on, out_of_place,
    pinned_channel, plain_target, python_facts, python_notes, quoted_on, rust_facts, script_lines,
    target_on, targets_on, text_of, without_quotes, DetectedModel, RootFileModel, TextFileModel,
};

verus! {

// --- files -----------------------------------------------------------------

/// Holding a file of a name.
pub open spec fn holding(files: Seq<TextFileModel>, name: Seq<char>) -> bool {
    exists|i: int| 0 <= i < files.len() && (#[trigger] files[i]).name == name
}

/// Holding a file of a name whose text could be read.
pub open spec fn reads(files: Seq<TextFileModel>, name: Seq<char>, text: Seq<char>) -> bool {
    exists|i: int|
        {
            &&& 0 <= i < files.len()
            &&& (#[trigger] files[i]).name == name
            &&& files[i].text == Some(text)
            &&& forall|j: int| 0 <= j < i ==> (#[trigger] files[j]).name != name
        }
}

proof fn lemma_holding(files: Seq<TextFileModel>, name: Seq<char>)
    ensures
        holds(files, name) == holding(files, name),
        !holding(files, name) ==> text_of(files, name) is None,
{
    let p = is_called(name);
    if holds(files, name) {
        let i = choose|i: int| 0 <= i < files.len() && p(#[trigger] files[i]);
        assert(files[i].name == name);
    }
    if holding(files, name) {
        let i = choose|i: int| 0 <= i < files.len() && (#[trigger] files[i]).name == name;
        assert(p(files[i]));
    } else {
        lemma_no_first(files, p);
    }
}

proof fn lemma_reads(files: Seq<TextFileModel>, name: Seq<char>, text: Seq<char>)
    requires
        reads(files, name, text),
    ensures
        text_of(files, name) == Some(text),
{
    let p = is_called(name);
    let i = choose|i: int|
        {
            &&& 0 <= i < files.len()
            &&& (#[trigger] files[i]).name == name
            &&& files[i].text == Some(text)
            &&& forall|j: int| 0 <= j < i ==> (#[trigger] files[j]).name != name
        };
    assert(is_first(files, p, i));
    lemma_first(files, p, i);
}

/// A file is read where it is no larger than half a mebibyte and its bytes could be had; a
/// larger one is there, but nothing is read of it.
pub proof fn law_a_file_too_large_is_not_read(file: RootFileModel)
    ensures
        as_text(file).name == file.name,
        file.size > 524288 ==> as_text(file).text is None,
        file.size <= 524288 && file.contents is Some ==> as_text(file).text == Some(
            utf8_lossy(file.contents->0),
        ),
        file.contents is None ==> as_text(file).text is None,
{
}

// --- facts -----------------------------------------------------------------

/// Saying exactly this under a name.
pub open spec fn says(facts: Seq<DetectedModel>, fact: DetectedModel) -> bool {
    &&& facts.contains(fact)
    &&& forall|k: int| 0 <= k < facts.len() && (#[trigger] facts[k]).name == fact.name ==> facts[k]
        == fact
}

/// Saying nothing under a name.
pub open spec fn silent(facts: Seq<DetectedModel>, name: Seq<char>) -> bool {
    forall|k: int| 0 <= k < facts.len() ==> (#[trigger] facts[k]).name != name
}

spec fn named_within(facts: Seq<DetectedModel>, one: Seq<char>, other: Seq<char>) -> bool {
    forall|k: int|
        0 <= k < facts.len() ==> (#[trigger] facts[k]).name == one || facts[k].name == other
}

proof fn lemma_names(files: Seq<TextFileModel>)
    ensures
        named_within(go_facts(files), "toolchain-go"@, "linter-go"@),
        named_within(rust_facts(files), "toolchain-rust"@, "toolchain-rust"@),
        named_within(node_facts(files), "toolchain-node"@, "commands-node"@),
        named_within(python_facts(files), "toolchain-python"@, "toolchain-python"@),
        named_within(jvm_facts(files), "toolchain-jvm"@, "toolchain-jvm"@),
        named_within(make_facts(files), "commands-make"@, "commands-make"@),
{
}

proof fn lemma_names_differ()
    ensures
        "toolchain-go"@ != "linter-go"@,
        "toolchain-go"@ != "toolchain-rust"@,
        "toolchain-go"@ != "toolchain-node"@,
        "toolchain-go"@ != "commands-node"@,
        "toolchain-go"@ != "toolchain-python"@,
        "toolchain-go"@ != "toolchain-jvm"@,
        "toolchain-go"@ != "commands-make"@,
        "linter-go"@ != "toolchain-rust"@,
        "linter-go"@ != "toolchain-node"@,
        "linter-go"@ != "commands-node"@,
        "linter-go"@ != "toolchain-python"@,
        "linter-go"@ != "toolchain-jvm"@,
        "linter-go"@ != "commands-make"@,
        "toolchain-rust"@ != "toolchain-node"@,
        "toolchain-rust"@ != "commands-node"@,
        "toolchain-rust"@ != "toolchain-python"@,
        "toolchain-rust"@ != "toolchain-jvm"@,
        "toolchain-rust"@ != "commands-make"@,
        "toolchain-node"@ != "commands-node"@,
        "toolchain-node"@ != "toolchain-python"@,
        "toolchain-node"@ != "toolchain-jvm"@,
        "toolchain-node"@ != "commands-make"@,
        "commands-node"@ != "toolchain-python"@,
        "commands-node"@ != "toolchain-jvm"@,
        "commands-node"@ != "commands-make"@,
        "toolchain-python"@ != "toolchain-jvm"@,
        "toolchain-python"@ != "commands-make"@,
        "toolchain-jvm"@ != "commands-make"@,
{
    reveal_strlit("toolchain-go");
    reveal_strlit("linter-go");
    reveal_strlit("toolchain-rust");
    reveal_strlit("toolchain-node");
    reveal_strlit("commands-node");
    reveal_strlit("toolchain-python");
    reveal_strlit("toolchain-jvm");
    reveal_strlit("commands-make");
    assert("toolchain-go"@.len() == 12 && "linter-go"@.len() == 9);
    assert("toolchain-rust"@.len() == 14 && "toolchain-node"@.len() == 14);
    assert("toolchain-rust"@[10] == 'r' && "toolchain-node"@[10] == 'n');
    assert("commands-node"@.len() == 13 && "toolchain-jvm"@.len() == 13);
    assert("commands-make"@.len() == 13 && "toolchain-python"@.len() == 16);
    assert("commands-node"@[9] == 'n' && "commands-make"@[9] == 'm');
    assert("toolchain-jvm"@[0] == 't' && "commands-make"@[0] == 'c');
    assert("commands-node"@[0] == 'c');
}

/// What is said of one kind of manifest is said by the part that reads it.
proof fn lemma_parts(files: Seq<TextFileModel>, part: Seq<DetectedModel>, fact: DetectedModel)
    requires
        ({
            ||| part == go_facts(files) && (fact.name == "toolchain-go"@ || fact.name
                == "linter-go"@)
            ||| part == rust_facts(files) && fact.name == "toolchain-rust"@
            ||| part == node_facts(files) && (fact.name == "toolchain-node"@ || fact.name
                == "commands-node"@)
            ||| part == python_facts(files) && fact.name == "toolchain-python"@
            ||| part == jvm_facts(files) && fact.name == "toolchain-jvm"@
            ||| part == make_facts(files) && fact.name == "commands-make"@
        }),
    ensures
        says(part, fact) ==> says(declared_facts(files), fact),
        silent(part, fact.name) ==> silent(declared_facts(files), fact.name),
{
    lemma_names(files);
    lemma_names_differ();
    let go = go_facts(files);
    let rust = rust_facts(files);
    let node = node_facts(files);
    let python = python_facts(files);
    let jvm = jvm_facts(files);
    let make = make_facts(files);
    let all = declared_facts(files);
    let two = go + rust;
    let three = two + node;
    let four = three + python;
    let five = four + jvm;
    assert(all == five + make);
    assert forall|k: int| 0 <= k < all.len() && (#[trigger] all[k]).name == fact.name implies part.contains(
        all[k],
    ) by {
        lemma_in_sum(five, make, k);
        if k < five.len() {
            lemma_in_sum(four, jvm, k);
            if k < four.len() {
                lemma_in_sum(three, python, k);
                if k < three.len() {
                    lemma_in_sum(two, node, k);
                    if k < two.len() {
                        lemma_in_sum(go, rust, k);
                    }
                }
            }
        }
    }
    if says(part, fact) {
        let k = choose|k: int| 0 <= k < part.len() && part[k] == fact;
        lemma_into_sum(go, rust);
        lemma_into_sum(two, node);
        lemma_into_sum(three, python);
        lemma_into_sum(four, jvm);
        lemma_into_sum(five, make);
        assert(part.contains(fact));
        assert(all.contains(fact));
        assert forall|k: int| 0 <= k < all.len() && (#[trigger] all[k]).name == fact.name implies
            all[k] == fact by {
            let j = choose|j: int| 0 <= j < part.len() && part[j] == all[k];
            assert(part[j].name == fact.name);
        }
    }
    if silent(part, fact.name) {
        assert forall|k: int| 0 <= k < all.len() implies (#[trigger] all[k]).name != fact.name by {
            if all[k].name == fact.name {
                let j = choose|j: int| 0 <= j < part.len() && part[j] == all[k];
                assert(part[j].name != fact.name);
            }
        }
    }
}

proof fn lemma_in_sum(a: Seq<DetectedModel>, b: Seq<DetectedModel>, k: int)
    requires
        0 <= k < (a + b).len(),
    ensures
        k < a.len() ==> (a + b)[k] == a[k] && a.contains((a + b)[k]),
        k >= a.len() ==> (a + b)[k] == b[k - a.len()] && b.contains((a + b)[k]),
{
    if k < a.len() {
        assert(a.contains(a[k]));
    } else {
        assert(b.contains(b[k - a.len()]));
    }
}

proof fn lemma_into_sum(a: Seq<DetectedModel>, b: Seq<DetectedModel>)
    ensures
        forall|f: DetectedModel| a.contains(f) ==> #[trigger] (a + b).contains(f),
        forall|f: DetectedModel| b.contains(f) ==> #[trigger] (a + b).contains(f),
{
    assert forall|f: DetectedModel| a.contains(f) implies #[trigger] (a + b).contains(f) by {
        let i = choose|i: int| 0 <= i < a.len() && a[i] == f;
        assert((a + b)[i] == f);
    }
    assert forall|f: DetectedModel| b.contains(f) implies #[trigger] (a + b).contains(f) by {
        let i = choose|i: int| 0 <= i < b.len() && b[i] == f;
        assert((a + b)[a.len() + i] == f);
    }
}

// --- Node ------------------------------------------------------------------

/// What is said of a Node.js project with a lockfile: the package manager that writes it.
pub open spec fn node_managed_by(manager: Seq<char>, lockfile: Seq<char>) -> DetectedModel {
    DetectedModel {
        name: "toolchain-node"@,
        title: "Node.js project"@,
        body: "Package manager is "@ + manager + ", from the presence of "@ + lockfile + "."@,
        cites: seq!["package.json"@, lockfile],
    }
}

/// The lockfile of a Node.js project names its package manager: bun, pnpm, yarn and npm each
/// write their own. Where there are several, bun comes before pnpm, pnpm before yarn and yarn
/// before npm; where there is none, the manager is not guessed.
pub proof fn law_the_lockfile_names_the_package_manager(
    files: Seq<TextFileModel>,
    manifest: Seq<char>,
)
    requires
        reads(files, "package.json"@, manifest),
    ensures
        ({
            let facts = declared_facts(files);
            if holding(files, "bun.lockb"@) {
                says(facts, node_managed_by("bun"@, "bun.lockb"@))
            } else if holding(files, "bun.lock"@) {
                says(facts, node_managed_by("bun"@, "bun.lock"@))
            } else if holding(files, "pnpm-lock.yaml"@) {
                says(facts, node_managed_by("pnpm"@, "pnpm-lock.yaml"@))
            } else if holding(files, "yarn.lock"@) {
                says(facts, node_managed_by("yarn"@, "yarn.lock"@))
            } else if holding(files, "package-lock.json"@) {
                says(facts, node_managed_by("npm"@, "package-lock.json"@))
            } else {
                says(
                    facts,
                    DetectedModel {
                        name: "toolchain-node"@,
                        title: "Node.js project"@,
                        body: "No lockfile, so the package manager is unknown. Do not assume npm."@,
                        cites: seq!["package.json"@],
                    },
                )
            }
        }),
{
    lemma_reads(files, "package.json"@, manifest);
    lemma_holding(files, "bun.lockb"@);
    lemma_holding(files, "bun.lock"@);
    lemma_holding(files, "pnpm-lock.yaml"@);
    lemma_holding(files, "yarn.lock"@);
    lemma_holding(files, "package-lock.json"@);
    reveal_with_fuel(first_held, 6);
    let all = lockfiles();
    assert(all.skip(1) =~= seq![
        "bun.lock"@,
        "pnpm-lock.yaml"@,
        "yarn.lock"@,
        "package-lock.json"@,
    ]);
    assert(all.skip(1).skip(1) =~= seq!["pnpm-lock.yaml"@, "yarn.lock"@, "package-lock.json"@]);
    assert(all.skip(1).skip(1).skip(1) =~= seq!["yarn.lock"@, "package-lock.json"@]);
    assert(all.skip(1).skip(1).skip(1).skip(1) =~= seq!["package-lock.json"@]);
    assert(all.skip(1).skip(1).skip(1).skip(1).skip(1) =~= Seq::<Seq<char>>::empty());
    lemma_lockfiles_differ();
    let fact = node_toolchain(files);
    let part = node_facts(files);
    lemma_names_differ();
    assert(part[0] == fact);
    assert(says(part, fact)) by {
        assert(part.contains(part[0]));
        assert forall|k: int| 0 <= k < part.len() && (#[trigger] part[k]).name == fact.name implies
            part[k] == fact by {}
    }
    lemma_parts(files, part, fact);
}

proof fn lemma_lockfiles_differ()
    ensures
        "bun.lock"@ != "pnpm-lock.yaml"@ && "bun.lockb"@ != "pnpm-lock.yaml"@,
        "bun.lock"@ != "yarn.lock"@ && "bun.lockb"@ != "yarn.lock"@,
        "bun.lock"@ != "package-lock.json"@ && "bun.lockb"@ != "package-lock.json"@,
        "pnpm-lock.yaml"@ != "yarn.lock"@ && "pnpm-lock.yaml"@ != "package-lock.json"@,
        "yarn.lock"@ != "package-lock.json"@,
{
    reveal_strlit("bun.lockb");
    reveal_strlit("bun.lock");
    reveal_strlit("pnpm-lock.yaml");
    reveal_strlit("yarn.lock");
    reveal_strlit("package-lock.json");
    assert("bun.lockb"@.len() == 9 && "bun.lock"@.len() == 8);
    assert("pnpm-lock.yaml"@.len() == 14 && "yarn.lock"@.len() == 9);
    assert("package-lock.json"@.len() == 17);
    assert("bun.lockb"@[0] == 'b' && "yarn.lock"@[0] == 'y');
}

/// Different managers are named for the lockfiles of different managers, and the same for the
/// two that bun writes.
pub proof fn law_distinct_lockfiles_name_distinct_managers()
    ensures
        manager_of("bun.lockb"@) == manager_of("bun.lock"@),
        manager_of("bun.lock"@) != manager_of("pnpm-lock.yaml"@),
        manager_of("bun.lock"@) != manager_of("yarn.lock"@),
        manager_of("bun.lock"@) != manager_of("package-lock.json"@),
        manager_of("pnpm-lock.yaml"@) != manager_of("yarn.lock"@),
        manager_of("pnpm-lock.yaml"@) != manager_of("package-lock.json"@),
        manager_of("yarn.lock"@) != manager_of("package-lock.json"@),
{
    lemma_lockfiles_differ();
    reveal_strlit("bun");
    reveal_strlit("pnpm");
    reveal_strlit("yarn");
    reveal_strlit("npm");
    assert("bun"@.len() == 3 && "pnpm"@.len() == 4 && "yarn"@.len() == 4 && "npm"@.len() == 3);
    assert("pnpm"@[0] == 'p' && "yarn"@[0] == 'y' && "bun"@[0] == 'b' && "npm"@[0] == 'n');
}

/// Every script a project declares is listed by its name and its command, in the order they
/// are declared, and nothing else is; where it declares none, nothing is said of scripts.
pub proof fn law_each_script_is_listed(
    entries: Seq<(Seq<char>, Option<Seq<char>>)>,
    name: Seq<char>,
    command: Seq<char>,
)
    ensures
        script_lines(entries.push((name, Some(command)))) == script_lines(entries) + ("- `"@ + name
            + "`: `"@ + command + "`\n"@),
        script_lines(entries.push((name, None))) == script_lines(entries),
        script_lines(Seq::empty()).len() == 0,
{
    let more = entries.push((name, Some(command)));
    assert(more.drop_last() =~= entries);
    let less = entries.push((name, None::<Seq<char>>));
    assert(less.drop_last() =~= entries);
}

/// Scripts are told of where the manifest gives one a command, as the manifest lists them.
pub proof fn law_scripts_are_told_of_where_there_are_any(
    files: Seq<TextFileModel>,
    manifest: Seq<char>,
    entries: Seq<(Seq<char>, Option<Seq<char>>)>,
)
    requires
        reads(files, "package.json"@, manifest),
        crate::outside::json_entries_under(manifest, "scripts"@) == Some(entries),
    ensures
        (exists|i: int| 0 <= i < entries.len() && (#[trigger] entries[i]).1 is Some) ==> says(
            declared_facts(files),
            DetectedModel {
                name: "commands-node"@,
                title: "Scripts this project declares"@,
                body: "Declared in package.json:\n"@ + script_lines(entries)
                    + "\nThese are what the project declares; none has been run here."@,
                cites: seq!["package.json"@],
            },
        ),
        (forall|i: int| 0 <= i < entries.len() ==> (#[trigger] entries[i]).1 is None) ==> silent(
            declared_facts(files),
            "commands-node"@,
        ),
{
    lemma_reads(files, "package.json"@, manifest);
    lemma_names_differ();
    let fact = node_commands(entries);
    let part = node_facts(files);
    if any_script(entries) {
        assert(part[1] == fact);
        assert(part.contains(part[1]));
        assert(says(part, fact));
    } else {
        assert(part.len() == 1 && part[0].name == "toolchain-node"@);
        assert(silent(part, fact.name));
    }
    lemma_parts(files, part, fact);
}

// --- Go --------------------------------------------------------------------

proof fn lemma_first_given(
    found: Seq<Seq<char>>,
    given: spec_fn(Seq<char>) -> Option<Seq<char>>,
    k: int,
)
    requires
        0 <= k <= found.len(),
        forall|j: int| 0 <= j < k ==> given(#[trigger] found[j]) is None,
        k < found.len() ==> given(found[k]) is Some,
    ensures
        first_given(found, given) == if k < found.len() {
            given(found[k])
        } else {
            None
        },
    decreases found.len(),
{
    if found.len() > 0 && k > 0 {
        let rest = found.skip(1);
        assert(given(found[0]) is None);
        assert forall|j: int| 0 <= j < k - 1 implies given(#[trigger] rest[j]) is None by {
            assert(rest[j] == found[j + 1]);
        }
        if k < found.len() {
            assert(rest[k - 1] == found[k]);
        }
        lemma_first_given(rest, given, k - 1);
    }
}

/// A line that gives a value to a keyword: the keyword, a space and the value, with whitespace
/// around it.
pub open spec fn gives(line: Seq<char>, keyword: Seq<char>, value: Seq<char>) -> bool {
    flush(value) && trimmed(line) == keyword + " "@ + value
}

proof fn lemma_directive(line: Seq<char>, keyword: Seq<char>)
    ensures
        directive_on(keyword)(line) matches Some(found) ==> (keyword + " "@).is_prefix_of(
            trimmed(line),
        ),
        forall|value: Seq<char>| #[trigger]
            gives(line, keyword, value) ==> directive_on(keyword)(line) == Some(value),
{
    reveal_strlit(" ");
    let whole = trimmed(line);
    if directive_on(keyword)(line) is Some {
        let rest = whole.skip(keyword.len() as int);
        assert(whole.subrange(0, keyword.len() as int) == keyword);
        assert(rest.subrange(0, 1) == " "@);
        let head = keyword + " "@;
        assert(whole.subrange(0, head.len() as int) =~= head) by {
            assert forall|i: int| 0 <= i < head.len() implies whole[i] == head[i] by {
                if i < keyword.len() {
                    assert(whole.subrange(0, keyword.len() as int)[i] == whole[i]);
                } else {
                    assert(rest.subrange(0, 1)[0] == rest[0]);
                }
            }
        }
    }
    assert forall|value: Seq<char>| #[trigger] gives(line, keyword, value) implies directive_on(
        keyword,
    )(line) == Some(value) by {
        let rest = " "@ + value;
        assert(whole =~= keyword + rest);
        assert(whole.subrange(0, keyword.len() as int) =~= keyword);
        assert(whole.skip(keyword.len() as int) =~= rest);
        assert(rest.subrange(0, 1) =~= " "@);
        assert(rest.skip(1) =~= value);
        let none = Seq::<char>::empty();
        law_whitespace_around_a_text_does_not_matter(none, value, none);
    }
}

proof fn lemma_first_directive(
    found: Seq<Seq<char>>,
    keyword: Seq<char>,
    k: int,
    value: Seq<char>,
)
    requires
        0 <= k < found.len(),
        gives(found[k], keyword, value),
        forall|j: int|
            0 <= j < k ==> !(keyword + " "@).is_prefix_of(trimmed(#[trigger] found[j])),
    ensures
        first_given(found, directive_on(keyword)) == Some(value),
{
    lemma_directive(found[k], keyword);
    assert forall|j: int| 0 <= j < k implies directive_on(keyword)(#[trigger] found[j]) is None by {
        lemma_directive(found[j], keyword);
    }
    lemma_first_given(found, directive_on(keyword), k);
}

/// What a Go module is told of: the version of Go it declares and the module it is, each as
/// the first line that gives it says.
pub proof fn law_a_go_module_is_told_by_its_directives(
    files: Seq<TextFileModel>,
    manifest: Seq<char>,
    k: int,
    version: Seq<char>,
    l: int,
    module: Seq<char>,
)
    requires
        reads(files, "go.mod"@, manifest),
        0 <= k < lines_of(manifest).len(),
        gives(lines_of(manifest)[k], "go"@, version),
        forall|j: int|
            0 <= j < k ==> !("go"@ + " "@).is_prefix_of(trimmed(#[trigger] lines_of(manifest)[j])),
        0 <= l < lines_of(manifest).len(),
        gives(lines_of(manifest)[l], "module"@, module),
        forall|j: int|
            0 <= j < l ==> !("module"@ + " "@).is_prefix_of(
                trimmed(#[trigger] lines_of(manifest)[j]),
            ),
    ensures
        exists|i: int|
            {
                &&& 0 <= i < declared_facts(files).len()
                &&& (#[trigger] declared_facts(files)[i]).name == "toolchain-go"@
                &&& declared_facts(files)[i].title == "Go "@ + version
                &&& ("Declared in go.mod"@ + ("; module "@ + module)).is_prefix_of(
                    declared_facts(files)[i].body,
                )
                &&& declared_facts(files)[i].cites == seq!["go.mod"@]
            },
{
    let found = lines_of(manifest);
    lemma_reads(files, "go.mod"@, manifest);
    lemma_first_directive(found, "go"@, k, version);
    lemma_first_directive(found, "module"@, l, module);
    let fact = go_toolchain(manifest);
    let part = go_facts(files);
    assert(part[0] == fact);
    assert(declared_facts(files)[0] == fact);
    let head = "Declared in go.mod"@ + ("; module "@ + module);
    lemma_starts(
        head,
        ".\n\nThe conventional commands are `go test ./...` and `go build ./...`. The Go version above is what the module declares, which is not necessarily what CI installs."@,
    );
}

proof fn lemma_starts(s: Seq<char>, t: Seq<char>)
    ensures
        s.is_prefix_of(s + t),
{
    assert((s + t).subrange(0, s.len() as int) =~= s);
}

/// A Go module that declares no version is told of without one.
pub proof fn law_no_version_of_go_is_made_up(files: Seq<TextFileModel>, manifest: Seq<char>)
    requires
        reads(files, "go.mod"@, manifest),
        forall|j: int|
            0 <= j < lines_of(manifest).len() ==> !("go"@ + " "@).is_prefix_of(
                trimmed(#[trigger] lines_of(manifest)[j]),
            ),
    ensures
        declared_facts(files).len() > 0,
        declared_facts(files)[0].name == "toolchain-go"@,
        declared_facts(files)[0].title == "Go module"@,
{
    let found = lines_of(manifest);
    lemma_reads(files, "go.mod"@, manifest);
    assert forall|j: int| 0 <= j < found.len() implies directive_on("go"@)(
        #[trigger] found[j],
    ) is None by {
        lemma_directive(found[j], "go"@);
    }
    lemma_first_given(found, directive_on("go"@), found.len() as int);
    assert(go_facts(files)[0] == go_toolchain(manifest));
    assert(declared_facts(files)[0] == go_facts(files)[0]);
}

/// A linter is told of just where a Go module holds a configuration of it, which is cited.
pub proof fn law_the_linter_is_told_of_where_it_is_configured(
    files: Seq<TextFileModel>,
    manifest: Seq<char>,
)
    requires
        reads(files, "go.mod"@, manifest),
    ensures
        ({
            let facts = declared_facts(files);
            let told = |config: Seq<char>|
                exists|i: int|
                    0 <= i < facts.len() && (#[trigger] facts[i]).name == "linter-go"@
                        && facts[i].title == "golangci-lint is configured"@ && facts[i].cites
                        == seq![config];
            if holding(files, ".golangci.yml"@) {
                told(".golangci.yml"@)
            } else if holding(files, ".golangci.yaml"@) {
                told(".golangci.yaml"@)
            } else if holding(files, ".golangci.toml"@) {
                told(".golangci.toml"@)
            } else {
                silent(facts, "linter-go"@)
            }
        }),
{
    lemma_reads(files, "go.mod"@, manifest);
    lemma_holding(files, ".golangci.yml"@);
    lemma_holding(files, ".golangci.yaml"@);
    lemma_holding(files, ".golangci.toml"@);
    reveal_with_fuel(first_held, 4);
    let all = linter_configs();
    assert(all.skip(1) =~= seq![".golangci.yaml"@, ".golangci.toml"@]);
    assert(all.skip(1).skip(1) =~= seq![".golangci.toml"@]);
    assert(all.skip(1).skip(1).skip(1) =~= Seq::<Seq<char>>::empty());
    lemma_names_differ();
    let part = go_facts(files);
    let facts = declared_facts(files);
    if part.len() == 2 {
        assert(facts[1] == part[1]);
    } else {
        let any = DetectedModel {
            name: "linter-go"@,
            title: Seq::empty(),
            body: Seq::empty(),
            cites: Seq::empty(),
        };
        assert(silent(part, "linter-go"@));
        lemma_parts(files, part, any);
    }
}

// --- Rust and Python -------------------------------------------------------

/// A line that gives a value in double quotes to a key.
pub open spec fn sets(line: Seq<char>, key: Seq<char>, value: Seq<char>) -> bool {
    &&& flush(value) && value[0] != '"' && value.last() != '"'
    &&& trimmed(line) == key + " = \""@ + value + "\""@
}

proof fn lemma_sets(line: Seq<char>, key: Seq<char>, value: Seq<char>)
    requires
        sets(line, key, value),
    ensures
        quoted_on(key)(line) == Some(value),
{
    reveal_strlit(" = \"");
    reveal_strlit("\"");
    reveal_strlit("=");
    let whole = trimmed(line);
    let none = Seq::<char>::empty();
    let rest = " = \""@ + value + "\""@;
    assert(whole =~= key + rest);
    assert(whole.subrange(0, key.len() as int) =~= key);
    assert(whole.skip(key.len() as int) =~= rest);
    let p = |c: char| white(c);
    assert(rest[0] == ' ' && rest[1] == '=');
    lemma_skip_while_at(rest, p, 1);
    let from = rest.skip(1);
    assert(trimmed_start(rest) == from);
    assert(from.subrange(0, 1) =~= "="@);
    let given = from.skip(1);
    let quoted = "\""@ + value + "\""@;
    let space = seq![' '];
    assert(given =~= space + quoted + none);
    assert(blank(space));
    assert(flush(quoted)) by {
        assert(quoted[0] == '"' && quoted.last() == '"');
    }
    law_whitespace_around_a_text_does_not_matter(space, quoted, none);
    let q = being('"');
    assert(quoted[1] == value[0]);
    lemma_skip_while_at(quoted, q, 1);
    let open = quoted.skip(1);
    assert(open =~= value + "\""@);
    let n = value.len() as int;
    assert(open[n - 1] == value.last());
    lemma_drop_back_at(open, q, n);
    assert(open.take(n) =~= value);
    assert(without_quotes(quoted, '"') == value);
    law_whitespace_around_a_text_does_not_matter(none, value, none);
    let single = being('\'');
    lemma_skip_while_at(quoted, single, 0);
    assert(quoted.skip(0) =~= quoted);
    lemma_drop_back_at(quoted, single, quoted.len() as int);
    assert(quoted.take(quoted.len() as int) =~= quoted);
    assert(without_quotes(quoted, '\'') == quoted);
    assert(value[0] != quoted[0]);
}

proof fn lemma_unset(line: Seq<char>, key: Seq<char>)
    ensures
        !key.is_prefix_of(trimmed(line)) ==> quoted_on(key)(line) is None,
{
}

/// A Rust project that pins its toolchain is told of with the channel it pins, and cites the
/// file that pins it.
pub proof fn law_a_pinned_channel_is_told(
    files: Seq<TextFileModel>,
    manifest: Seq<char>,
    pin: Seq<char>,
    k: int,
    channel: Seq<char>,
)
    requires
        reads(files, "Cargo.toml"@, manifest),
        reads(files, "rust-toolchain.toml"@, pin),
        0 <= k < lines_of(pin).len(),
        sets(lines_of(pin)[k], "channel"@, channel),
        forall|j: int|
            0 <= j < k ==> !"channel"@.is_prefix_of(trimmed(#[trigger] lines_of(pin)[j])),
    ensures
        exists|i: int|
            {
                &&& 0 <= i < declared_facts(files).len()
                &&& (#[trigger] declared_facts(files)[i]).name == "toolchain-rust"@
                &&& declared_facts(files)[i].title == "Rust pinned to "@ + channel
                &&& declared_facts(files)[i].cites == seq!["Cargo.toml"@, "rust-toolchain.toml"@]
            },
        forall|i: int|
            0 <= i < declared_facts(files).len() && (#[trigger] declared_facts(files)[i]).name
                == "toolchain-rust"@ ==> declared_facts(files)[i].title == "Rust pinned to "@
                + channel,
{
    let found = lines_of(pin);
    lemma_reads(files, "Cargo.toml"@, manifest);
    lemma_reads(files, "rust-toolchain.toml"@, pin);
    lemma_sets(found[k], "channel"@, channel);
    assert forall|j: int| 0 <= j < k implies quoted_on("channel"@)(#[trigger] found[j]) is None by {
        lemma_unset(found[j], "channel"@);
    }
    lemma_first_given(found, quoted_on("channel"@), k);
    let part = rust_facts(files);
    let fact = part[0];
    assert(part.contains(part[0]));
    assert(says(part, fact));
    lemma_parts(files, part, fact);
    let all = declared_facts(files);
    let i = choose|i: int| 0 <= i < all.len() && all[i] == fact;
    assert(all[i].name == "toolchain-rust"@);
}

/// A Rust project that pins nothing is told of as one that does not.
pub proof fn law_no_channel_is_made_up(files: Seq<TextFileModel>, manifest: Seq<char>)
    requires
        reads(files, "Cargo.toml"@, manifest),
        !holding(files, "rust-toolchain.toml"@),
    ensures
        exists|i: int|
            {
                &&& 0 <= i < declared_facts(files).len()
                &&& (#[trigger] declared_facts(files)[i]).name == "toolchain-rust"@
                &&& declared_facts(files)[i].title == "Rust, no pinned toolchain"@
                &&& declared_facts(files)[i].cites == seq!["Cargo.toml"@]
            },
{
    lemma_reads(files, "Cargo.toml"@, manifest);
    lemma_holding(files, "rust-toolchain.toml"@);
    let part = rust_facts(files);
    let fact = part[0];
    assert(part.contains(part[0]));
    assert(says(part, fact));
    lemma_parts(files, part, fact);
    let all = declared_facts(files);
    let i = choose|i: int| 0 <= i < all.len() && all[i] == fact;
    assert(all[i].name == "toolchain-rust"@);
}

/// A note that is made where a section stands in a manifest.
pub open spec fn noted(manifest: Seq<char>, section: Seq<char>, note: Seq<char>) -> Seq<char> {
    if occurs_in(section, manifest) {
        " "@ + note
    } else {
        Seq::empty()
    }
}

/// A Python project is told of with the version it requires, and with the tools whose sections
/// stand in its manifest: Poetry, uv, Hatch and Ruff, each for its own.
pub proof fn law_a_python_project_is_told_by_its_sections(
    files: Seq<TextFileModel>,
    manifest: Seq<char>,
    k: int,
    version: Seq<char>,
)
    requires
        reads(files, "pyproject.toml"@, manifest),
        0 <= k < lines_of(manifest).len(),
        sets(lines_of(manifest)[k], "requires-python"@, version),
        forall|j: int|
            0 <= j < k ==> !"requires-python"@.is_prefix_of(
                trimmed(#[trigger] lines_of(manifest)[j]),
            ),
    ensures
        says(
            declared_facts(files),
            DetectedModel {
                name: "toolchain-python"@,
                title: "Python "@ + version,
                body: "Declared in pyproject.toml."@ + (noted(
                    manifest,
                    "[tool.poetry]"@,
                    "Managed with Poetry."@,
                ) + noted(manifest, "[tool.uv]"@, "Managed with uv."@) + noted(
                    manifest,
                    "[tool.hatch"@,
                    "Managed with Hatch."@,
                ) + noted(manifest, "[tool.ruff"@, "Ruff is configured."@)),
                cites: seq!["pyproject.toml"@],
            },
        ),
{
    let found = lines_of(manifest);
    lemma_reads(files, "pyproject.toml"@, manifest);
    lemma_sets(found[k], "requires-python"@, version);
    assert forall|j: int| 0 <= j < k implies quoted_on("requires-python"@)(
        #[trigger] found[j],
    ) is None by {
        lemma_unset(found[j], "requires-python"@);
    }
    lemma_first_given(found, quoted_on("requires-python"@), k);
    lemma_notes(manifest);
    let part = python_facts(files);
    let fact = part[0];
    assert(part.contains(part[0]));
    assert(says(part, fact));
    lemma_parts(files, part, fact);
}

proof fn lemma_notes(manifest: Seq<char>)
    ensures
        notes_on(manifest, python_notes()) == noted(
            manifest,
            "[tool.poetry]"@,
            "Managed with Poetry."@,
        ) + noted(manifest, "[tool.uv]"@, "Managed with uv."@) + noted(
            manifest,
            "[tool.hatch"@,
            "Managed with Hatch."@,
        ) + noted(manifest, "[tool.ruff"@, "Ruff is configured."@),
{
    let all = python_notes();
    let three = all.drop_last();
    let two = three.drop_last();
    let one = two.drop_last();
    assert(all.last().0 == "[tool.ruff"@ && three.last().0 == "[tool.hatch"@);
    assert(two.last().0 == "[tool.uv]"@ && one.last().0 == "[tool.poetry]"@);
    reveal_with_fuel(notes_on, 5);
    let a = noted(manifest, "[tool.poetry]"@, "Managed with Poetry."@);
    let b = noted(manifest, "[tool.uv]"@, "Managed with uv."@);
    let c = noted(manifest, "[tool.hatch"@, "Managed with Hatch."@);
    let d = noted(manifest, "[tool.ruff"@, "Ruff is configured."@);
    assert(notes_on(manifest, one.drop_last()) =~= Seq::<char>::empty());
    assert(notes_on(manifest, one) =~= a);
    assert(notes_on(manifest, two) =~= a + b);
    assert(notes_on(manifest, three) =~= a + b + c);
    assert(notes_on(manifest, all) =~= a + b + c + d);
}

// --- the JVM ---------------------------------------------------------------

/// A build on the JVM is told of by its build file: Gradle before Maven, and with its wrapper
/// where that is checked in, which is cited.
pub proof fn law_a_jvm_build_is_told_by_its_build_file(files: Seq<TextFileModel>)
    ensures
        ({
            let facts = declared_facts(files);
            let told = |tool: Seq<char>, cites: Seq<Seq<char>>|
                exists|i: int|
                    0 <= i < facts.len() && (#[trigger] facts[i]).name == "toolchain-jvm"@
                        && tool.is_prefix_of(facts[i].body) && facts[i].cites == cites;
            let wrapped = holding(files, "gradlew"@);
            if holding(files, "build.gradle"@) {
                if wrapped {
                    told("Gradle, with a wrapper: use `./gradlew`"@, seq!["build.gradle"@, "gradlew"@])
                } else {
                    told("Gradle, with no wrapper checked in."@, seq!["build.gradle"@])
                }
            } else if holding(files, "build.gradle.kts"@) {
                if wrapped {
                    told(
                        "Gradle, with a wrapper: use `./gradlew`"@,
                        seq!["build.gradle.kts"@, "gradlew"@],
                    )
                } else {
                    told("Gradle, with no wrapper checked in."@, seq!["build.gradle.kts"@])
                }
            } else if holding(files, "pom.xml"@) {
                told("Maven."@, seq!["pom.xml"@])
            } else {
                silent(facts, "toolchain-jvm"@)
            }
        }),
{
    lemma_holding(files, "build.gradle"@);
    lemma_holding(files, "build.gradle.kts"@);
    lemma_holding(files, "gradlew"@);
    lemma_holding(files, "pom.xml"@);
    reveal_with_fuel(first_held, 3);
    let all = seq!["build.gradle"@, "build.gradle.kts"@];
    assert(all.skip(1) =~= seq!["build.gradle.kts"@]);
    assert(all.skip(1).skip(1) =~= Seq::<Seq<char>>::empty());
    let part = jvm_facts(files);
    let facts = declared_facts(files);
    if part.len() == 1 {
        let fact = part[0];
        assert(part.contains(part[0]));
        assert(says(part, fact));
        lemma_parts(files, part, fact);
        let i = choose|i: int| 0 <= i < facts.len() && facts[i] == fact;
        assert(facts[i].name == "toolchain-jvm"@);
        lemma_jvm_texts(fact.body);
    } else {
        let any = DetectedModel {
            name: "toolchain-jvm"@,
            title: Seq::empty(),
            body: Seq::empty(),
            cites: Seq::empty(),
        };
        assert(silent(part, "toolchain-jvm"@));
        lemma_parts(files, part, any);
    }
}

proof fn lemma_jvm_texts(body: Seq<char>)
    ensures
        "Gradle, with a wrapper: use `./gradlew` rather than a system gradle, since the wrapper pins the build's own version."@.is_prefix_of(
            body,
        ) ==> "Gradle, with a wrapper: use `./gradlew`"@.is_prefix_of(body),
        "Maven. Conventional commands are `mvn test` and `mvn package`."@.is_prefix_of(body)
            ==> "Maven."@.is_prefix_of(body),
        forall|s: Seq<char>, t: Seq<char>| s.is_prefix_of(#[trigger] (s + t)),
{
    reveal_strlit(
        "Gradle, with a wrapper: use `./gradlew` rather than a system gradle, since the wrapper pins the build's own version.",
    );
    reveal_strlit("Gradle, with a wrapper: use `./gradlew`");
    reveal_strlit("Maven. Conventional commands are `mvn test` and `mvn package`.");
    reveal_strlit("Maven.");
    let long =
        "Gradle, with a wrapper: use `./gradlew` rather than a system gradle, since the wrapper pins the build's own version."@;
    let short = "Gradle, with a wrapper: use `./gradlew`"@;
    assert(long.subrange(0, short.len() as int) =~= short);
    if long.is_prefix_of(body) {
        assert(body.subrange(0, long.len() as int) == long);
        assert(body.subrange(0, short.len() as int) =~= long.subrange(0, short.len() as int));
    }
    let maven = "Maven. Conventional commands are `mvn test` and `mvn package`."@;
    assert(maven.subrange(0, "Maven."@.len() as int) =~= "Maven."@);
    if maven.is_prefix_of(body) {
        assert(body.subrange(0, maven.len() as int) == maven);
        assert(body.subrange(0, "Maven."@.len() as int) =~= maven.subrange(
            0,
            "Maven."@.len() as int,
        ));
    }
    assert forall|s: Seq<char>, t: Seq<char>| s.is_prefix_of(#[trigger] (s + t)) by {
        assert((s + t).subrange(0, s.len() as int) =~= s);
    }
}

// --- make ------------------------------------------------------------------

/// A name a target is called by: not hidden, and with nothing in it that make would expand.
pub open spec fn target_name(name: Seq<char>) -> bool {
    &&& flush(name)
    &&& name[0] != '.' && name[0] != '#'
    &&& forall|i: int|
        0 <= i < name.len() ==> #[trigger] name[i] != ':' && name[i] != '=' && name[i] != '%'
            && name[i] != '$' && name[i] != ' '
}

/// A line that names a target before a colon declares it; one that assigns does not, nor does
/// a recipe, a comment, or a line without a colon.
pub proof fn law_a_rule_declares_its_target(
    name: Seq<char>,
    rest: Seq<char>,
    line: Seq<char>,
)
    requires
        target_name(name),
    ensures
        target_on(name.push(':') + rest) == if rest.len() > 0 && rest[0] == '=' {
            None
        } else {
            Some(name)
        },
        line.len() > 0 && (line[0] == '\t' || line[0] == '#') ==> target_on(line) is None,
        !line.contains(':') ==> target_on(line) is None,
        target_on(line) matches Some(found) ==> found.len() > 0 && found[0] != '.' && (forall|
            i: int,
        |
            0 <= i < found.len() ==> #[trigger] found[i] != '=' && found[i] != '%' && found[i] != '$'
                && found[i] != ' '),
{
    let whole = name.push(':') + rest;
    let n = name.len() as int;
    let none = Seq::<char>::empty();
    assert(whole[n] == ':');
    assert(whole[0] == name[0]);
    assert(first_at(whole, ':', n)) by {
        assert forall|j: int| 0 <= j < n implies whole[j] != ':' by {
            assert(whole[j] == name[j]);
        }
    }
    lemma_cut_at(whole, ':', n);
    assert(whole.contains(':'));
    assert(whole.take(n) =~= name);
    assert(whole.skip(n + 1) =~= rest);
    law_whitespace_around_a_text_does_not_matter(none, name, none);
    assert(!white('\t') ==> false);
    assert(whole[0] != '\t');
    assert(plain_target(name)) by {
        assert forall|i: int| 0 <= i < name.len() implies !out_of_place(#[trigger] name[i]) by {}
    }
    if let Some(found) = target_on(line) {
        assert forall|i: int| 0 <= i < found.len() implies #[trigger] found[i] != '=' && found[i]
            != '%' && found[i] != '$' && found[i] != ' ' by {
            assert(!out_of_place(found[i]));
        }
    }
}

/// The targets of a makefile are told of in the order their lines stand in, each as often as it
/// is declared; a makefile without any is not told of.
pub proof fn law_targets_are_told_of_in_order(
    files: Seq<TextFileModel>,
    makefile: Seq<char>,
    found: Seq<Seq<char>>,
    line: Seq<char>,
)
    requires
        reads(files, "Makefile"@, makefile),
    ensures
        targets_on(Seq::empty()).len() == 0,
        targets_on(found.push(line)) == match target_on(line) {
            Some(target) => targets_on(found).push(target),
            None => targets_on(found),
        },
        ({
            let all = targets_on(lines_of(makefile));
            if all.len() == 0 {
                silent(declared_facts(files), "commands-make"@)
            } else {
                says(
                    declared_facts(files),
                    DetectedModel {
                        name: "commands-make"@,
                        title: "Make targets this project declares"@,
                        body: "Targets declared in the Makefile: "@ + joined(all, ", "@)
                            + ".\n\nRun with `make <target>`. None has been run here."@,
                        cites: seq!["Makefile"@],
                    },
                )
            }
        }),
{
    assert(found.push(line).drop_last() =~= found);
    lemma_reads(files, "Makefile"@, makefile);
    let part = make_facts(files);
    let all = targets_on(lines_of(makefile));
    if all.len() == 0 {
        let any = DetectedModel {
            name: "commands-make"@,
            title: Seq::empty(),
            body: Seq::empty(),
            cites: Seq::empty(),
        };
        assert(silent(part, "commands-make"@));
        lemma_parts(files, part, any);
    } else {
        let fact = part[0];
        assert(part.contains(part[0]));
        assert(says(part, fact));
        lemma_parts(files, part, fact);
    }
}

// --- how it is remembered --------------------------------------------------

/// What was detected is remembered as it was detected: a fact about the project and its
/// repository, read and not run, that a later one replaces, trusted at nine tenths, and learned
/// from each file it cites.
pub proof fn law_what_was_detected_is_remembered_as_it_is(
    detected: DetectedModel,
    operation: OperationId,
    context: FactContextModel,
    i: int,
)
    ensures
        ({
            let command = fact_from(detected, operation);
            &&& command == (RememberCommandModel {
                operation_id: operation,
                name: detected.name,
                title: detected.title,
                body: detected.body,
                kind: FactKind::Project,
                scope: FactScope::Repository,
                cardinality: Cardinality::Single,
                status: FactStatus::Observed,
                confidence: 0x3FEC_CCCC_CCCC_CCCD,
                evidence: command.evidence,
                relates_to: Seq::empty(),
            })
            &&& command.evidence.len() == detected.cites.len()
            &&& 0 <= i < detected.cites.len() ==> command.evidence[i] == (EvidenceModel {
                locator: detected.cites[i],
                excerpt: None,
            })
        }),
        detecting(context) == (FactContextModel {
            workspace_id: context.workspace_id,
            run_id: context.run_id,
            namespace: context.namespace,
            provenance: "detected"@,
        }),
{
}

/// A Rust project is told once, with where its version comes from and the commands such projects
/// have by convention.
pub proof fn law_a_rust_project_is_told_with_its_commands(files: Seq<TextFileModel>)
    requires
        rust_facts(files).len() > 0,
    ensures
        rust_facts(files).len() == 1,
        pinned_channel(files) is Some ==> rust_facts(files)[0].body
            == "The channel comes from rust-toolchain.toml. Conventional commands are `cargo test`, `cargo clippy --all-targets` and `cargo fmt --all --check`."@,
        pinned_channel(files) is None ==> rust_facts(files)[0].body
            == "No rust-toolchain.toml, so the version is whatever rustup resolves for the caller. Conventional commands are `cargo test`, `cargo clippy --all-targets` and `cargo fmt --all --check`."@,
{
}

} // verus!
