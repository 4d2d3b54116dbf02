//! Learning a repository's toolchain from its manifests.

use magent_store::detect_toolchain;
use magent_store::domain::RememberCommand;
use magent_store::states::{Cardinality, FactStatus};
use magent_store::toolchain::{make_targets, RootFile, DETECTED_CONFIDENCE, MAX_MANIFEST_BYTES};
use magent_store::{FactContext, Store};

fn file(name: &str, contents: &str) -> RootFile {
    RootFile {
        name: name.into(),
        size: contents.len() as u64,
        contents: Some(contents.as_bytes().to_vec()),
    }
}

fn find<'a>(facts: &'a [RememberCommand], name: &str) -> Option<&'a RememberCommand> {
    facts.iter().find(|fact| fact.name == name)
}

// --- languages -------------------------------------------------------------

#[test]
fn a_go_module_is_detected_with_its_version() {
    let facts = detect_toolchain(&vec![file(
        "go.mod",
        "module github.com/acme/service\n\ngo 1.24.3\n\nrequire (\n\tgithub.com/x/y v1.0.0\n)\n",
    )]);
    let go = find(&facts, "toolchain-go").expect("a go fact");

    assert!(go.title.contains("1.24.3"), "{}", go.title);
    assert!(
        go.body.contains("github.com/acme/service"),
        "the module path is what identifies it: {}",
        go.body
    );
    assert_eq!(
        go.evidence[0].locator, "go.mod",
        "a detected fact must point at what it read"
    );
}

#[test]
fn a_rust_workspace_is_detected_with_its_pinned_toolchain() {
    let facts = detect_toolchain(&vec![
        file(
            "Cargo.toml",
            "[workspace]\nmembers = [\"crates/a\"]\n\n[workspace.package]\nedition = \"2024\"\n",
        ),
        file("rust-toolchain.toml", "[toolchain]\nchannel = \"1.96.0\"\n"),
    ]);
    let rust = find(&facts, "toolchain-rust").expect("a rust fact");

    assert!(rust.title.contains("1.96.0"), "{}", rust.title);
    assert!(
        rust.evidence.iter().any(|evidence| evidence.locator == "rust-toolchain.toml"),
        "the pinned version comes from rust-toolchain.toml, not Cargo.toml: {:?}",
        rust.evidence
    );
}

#[test]
fn a_rust_project_without_a_pin_does_not_invent_a_version() {
    let facts = detect_toolchain(&vec![file("Cargo.toml", "[package]\nname = \"thing\"\n")]);
    let rust = find(&facts, "toolchain-rust").expect("a rust fact");

    assert!(
        !rust.title.chars().any(|c| c.is_ascii_digit()),
        "a version was invented: {}",
        rust.title
    );
}

#[test]
fn a_node_project_reports_its_package_manager_from_the_lockfile() {
    let facts = detect_toolchain(&vec![
        file(
            "package.json",
            "{\"name\":\"web\",\"scripts\":{\"test\":\"vitest run\",\"lint\":\"eslint .\"}}",
        ),
        file("pnpm-lock.yaml", "lockfileVersion: 9\n"),
    ]);
    let node = find(&facts, "toolchain-node").expect("a node fact");

    assert!(node.body.contains("pnpm"), "{}", node.body);
    assert!(
        node.evidence.iter().any(|evidence| evidence.locator == "pnpm-lock.yaml"),
        "{:?}",
        node.evidence
    );
}

#[test]
fn a_python_project_is_detected_from_pyproject() {
    let facts = detect_toolchain(&vec![file(
        "pyproject.toml",
        "[project]\nname = \"svc\"\nrequires-python = \">=3.12\"\n",
    )]);
    let python = find(&facts, "toolchain-python").expect("a python fact");

    assert!(python.title.contains("3.12"), "{}", python.title);
}

#[test]
fn a_gradle_project_is_detected_with_its_wrapper() {
    let facts = detect_toolchain(&vec![
        file("build.gradle", "plugins { id 'java' }\n\nsourceCompatibility = '21'\n"),
        file("gradlew", "#!/bin/sh\n"),
        file("settings.gradle", "rootProject.name = 'svc'\n"),
    ]);
    let jvm = find(&facts, "toolchain-jvm").expect("a jvm fact");

    assert!(jvm.body.contains("gradlew"), "{}", jvm.body);
    assert!(
        jvm.evidence.iter().any(|evidence| evidence.locator == "build.gradle"),
        "{:?}",
        jvm.evidence
    );
}

#[test]
fn a_maven_project_is_detected_too() {
    let facts = detect_toolchain(&vec![file(
        "pom.xml",
        "<project><artifactId>svc</artifactId></project>\n",
    )]);
    let jvm = find(&facts, "toolchain-jvm").expect("a jvm fact");
    assert!(jvm.body.to_lowercase().contains("maven"), "{}", jvm.body);
}

#[test]
fn a_polyglot_repository_reports_every_language_it_holds() {
    let facts = detect_toolchain(&vec![
        file("go.mod", "module x\n\ngo 1.24\n"),
        file("package.json", "{\"name\":\"web\"}"),
    ]);

    assert!(find(&facts, "toolchain-go").is_some());
    assert!(find(&facts, "toolchain-node").is_some());
}

#[test]
fn a_directory_with_no_manifests_yields_nothing() {
    assert!(detect_toolchain(&vec![file("README.md", "# nothing here\n")]).is_empty());
}

// --- commands --------------------------------------------------------------

#[test]
fn declared_scripts_become_a_commands_fact() {
    let facts = detect_toolchain(&vec![file(
        "package.json",
        "{\"name\":\"web\",\"scripts\":{\"test\":\"vitest run\",\"build\":\"vite build\"}}",
    )]);
    let commands = find(&facts, "commands-node").expect("a commands fact");

    assert!(commands.body.contains("vitest run"), "{}", commands.body);
    assert!(commands.body.contains("vite build"), "{}", commands.body);
}

#[test]
fn a_makefile_contributes_its_targets() {
    let facts = detect_toolchain(&vec![file(
        "Makefile",
        ".PHONY: test lint\n\ntest:\n\tgo test ./...\n\nlint:\n\tgolangci-lint run\n",
    )]);
    let commands = find(&facts, "commands-make").expect("a make fact");

    assert!(commands.body.contains("test"), "{}", commands.body);
    assert!(commands.body.contains("lint"), "{}", commands.body);
}

#[test]
fn a_makefile_target_is_a_plain_name_before_a_colon() {
    assert_eq!(
        make_targets(
            ".PHONY: a\nall: x/y\nX := 1\n\techo: no\nx/y:\n%.o: c\na b: c\n# note: no\n"
        ),
        vec!["all".to_owned(), "x/y".to_owned()]
    );
}

#[test]
fn a_linter_config_is_reported_as_intent_not_as_a_working_setup() {
    let facts = detect_toolchain(&vec![
        file("go.mod", "module x\n\ngo 1.24\n"),
        file(".golangci.yml", "linters:\n  enable:\n    - errcheck\n"),
    ]);
    let linter = find(&facts, "linter-go").expect("a linter fact");

    assert_eq!(linter.evidence[0].locator, ".golangci.yml");
    let claim = format!("{} {}", linter.title, linter.body).to_lowercase();
    assert!(
        !claim.contains("installed") && !claim.contains("available"),
        "a config file does not prove the binary exists: {claim}"
    );
}

// --- honesty ---------------------------------------------------------------

#[test]
fn every_detected_fact_is_observed_and_cites_a_file() {
    let facts = detect_toolchain(&vec![
        file("go.mod", "module x\n\ngo 1.24\n"),
        file("Makefile", "test:\n\tgo test ./...\n"),
        file(".golangci.yml", "linters: {}\n"),
    ]);
    assert!(!facts.is_empty());

    for fact in &facts {
        assert_eq!(
            fact.status,
            FactStatus::Observed,
            "{} claims more than it checked",
            fact.name
        );
        assert!(
            !fact.evidence.is_empty(),
            "{} cites nothing, so it cannot be re-checked",
            fact.name
        );
        assert!(
            fact.evidence.iter().all(|evidence| !evidence.locator.starts_with('/')),
            "{} cites an absolute path, which will not survive a different checkout: {:?}",
            fact.name,
            fact.evidence
        );
        assert_eq!(f64::from_bits(fact.confidence), 0.9);
    }
    assert_eq!(f64::from_bits(DETECTED_CONFIDENCE), 0.9);
}

#[test]
fn detected_facts_are_single_valued() {
    for fact in detect_toolchain(&vec![file("go.mod", "module x\n\ngo 1.24\n")]) {
        assert_eq!(fact.cardinality, Cardinality::Single);
    }
}

#[test]
fn malformed_manifests_do_not_panic() {
    let facts = detect_toolchain(&vec![
        file("go.mod", "\u{0}\u{1}not a go.mod at all"),
        file("package.json", "{ this is not json"),
        file("pyproject.toml", "[[["),
        file("Cargo.toml", ""),
    ]);

    for fact in &facts {
        assert!(
            !fact.name.is_empty() && !fact.title.is_empty() && !fact.body.is_empty(),
            "{} is not a valid fact: {fact:?}",
            fact.name
        );
    }
}

#[test]
fn a_manifest_that_is_too_large_or_unreadable_is_passed_over() {
    let huge = RootFile { size: MAX_MANIFEST_BYTES + 1, ..file("go.mod", "module x\n") };
    assert!(detect_toolchain(&vec![huge]).is_empty());
    let binary = RootFile { name: "go.mod".into(), size: 2, contents: Some(vec![0xff, 0xfe]) };
    let facts = detect_toolchain(&vec![binary]);
    assert!(facts.iter().all(|fact| fact.title == "Go module"), "{facts:?}");
    let missing = RootFile { name: "go.mod".into(), size: 2, contents: None };
    assert!(detect_toolchain(&vec![missing]).is_empty());
}

#[test]
fn detection_runs_once_per_repository() {
    let mut store = Store::new();
    let context = FactContext { namespace: Some("service".into()), ..FactContext::default() };
    let detected = detect_toolchain(&vec![file("go.mod", "module x\n\ngo 1.24\n")]);
    let passed: Vec<_> = detected.iter().map(|_| None).collect();
    assert!(!store.has_detected_facts(&context));
    assert_eq!(store.detect_toolchain_once(&detected, &passed, &context).expect("first"), 1);
    assert!(store.has_detected_facts(&context));
    assert_eq!(store.detect_toolchain_once(&detected, &passed, &context).expect("again"), 0);
    assert_eq!(store.facts.len(), 1);
    assert_eq!(store.facts[0].provenance, "detected");
}

#[test]
fn a_correction_of_a_detected_fact_is_not_detected_away() {
    let mut store = Store::new();
    let context = FactContext { namespace: Some("service".into()), ..FactContext::default() };
    let detected = detect_toolchain(&vec![file("go.mod", "module x\n\ngo 1.24\n")]);
    let passed: Vec<_> = detected.iter().map(|_| None).collect();
    store.detect_toolchain_once(&detected, &passed, &context).expect("first");
    let fixed =
        store.edit_fact(store.facts[0].id, "Go 1.25", "CI installs 1.25.").expect("correct");

    assert_eq!(store.detect_toolchain_once(&detected, &passed, &context).expect("again"), 0);
    let current = store.recall("toolchain-go", &context).expect("recall").expect("fact");
    assert_eq!(current.fact_id, fixed);
    assert_eq!(current.title, "Go 1.25");
}
