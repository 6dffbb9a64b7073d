use wit_stub_deps::error::Error;
use wit_stub_deps::integrate::{add_stub_dependency, UpdateCargoToml};
use wit_stub_deps::names::PackageName;
use wit_stub_deps::resolved::{PackageSources, ResolvedDir};
use wit_stub_deps::tree::FileTree;

fn p(segs: &[&str]) -> Vec<String> {
    segs.iter().map(|s| s.to_string()).collect()
}

fn nm(ns: &str, n: &str) -> PackageName {
    PackageName { namespace: ns.to_string(), name: n.to_string(), version: None }
}

fn pkg(ns: &str, n: &str, sources: Vec<Vec<String>>) -> PackageSources {
    PackageSources { name: nm(ns, n), sources }
}

fn tree(entries: &[(&[&str], &str)]) -> FileTree {
    let mut t = FileTree::empty();
    for (path, content) in entries {
        t.set_file(p(path), content.to_string());
    }
    t
}

fn got<'a>(t: &'a FileTree, path: &[&str]) -> Option<&'a str> {
    t.file_content(&p(path)).map(|s| s.as_str())
}

fn self_stub_setup() -> (ResolvedDir, ResolvedDir, FileTree) {
    // Destination package ns:app; stub root holds ns:app-stub (the self
    // stub), ns:app (the destination itself) and ns:util (foreign).
    let stub = ResolvedDir {
        root: p(&["stub"]),
        packages: vec![
            pkg("ns", "app-stub", vec![p(&["stub", "_stub.wit"])]),
            pkg("ns", "app", vec![p(&["stub", "deps", "ns_app", "app.wit"])]),
            pkg("ns", "util", vec![p(&["stub", "deps", "ns_util", "util.wit"])]),
        ],
        main: 0,
    };
    let dest = ResolvedDir {
        root: p(&["dest"]),
        packages: vec![pkg("ns", "app", vec![p(&["dest", "app.wit"])])],
        main: 0,
    };
    let sources = tree(&[
        (&["stub", "_stub.wit"], "import form of the stub\n"),
        (&["stub", "deps", "ns_app", "app.wit"], "interface app {}\n"),
        (
            &["stub", "deps", "ns_util", "util.wit"],
            "import ns:app-stub/api;\ninterface util {}\n",
        ),
    ]);
    (stub, dest, sources)
}

#[test]
fn self_stub_scenario_writes_inline_and_strips_imports() {
    let (stub, dest, sources) = self_stub_setup();
    let regen_import = "import form of the stub\n".to_string();
    let regen_inline = "inline form of the stub\n".to_string();
    let outcome = add_stub_dependency(
        &stub,
        &dest,
        &regen_import,
        &regen_inline,
        &sources,
        FileTree::empty(),
        false,
        UpdateCargoToml::NoUpdate,
        false,
        false,
    )
    .unwrap();

    // The self stub is written from the inline regeneration, not copied.
    assert_eq!(
        got(&outcome.tree, &["deps", "ns_app-stub", "_stub.wit"]),
        Some("inline form of the stub\n")
    );
    assert_ne!(
        got(&outcome.tree, &["deps", "ns_app-stub", "_stub.wit"]),
        Some("import form of the stub\n")
    );
    // The destination's own package is elided entirely.
    assert_eq!(got(&outcome.tree, &["deps", "ns_app", "app.wit"]), None);
    // The foreign package is copied with the self-stub import stripped.
    assert_eq!(
        got(&outcome.tree, &["deps", "ns_util", "util.wit"]),
        Some("interface util {}\n")
    );
    assert!(outcome.refused.is_empty());
    assert_eq!(outcome.targets.len(), 2);
    assert!(!outcome.update_manifest);
}

#[test]
fn ambiguous_self_stub_rejected() {
    let (stub, dest, sources) = self_stub_setup();
    // Name matches by stripping, but the on-disk text matches neither
    // regeneration mode.
    let regen_import = "some other import form\n".to_string();
    let regen_inline = "some other inline form\n".to_string();
    let r = add_stub_dependency(
        &stub,
        &dest,
        &regen_import,
        &regen_inline,
        &sources,
        FileTree::empty(),
        false,
        UpdateCargoToml::NoUpdate,
        false,
        false,
    );
    match r {
        Err(Error::AmbiguousSelfStub { name }) => {
            assert_eq!(name.namespace, "ns");
            assert_eq!(name.name, "app");
        }
        other => panic!("expected ambiguous self stub, got {:?}", other.is_ok()),
    }
}

#[test]
fn self_stub_accepted_when_content_matches_inline_mode() {
    let (stub, dest, mut sources) = self_stub_setup();
    // The on-disk stub equals the inline regeneration instead.
    sources.set_file(p(&["stub", "_stub.wit"]), "inline form of the stub\n".to_string());
    let regen_import = "import form of the stub\n".to_string();
    let regen_inline = "inline form of the stub\n".to_string();
    let outcome = add_stub_dependency(
        &stub,
        &dest,
        &regen_import,
        &regen_inline,
        &sources,
        FileTree::empty(),
        false,
        UpdateCargoToml::NoUpdate,
        false,
        false,
    )
    .unwrap();
    assert_eq!(
        got(&outcome.tree, &["deps", "ns_app-stub", "_stub.wit"]),
        Some("inline form of the stub\n")
    );
}

fn foreign_setup() -> (ResolvedDir, ResolvedDir, FileTree) {
    let stub = ResolvedDir {
        root: p(&["stub"]),
        packages: vec![pkg("ns", "other-stub", vec![p(&["stub", "_stub.wit"])])],
        main: 0,
    };
    let dest = ResolvedDir {
        root: p(&["dest"]),
        packages: vec![pkg("ns", "app", vec![p(&["dest", "app.wit"])])],
        main: 0,
    };
    let sources = tree(&[(&["stub", "_stub.wit"], "stub of another component\n")]);
    (stub, dest, sources)
}

#[test]
fn foreign_stub_main_copied_verbatim() {
    let (stub, dest, sources) = foreign_setup();
    let outcome = add_stub_dependency(
        &stub,
        &dest,
        &"x\n".to_string(),
        &"y\n".to_string(),
        &sources,
        FileTree::empty(),
        false,
        UpdateCargoToml::NoUpdate,
        false,
        false,
    )
    .unwrap();
    assert_eq!(
        got(&outcome.tree, &["deps", "ns_other-stub", "_stub.wit"]),
        Some("stub of another component\n")
    );
    assert!(outcome.refused.is_empty());
}

#[test]
fn second_run_skips_everything() {
    let (stub, dest, sources) = self_stub_setup();
    let regen_import = "import form of the stub\n".to_string();
    let regen_inline = "inline form of the stub\n".to_string();
    let first = add_stub_dependency(
        &stub,
        &dest,
        &regen_import,
        &regen_inline,
        &sources,
        FileTree::empty(),
        false,
        UpdateCargoToml::NoUpdate,
        false,
        false,
    )
    .unwrap();
    let second = add_stub_dependency(
        &stub,
        &dest,
        &regen_import,
        &regen_inline,
        &sources,
        first.tree,
        false,
        UpdateCargoToml::NoUpdate,
        false,
        false,
    )
    .unwrap();
    assert!(second.refused.is_empty());
    assert_eq!(second.log.len(), 2);
    for line in &second.log {
        assert_eq!(line.verb, "Skipping");
        assert!(line.warn);
        assert!(line.detail.ends_with("content already up-to-date"));
    }
    assert_eq!(
        got(&second.tree, &["deps", "ns_app-stub", "_stub.wit"]),
        Some("inline form of the stub\n")
    );
    assert_eq!(
        got(&second.tree, &["deps", "ns_util", "util.wit"]),
        Some("interface util {}\n")
    );
}

#[test]
fn overwrite_gating_refuses_then_replaces() {
    let (stub, dest, sources) = foreign_setup();
    let existing = tree(&[(&["deps", "ns_other-stub", "_stub.wit"], "locally edited\n")]);
    let refused_run = add_stub_dependency(
        &stub,
        &dest,
        &"x\n".to_string(),
        &"y\n".to_string(),
        &sources,
        existing,
        false,
        UpdateCargoToml::NoUpdate,
        false,
        false,
    )
    .unwrap();
    assert_eq!(refused_run.refused.len(), 1);
    assert_eq!(
        got(&refused_run.tree, &["deps", "ns_other-stub", "_stub.wit"]),
        Some("locally edited\n")
    );

    let existing = tree(&[(&["deps", "ns_other-stub", "_stub.wit"], "locally edited\n")]);
    let forced_run = add_stub_dependency(
        &stub,
        &dest,
        &"x\n".to_string(),
        &"y\n".to_string(),
        &sources,
        existing,
        true,
        UpdateCargoToml::NoUpdate,
        false,
        false,
    )
    .unwrap();
    assert!(forced_run.refused.is_empty());
    assert_eq!(
        got(&forced_run.tree, &["deps", "ns_other-stub", "_stub.wit"]),
        Some("stub of another component\n")
    );
}

#[test]
fn manifest_update_mandatory_fails_when_absent() {
    let (stub, dest, sources) = foreign_setup();
    let r = add_stub_dependency(
        &stub,
        &dest,
        &"x\n".to_string(),
        &"y\n".to_string(),
        &sources,
        FileTree::empty(),
        false,
        UpdateCargoToml::Update,
        false,
        false,
    );
    assert!(matches!(r, Err(Error::ManifestMissing)));
}

#[test]
fn manifest_update_if_exists_succeeds_when_absent() {
    let (stub, dest, sources) = foreign_setup();
    let outcome = add_stub_dependency(
        &stub,
        &dest,
        &"x\n".to_string(),
        &"y\n".to_string(),
        &sources,
        FileTree::empty(),
        false,
        UpdateCargoToml::UpdateIfExists,
        false,
        false,
    )
    .unwrap();
    assert!(!outcome.update_manifest);
    assert!(!outcome.manifest_skipped);
}

#[test]
fn manifest_present_policies() {
    let (stub, dest, sources) = foreign_setup();
    // Present and recognized, update requested: the caller must update.
    let outcome = add_stub_dependency(
        &stub,
        &dest,
        &"x\n".to_string(),
        &"y\n".to_string(),
        &sources,
        FileTree::empty(),
        false,
        UpdateCargoToml::Update,
        true,
        true,
    )
    .unwrap();
    assert!(outcome.update_manifest);
    assert_eq!(outcome.targets, vec![p(&["deps", "ns_other-stub", "_stub.wit"])]);

    // Present but not a recognized project descriptor.
    let r = add_stub_dependency(
        &stub,
        &dest,
        &"x\n".to_string(),
        &"y\n".to_string(),
        &sources,
        FileTree::empty(),
        false,
        UpdateCargoToml::Update,
        true,
        false,
    );
    assert!(matches!(r, Err(Error::ManifestKind)));

    // Present but the policy never touches it.
    let outcome = add_stub_dependency(
        &stub,
        &dest,
        &"x\n".to_string(),
        &"y\n".to_string(),
        &sources,
        FileTree::empty(),
        false,
        UpdateCargoToml::NoUpdate,
        true,
        true,
    )
    .unwrap();
    assert!(!outcome.update_manifest);
    assert!(outcome.manifest_skipped);
}

#[test]
fn stub_name_without_suffix_is_rejected() {
    let (_, dest, sources) = foreign_setup();
    let stub = ResolvedDir {
        root: p(&["stub"]),
        packages: vec![pkg("ns", "plain", vec![p(&["stub", "_stub.wit"])])],
        main: 0,
    };
    let r = add_stub_dependency(
        &stub,
        &dest,
        &"x\n".to_string(),
        &"y\n".to_string(),
        &sources,
        FileTree::empty(),
        false,
        UpdateCargoToml::NoUpdate,
        false,
        false,
    );
    match r {
        Err(Error::UnexpectedStubName { name }) => assert_eq!(name.name, "plain"),
        other => panic!("expected unexpected stub name, got {:?}", other.is_ok()),
    }
}

#[test]
fn malformed_snapshots_are_rejected() {
    let (stub, dest, sources) = foreign_setup();
    let bad_main = ResolvedDir { root: p(&["stub"]), packages: vec![], main: 0 };
    let r = add_stub_dependency(
        &bad_main,
        &dest,
        &"x\n".to_string(),
        &"y\n".to_string(),
        &sources,
        FileTree::empty(),
        false,
        UpdateCargoToml::NoUpdate,
        false,
        false,
    );
    assert!(matches!(r, Err(Error::Resolution)));

    let dup_names = ResolvedDir {
        root: p(&["stub"]),
        packages: vec![
            pkg("ns", "other-stub", vec![p(&["stub", "_stub.wit"])]),
            pkg("ns", "other-stub", vec![p(&["stub", "again.wit"])]),
        ],
        main: 0,
    };
    let r = add_stub_dependency(
        &dup_names,
        &dest,
        &"x\n".to_string(),
        &"y\n".to_string(),
        &sources,
        FileTree::empty(),
        false,
        UpdateCargoToml::NoUpdate,
        false,
        false,
    );
    assert!(matches!(r, Err(Error::Resolution)));
    let _ = stub;
}

#[test]
fn source_without_file_name_is_rejected() {
    let (_, dest, sources) = foreign_setup();
    let stub = ResolvedDir {
        root: p(&["stub"]),
        packages: vec![pkg("ns", "other-stub", vec![p(&[])])],
        main: 0,
    };
    let r = add_stub_dependency(
        &stub,
        &dest,
        &"x\n".to_string(),
        &"y\n".to_string(),
        &sources,
        FileTree::empty(),
        false,
        UpdateCargoToml::NoUpdate,
        false,
        false,
    );
    assert!(matches!(r, Err(Error::MissingFileName { .. })));
}

#[test]
fn source_outside_stub_root_is_rejected() {
    let (_, dest, mut sources) = foreign_setup();
    sources.set_file(p(&["elsewhere", "util.wit"]), "interface util {}\n".to_string());
    let stub = ResolvedDir {
        root: p(&["stub"]),
        packages: vec![
            pkg("ns", "other-stub", vec![p(&["stub", "_stub.wit"])]),
            pkg("ns", "util", vec![p(&["elsewhere", "util.wit"])]),
        ],
        main: 0,
    };
    let r = add_stub_dependency(
        &stub,
        &dest,
        &"x\n".to_string(),
        &"y\n".to_string(),
        &sources,
        FileTree::empty(),
        false,
        UpdateCargoToml::NoUpdate,
        false,
        false,
    );
    match r {
        Err(Error::PathStrip { source }) => assert_eq!(source, p(&["elsewhere", "util.wit"])),
        other => panic!("expected path strip error, got {:?}", other.is_ok()),
    }
}

#[test]
fn colliding_targets_are_rejected() {
    let (_, dest, sources) = foreign_setup();
    // The same source listed twice produces the same target twice.
    let stub = ResolvedDir {
        root: p(&["stub"]),
        packages: vec![
            pkg(
                "ns",
                "other-stub",
                vec![p(&["stub", "_stub.wit"]), p(&["stub", "_stub.wit"])],
            ),
        ],
        main: 0,
    };
    let r = add_stub_dependency(
        &stub,
        &dest,
        &"x\n".to_string(),
        &"y\n".to_string(),
        &sources,
        FileTree::empty(),
        false,
        UpdateCargoToml::NoUpdate,
        false,
        false,
    );
    assert!(matches!(r, Err(Error::DuplicateTarget)));
}

#[test]
fn missing_source_content_is_rejected() {
    let (stub, dest, _) = foreign_setup();
    let r = add_stub_dependency(
        &stub,
        &dest,
        &"x\n".to_string(),
        &"y\n".to_string(),
        &FileTree::empty(),
        FileTree::empty(),
        false,
        UpdateCargoToml::NoUpdate,
        false,
        false,
    );
    match r {
        Err(Error::UnreadableSource { source }) => {
            assert_eq!(source, p(&["stub", "_stub.wit"]));
        }
        other => panic!("expected unreadable source, got {:?}", other.is_ok()),
    }
}
