use wit_stub_deps::action::{Action, ActionPlan};
use wit_stub_deps::names::PackageName;
use wit_stub_deps::paths::{file_name, path_display, strip_prefix};
use wit_stub_deps::report::log_action_plan;
use wit_stub_deps::resolved::{classify, PackageClass};
use wit_stub_deps::rewrite::remove_imports;
use wit_stub_deps::integrate::is_self_stub;
use wit_stub_deps::tree::FileTree;

fn p(segs: &[&str]) -> Vec<String> {
    segs.iter().map(|s| s.to_string()).collect()
}

fn nm(ns: &str, n: &str) -> PackageName {
    PackageName { namespace: ns.to_string(), name: n.to_string(), version: None }
}

#[test]
fn stub_naming_round_trip() {
    let app = nm("ns", "app");
    let stub = app.stub_name();
    assert_eq!(stub.namespace, "ns");
    assert_eq!(stub.name, "app-stub");
    let back = stub.strip_stub_suffix().unwrap();
    assert!(back.same_as(&app));
}

#[test]
fn strip_suffix_absent() {
    assert!(nm("ns", "app").strip_stub_suffix().is_none());
    assert!(nm("ns", "stu").strip_stub_suffix().is_none());
    // A name that is exactly the suffix strips to the empty name.
    let bare = nm("ns", "-stub").strip_stub_suffix().unwrap();
    assert_eq!(bare.name, "");
}

#[test]
fn name_display_forms() {
    let mut v = nm("wasi", "http");
    assert_eq!(v.display(), "wasi:http");
    assert_eq!(v.dir_name(), "wasi_http");
    assert_eq!(v.import_prefix(), "wasi:http");
    v.version = Some("0.2.0".to_string());
    assert_eq!(v.display(), "wasi:http@0.2.0");
}

#[test]
fn name_equality_is_structural() {
    let a = nm("ns", "app");
    let mut b = nm("ns", "app");
    assert!(a.same_as(&b));
    b.version = Some("1.0.0".to_string());
    assert!(!a.same_as(&b));
}

#[test]
fn path_helpers() {
    let path = p(&["stub", "deps", "util.wit"]);
    assert_eq!(file_name(&path).unwrap().as_str(), "util.wit");
    assert!(file_name(&p(&[])).is_none());
    assert_eq!(strip_prefix(&path, &p(&["stub"])).unwrap(), p(&["deps", "util.wit"]));
    assert!(strip_prefix(&path, &p(&["other"])).is_none());
    assert_eq!(path_display(&path), "stub/deps/util.wit");
    assert_eq!(path_display(&p(&[])), "");
}

#[test]
fn file_tree_updates_shadow() {
    let mut t = FileTree::empty();
    assert!(t.file_content(&p(&["a.wit"])).is_none());
    t.set_file(p(&["a.wit"]), "one".to_string());
    assert_eq!(t.file_content(&p(&["a.wit"])).unwrap().as_str(), "one");
    t.set_file(p(&["a.wit"]), "two".to_string());
    assert_eq!(t.file_content(&p(&["a.wit"])).unwrap().as_str(), "two");
    t.set_file(p(&["b.wit"]), "three".to_string());
    assert_eq!(t.file_content(&p(&["a.wit"])).unwrap().as_str(), "two");
    assert_eq!(t.file_content(&p(&["b.wit"])).unwrap().as_str(), "three");
}

#[test]
fn import_lines_are_stripped() {
    let text = "import ns:app-stub/api;\nkeep this;\n  import ns:app-stub;\nimport ns:app-stubby/x;\nimport ns:app-stub@1.0.0;\ntail";
    let out = remove_imports(text, "ns:app-stub");
    assert_eq!(out, "keep this;\nimport ns:app-stubby/x;\ntail");
}

#[test]
fn unrelated_imports_are_kept() {
    let text = "import wasi:io/streams;\ninterface x {}\n";
    assert_eq!(remove_imports(text, "ns:app-stub"), text);
    assert_eq!(remove_imports("", "ns:app-stub"), "");
}

#[test]
fn classification_precedence() {
    let dest = nm("ns", "app");
    let dest_stub = nm("ns", "app-stub");
    // The destination's own name wins even for the stub's main package.
    assert_eq!(classify(&nm("ns", "app"), true, &dest, &dest_stub), PackageClass::Destination);
    assert_eq!(classify(&nm("ns", "app-stub"), true, &dest, &dest_stub), PackageClass::SelfStub);
    assert_eq!(classify(&nm("ns", "other-stub"), true, &dest, &dest_stub), PackageClass::StubMain);
    assert_eq!(classify(&nm("ns", "util"), false, &dest, &dest_stub), PackageClass::Other);
}

#[test]
fn self_stub_content_check() {
    let imported = "imported text".to_string();
    let inlined = "inlined text".to_string();
    assert!(is_self_stub(&"imported text".to_string(), &imported, &inlined));
    assert!(is_self_stub(&"inlined text".to_string(), &imported, &inlined));
    assert!(!is_self_stub(&"something else".to_string(), &imported, &inlined));
}

#[test]
fn log_lines_match_dispositions() {
    let copy = Action::CopyFile { source: p(&["stub", "a.wit"]), target: p(&["deps", "a.wit"]) };
    let line = log_action_plan(&copy, ActionPlan::Create);
    assert!(!line.warn);
    assert_eq!(line.verb, "Copying");
    assert_eq!(line.detail, "stub/a.wit to deps/a.wit");

    let line = log_action_plan(&copy, ActionPlan::Overwrite);
    assert!(line.warn);
    assert_eq!(line.verb, "Overwriting");
    assert_eq!(line.detail, "deps/a.wit with stub/a.wit");

    let line = log_action_plan(&copy, ActionPlan::SkipSameContent);
    assert!(line.warn);
    assert_eq!(line.verb, "Skipping");
    assert_eq!(line.detail, "copying stub/a.wit to deps/a.wit, content already up-to-date");

    let transformed = Action::CopyFileTransformed {
        source: p(&["stub", "b.wit"]),
        target: p(&["deps", "b.wit"]),
        remove_prefix: "ns:app-stub".to_string(),
    };
    let line = log_action_plan(&transformed, ActionPlan::Create);
    assert_eq!(line.detail, "stub/b.wit to deps/b.wit transformed");

    let write = Action::WriteFile { content: "text".to_string(), target: p(&["deps", "c.wit"]) };
    let line = log_action_plan(&write, ActionPlan::Create);
    assert_eq!(line.verb, "Creating");
    assert_eq!(line.detail, "deps/c.wit");
    let line = log_action_plan(&write, ActionPlan::SkipSameContent);
    assert_eq!(line.detail, "generating deps/c.wit, content already up-to-date");
}
