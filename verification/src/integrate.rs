//! The dependency integration engine.
//!
//! Orchestrates one integration call: checks both snapshots, detects the
//! self-stub situation by name and by content, builds the action list,
//! runs it, and decides whether the caller must update the project
//! manifest. The call is a pure function of the two snapshots, the
//! regenerated stub texts, the content maps and the flags.

use vstd::prelude::*;
use vstd::string::StringExecFns;
use crate::action::{Action, ActionV, target_of, targets_distinct};
use crate::error::{Error, ErrorV};
use crate::names::{has_stub_suffix, strip_stub_suffix_spec, PackageNameV};
use crate::paths::path_clone;
use crate::planner::{plan_actions, plan_spec, stub_name_of, self_stub_target};
use crate::report::{LogLine, LogLineV};
use crate::resolved::{dir_wf, main_name, ResolvedDir, ResolvedDirV};
use crate::runner::{content_spec, run, run_spec};
use crate::tree::{map_file, FileTree};

verus! {

/// Whether and how the project manifest is updated after integration.
#[derive(Clone, Copy, PartialEq, Eq, Structural, Debug)]
pub enum UpdateCargoToml {
    /// The manifest must be updated; its absence is an error.
    Update,
    /// The manifest is updated when present; absence is not an error.
    UpdateIfExists,
    /// The manifest is never touched.
    NoUpdate,
}

/// The outcome of a successful integration call.
pub struct IntegrationOutcome {
    /// The destination content snapshot after all permitted writes.
    pub tree: FileTree,
    /// The overwrites that were refused for want of the overwrite flag.
    pub refused: Vec<Action>,
    /// One report line per planned action.
    pub log: Vec<LogLine>,
    /// The target paths of all planned actions, for the manifest updater.
    pub targets: Vec<Vec<String>>,
    /// Whether the caller must now hand `targets` to the manifest updater.
    pub update_manifest: bool,
    /// Whether a present manifest was deliberately left untouched.
    pub manifest_skipped: bool,
}

/// Mathematical image of an [`IntegrationOutcome`].
#[verifier::ext_equal]
pub struct IntegrationV {
    pub tree: Map<Seq<Seq<char>>, Seq<char>>,
    pub refused: Seq<ActionV>,
    pub log: Seq<LogLineV>,
    pub targets: Seq<Seq<Seq<char>>>,
    pub update_manifest: bool,
    pub manifest_skipped: bool,
}

/// The path of the stub's own generated source file under the stub root.
pub open spec fn stub_source_path(stub_root: Seq<Seq<char>>) -> Seq<Seq<char>> {
    stub_root + seq!["_stub.wit"@]
}

/// The package a stub claims to be generated for, by the naming
/// convention; meaningful only when the stub's main name carries the
/// stub suffix.
pub open spec fn stub_target_name(stub_main: PackageNameV) -> PackageNameV {
    PackageNameV {
        namespace: stub_main.namespace,
        name: strip_stub_suffix_spec(stub_main.name),
        version: stub_main.version,
    }
}

/// Whether the manifest must be updated, or why the call must fail: an
/// absent manifest is fatal exactly under the mandatory policy, an
/// unrecognized one whenever an update was requested.
pub open spec fn manifest_decision_spec(
    policy: UpdateCargoToml,
    present: bool,
    recognized: bool,
) -> Result<bool, ErrorV> {
    if present {
        if policy == UpdateCargoToml::NoUpdate {
            Ok(false)
        } else if !recognized {
            Err(ErrorV::ManifestKind)
        } else {
            Ok(true)
        }
    } else {
        if policy == UpdateCargoToml::Update {
            Err(ErrorV::ManifestMissing)
        } else {
            Ok(false)
        }
    }
}

/// The meaning of one whole integration call.
pub open spec fn integrate_spec(
    stub: ResolvedDirV,
    dest: ResolvedDirV,
    regen_import: Seq<char>,
    regen_inline: Seq<char>,
    src: Map<Seq<Seq<char>>, Seq<char>>,
    dest0: Map<Seq<Seq<char>>, Seq<char>>,
    overwrite: bool,
    policy: UpdateCargoToml,
    manifest_present: bool,
    manifest_recognized: bool,
) -> Result<IntegrationV, ErrorV> {
    if !dir_wf(stub) || !dir_wf(dest) {
        Err(ErrorV::Resolution)
    } else {
        let stub_main = main_name(stub);
        let dest_main = main_name(dest);
        if !has_stub_suffix(stub_main.name) {
            Err(ErrorV::UnexpectedStubName { name: stub_main })
        } else {
            let by_name = stub_target_name(stub_main) == dest_main;
            let own_text = map_file(src, stub_source_path(stub.root));
            if by_name && own_text is None {
                Err(ErrorV::UnreadableSource { source: stub_source_path(stub.root) })
            } else if by_name && !(own_text->Some_0 == regen_import || own_text->Some_0
                == regen_inline) {
                Err(ErrorV::AmbiguousSelfStub { name: stub_target_name(stub_main) })
            } else {
                match plan_spec(stub.packages, stub.main, dest_main, stub.root, regen_inline) {
                    Err(e) => Err(e),
                    Ok(acts) => if !targets_distinct(acts) {
                        Err(ErrorV::DuplicateTarget)
                    } else {
                        match run_spec(acts, src, dest0, overwrite) {
                            Err(e) => Err(e),
                            Ok(o) => match manifest_decision_spec(
                                policy,
                                manifest_present,
                                manifest_recognized,
                            ) {
                                Err(e) => Err(e),
                                Ok(upd) => Ok(
                                    IntegrationV {
                                        tree: o.tree,
                                        refused: o.refused,
                                        log: o.log,
                                        targets: acts.map_values(|a: ActionV| target_of(a)),
                                        update_manifest: upd,
                                        manifest_skipped: policy == UpdateCargoToml::NoUpdate
                                            && manifest_present,
                                    },
                                ),
                            },
                        }
                    },
                }
            }
        }
    }
}

/// Whether a stub is, by content, a stub of the destination: its own
/// source text byte-equals one of the destination's two freshly
/// regenerated self-stub texts.
pub fn is_self_stub(stub_source: &String, regen_import: &String, regen_inline: &String) -> (r:
    bool)
    ensures
        r == (stub_source@ == regen_import@ || stub_source@ == regen_inline@),
{
    *stub_source == *regen_import || *stub_source == *regen_inline
}

/// Integrates a stub package tree into a destination tree.
///
/// Both snapshots come from the external resolver; `regen_import` and
/// `regen_inline` are the destination's own self-stub as the external
/// generator regenerates it in import and in inline mode; `sources` maps
/// the stub tree's file paths to their text, and `dest_tree` holds the
/// destination's current content keyed by paths relative to its root.
/// On success the caller applies the returned snapshot and, when asked,
/// hands the target list to the external manifest updater. On error the
/// destination is untouched.
#[verifier::loop_isolation(false)]
pub fn add_stub_dependency(
    stub: &ResolvedDir,
    dest: &ResolvedDir,
    regen_import: &String,
    regen_inline: &String,
    sources: &FileTree,
    dest_tree: FileTree,
    overwrite: bool,
    update_cargo_toml: UpdateCargoToml,
    manifest_present: bool,
    manifest_recognized: bool,
) -> (r: Result<IntegrationOutcome, Error>)
    ensures
        match r {
            Ok(o) => {
                &&& integrate_spec(stub@, dest@, regen_import@, regen_inline@, sources.as_map(),
                    dest_tree.as_map(), overwrite, update_cargo_toml, manifest_present,
                    manifest_recognized) matches Ok(v)
                &&& (integrate_spec(stub@, dest@, regen_import@, regen_inline@, sources.as_map(),
                    dest_tree.as_map(), overwrite, update_cargo_toml, manifest_present,
                    manifest_recognized)->Ok_0) == (IntegrationV {
                    tree: o.tree.as_map(),
                    refused: o.refused.deep_view(),
                    log: o.log.deep_view(),
                    targets: o.targets.deep_view(),
                    update_manifest: o.update_manifest,
                    manifest_skipped: o.manifest_skipped,
                })
            },
            Err(e) => integrate_spec(stub@, dest@, regen_import@, regen_inline@, sources.as_map(),
                dest_tree.as_map(), overwrite, update_cargo_toml, manifest_present,
                manifest_recognized) == Err::<IntegrationV, ErrorV>(e@),
        },
{
    if !stub.check_wf() {
        return Err(Error::Resolution);
    }
    if !dest.check_wf() {
        return Err(Error::Resolution);
    }
    let stub_main = &stub.packages[stub.main].name;
    let dest_main = &dest.packages[dest.main].name;
    proof {
        assert(stub@.packages[stub@.main] == stub.packages@[stub.main as int]@);
        assert(dest@.packages[dest@.main] == dest.packages@[dest.main as int]@);
    }
    let target_name = match stub_main.strip_stub_suffix() {
        None => {
            return Err(Error::UnexpectedStubName { name: stub_main.duplicate() });
        },
        Some(t) => t,
    };
    proof {
        assert(target_name@ =~= stub_target_name(main_name(stub@)));
    }
    let by_name = target_name.same_as(dest_main);
    if by_name {
        let mut sp = path_clone(&stub.root);
        sp.push(String::from_str("_stub.wit"));
        proof {
            assert(sp.deep_view() =~= stub_source_path(stub@.root));
        }
        match sources.file_content(&sp) {
            None => {
                return Err(Error::UnreadableSource { source: sp });
            },
            Some(text) => {
                if !is_self_stub(text, regen_import, regen_inline) {
                    return Err(Error::AmbiguousSelfStub { name: target_name });
                }
            },
        }
    }
    let actions = match plan_actions(stub, dest_main, regen_inline) {
        Err(e) => {
            return Err(e);
        },
        Ok(a) => a,
    };
    let ghost acts_v = actions.deep_view();
    let mut targets: Vec<Vec<String>> = Vec::new();
    let nt = actions.len();
    let mut t: usize = 0;
    while t < nt
        invariant
            t <= nt,
            targets.deep_view().len() == t as int,
            forall|x: int| 0 <= x < t ==> targets.deep_view()[x] == target_of(acts_v[x]),
        decreases nt - t,
    {
        let ghost pre = targets.deep_view();
        targets.push(path_clone(actions[t].target()));
        proof {
            assert(actions@[t as int]@ == acts_v[t as int]);
            assert forall|x: int| 0 <= x <= t as int implies targets.deep_view()[x] == (
            if x < t as int {
                pre[x]
            } else {
                targets@[t as int].deep_view()
            }) by {
                assert(targets.deep_view()[x] == targets@[x].deep_view());
                if x < t as int {
                    assert(targets@[x] == targets@.subrange(0, t as int)[x]);
                }
            }
        }
        t += 1;
    }
    proof {
        assert(targets.deep_view() =~= acts_v.map_values(|a: ActionV| target_of(a)));
    }
    let outcome = match run(&actions, sources, dest_tree, overwrite) {
        Err(e) => {
            return Err(e);
        },
        Ok(o) => o,
    };
    let update_manifest: bool = if manifest_present {
        if update_cargo_toml == UpdateCargoToml::NoUpdate {
            false
        } else if !manifest_recognized {
            return Err(Error::ManifestKind);
        } else {
            true
        }
    } else {
        if update_cargo_toml == UpdateCargoToml::Update {
            return Err(Error::ManifestMissing);
        }
        false
    };
    Ok(
        IntegrationOutcome {
            tree: outcome.tree,
            refused: outcome.refused,
            log: outcome.log,
            targets,
            update_manifest,
            manifest_skipped: update_cargo_toml == UpdateCargoToml::NoUpdate && manifest_present,
        },
    )
}

/// A self-stub detected by name whose content matches neither freshly
/// regenerated mode is rejected as ambiguous, and nothing is written:
/// the call returns an error and no outcome.
pub proof fn lemma_ambiguous_self_stub_rejected(
    stub: ResolvedDirV,
    dest: ResolvedDirV,
    regen_import: Seq<char>,
    regen_inline: Seq<char>,
    src: Map<Seq<Seq<char>>, Seq<char>>,
    dest0: Map<Seq<Seq<char>>, Seq<char>>,
    overwrite: bool,
    policy: UpdateCargoToml,
    manifest_present: bool,
    manifest_recognized: bool,
)
    requires
        dir_wf(stub),
        dir_wf(dest),
        has_stub_suffix(main_name(stub).name),
        stub_target_name(main_name(stub)) == main_name(dest),
        map_file(src, stub_source_path(stub.root)) is Some,
        map_file(src, stub_source_path(stub.root)) != Some(regen_import),
        map_file(src, stub_source_path(stub.root)) != Some(regen_inline),
    ensures
        integrate_spec(
            stub,
            dest,
            regen_import,
            regen_inline,
            src,
            dest0,
            overwrite,
            policy,
            manifest_present,
            manifest_recognized,
        ) == Err::<IntegrationV, ErrorV>(
            ErrorV::AmbiguousSelfStub { name: stub_target_name(main_name(stub)) },
        ),
{
}

/// A mandatory manifest update with no manifest present fails the call
/// after the actions ran cleanly; the lenient policy succeeds without
/// touching the manifest.
pub proof fn lemma_manifest_policy(present: bool, recognized: bool)
    ensures
        !present ==> manifest_decision_spec(UpdateCargoToml::Update, present, recognized)
            == Err::<bool, ErrorV>(ErrorV::ManifestMissing),
        !present ==> manifest_decision_spec(UpdateCargoToml::UpdateIfExists, present, recognized)
            == Ok::<bool, ErrorV>(false),
        !present ==> manifest_decision_spec(UpdateCargoToml::NoUpdate, present, recognized)
            == Ok::<bool, ErrorV>(false),
{
}

/// Idempotence: after a successful integration that refused nothing,
/// integrating the same unchanged stub again over the resulting snapshot
/// succeeds, changes nothing, refuses nothing, and reports every target
/// as already up to date.
pub proof fn lemma_integration_idempotent(
    stub: ResolvedDirV,
    dest: ResolvedDirV,
    regen_import: Seq<char>,
    regen_inline: Seq<char>,
    src: Map<Seq<Seq<char>>, Seq<char>>,
    dest0: Map<Seq<Seq<char>>, Seq<char>>,
    overwrite: bool,
    policy: UpdateCargoToml,
    manifest_present: bool,
    manifest_recognized: bool,
)
    requires
        integrate_spec(stub, dest, regen_import, regen_inline, src, dest0, overwrite, policy,
            manifest_present, manifest_recognized) is Ok,
        (integrate_spec(stub, dest, regen_import, regen_inline, src, dest0, overwrite, policy,
            manifest_present, manifest_recognized)->Ok_0).refused == Seq::<ActionV>::empty(),
    ensures
        ({
            let o = integrate_spec(stub, dest, regen_import, regen_inline, src, dest0, overwrite,
                policy, manifest_present, manifest_recognized)->Ok_0;
            let again = integrate_spec(stub, dest, regen_import, regen_inline, src, o.tree, false,
                policy, manifest_present, manifest_recognized);
            &&& again is Ok
            &&& (again->Ok_0).tree == o.tree
            &&& (again->Ok_0).refused == Seq::<ActionV>::empty()
            &&& forall|k: int|
                0 <= k < (again->Ok_0).log.len() ==> ((again->Ok_0).log[k]).verb == "Skipping"@
        }),
{
    let o = integrate_spec(stub, dest, regen_import, regen_inline, src, dest0, overwrite, policy,
        manifest_present, manifest_recognized)->Ok_0;
    let dest_main = main_name(dest);
    let acts = plan_spec(stub.packages, stub.main, dest_main, stub.root, regen_inline)->Ok_0;
    crate::runner::lemma_rerun_all_skip(acts, src, dest0, overwrite, false);
    let o2 = run_spec(acts, src, o.tree, false)->Ok_0;
    let again = integrate_spec(stub, dest, regen_import, regen_inline, src, o.tree, false, policy,
        manifest_present, manifest_recognized);
    assert(again is Ok);
    assert((again->Ok_0).tree == o2.tree);
    assert((again->Ok_0).log.len() == acts.len());
    assert forall|k: int| 0 <= k < (again->Ok_0).log.len() implies ((again->Ok_0).log[k]).verb
        == "Skipping"@ by {
        assert((again->Ok_0).log[k] == crate::report::log_line_spec(
            acts[k],
            crate::action::ActionPlan::SkipSameContent,
        ));
    }
}

/// Every action of a package's contribution occurs in a successful plan.
proof fn lemma_plan_contains(
    pkgs: Seq<crate::resolved::PackageSourcesV>,
    i: int,
    k: int,
    main: int,
    dest_name: PackageNameV,
    dest_stub_name: PackageNameV,
    stub_root: Seq<Seq<char>>,
    inlined: Seq<char>,
    prefix: Seq<char>,
    x: ActionV,
)
    requires
        0 <= i <= k < pkgs.len(),
        crate::planner::plan_from(pkgs, i, main, dest_name, dest_stub_name, stub_root, inlined,
            prefix) is Ok,
        crate::planner::plan_package_spec(pkgs[k], k == main, dest_name, dest_stub_name, stub_root,
            inlined, prefix) matches Ok(here) && here.contains(x),
    ensures
        (crate::planner::plan_from(pkgs, i, main, dest_name, dest_stub_name, stub_root, inlined,
            prefix)->Ok_0).contains(x),
    decreases k - i,
{
    let here = crate::planner::plan_package_spec(pkgs[i], i == main, dest_name, dest_stub_name,
        stub_root, inlined, prefix)->Ok_0;
    let rest = crate::planner::plan_from(pkgs, i + 1, main, dest_name, dest_stub_name, stub_root,
        inlined, prefix)->Ok_0;
    let whole = crate::planner::plan_from(pkgs, i, main, dest_name, dest_stub_name, stub_root,
        inlined, prefix)->Ok_0;
    assert(whole == here + rest);
    if i == k {
        let idx = choose|idx: int| 0 <= idx < here.len() && here[idx] == x;
        assert(whole[idx] == x);
    } else {
        lemma_plan_contains(pkgs, i + 1, k, main, dest_name, dest_stub_name, stub_root, inlined,
            prefix, x);
        let idx = choose|idx: int| 0 <= idx < rest.len() && rest[idx] == x;
        assert(whole[here.len() + idx] == x);
    }
}

/// When the stub's graph carries the destination's self-stub package and
/// the call succeeds, the self-stub's target either ends up holding
/// exactly the inline regeneration — never a verbatim copy of the stub's
/// own bytes — or its write was refused and reported.
pub proof fn lemma_self_stub_written_inline(
    stub: ResolvedDirV,
    dest: ResolvedDirV,
    regen_import: Seq<char>,
    regen_inline: Seq<char>,
    src: Map<Seq<Seq<char>>, Seq<char>>,
    dest0: Map<Seq<Seq<char>>, Seq<char>>,
    overwrite: bool,
    policy: UpdateCargoToml,
    manifest_present: bool,
    manifest_recognized: bool,
    k: int,
)
    requires
        0 <= k < stub.packages.len(),
        stub.packages[k].name == stub_name_of(main_name(dest)),
        stub.packages[k].name != main_name(dest),
        integrate_spec(stub, dest, regen_import, regen_inline, src, dest0, overwrite, policy,
            manifest_present, manifest_recognized) is Ok,
    ensures
        ({
            let o = integrate_spec(stub, dest, regen_import, regen_inline, src, dest0, overwrite,
                policy, manifest_present, manifest_recognized)->Ok_0;
            let a = ActionV::WriteFile {
                content: regen_inline,
                target: self_stub_target(stub.packages[k].name),
            };
            o.refused.contains(a) || map_file(o.tree, self_stub_target(stub.packages[k].name))
                == Some(regen_inline)
        }),
{
    let dest_main = main_name(dest);
    let acts = plan_spec(stub.packages, stub.main, dest_main, stub.root, regen_inline)->Ok_0;
    let a = ActionV::WriteFile {
        content: regen_inline,
        target: self_stub_target(stub.packages[k].name),
    };
    crate::planner::lemma_self_stub_regenerated(stub.packages[k], k == stub.main, dest_main,
        stub.root, regen_inline, crate::planner::stub_import_prefix(dest_main));
    assert(crate::planner::plan_package_spec(stub.packages[k], k == stub.main, dest_main,
        stub_name_of(dest_main), stub.root, regen_inline, crate::planner::stub_import_prefix(
        dest_main)) matches Ok(here) && here.contains(a)) by {
        let here = seq![a];
        assert(here[0] == a);
    }
    lemma_plan_contains(stub.packages, 0, k, stub.main, dest_main, stub_name_of(dest_main),
        stub.root, regen_inline, crate::planner::stub_import_prefix(dest_main), a);
    let idx = choose|idx: int| 0 <= idx < acts.len() && acts[idx] == a;
    crate::runner::lemma_performed_or_refused(acts, src, dest0, overwrite, idx);
    assert(content_spec(a, src) == Some(regen_inline));
    assert(target_of(a) == self_stub_target(stub.packages[k].name));
}

} // verus!
