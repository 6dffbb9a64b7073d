//! Building the full action list for one integration call.
//!
//! Every package of the stub's graph contributes actions according to its
//! class; the list is complete before anything is executed, and no two
//! actions may share a target.

use vstd::prelude::*;
use vstd::string::StringExecFns;
use crate::action::{Action, ActionV, target_of, targets_distinct};
use crate::error::{Error, ErrorV};
use crate::names::{stub_suffix, PackageName, PackageNameV};
use crate::paths::{file_name, has_prefix, path_clone, path_eq, strip_prefix, strip_prefix_spec};
use crate::resolved::{classify, classify_spec, PackageClass, PackageSources, PackageSourcesV,
    ResolvedDir};

verus! {

/// The name of the stub package generated for `n`.
pub open spec fn stub_name_of(n: PackageNameV) -> PackageNameV {
    PackageNameV { namespace: n.namespace, name: n.name + stub_suffix(), version: n.version }
}

/// The import prefix of the stub package generated for `n`, as it appears
/// in WIT import statements.
pub open spec fn stub_import_prefix(n: PackageNameV) -> Seq<char> {
    n.namespace + ":"@ + (n.name + stub_suffix())
}

/// The directory name of a package under the dependency area.
pub open spec fn dep_dir(name: PackageNameV) -> Seq<char> {
    name.namespace + "_"@ + name.name
}

/// The target path of a regenerated self-stub.
pub open spec fn self_stub_target(name: PackageNameV) -> Seq<Seq<char>> {
    seq!["deps"@, dep_dir(name), "_stub.wit"@]
}

/// The target path of one copied source file of the stub-main package.
pub open spec fn main_file_target(name: PackageNameV, source: Seq<Seq<char>>) -> Seq<Seq<char>> {
    seq!["deps"@, dep_dir(name), source.last()]
}

/// The actions of the stub-main package from its `j`-th source on: one
/// verbatim copy per source file, or the first source without a file name
/// as an error.
pub open spec fn plan_main_from(
    sources: Seq<Seq<Seq<char>>>,
    j: int,
    name: PackageNameV,
) -> Result<Seq<ActionV>, ErrorV>
    decreases sources.len() - j,
{
    if j < 0 || j >= sources.len() {
        Ok(Seq::empty())
    } else if sources[j].len() == 0 {
        Err(ErrorV::MissingFileName { source: sources[j] })
    } else {
        match plan_main_from(sources, j + 1, name) {
            Err(e) => Err(e),
            Ok(rest) => Ok(
                seq![
                    ActionV::CopyFile {
                        source: sources[j],
                        target: main_file_target(name, sources[j]),
                    },
                ] + rest,
            ),
        }
    }
}

/// The actions of a transitive dependency from its `j`-th source on: one
/// transformed copy per source file, re-rooted under the destination, or
/// the first source that does not lie under the stub root as an error.
pub open spec fn plan_other_from(
    sources: Seq<Seq<Seq<char>>>,
    j: int,
    stub_root: Seq<Seq<char>>,
    prefix: Seq<char>,
) -> Result<Seq<ActionV>, ErrorV>
    decreases sources.len() - j,
{
    if j < 0 || j >= sources.len() {
        Ok(Seq::empty())
    } else if !has_prefix(sources[j], stub_root) {
        Err(ErrorV::PathStrip { source: sources[j] })
    } else {
        match plan_other_from(sources, j + 1, stub_root, prefix) {
            Err(e) => Err(e),
            Ok(rest) => Ok(
                seq![
                    ActionV::CopyFileTransformed {
                        source: sources[j],
                        target: strip_prefix_spec(sources[j], stub_root),
                        remove_prefix: prefix,
                    },
                ] + rest,
            ),
        }
    }
}

/// The actions one package contributes, by its class: the destination
/// package contributes nothing, the self-stub one inline-regenerated
/// write, the stub-main verbatim copies, any other package transformed
/// copies.
pub open spec fn plan_package_spec(
    pkg: PackageSourcesV,
    is_main: bool,
    dest_name: PackageNameV,
    dest_stub_name: PackageNameV,
    stub_root: Seq<Seq<char>>,
    inlined: Seq<char>,
    prefix: Seq<char>,
) -> Result<Seq<ActionV>, ErrorV> {
    match classify_spec(pkg.name, is_main, dest_name, dest_stub_name) {
        PackageClass::Destination => Ok(Seq::empty()),
        PackageClass::SelfStub => Ok(
            seq![ActionV::WriteFile { content: inlined, target: self_stub_target(pkg.name) }],
        ),
        PackageClass::StubMain => plan_main_from(pkg.sources, 0, pkg.name),
        PackageClass::Other => plan_other_from(pkg.sources, 0, stub_root, prefix),
    }
}

/// The concatenated actions of the packages from index `i` on, or the
/// first package's error.
pub open spec fn plan_from(
    pkgs: Seq<PackageSourcesV>,
    i: int,
    main: int,
    dest_name: PackageNameV,
    dest_stub_name: PackageNameV,
    stub_root: Seq<Seq<char>>,
    inlined: Seq<char>,
    prefix: Seq<char>,
) -> Result<Seq<ActionV>, ErrorV>
    decreases pkgs.len() - i,
{
    if i < 0 || i >= pkgs.len() {
        Ok(Seq::empty())
    } else {
        match plan_package_spec(
            pkgs[i],
            i == main,
            dest_name,
            dest_stub_name,
            stub_root,
            inlined,
            prefix,
        ) {
            Err(e) => Err(e),
            Ok(acts) => match plan_from(
                pkgs,
                i + 1,
                main,
                dest_name,
                dest_stub_name,
                stub_root,
                inlined,
                prefix,
            ) {
                Err(e) => Err(e),
                Ok(rest) => Ok(acts + rest),
            },
        }
    }
}

/// The whole plan of an integration call over the stub's packages.
pub open spec fn plan_spec(
    pkgs: Seq<PackageSourcesV>,
    main: int,
    dest_name: PackageNameV,
    stub_root: Seq<Seq<char>>,
    inlined: Seq<char>,
) -> Result<Seq<ActionV>, ErrorV> {
    plan_from(
        pkgs,
        0,
        main,
        dest_name,
        stub_name_of(dest_name),
        stub_root,
        inlined,
        stub_import_prefix(dest_name),
    )
}

/// A package whose name equals the destination's main package name
/// contributes no action at all: the cyclic self dependency is always
/// elided, whether or not that package is also the stub's main package.
pub proof fn lemma_destination_never_copied(
    pkg: PackageSourcesV,
    is_main: bool,
    dest_name: PackageNameV,
    stub_root: Seq<Seq<char>>,
    inlined: Seq<char>,
    prefix: Seq<char>,
)
    requires
        pkg.name == dest_name,
    ensures
        plan_package_spec(
            pkg,
            is_main,
            dest_name,
            stub_name_of(dest_name),
            stub_root,
            inlined,
            prefix,
        ) == Ok::<Seq<ActionV>, ErrorV>(Seq::empty()),
{
}

/// A package named as the destination's self-stub contributes exactly one
/// action: a literal write of the inline regeneration, never a copy of
/// the stub's own bytes.
pub proof fn lemma_self_stub_regenerated(
    pkg: PackageSourcesV,
    is_main: bool,
    dest_name: PackageNameV,
    stub_root: Seq<Seq<char>>,
    inlined: Seq<char>,
    prefix: Seq<char>,
)
    requires
        pkg.name == stub_name_of(dest_name),
        pkg.name != dest_name,
    ensures
        plan_package_spec(
            pkg,
            is_main,
            dest_name,
            stub_name_of(dest_name),
            stub_root,
            inlined,
            prefix,
        ) == Ok::<Seq<ActionV>, ErrorV>(
            seq![ActionV::WriteFile { content: inlined, target: self_stub_target(pkg.name) }],
        ),
{
}

/// Appends the verbatim-copy actions of the stub-main package.
#[verifier::loop_isolation(false)]
fn plan_main_package(pkg: &PackageSources, acts: &mut Vec<Action>) -> (r: Result<(), Error>)
    ensures
        match r {
            Ok(_) => plan_main_from(pkg@.sources, 0, pkg@.name) matches Ok(rest)
                && final(acts).deep_view() == old(acts).deep_view() + rest,
            Err(e) => plan_main_from(pkg@.sources, 0, pkg@.name) == Err::<Seq<ActionV>, ErrorV>(
                e@,
            ),
        },
{
    let ghost srcs = pkg@.sources;
    let ghost base = acts.deep_view();
    let m = pkg.sources.len();
    let mut j: usize = 0;
    proof {
        assert(acts.deep_view().skip(base.len() as int) =~= Seq::<ActionV>::empty());
        match plan_main_from(srcs, 0, pkg@.name) {
            Ok(rest) => {
                assert(Seq::<ActionV>::empty() + rest =~= rest);
            },
            Err(_) => {},
        }
    }
    while j < m
        invariant
            j <= m,
            acts.deep_view().len() >= base.len(),
            acts.deep_view().subrange(0, base.len() as int) == base,
            match plan_main_from(srcs, j as int, pkg@.name) {
                Ok(rest) => plan_main_from(srcs, 0, pkg@.name) == Ok::<Seq<ActionV>, ErrorV>(
                    acts.deep_view().skip(base.len() as int) + rest,
                ),
                Err(e) => plan_main_from(srcs, 0, pkg@.name) == Err::<Seq<ActionV>, ErrorV>(e),
            },
        decreases m - j,
    {
        let src = &pkg.sources[j];
        proof {
            assert(srcs[j as int] == pkg.sources@[j as int].deep_view());
        }
        match file_name(src) {
            None => {
                return Err(Error::MissingFileName { source: path_clone(src) });
            },
            Some(f) => {
                let dir = pkg.name.dir_name();
                let fname = f.clone();
                let mut t: Vec<String> = Vec::new();
                t.push(String::from_str("deps"));
                t.push(dir);
                t.push(fname);
                proof {
                    assert(t.deep_view()[0] == t@[0]@);
                    assert(t.deep_view()[1] == t@[1]@);
                    assert(t.deep_view()[2] == t@[2]@);
                    assert(t.deep_view() =~= main_file_target(pkg@.name, srcs[j as int]));
                }
                let ghost pre = acts.deep_view();
                acts.push(Action::CopyFile { source: path_clone(src), target: t });
                proof {
                    lemma_deep_view_actions_push(&acts, pre);
                    assert(acts.deep_view().subrange(0, base.len() as int) =~= base);
                    lemma_main_step(srcs, j as int, pkg@.name, pre.skip(base.len() as int));
                    assert(acts.deep_view().skip(base.len() as int) =~= pre.skip(
                        base.len() as int,
                    ) + seq![acts.deep_view().last()]);
                }
            },
        }
        j += 1;
    }
    proof {
        match plan_main_from(srcs, m as int, pkg@.name) {
            Ok(rest) => {
                assert(acts.deep_view().skip(base.len() as int) + rest =~= acts.deep_view().skip(
                    base.len() as int,
                ));
                assert(base + acts.deep_view().skip(base.len() as int) =~= acts.deep_view());
            },
            Err(_) => {},
        }
    }
    Ok(())
}

/// Appends the transformed-copy actions of a transitive dependency.
#[verifier::loop_isolation(false)]
fn plan_other_package(
    pkg: &PackageSources,
    stub_root: &Vec<String>,
    prefix: &String,
    acts: &mut Vec<Action>,
) -> (r: Result<(), Error>)
    ensures
        match r {
            Ok(_) => plan_other_from(pkg@.sources, 0, stub_root.deep_view(), prefix@) matches Ok(
                rest,
            ) && final(acts).deep_view() == old(acts).deep_view() + rest,
            Err(e) => plan_other_from(pkg@.sources, 0, stub_root.deep_view(), prefix@) == Err::<
                Seq<ActionV>,
                ErrorV,
            >(e@),
        },
{
    let ghost srcs = pkg@.sources;
    let ghost root = stub_root.deep_view();
    let ghost base = acts.deep_view();
    let m = pkg.sources.len();
    let mut j: usize = 0;
    proof {
        assert(acts.deep_view().skip(base.len() as int) =~= Seq::<ActionV>::empty());
        match plan_other_from(srcs, 0, root, prefix@) {
            Ok(rest) => {
                assert(Seq::<ActionV>::empty() + rest =~= rest);
            },
            Err(_) => {},
        }
    }
    while j < m
        invariant
            j <= m,
            acts.deep_view().len() >= base.len(),
            acts.deep_view().subrange(0, base.len() as int) == base,
            match plan_other_from(srcs, j as int, root, prefix@) {
                Ok(rest) => plan_other_from(srcs, 0, root, prefix@) == Ok::<Seq<ActionV>, ErrorV>(
                    acts.deep_view().skip(base.len() as int) + rest,
                ),
                Err(e) => plan_other_from(srcs, 0, root, prefix@) == Err::<Seq<ActionV>, ErrorV>(
                    e,
                ),
            },
        decreases m - j,
    {
        let src = &pkg.sources[j];
        proof {
            assert(srcs[j as int] == pkg.sources@[j as int].deep_view());
        }
        match strip_prefix(src, stub_root) {
            None => {
                return Err(Error::PathStrip { source: path_clone(src) });
            },
            Some(rel) => {
                let ghost pre = acts.deep_view();
                acts.push(
                    Action::CopyFileTransformed {
                        source: path_clone(src),
                        target: rel,
                        remove_prefix: prefix.clone(),
                    },
                );
                proof {
                    lemma_deep_view_actions_push(&acts, pre);
                    assert(acts.deep_view().subrange(0, base.len() as int) =~= base);
                    lemma_other_step(srcs, j as int, root, prefix@, pre.skip(base.len() as int));
                    assert(acts.deep_view().skip(base.len() as int) =~= pre.skip(
                        base.len() as int,
                    ) + seq![acts.deep_view().last()]);
                }
            },
        }
        j += 1;
    }
    proof {
        match plan_other_from(srcs, m as int, root, prefix@) {
            Ok(rest) => {
                assert(acts.deep_view().skip(base.len() as int) + rest =~= acts.deep_view().skip(
                    base.len() as int,
                ));
                assert(base + acts.deep_view().skip(base.len() as int) =~= acts.deep_view());
            },
            Err(_) => {},
        }
    }
    Ok(())
}

/// Builds the full action list: every package of the stub's graph is
/// classified against the destination's main package and contributes its
/// actions; a plan whose targets collide is refused.
#[verifier::loop_isolation(false)]
pub fn plan_actions(stub: &ResolvedDir, dest_main: &PackageName, regen_inline: &String) -> (r:
    Result<Vec<Action>, Error>)
    ensures
        match r {
            Ok(v) => {
                &&& plan_spec(stub@.packages, stub@.main, dest_main@, stub@.root, regen_inline@)
                    == Ok::<Seq<ActionV>, ErrorV>(v.deep_view())
                &&& targets_distinct(v.deep_view())
            },
            Err(e) => {
                ||| plan_spec(stub@.packages, stub@.main, dest_main@, stub@.root, regen_inline@)
                    == Err::<Seq<ActionV>, ErrorV>(e@)
                ||| {
                    &&& e@ == ErrorV::DuplicateTarget
                    &&& plan_spec(
                        stub@.packages,
                        stub@.main,
                        dest_main@,
                        stub@.root,
                        regen_inline@,
                    ) matches Ok(acts) && !targets_distinct(acts)
                }
            },
        },
{
    let ghost pkgs = stub@.packages;
    let ghost dn = dest_main@;
    let ghost dsn = stub_name_of(dest_main@);
    let ghost root = stub@.root;
    let ghost inl = regen_inline@;
    let ghost pfx = stub_import_prefix(dest_main@);

    let dest_stub = dest_main.stub_name();
    let prefix = dest_stub.import_prefix();
    proof {
        assert(dest_stub@ == dsn);
        assert(prefix@ == pfx);
    }

    let mut acts: Vec<Action> = Vec::new();
    let n = stub.packages.len();
    let mut i: usize = 0;
    proof {
        match plan_from(pkgs, 0, stub@.main, dn, dsn, root, inl, pfx) {
            Ok(rest) => {
                assert(Seq::<ActionV>::empty() + rest =~= rest);
            },
            Err(_) => {},
        }
    }
    while i < n
        invariant
            i <= n,
            match plan_from(pkgs, i as int, stub@.main, dn, dsn, root, inl, pfx) {
                Ok(rest) => plan_from(pkgs, 0, stub@.main, dn, dsn, root, inl, pfx) == Ok::<
                    Seq<ActionV>,
                    ErrorV,
                >(acts.deep_view() + rest),
                Err(e) => plan_from(pkgs, 0, stub@.main, dn, dsn, root, inl, pfx) == Err::<
                    Seq<ActionV>,
                    ErrorV,
                >(e),
            },
        decreases n - i,
    {
        let pkg = &stub.packages[i];
        proof {
            assert(pkgs[i as int] == stub.packages@[i as int]@);
        }
        let is_main = i == stub.main;
        let class = classify(&pkg.name, is_main, dest_main, &dest_stub);
        let ghost before = acts.deep_view();
        match class {
            PackageClass::Destination => {
                proof {
                    lemma_plan_step(pkgs, i as int, stub@.main, dn, dsn, root, inl, pfx, before,
                        Seq::empty());
                    assert(before + Seq::<ActionV>::empty() =~= before);
                }
            },
            PackageClass::SelfStub => {
                let dir = pkg.name.dir_name();
                let mut t: Vec<String> = Vec::new();
                t.push(String::from_str("deps"));
                t.push(dir);
                t.push(String::from_str("_stub.wit"));
                proof {
                    assert(t.deep_view()[0] == t@[0]@);
                    assert(t.deep_view()[1] == t@[1]@);
                    assert(t.deep_view()[2] == t@[2]@);
                    assert(t.deep_view() =~= self_stub_target(pkgs[i as int].name));
                }
                let ghost pre = acts.deep_view();
                acts.push(Action::WriteFile { content: regen_inline.clone(), target: t });
                proof {
                    lemma_deep_view_actions_push(&acts, pre);
                    assert(acts.deep_view() =~= before + seq![
                        ActionV::WriteFile {
                            content: inl,
                            target: self_stub_target(pkgs[i as int].name),
                        },
                    ]);
                    lemma_plan_step(pkgs, i as int, stub@.main, dn, dsn, root, inl, pfx, before,
                        seq![
                            ActionV::WriteFile {
                                content: inl,
                                target: self_stub_target(pkgs[i as int].name),
                            },
                        ]);
                }
            },
            PackageClass::StubMain => {
                match plan_main_package(pkg, &mut acts) {
                    Ok(_) => {
                        proof {
                            let rest = plan_main_from(pkgs[i as int].sources, 0,
                                pkgs[i as int].name)->Ok_0;
                            lemma_plan_step(pkgs, i as int, stub@.main, dn, dsn, root, inl, pfx,
                                before, rest);
                        }
                    },
                    Err(e) => {
                        return Err(e);
                    },
                }
            },
            PackageClass::Other => {
                match plan_other_package(pkg, &stub.root, &prefix, &mut acts) {
                    Ok(_) => {
                        proof {
                            assert(stub.root.deep_view() == root);
                            let rest = plan_other_from(pkgs[i as int].sources, 0, root,
                                pfx)->Ok_0;
                            lemma_plan_step(pkgs, i as int, stub@.main, dn, dsn, root, inl, pfx,
                                before, rest);
                        }
                    },
                    Err(e) => {
                        return Err(e);
                    },
                }
            },
        }
        i += 1;
    }
    proof {
        assert(acts.deep_view() + Seq::<ActionV>::empty() =~= acts.deep_view());
    }
    let k = acts.len();
    let mut a: usize = 0;
    while a < k
        invariant
            a <= k,
            forall|x: int, y: int|
                0 <= x < y < k && x < a ==> target_of(acts.deep_view()[x]) != target_of(
                    acts.deep_view()[y],
                ),
        decreases k - a,
    {
        let mut b: usize = a + 1;
        while b < k
            invariant
                a < b <= k,
                forall|y: int|
                    a < y < b ==> target_of(acts.deep_view()[a as int]) != target_of(
                        acts.deep_view()[y],
                    ),
            decreases k - b,
        {
            let dup = path_eq(acts[a].target(), acts[b].target());
            proof {
                assert(acts.deep_view()[a as int] == acts@[a as int]@);
                assert(acts.deep_view()[b as int] == acts@[b as int]@);
            }
            if dup {
                return Err(Error::DuplicateTarget);
            }
            b += 1;
        }
        a += 1;
    }
    Ok(acts)
}

/// Pushing one action extends the deep view by its image.
proof fn lemma_deep_view_actions_push(acts: &Vec<Action>, pre: Seq<ActionV>)
    requires
        acts@.len() > 0,
        pre.len() == acts@.len() - 1,
        forall|x: int| 0 <= x < pre.len() ==> pre[x] == #[trigger] acts@[x]@,
    ensures
        acts.deep_view() == pre + seq![acts@[acts@.len() - 1]@],
        acts.deep_view().last() == acts@[acts@.len() - 1]@,
{
    assert(acts.deep_view() =~= pre + seq![acts@[acts@.len() - 1]@]);
}

/// Unfolds one step of `plan_from` when package `i` contributed `here`.
proof fn lemma_plan_step(
    pkgs: Seq<PackageSourcesV>,
    i: int,
    main: int,
    dest_name: PackageNameV,
    dest_stub_name: PackageNameV,
    stub_root: Seq<Seq<char>>,
    inlined: Seq<char>,
    prefix: Seq<char>,
    before: Seq<ActionV>,
    here: Seq<ActionV>,
)
    requires
        0 <= i < pkgs.len(),
        plan_package_spec(pkgs[i], i == main, dest_name, dest_stub_name, stub_root, inlined, prefix)
            == Ok::<Seq<ActionV>, ErrorV>(here),
        match plan_from(pkgs, i, main, dest_name, dest_stub_name, stub_root, inlined, prefix) {
            Ok(rest) => plan_from(pkgs, 0, main, dest_name, dest_stub_name, stub_root, inlined,
                prefix,
            ) == Ok::<Seq<ActionV>, ErrorV>(before + rest),
            Err(e) => plan_from(pkgs, 0, main, dest_name, dest_stub_name, stub_root, inlined,
                prefix,
            ) == Err::<Seq<ActionV>, ErrorV>(e),
        },
    ensures
        match plan_from(pkgs, i + 1, main, dest_name, dest_stub_name, stub_root, inlined, prefix) {
            Ok(rest) => plan_from(pkgs, 0, main, dest_name, dest_stub_name, stub_root, inlined,
                prefix,
            ) == Ok::<Seq<ActionV>, ErrorV>((before + here) + rest),
            Err(e) => plan_from(pkgs, 0, main, dest_name, dest_stub_name, stub_root, inlined,
                prefix,
            ) == Err::<Seq<ActionV>, ErrorV>(e),
        },
{
    match plan_from(pkgs, i + 1, main, dest_name, dest_stub_name, stub_root, inlined, prefix) {
        Ok(rest) => {
            assert(plan_from(pkgs, i, main, dest_name, dest_stub_name, stub_root, inlined, prefix)
                == Ok::<Seq<ActionV>, ErrorV>(here + rest));
            assert(before + (here + rest) =~= (before + here) + rest);
        },
        Err(_) => {},
    }
}

/// Unfolds one step of `plan_main_from` when source `j` has a file name.
proof fn lemma_main_step(sources: Seq<Seq<Seq<char>>>, j: int, name: PackageNameV, got: Seq<ActionV>)
    requires
        0 <= j < sources.len(),
        sources[j].len() > 0,
        match plan_main_from(sources, j, name) {
            Ok(rest) => plan_main_from(sources, 0, name) == Ok::<Seq<ActionV>, ErrorV>(got + rest),
            Err(e) => plan_main_from(sources, 0, name) == Err::<Seq<ActionV>, ErrorV>(e),
        },
    ensures
        match plan_main_from(sources, j + 1, name) {
            Ok(rest) => plan_main_from(sources, 0, name) == Ok::<Seq<ActionV>, ErrorV>(
                (got + seq![
                    ActionV::CopyFile {
                        source: sources[j],
                        target: main_file_target(name, sources[j]),
                    },
                ]) + rest,
            ),
            Err(e) => plan_main_from(sources, 0, name) == Err::<Seq<ActionV>, ErrorV>(e),
        },
{
    let one = seq![
        ActionV::CopyFile { source: sources[j], target: main_file_target(name, sources[j]) },
    ];
    match plan_main_from(sources, j + 1, name) {
        Ok(rest) => {
            assert(plan_main_from(sources, j, name) == Ok::<Seq<ActionV>, ErrorV>(one + rest));
            assert(got + (one + rest) =~= (got + one) + rest);
        },
        Err(_) => {},
    }
}

/// Unfolds one step of `plan_other_from` when source `j` lies under the
/// stub root.
proof fn lemma_other_step(
    sources: Seq<Seq<Seq<char>>>,
    j: int,
    stub_root: Seq<Seq<char>>,
    prefix: Seq<char>,
    got: Seq<ActionV>,
)
    requires
        0 <= j < sources.len(),
        has_prefix(sources[j], stub_root),
        match plan_other_from(sources, j, stub_root, prefix) {
            Ok(rest) => plan_other_from(sources, 0, stub_root, prefix) == Ok::<
                Seq<ActionV>,
                ErrorV,
            >(got + rest),
            Err(e) => plan_other_from(sources, 0, stub_root, prefix) == Err::<
                Seq<ActionV>,
                ErrorV,
            >(e),
        },
    ensures
        match plan_other_from(sources, j + 1, stub_root, prefix) {
            Ok(rest) => plan_other_from(sources, 0, stub_root, prefix) == Ok::<
                Seq<ActionV>,
                ErrorV,
            >(
                (got + seq![
                    ActionV::CopyFileTransformed {
                        source: sources[j],
                        target: strip_prefix_spec(sources[j], stub_root),
                        remove_prefix: prefix,
                    },
                ]) + rest,
            ),
            Err(e) => plan_other_from(sources, 0, stub_root, prefix) == Err::<
                Seq<ActionV>,
                ErrorV,
            >(e),
        },
{
    let one = seq![
        ActionV::CopyFileTransformed {
            source: sources[j],
            target: strip_prefix_spec(sources[j], stub_root),
            remove_prefix: prefix,
        },
    ];
    match plan_other_from(sources, j + 1, stub_root, prefix) {
        Ok(rest) => {
            assert(plan_other_from(sources, j, stub_root, prefix) == Ok::<Seq<ActionV>, ErrorV>(
                one + rest,
            ));
            assert(got + (one + rest) =~= (got + one) + rest);
        },
        Err(_) => {},
    }
}

} // verus!
