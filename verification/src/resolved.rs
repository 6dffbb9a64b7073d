//! Snapshots of a resolved WIT directory and package classification.

use vstd::prelude::*;
use crate::names::{PackageName, PackageNameV};

verus! {

/// One package of a resolved directory: its name and the ordered list of
/// its source file paths, as the resolver produced them.
pub struct PackageSources {
    pub name: PackageName,
    pub sources: Vec<Vec<String>>,
}

/// Mathematical image of a [`PackageSources`].
#[verifier::ext_equal]
pub struct PackageSourcesV {
    pub name: PackageNameV,
    pub sources: Seq<Seq<Seq<char>>>,
}

impl View for PackageSources {
    type V = PackageSourcesV;

    open spec fn view(&self) -> PackageSourcesV {
        PackageSourcesV { name: self.name@, sources: self.sources.deep_view() }
    }
}

impl DeepView for PackageSources {
    type V = PackageSourcesV;

    open spec fn deep_view(&self) -> PackageSourcesV {
        self.view()
    }
}

/// A resolved directory: its root path, its packages, and which package
/// is the main one. Constructed once per integration call by the caller
/// from the external resolver's graph; immutable thereafter.
pub struct ResolvedDir {
    pub root: Vec<String>,
    pub packages: Vec<PackageSources>,
    pub main: usize,
}

/// Mathematical image of a [`ResolvedDir`].
#[verifier::ext_equal]
pub struct ResolvedDirV {
    pub root: Seq<Seq<char>>,
    pub packages: Seq<PackageSourcesV>,
    pub main: int,
}

impl View for ResolvedDir {
    type V = ResolvedDirV;

    open spec fn view(&self) -> ResolvedDirV {
        ResolvedDirV {
            root: self.root.deep_view(),
            packages: self.packages.deep_view(),
            main: self.main as int,
        }
    }
}

/// A well-formed snapshot: the main index is in range and no package name
/// occurs twice.
pub open spec fn dir_wf(d: ResolvedDirV) -> bool {
    &&& 0 <= d.main < d.packages.len()
    &&& forall|i: int, j: int|
        0 <= i < j < d.packages.len() ==> d.packages[i].name != d.packages[j].name
}

/// The name of the main package.
pub open spec fn main_name(d: ResolvedDirV) -> PackageNameV {
    d.packages[d.main].name
}

impl ResolvedDir {
    /// Checks well-formedness: the resolver must have designated a main
    /// package in range, and package names must be unique.
    pub fn check_wf(&self) -> (r: bool)
        ensures
            r == dir_wf(self@),
    {
        let n = self.packages.len();
        if self.main >= n {
            return false;
        }
        let mut i: usize = 0;
        while i < n
            invariant
                n == self.packages.len(),
                i <= n,
                self.main < n,
                forall|a: int, b: int|
                    0 <= a < b < n && a < i ==> self@.packages[a].name != self@.packages[b].name,
            decreases n - i,
        {
            let mut j: usize = i + 1;
            while j < n
                invariant
                    n == self.packages.len(),
                    i < j <= n,
                    forall|b: int| i < b < j ==> self@.packages[i as int].name
                        != self@.packages[b].name,
                decreases n - j,
            {
                if self.packages[i].name.same_as(&self.packages[j].name) {
                    proof {
                        assert(self@.packages[i as int].name == self.packages@[i as int].name@);
                        assert(self@.packages[j as int].name == self.packages@[j as int].name@);
                    }
                    return false;
                }
                proof {
                    assert(self@.packages[i as int].name == self.packages@[i as int].name@);
                    assert(self@.packages[j as int].name == self.packages@[j as int].name@);
                }
                j += 1;
            }
            i += 1;
        }
        true
    }
}

/// How a package of the stub's graph relates to the destination. Exactly
/// one class applies, decided in this order.
#[derive(Clone, Copy, PartialEq, Eq, Structural, Debug)]
pub enum PackageClass {
    /// The destination's own package: a cyclic self dependency, elided.
    Destination,
    /// The destination's self-stub: rewritten by inline regeneration.
    SelfStub,
    /// The stub package being integrated: copied verbatim.
    StubMain,
    /// A transitive dependency: copied with import rewriting.
    Other,
}

/// Pure classification of one package by names alone.
pub open spec fn classify_spec(
    name: PackageNameV,
    is_main: bool,
    dest_name: PackageNameV,
    dest_stub_name: PackageNameV,
) -> PackageClass {
    if name == dest_name {
        PackageClass::Destination
    } else if name == dest_stub_name {
        PackageClass::SelfStub
    } else if is_main {
        PackageClass::StubMain
    } else {
        PackageClass::Other
    }
}

/// Classifies one package of the stub's graph.
pub fn classify(
    name: &PackageName,
    is_main: bool,
    dest_name: &PackageName,
    dest_stub_name: &PackageName,
) -> (c: PackageClass)
    ensures
        c == classify_spec(name@, is_main, dest_name@, dest_stub_name@),
{
    if name.same_as(dest_name) {
        PackageClass::Destination
    } else if name.same_as(dest_stub_name) {
        PackageClass::SelfStub
    } else if is_main {
        PackageClass::StubMain
    } else {
        PackageClass::Other
    }
}

} // verus!
