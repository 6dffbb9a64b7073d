//! Structural WIT package names and the stub naming convention.

use vstd::prelude::*;
use vstd::string::StringExecFns;

verus! {

/// A WIT package name: namespace, simple name, and an optional version.
/// Equality is structural; two resolved trees can hold equal names that
/// refer to different physical packages.
#[derive(Debug)]
pub struct PackageName {
    pub namespace: String,
    pub name: String,
    pub version: Option<String>,
}

/// Mathematical image of a [`PackageName`].
#[verifier::ext_equal]
pub struct PackageNameV {
    pub namespace: Seq<char>,
    pub name: Seq<char>,
    pub version: Option<Seq<char>>,
}

impl View for PackageName {
    type V = PackageNameV;

    open spec fn view(&self) -> PackageNameV {
        PackageNameV {
            namespace: self.namespace@,
            name: self.name@,
            version: self.version.deep_view(),
        }
    }
}

/// The suffix that turns a package's simple name into its stub's name.
pub open spec fn stub_suffix() -> Seq<char> {
    "-stub"@
}

/// Whether `name` ends with the stub suffix.
pub open spec fn has_stub_suffix(name: Seq<char>) -> bool {
    name.len() >= stub_suffix().len() && name.subrange(
        name.len() - stub_suffix().len(),
        name.len() as int,
    ) == stub_suffix()
}

/// The simple name with the stub suffix removed; meaningful only when
/// `has_stub_suffix(name)` holds.
pub open spec fn strip_stub_suffix_spec(name: Seq<char>) -> Seq<char> {
    name.subrange(0, name.len() - stub_suffix().len())
}

impl PackageName {
    /// Structural copy of the name.
    pub fn duplicate(&self) -> (r: PackageName)
        ensures
            r@ == self@,
    {
        PackageName {
            namespace: self.namespace.clone(),
            name: self.name.clone(),
            version: match &self.version {
                Some(v) => Some(v.clone()),
                None => None,
            },
        }
    }

    /// Structural equality of two names.
    pub fn same_as(&self, other: &PackageName) -> (r: bool)
        ensures
            r == (self@ == other@),
    {
        let ns_eq = self.namespace == other.namespace;
        let n_eq = self.name == other.name;
        let v_eq = match (&self.version, &other.version) {
            (Some(a), Some(b)) => *a == *b,
            (None, None) => true,
            _ => false,
        };
        ns_eq && n_eq && v_eq
    }

    /// The name of the stub package generated for this package: the same
    /// namespace and version, with the stub suffix appended to the name.
    pub fn stub_name(&self) -> (r: PackageName)
        ensures
            r@.namespace == self@.namespace,
            r@.version == self@.version,
            r@.name == self@.name + stub_suffix(),
    {
        let mut n = self.name.clone();
        n.append("-stub");
        PackageName {
            namespace: self.namespace.clone(),
            name: n,
            version: match &self.version {
                Some(v) => Some(v.clone()),
                None => None,
            },
        }
    }

    /// The package a stub was generated for, recovered by stripping the
    /// stub suffix from the simple name; `None` when the name does not
    /// follow the stub naming convention.
    pub fn strip_stub_suffix(&self) -> (r: Option<PackageName>)
        ensures
            match r {
                Some(p) => {
                    &&& has_stub_suffix(self@.name)
                    &&& p@.namespace == self@.namespace
                    &&& p@.version == self@.version
                    &&& p@.name == strip_stub_suffix_spec(self@.name)
                },
                None => !has_stub_suffix(self@.name),
            },
    {
        let suffix = "-stub";
        let m = suffix.unicode_len();
        let n = self.name.as_str().unicode_len();
        if n >= m {
            let tail = self.name.as_str().substring_char(n - m, n);
            if tail.to_owned() == suffix.to_owned() {
                let head = self.name.as_str().substring_char(0, n - m);
                Some(PackageName {
                    namespace: self.namespace.clone(),
                    name: head.to_owned(),
                    version: match &self.version {
                        Some(v) => Some(v.clone()),
                        None => None,
                    },
                })
            } else {
                None
            }
        } else {
            None
        }
    }

    /// The directory name used for this package under the destination's
    /// dependency area: `<namespace>_<name>`.
    pub fn dir_name(&self) -> (r: String)
        ensures
            r@ == self@.namespace + "_"@ + self@.name,
    {
        let mut s = self.namespace.clone();
        s.append("_");
        s.append(self.name.as_str());
        s
    }

    /// The display form `<namespace>:<name>` or `<namespace>:<name>@<version>`.
    pub fn display(&self) -> (r: String)
        ensures
            r@ == display_spec(self@),
    {
        let mut s = self.namespace.clone();
        s.append(":");
        s.append(self.name.as_str());
        match &self.version {
            Some(v) => {
                s.append("@");
                s.append(v.as_str());
            },
            None => {},
        }
        s
    }

    /// The import prefix of this package as it appears in WIT import
    /// statements: `<namespace>:<name>` (versions never appear there).
    pub fn import_prefix(&self) -> (r: String)
        ensures
            r@ == self@.namespace + ":"@ + self@.name,
    {
        let mut s = self.namespace.clone();
        s.append(":");
        s.append(self.name.as_str());
        s
    }
}

/// Display form of a package name.
pub open spec fn display_spec(n: PackageNameV) -> Seq<char> {
    match n.version {
        Some(v) => n.namespace + ":"@ + n.name + "@"@ + v,
        None => n.namespace + ":"@ + n.name,
    }
}

} // verus!
