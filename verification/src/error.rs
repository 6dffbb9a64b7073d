//! The error kinds of an integration call.

use vstd::prelude::*;
use crate::names::{PackageName, PackageNameV};

verus! {

/// A fatal failure of an integration call. Refused overwrites are not an
/// error: they are collected and returned beside the outcome.
#[derive(Debug)]
pub enum Error {
    /// A resolved directory snapshot is malformed: its main package index
    /// is out of range or a package name occurs twice.
    Resolution,
    /// The stub's main package name does not end in the stub suffix.
    UnexpectedStubName { name: PackageName },
    /// The stub's name points at the destination but its content matches
    /// neither regeneration mode: two unrelated packages share a name.
    AmbiguousSelfStub { name: PackageName },
    /// A package source path has no file-name component.
    MissingFileName { source: Vec<String> },
    /// A package source path does not lie under the stub root.
    PathStrip { source: Vec<String> },
    /// Two planned actions share a target path.
    DuplicateTarget,
    /// A file content needed by the plan is absent from the snapshot.
    UnreadableSource { source: Vec<String> },
    /// A manifest update was mandatory but no manifest exists.
    ManifestMissing,
    /// The manifest exists but is not a recognized project descriptor.
    ManifestKind,
}

/// Mathematical image of an [`Error`].
#[verifier::ext_equal]
pub enum ErrorV {
    Resolution,
    UnexpectedStubName { name: PackageNameV },
    AmbiguousSelfStub { name: PackageNameV },
    MissingFileName { source: Seq<Seq<char>> },
    PathStrip { source: Seq<Seq<char>> },
    DuplicateTarget,
    UnreadableSource { source: Seq<Seq<char>> },
    ManifestMissing,
    ManifestKind,
}

impl View for Error {
    type V = ErrorV;

    open spec fn view(&self) -> ErrorV {
        match self {
            Error::Resolution => ErrorV::Resolution,
            Error::UnexpectedStubName { name } => ErrorV::UnexpectedStubName { name: name@ },
            Error::AmbiguousSelfStub { name } => ErrorV::AmbiguousSelfStub { name: name@ },
            Error::MissingFileName { source } => ErrorV::MissingFileName {
                source: source.deep_view(),
            },
            Error::PathStrip { source } => ErrorV::PathStrip { source: source.deep_view() },
            Error::DuplicateTarget => ErrorV::DuplicateTarget,
            Error::UnreadableSource { source } => ErrorV::UnreadableSource {
                source: source.deep_view(),
            },
            Error::ManifestMissing => ErrorV::ManifestMissing,
            Error::ManifestKind => ErrorV::ManifestKind,
        }
    }
}

} // verus!
