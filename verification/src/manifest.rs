//! Manifest model for installed and source-distributed cista packages.
//!
//! The first schema is intentionally narrow. It models the current
//! package-management experiment rather than trying to accept every future
//! registry shape: one Faber-facing `[source]`, one selected `[target]`, and
//! optional structured `[[bindings]]` rows for manifest-bound target symbols.
//! Meta packages (`role = "meta"`) carry only a `[source]` identity and
//! `[[dependencies]]` rows. Paths inside a manifest are held as text.

use vstd::prelude::*;
use crate::paths::path_join;

verus! {

broadcast use vstd::string::group_string_axioms;

/// File name of a package manifest.
pub const MANIFEST_FILE: &'static str = "cista.toml";

/// A package manifest (`cista.toml`).
#[derive(Debug)]
pub struct CistaManifest {
    pub source: SourceSection,
    pub target: TargetSection,
    pub bindings: Vec<Binding>,
}

/// The Faber-facing `[source]` table.
#[derive(Debug)]
pub struct SourceSection {
    pub package: String,
    pub version: String,
    pub faber_min: String,
    pub kind: SourceKind,
    pub role: PackageRole,
    pub interfaces: String,
    pub sources: Option<String>,
}

/// How a package is distributed.
#[derive(Clone, Copy, Debug, PartialEq, Eq, Structural)]
pub enum SourceKind {
    Source,
    Artifact,
}

impl SourceKind {
    /// Manifest spelling for this source kind.
    pub fn kebab_name(self) -> (name: &'static str)
        ensures
            name@ == source_kind_name(self),
    {
        match self {
            Self::Source => "source",
            Self::Artifact => "artifact",
        }
    }
}

/// Manifest spelling of a source kind.
pub open spec fn source_kind_name(kind: SourceKind) -> Seq<char> {
    match kind {
        SourceKind::Source => "source"@,
        SourceKind::Artifact => "artifact"@,
    }
}

/// What an ordinary package provides: a library (the default) or a runnable
/// binary.
#[derive(Clone, Copy, Debug, PartialEq, Eq, Structural)]
pub enum PackageRole {
    Lib,
    Bin,
}

impl PackageRole {
    /// Manifest spelling for this role.
    pub fn kebab_name(self) -> (name: &'static str)
        ensures
            name@ == package_role_name(self),
    {
        match self {
            Self::Lib => "lib",
            Self::Bin => "bin",
        }
    }
}

/// Manifest spelling of a package role.
pub open spec fn package_role_name(role: PackageRole) -> Seq<char> {
    match role {
        PackageRole::Lib => "lib"@,
        PackageRole::Bin => "bin"@,
    }
}

/// The selected `[target]` table.
#[derive(Debug)]
pub struct TargetSection {
    pub language: String,
    pub mode: TargetMode,
    pub binding_policy: BindingPolicy,
    pub source: Option<String>,
    pub artifact: Option<String>,
    pub crate_name: Option<String>,
    pub triple: Option<String>,
    pub rustc: Option<String>,
    pub flags: Option<TargetFlags>,
    pub compile: Option<CompileSection>,
}

/// How the target implementation is provided.
#[derive(Clone, Copy, Debug, PartialEq, Eq, Structural)]
pub enum TargetMode {
    Compile,
    Artifact,
}

impl TargetMode {
    /// Manifest spelling for this target mode.
    pub fn kebab_name(self) -> (name: &'static str)
        ensures
            name@ == target_mode_name(self),
    {
        match self {
            Self::Compile => "compile",
            Self::Artifact => "artifact",
        }
    }
}

/// Manifest spelling of a target mode.
pub open spec fn target_mode_name(mode: TargetMode) -> Seq<char> {
    match mode {
        TargetMode::Compile => "compile"@,
        TargetMode::Artifact => "artifact"@,
    }
}

/// Where runtime bindings come from.
#[derive(Clone, Copy, Debug, PartialEq, Eq, Structural)]
pub enum BindingPolicy {
    Generated,
    Manifest,
}

impl BindingPolicy {
    /// Manifest spelling for this binding policy.
    pub fn kebab_name(self) -> (name: &'static str)
        ensures
            name@ == binding_policy_name(self),
    {
        match self {
            Self::Generated => "generated",
            Self::Manifest => "manifest",
        }
    }
}

/// Manifest spelling of a binding policy.
pub open spec fn binding_policy_name(policy: BindingPolicy) -> Seq<char> {
    match policy {
        BindingPolicy::Generated => "generated"@,
        BindingPolicy::Manifest => "manifest"@,
    }
}

/// `[target.flags]`.
#[derive(Debug)]
pub struct TargetFlags {
    pub edition: Option<String>,
}

/// `[target.compile]`.
#[derive(Debug)]
pub struct CompileSection {
    pub emit: String,
    pub crate_type: String,
    pub edition: String,
}

/// One `[[bindings]]` row: a Faber symbol bound to a target symbol.
#[derive(Debug)]
pub struct Binding {
    pub source_module: String,
    pub source_symbol: String,
    pub target: String,
}

/// A meta package manifest: an identity plus exact dependency pins.
#[derive(Debug)]
pub struct MetaManifest {
    pub source: MetaSource,
    pub dependencies: Vec<MetaDependency>,
}

/// The `[source]` table of a meta package.
#[derive(Debug)]
pub struct MetaSource {
    pub package: String,
    pub version: String,
}

/// One `[[dependencies]]` row of a meta package.
#[derive(Debug)]
pub struct MetaDependency {
    pub package: String,
    pub version: String,
    pub path: Option<String>,
}

/// Resolve the manifest path inside a package root.
pub fn manifest_path(package_root: &str, manifest_name: Option<&str>) -> (p: String)
    ensures
        p@ == path_join(
            package_root@,
            match manifest_name {
                Some(name) => name@,
                None => MANIFEST_FILE@,
            },
        ),
{
    let name = match manifest_name {
        Some(name) => name,
        None => MANIFEST_FILE,
    };
    crate::paths::join_path(package_root, name)
}

} // verus!
