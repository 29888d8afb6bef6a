//! Install rules: where a package comes from, what a meta package must hold,
//! which manifests an install writes into the store, and how the project lock
//! records the result.

use vstd::prelude::*;
use crate::commands::rust_target::RUST_LANGUAGE;
use crate::commands::shared::validate_identity;
use crate::faber_lock::{
    locked_from_install, lock_record, upserted, upsert_package, FaberLock, InstalledLockInput,
};
use crate::manifest::{
    Binding, BindingPolicy, CistaManifest, CompileSection, MetaDependency, MetaManifest,
    MetaSource, SourceKind, SourceSection, TargetFlags, TargetMode, TargetSection,
};
use crate::paths::{join_path, path_join, path_starts_with, starts_with_components};
use crate::project_manifest::{pin_check, require_exact_dependency, ProjectManifest};
use crate::store::{identity_diagnostics, views};
use crate::text::{chars_of, text_eq};

verus! {

broadcast use vstd::string::group_string_axioms;

/// Packages that are platform defaults: the lock rewrite does not require a
/// matching `faber.toml` `[dependencies]` entry.
pub const PLATFORM_DEFAULT_PACKAGE: &'static str = "norma";

/// Where an install takes its package from.
#[derive(Debug)]
pub enum InstallSource {
    /// A local package directory.
    Path(String),
    /// An exact registry pin, `name@version`.
    Registry(String),
}

/// Exactly one of `--path` and `name@version` selects the package.
pub fn install_source(path: Option<&str>, package: Option<&str>) -> (r: Result<
    InstallSource,
    String,
>)
    ensures
        match (path, package) {
            (Some(p), None) => r matches Ok(InstallSource::Path(q)) && q@ == p@,
            (None, Some(p)) => r matches Ok(InstallSource::Registry(q)) && q@ == p@,
            (Some(_), Some(_)) => r is Err && r->Err_0@
                == "install accepts either --path or name@version, not both"@,
            (None, None) => r is Err && r->Err_0@ == "install requires --path or name@version"@,
        },
{
    match (path, package) {
        (Some(p), None) => Ok(InstallSource::Path(p.to_owned())),
        (None, Some(p)) => Ok(InstallSource::Registry(p.to_owned())),
        (Some(_), Some(_)) => Err(
            "install accepts either --path or name@version, not both".to_owned(),
        ),
        (None, None) => Err("install requires --path or name@version".to_owned()),
    }
}

/// What a meta package must satisfy before its dependencies are looked at.
pub open spec fn meta_check(meta: MetaManifest, has_project: bool) -> Result<(), Seq<Seq<char>>> {
    let d = identity_diagnostics(meta.source.package@, meta.source.version@);
    if d.len() > 0 {
        Err(d)
    } else if meta.dependencies@.len() == 0 {
        Err(seq!["meta package requires at least one [[dependencies]] row"@])
    } else if has_project {
        Err(seq!["meta package install does not rewrite a project lock; omit --project"@])
    } else {
        Ok(())
    }
}

/// A meta package needs a valid identity and at least one dependency, and is
/// installed without a project lock.
pub fn check_meta_install(meta: &MetaManifest, has_project: bool) -> (r: Result<(), Vec<String>>)
    ensures
        match (r, meta_check(*meta, has_project)) {
            (Ok(()), Ok(())) => true,
            (Err(e), Err(m)) => views(e@) == m,
            _ => false,
        },
{
    validate_identity(meta.source.package.as_str(), meta.source.version.as_str())?;
    if meta.dependencies.len() == 0 {
        let e = vec!["meta package requires at least one [[dependencies]] row".to_owned()];
        assert(views(e@) =~= seq!["meta package requires at least one [[dependencies]] row"@]);
        return Err(e);
    }
    if has_project {
        let e = vec!["meta package install does not rewrite a project lock; omit --project".to_owned()];
        assert(views(e@) =~= seq![
            "meta package install does not rewrite a project lock; omit --project"@,
        ]);
        return Err(e);
    }
    Ok(())
}

/// The identity text `package@version` of a meta dependency.
pub open spec fn dependency_identity(d: MetaDependency) -> Seq<char> {
    d.package@ + "@"@ + d.version@
}

/// The dependency at `i` repeats an earlier one.
pub open spec fn repeats_earlier(deps: Seq<MetaDependency>, i: int) -> bool {
    exists|j: int| 0 <= j < i && dependency_identity(#[trigger] deps[j]) == dependency_identity(deps[i])
}

/// What the dependency at `i` of a meta package gives before it is resolved:
/// its identity and relative path, or why it cannot be installed.
pub open spec fn meta_dependency_plan(deps: Seq<MetaDependency>, i: int) -> Result<
    (Seq<char>, Seq<char>),
    Seq<char>,
> {
    let identity = dependency_identity(deps[i]);
    if repeats_earlier(deps, i) {
        Err("duplicate meta dependency `"@ + identity + "`"@)
    } else {
        match deps[i].path {
            None => Err("local meta dependency `"@ + identity + "` requires a relative path"@),
            Some(p) => Ok((identity, p@)),
        }
    }
}

fn identity_text(d: &MetaDependency) -> (r: String)
    ensures
        r@ == dependency_identity(*d),
{
    let mut r = d.package.clone();
    r.append("@");
    r.append(d.version.as_str());
    r
}

/// The identity and relative path of the meta dependency at `index`; a
/// dependency listed twice, or one without a path, is refused.
pub fn meta_dependency(meta: &MetaManifest, index: usize) -> (r: Result<(String, String), String>)
    requires
        index < meta.dependencies@.len(),
    ensures
        match (r, meta_dependency_plan(meta.dependencies@, index as int)) {
            (Ok((a, b)), Ok((c, d))) => a@ == c && b@ == d,
            (Err(e), Err(m)) => e@ == m,
            _ => false,
        },
{
    let deps = &meta.dependencies;
    let identity = identity_text(&deps[index]);
    let mut j: usize = 0;
    while j < index
        invariant
            j <= index < deps@.len(),
            deps@ == meta.dependencies@,
            identity@ == dependency_identity(deps@[index as int]),
            forall|k: int|
                0 <= k < j ==> dependency_identity(#[trigger] deps@[k]) != identity@,
        decreases index - j,
    {
        let other = identity_text(&deps[j]);
        if text_eq(other.as_str(), identity.as_str()) {
            assert(dependency_identity(deps@[j as int]) == dependency_identity(deps@[index as int]));
            assert(repeats_earlier(deps@, index as int));
            let mut m = "duplicate meta dependency `".to_owned();
            m.append(identity.as_str());
            m.append("`");
            return Err(m);
        }
        j = j + 1;
    }
    match &deps[index].path {
        None => {
            let mut m = "local meta dependency `".to_owned();
            m.append(identity.as_str());
            m.append("` requires a relative path");
            Err(m)
        },
        Some(p) => Ok((identity, p.clone())),
    }
}

/// The resolved dependency must be the package the meta package names.
pub fn check_meta_dependency_identity(
    identity: &str,
    dependency: &MetaDependency,
    package: &str,
    version: &str,
    root: &str,
) -> (r: Result<(), String>)
    ensures
        (package@ == dependency.package@ && version@ == dependency.version@) ==> r is Ok,
        !(package@ == dependency.package@ && version@ == dependency.version@) ==> r is Err
            && r->Err_0@ == "meta dependency `"@ + identity@ + "` resolves to `"@ + package@
            + "@"@ + version@ + "` at "@ + root@,
{
    if text_eq(package, dependency.package.as_str()) && text_eq(
        version,
        dependency.version.as_str(),
    ) {
        return Ok(());
    }
    let mut m = "meta dependency `".to_owned();
    m.append(identity);
    m.append("` resolves to `");
    m.append(package);
    m.append("@");
    m.append(version);
    m.append("` at ");
    m.append(root);
    Err(m)
}

/// The meta manifest written into the store: the same identity and pins, with
/// the local dependency paths dropped.
pub fn installed_meta_manifest(meta: &MetaManifest) -> (r: MetaManifest)
    ensures
        r.source == meta.source,
        r.dependencies@.len() == meta.dependencies@.len(),
        forall|i: int|
            0 <= i < r.dependencies@.len() ==> (#[trigger] r.dependencies@[i]).package
                == meta.dependencies@[i].package && r.dependencies@[i].version
                == meta.dependencies@[i].version && r.dependencies@[i].path is None,
{
    let mut deps: Vec<MetaDependency> = Vec::new();
    let mut i: usize = 0;
    while i < meta.dependencies.len()
        invariant
            i <= meta.dependencies.len(),
            deps@.len() == i,
            forall|k: int|
                0 <= k < i ==> (#[trigger] deps@[k]).package == meta.dependencies@[k].package
                    && deps@[k].version == meta.dependencies@[k].version && deps@[k].path is None,
        decreases meta.dependencies.len() - i,
    {
        let d = &meta.dependencies[i];
        deps.push(
            MetaDependency { package: d.package.clone(), version: d.version.clone(), path: None },
        );
        i = i + 1;
    }
    MetaManifest {
        source: MetaSource {
            package: meta.source.package.clone(),
            version: meta.source.version.clone(),
        },
        dependencies: deps,
    }
}

/// The label under which a meta dependency's path is resolved.
pub fn meta_dependency_field(identity: &str) -> (r: String)
    ensures
        r@ == "meta dependency `"@ + identity@ + "`"@,
{
    let mut r = "meta dependency `".to_owned();
    r.append(identity);
    r.append("`");
    r
}

/// What keeping an install away from its own source gives, over resolved
/// paths.
pub open spec fn store_disjoint(
    package_root: Seq<char>,
    store_root: Seq<char>,
    package_store_root: Seq<char>,
) -> Result<(), Seq<char>> {
    if starts_with_components(store_root, package_root) {
        Err(
            "install store directory must not overlap package source: "@ + store_root
                + " is inside "@ + package_root,
        )
    } else if starts_with_components(package_store_root, package_root) || starts_with_components(
        package_root,
        package_store_root,
    ) {
        Err(
            "install package destination must not overlap package source: "@ + package_store_root
                + " and "@ + package_root,
        )
    } else {
        Ok(())
    }
}

/// The store must not lie inside the package source, and the package's store
/// directory must neither contain nor lie inside the source.
pub fn check_store_disjoint(package_root: &str, store_root: &str, package_store_root: &str) -> (r:
    Result<(), String>)
    ensures
        match (r, store_disjoint(package_root@, store_root@, package_store_root@)) {
            (Ok(()), Ok(())) => true,
            (Err(e), Err(m)) => e@ == m,
            _ => false,
        },
{
    if path_starts_with(store_root, package_root) {
        let mut m = "install store directory must not overlap package source: ".to_owned();
        m.append(store_root);
        m.append(" is inside ");
        m.append(package_root);
        return Err(m);
    }
    if path_starts_with(package_store_root, package_root) || path_starts_with(
        package_root,
        package_store_root,
    ) {
        let mut m = "install package destination must not overlap package source: ".to_owned();
        m.append(package_store_root);
        m.append(" and ");
        m.append(package_root);
        return Err(m);
    }
    Ok(())
}

/// The store directory of a package: `<store>/<package>/<version>`.
pub fn package_store_root(store_root: &str, manifest: &CistaManifest) -> (p: String)
    ensures
        p@ == path_join(path_join(store_root@, manifest.source.package@), manifest.source.version@),
{
    let a = join_path(store_root, manifest.source.package.as_str());
    join_path(&a, manifest.source.version.as_str())
}

/// A pure-Faber package: generated bindings, compile mode, and no target source.
pub open spec fn interfaces_only(m: CistaManifest) -> bool {
    m.target.binding_policy == BindingPolicy::Generated && m.target.mode == TargetMode::Compile
        && m.target.source is None
}

/// Whether a package installs only its interfaces.
pub fn is_interfaces_only_package(manifest: &CistaManifest) -> (b: bool)
    ensures
        b == interfaces_only(*manifest),
{
    manifest.target.binding_policy == BindingPolicy::Generated && manifest.target.mode
        == TargetMode::Compile && manifest.target.source.is_none()
}

/// What a path install currently supports.
pub open spec fn source_install_check(m: CistaManifest) -> Result<(), Seq<char>> {
    if m.target.language@ != RUST_LANGUAGE@ {
        Err(
            "install --path currently supports target.language = `rust`; got `"@
                + m.target.language@ + "`"@,
        )
    } else if m.source.kind != SourceKind::Source {
        Err("install --path currently requires source.kind = `source`"@)
    } else if m.target.mode != TargetMode::Compile {
        Err("install --path currently requires target.mode = `compile`"@)
    } else {
        Ok(())
    }
}

/// A path install takes Rust source packages in compile mode.
pub fn ensure_rust_source_install(manifest: &CistaManifest) -> (r: Result<(), Vec<String>>)
    ensures
        match (r, source_install_check(*manifest)) {
            (Ok(()), Ok(())) => true,
            (Err(e), Err(m)) => views(e@) == seq![m],
            _ => false,
        },
{
    proof {
        reveal_strlit("rust");
    }
    let message = if !text_eq(manifest.target.language.as_str(), RUST_LANGUAGE) {
        let mut m = "install --path currently supports target.language = `rust`; got `".to_owned();
        m.append(manifest.target.language.as_str());
        m.append("`");
        m
    } else if manifest.source.kind != SourceKind::Source {
        "install --path currently requires source.kind = `source`".to_owned()
    } else if manifest.target.mode != TargetMode::Compile {
        "install --path currently requires target.mode = `compile`".to_owned()
    } else {
        return Ok(());
    };
    let e = vec![message];
    assert(views(e@) =~= seq![e@[0]@]);
    Err(e)
}

fn copy_text(o: &Option<String>) -> (r: Option<String>)
    ensures
        r == *o,
{
    match o {
        Some(s) => Some(s.clone()),
        None => None,
    }
}

fn copy_flags(o: &Option<TargetFlags>) -> (r: Option<TargetFlags>)
    ensures
        r == *o,
{
    match o {
        Some(f) => Some(TargetFlags { edition: copy_text(&f.edition) }),
        None => None,
    }
}

fn copy_compile(o: &Option<CompileSection>) -> (r: Option<CompileSection>)
    ensures
        r == *o,
{
    match o {
        Some(c) => Some(
            CompileSection {
                emit: c.emit.clone(),
                crate_type: c.crate_type.clone(),
                edition: c.edition.clone(),
            },
        ),
        None => None,
    }
}

fn copy_bindings(b: &Vec<Binding>) -> (r: Vec<Binding>)
    ensures
        r@ == b@,
{
    let mut r: Vec<Binding> = Vec::new();
    let mut i: usize = 0;
    while i < b.len()
        invariant
            i <= b.len(),
            r@ == b@.take(i as int),
        decreases b.len() - i,
    {
        let x = &b[i];
        r.push(
            Binding {
                source_module: x.source_module.clone(),
                source_symbol: x.source_symbol.clone(),
                target: x.target.clone(),
            },
        );
        i = i + 1;
        assert(r@ =~= b@.take(i as int));
    }
    assert(b@.take(b@.len() as int) =~= b@);
    r
}

/// `[target.flags]` derived from `[target.compile]`: its edition.
pub open spec fn flags_from_compile(m: CistaManifest) -> Option<TargetFlags> {
    match m.target.compile {
        Some(c) => Some(TargetFlags { edition: Some(c.edition) }),
        None => None,
    }
}

/// The target flags an installed artifact records when the source manifest
/// has none: the compile edition.
pub fn compile_flags(manifest: &CistaManifest) -> (r: Option<TargetFlags>)
    ensures
        r == flags_from_compile(*manifest),
{
    match &manifest.target.compile {
        Some(c) => Some(TargetFlags { edition: Some(c.edition.clone()) }),
        None => None,
    }
}

/// Interfaces path recorded by installed target manifests, relative to the
/// target directory.
pub const INSTALLED_INTERFACES: &'static str = "../../../interfaces";

/// The manifest of a built artifact: the source identity and bindings, the
/// artifact with its triple and compiler, and flags carried over (or taken
/// from the compile edition).
pub open spec fn is_artifact_manifest(
    src: CistaManifest,
    artifact_name: Seq<char>,
    triple: Seq<char>,
    rustc: Seq<char>,
    out: CistaManifest,
) -> bool {
    &&& out.source.package == src.source.package
    &&& out.source.version == src.source.version
    &&& out.source.faber_min == src.source.faber_min
    &&& out.source.kind == SourceKind::Artifact
    &&& out.source.role == src.source.role
    &&& out.source.interfaces@ == INSTALLED_INTERFACES@
    &&& out.source.sources is None
    &&& out.target.language == src.target.language
    &&& out.target.mode == TargetMode::Artifact
    &&& out.target.binding_policy == src.target.binding_policy
    &&& out.target.source is None
    &&& out.target.artifact matches Some(a) && a@ == artifact_name
    &&& out.target.crate_name == src.target.crate_name
    &&& out.target.triple matches Some(t) && t@ == triple
    &&& out.target.rustc matches Some(v) && v@ == rustc
    &&& out.target.flags == if src.target.flags is Some {
        src.target.flags
    } else {
        flags_from_compile(src)
    }
    &&& out.target.compile is None
    &&& out.bindings@ == src.bindings@
}

/// The installed manifest of a built Rust artifact.
pub fn artifact_manifest(
    source_manifest: &CistaManifest,
    artifact_name: &str,
    target_triple: &str,
    rustc_version: &str,
) -> (r: CistaManifest)
    ensures
        is_artifact_manifest(*source_manifest, artifact_name@, target_triple@, rustc_version@, r),
{
    let flags = match &source_manifest.target.flags {
        Some(_) => copy_flags(&source_manifest.target.flags),
        None => compile_flags(source_manifest),
    };
    CistaManifest {
        source: SourceSection {
            package: source_manifest.source.package.clone(),
            version: source_manifest.source.version.clone(),
            faber_min: source_manifest.source.faber_min.clone(),
            kind: SourceKind::Artifact,
            role: source_manifest.source.role,
            interfaces: INSTALLED_INTERFACES.to_owned(),
            sources: None,
        },
        target: TargetSection {
            language: source_manifest.target.language.clone(),
            mode: TargetMode::Artifact,
            binding_policy: source_manifest.target.binding_policy,
            source: None,
            artifact: Some(artifact_name.to_owned()),
            crate_name: copy_text(&source_manifest.target.crate_name),
            triple: Some(target_triple.to_owned()),
            rustc: Some(rustc_version.to_owned()),
            flags,
            compile: None,
        },
        bindings: copy_bindings(&source_manifest.bindings),
    }
}

/// The manifest of an interfaces-only install: a source package with generated
/// bindings, no native source, artifact or provenance, and no binding rows.
pub open spec fn is_interfaces_only_manifest(src: CistaManifest, out: CistaManifest) -> bool {
    &&& out.source.package == src.source.package
    &&& out.source.version == src.source.version
    &&& out.source.faber_min == src.source.faber_min
    &&& out.source.kind == SourceKind::Source
    &&& out.source.role == src.source.role
    &&& out.source.interfaces@ == INSTALLED_INTERFACES@
    &&& out.source.sources is None
    &&& out.target.language == src.target.language
    &&& out.target.mode == TargetMode::Compile
    &&& out.target.binding_policy == BindingPolicy::Generated
    &&& out.target.source is None
    &&& out.target.artifact is None
    &&& out.target.crate_name == src.target.crate_name
    &&& out.target.triple is None
    &&& out.target.rustc is None
    &&& out.target.flags == src.target.flags
    &&& out.target.compile == src.target.compile
    &&& out.bindings@.len() == 0
}

/// The installed manifest of an interfaces-only package.
pub fn interfaces_only_manifest(manifest: &CistaManifest) -> (r: CistaManifest)
    ensures
        is_interfaces_only_manifest(*manifest, r),
{
    CistaManifest {
        source: SourceSection {
            package: manifest.source.package.clone(),
            version: manifest.source.version.clone(),
            faber_min: manifest.source.faber_min.clone(),
            kind: SourceKind::Source,
            role: manifest.source.role,
            interfaces: INSTALLED_INTERFACES.to_owned(),
            sources: None,
        },
        target: TargetSection {
            language: manifest.target.language.clone(),
            mode: TargetMode::Compile,
            binding_policy: BindingPolicy::Generated,
            source: None,
            artifact: None,
            crate_name: copy_text(&manifest.target.crate_name),
            triple: None,
            rustc: None,
            flags: copy_flags(&manifest.target.flags),
            compile: copy_compile(&manifest.target.compile),
        },
        bindings: Vec::new(),
    }
}

/// The installed target directory of a package:
/// `<package store root>/targets/<language>/<triple>`.
pub fn installed_target_dir(package_store_root: &str, language: &str, triple: &str) -> (p: String)
    ensures
        p@ == path_join(path_join(path_join(package_store_root@, "targets"@), language@), triple@),
{
    let a = join_path(package_store_root, "targets");
    let b = join_path(&a, language);
    join_path(&b, triple)
}

/// What an installed package left in the store.
#[derive(Debug)]
pub struct InstalledPaths {
    pub package_store_root: String,
    pub target_triple: String,
    pub rustc_version: String,
    /// Artifact file name when an artifact was installed; empty for
    /// interfaces-only packages.
    pub artifact_name: String,
    pub interfaces_only: bool,
}

/// The report line of an installed package.
pub fn installed_line(manifest: &CistaManifest, installed: &InstalledPaths) -> (line: String)
    ensures
        line@ == "installed: "@ + manifest.source.package@ + " "@ + manifest.source.version@
            + " -> "@ + installed.package_store_root@ + if installed.interfaces_only {
            " (interfaces only)"@
        } else {
            ""@
        },
{
    let mut line = "installed: ".to_owned();
    line.append(manifest.source.package.as_str());
    line.append(" ");
    line.append(manifest.source.version.as_str());
    line.append(" -> ");
    line.append(installed.package_store_root.as_str());
    if installed.interfaces_only {
        line.append(" (interfaces only)");
    } else {
        proof {
            reveal_strlit("");
        }
        assert(line@ =~= line@ + ""@);
    }
    line
}

/// Whether a package is a platform default.
pub fn is_platform_default(package: &str) -> (b: bool)
    ensures
        b == (package@ == PLATFORM_DEFAULT_PACKAGE@),
{
    text_eq(package, PLATFORM_DEFAULT_PACKAGE)
}

/// What the project must declare before its lock records an install: nothing
/// for a platform default, else the exact pin.
pub open spec fn lock_pin(project: ProjectManifest, package: Seq<char>, version: Seq<char>) -> Result<
    bool,
    Seq<char>,
> {
    if package == PLATFORM_DEFAULT_PACKAGE@ {
        Ok(true)
    } else {
        match pin_check(project.dependencies.entries@, package, version) {
            Ok(()) => Ok(false),
            Err(e) => Err(e),
        }
    }
}

/// Check that the project may record the install; `Ok(true)` for a platform
/// default.
pub fn check_lock_pin(project: &ProjectManifest, package: &str, version: &str) -> (r: Result<
    bool,
    String,
>)
    ensures
        match (r, lock_pin(*project, package@, version@)) {
            (Ok(a), Ok(b)) => a == b,
            (Err(e), Err(m)) => e@ == m,
            _ => false,
        },
{
    if is_platform_default(package) {
        return Ok(true);
    }
    require_exact_dependency(project, package, version)?;
    Ok(false)
}

/// The lock input of an install: the crate defaults to the package name, and
/// an artifact is recorded only for a non-empty artifact of a compiled install.
pub open spec fn install_lock_input(
    m: CistaManifest,
    source_root: Seq<char>,
    installed: InstalledPaths,
    input: InstalledLockInput,
) -> bool {
    &&& input.name@ == m.source.package@
    &&& input.version@ == m.source.version@
    &&& input.source_path@ == source_root
    &&& input.package_store_root@ == installed.package_store_root@
    &&& input.target_language@ == m.target.language@
    &&& input.target_triple@ == installed.target_triple@
    &&& input.artifact_name@ == installed.artifact_name@
    &&& input.crate_name@ == match m.target.crate_name {
        Some(c) => c@,
        None => m.source.package@,
    }
    &&& input.rustc@ == installed.rustc_version@
    &&& input.kind@ == "source"@
    &&& input.has_artifact == (!installed.interfaces_only && installed.artifact_name@.len() > 0)
}

/// Record an install in the project lock: its lock record replaces any record
/// of the same package.
pub fn record_install(
    lock: &mut FaberLock,
    manifest: &CistaManifest,
    source_root: &str,
    installed: &InstalledPaths,
)
    ensures
        exists|input: InstalledLockInput, record|
            install_lock_input(*manifest, source_root@, *installed, input) && lock_record(
                input,
                record,
            ) && final(lock).packages@ == upserted(old(lock).packages@, record),
{
    let crate_name: &str = match &manifest.target.crate_name {
        Some(c) => c.as_str(),
        None => manifest.source.package.as_str(),
    };
    let has_artifact = !installed.interfaces_only && chars_of(installed.artifact_name.as_str()).len()
        > 0;
    let input = InstalledLockInput {
        name: manifest.source.package.as_str(),
        version: manifest.source.version.as_str(),
        source_path: source_root,
        package_store_root: installed.package_store_root.as_str(),
        target_language: manifest.target.language.as_str(),
        target_triple: installed.target_triple.as_str(),
        artifact_name: installed.artifact_name.as_str(),
        crate_name,
        rustc: installed.rustc_version.as_str(),
        kind: "source",
        has_artifact,
    };
    proof {
        reveal_strlit("source");
    }
    let ghost g = input;
    let record = locked_from_install(input);
    upsert_package(lock, record);
    assert(install_lock_input(*manifest, source_root@, *installed, g));
}

/// The report line after the project lock is rewritten.
pub fn lock_update_line(lock_path: &str, platform_default: bool) -> (line: String)
    ensures
        line@ == "updated lock: "@ + lock_path@ + if platform_default {
            " (platform default)"@
        } else {
            ""@
        },
{
    let mut line = "updated lock: ".to_owned();
    line.append(lock_path);
    if platform_default {
        line.append(" (platform default)");
    } else {
        proof {
            reveal_strlit("");
        }
        assert(line@ =~= line@ + ""@);
    }
    line
}

/// Where a meta install stands: installing its dependencies one by one, then
/// writing its own manifest, then settling every dependency it installed.
#[derive(Clone, Copy, Debug, PartialEq, Eq, Structural)]
pub enum MetaPhase {
    /// Nothing has been asked yet.
    Ready,
    /// A dependency install was asked for.
    Dependency,
    /// The meta manifest's own install was asked for.
    Manifest,
    /// The installed dependencies are being finalized.
    Finalizing,
    /// The installed dependencies are being rolled back.
    RollingBack,
    /// The install is over.
    Over,
}

/// The work a meta install asks for next.
#[derive(Clone, Copy, Debug, PartialEq, Eq, Structural)]
pub enum MetaAction {
    /// Install the dependency with this index, leaving it rollback-able.
    InstallDependency(usize),
    /// Stage, commit and finalize the meta manifest.
    InstallManifest,
    /// Finalize the first `n` dependencies installed.
    FinalizeDependencies(usize),
    /// Roll back the first `n` dependencies installed, last first.
    RollbackDependencies(usize),
    /// Nothing is left to do.
    Finish,
}

/// What the caller reports of the last action.
#[derive(Clone, Copy, Debug, PartialEq, Eq, Structural)]
pub enum MetaEvent {
    /// The action succeeded (or, before the first action, the install starts).
    Succeeded,
    /// The action failed; `manifest_final` tells whether the meta manifest is
    /// in place for good despite the failure (it can no longer be rolled back).
    Failed { manifest_final: bool },
}

/// The progress of a meta install over `total` dependencies, `installed` of
/// which are in the store and not yet settled.
#[derive(Clone, Copy, Debug)]
pub struct MetaInstall {
    pub total: usize,
    pub installed: usize,
    pub phase: MetaPhase,
}

/// After the dependencies are in: the next dependency, or the manifest.
pub open spec fn meta_advance(total: nat, installed: nat) -> (nat, MetaPhase, MetaAction) {
    if installed < total {
        (installed, MetaPhase::Dependency, MetaAction::InstallDependency(installed as usize))
    } else {
        (installed, MetaPhase::Manifest, MetaAction::InstallManifest)
    }
}

/// The transition of a meta install: from its installed count and phase and an
/// event to the next count, phase and action.
pub open spec fn meta_transition(total: nat, installed: nat, phase: MetaPhase, event: MetaEvent) -> (
    nat,
    MetaPhase,
    MetaAction,
) {
    match (phase, event) {
        (MetaPhase::Ready, MetaEvent::Succeeded) => meta_advance(total, installed),
        (MetaPhase::Dependency, MetaEvent::Succeeded) => meta_advance(total, installed + 1),
        (MetaPhase::Dependency, MetaEvent::Failed { .. }) => (
            installed,
            MetaPhase::RollingBack,
            MetaAction::RollbackDependencies(installed as usize),
        ),
        (MetaPhase::Manifest, MetaEvent::Succeeded) => (
            installed,
            MetaPhase::Finalizing,
            MetaAction::FinalizeDependencies(installed as usize),
        ),
        (MetaPhase::Manifest, MetaEvent::Failed { manifest_final }) => if manifest_final {
            (installed, MetaPhase::Finalizing, MetaAction::FinalizeDependencies(installed as usize))
        } else {
            (installed, MetaPhase::RollingBack, MetaAction::RollbackDependencies(installed as usize))
        },
        (MetaPhase::Ready, MetaEvent::Failed { .. }) => (installed, MetaPhase::Over, MetaAction::Finish),
        _ => (installed, MetaPhase::Over, MetaAction::Finish),
    }
}

impl MetaInstall {
    /// A meta install of `total` dependencies that has not begun.
    pub fn new(total: usize) -> (m: Self)
        ensures
            m.total == total,
            m.installed == 0,
            m.phase == MetaPhase::Ready,
    {
        MetaInstall { total, installed: 0, phase: MetaPhase::Ready }
    }

    /// Take what happened to the last action and say what to do next.
    pub fn step(&mut self, event: MetaEvent) -> (action: MetaAction)
        requires
            old(self).installed <= old(self).total,
            old(self).phase == MetaPhase::Dependency ==> old(self).installed < old(self).total,
        ensures
            (final(self).installed as nat, final(self).phase, action) == meta_transition(
                old(self).total as nat,
                old(self).installed as nat,
                old(self).phase,
                event,
            ),
            final(self).total == old(self).total,
            final(self).installed <= final(self).total,
            final(self).phase == MetaPhase::Dependency ==> final(self).installed < final(self).total,
    {
        match (self.phase, event) {
            (MetaPhase::Ready, MetaEvent::Succeeded) => self.advance(),
            (MetaPhase::Dependency, MetaEvent::Succeeded) => {
                self.installed = self.installed + 1;
                self.advance()
            },
            (MetaPhase::Dependency, MetaEvent::Failed { .. }) => {
                self.phase = MetaPhase::RollingBack;
                MetaAction::RollbackDependencies(self.installed)
            },
            (MetaPhase::Manifest, MetaEvent::Succeeded) => {
                self.phase = MetaPhase::Finalizing;
                MetaAction::FinalizeDependencies(self.installed)
            },
            (MetaPhase::Manifest, MetaEvent::Failed { manifest_final }) => if manifest_final {
                self.phase = MetaPhase::Finalizing;
                MetaAction::FinalizeDependencies(self.installed)
            } else {
                self.phase = MetaPhase::RollingBack;
                MetaAction::RollbackDependencies(self.installed)
            },
            _ => {
                self.phase = MetaPhase::Over;
                MetaAction::Finish
            },
        }
    }

    fn advance(&mut self) -> (action: MetaAction)
        requires
            old(self).installed <= old(self).total,
        ensures
            (final(self).installed as nat, final(self).phase, action) == meta_advance(
                old(self).total as nat,
                old(self).installed as nat,
            ),
            final(self).total == old(self).total,
    {
        if self.installed < self.total {
            self.phase = MetaPhase::Dependency;
            MetaAction::InstallDependency(self.installed)
        } else {
            self.phase = MetaPhase::Manifest;
            MetaAction::InstallManifest
        }
    }
}

/// A meta install is all or nothing: while its manifest is not in place for
/// good, any failure rolls back every dependency it installed; dependencies
/// are only finalized once the manifest is in place for good; and a run that
/// meets no failure installs every dependency, in order, before the manifest.
pub proof fn lemma_meta_install_all_or_nothing(total: nat, installed: nat, phase: MetaPhase, event: MetaEvent)
    ensures
        (phase == MetaPhase::Dependency || (phase == MetaPhase::Manifest && event
            == MetaEvent::Failed { manifest_final: false })) && event is Failed ==> meta_transition(
            total,
            installed,
            phase,
            event,
        ).2 == MetaAction::RollbackDependencies(installed as usize),
        meta_transition(total, installed, phase, event).2 matches MetaAction::FinalizeDependencies(_)
            ==> phase == MetaPhase::Manifest && (event == MetaEvent::Succeeded || event
            == MetaEvent::Failed { manifest_final: true }),
        installed < total && (phase == MetaPhase::Ready || phase == MetaPhase::Dependency) && event
            == MetaEvent::Succeeded ==> (meta_transition(total, installed, phase, event).2
            == MetaAction::InstallDependency(
            (if phase == MetaPhase::Ready {
                installed
            } else {
                (installed + 1) as nat
            }) as usize,
        ) || (phase == MetaPhase::Dependency && installed + 1 == total && meta_transition(
            total,
            installed,
            phase,
            event,
        ).2 == MetaAction::InstallManifest)),
{
}

} // verus!
