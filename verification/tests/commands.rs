use cista::commands::fs_util::{
    check_disjoint_directories, DirectoryReplacement, ReplacementAction, ReplacementEvent,
};
use cista::commands::install::{
    MetaAction, MetaEvent, MetaInstall,
    artifact_manifest, check_meta_install, check_store_disjoint, ensure_rust_source_install,
    install_source, interfaces_only_manifest, is_interfaces_only_package, meta_dependency,
    InstallSource,
};
use cista::commands::package::{interface_files, is_interface_file, runtime_binding_lines};
use cista::commands::registry::{exact_identity, publish_copy_error, publish_destination};
use cista::commands::run::executable_path;
use cista::commands::rust_target::{
    cargo_build_plan, cargo_invocation, host_triple_from, verify_target_build, version_from,
};
use cista::commands::shared::{
    check_relative_path, validate_bindings, validate_identity, validate_manifest_shape,
    ModuleSymbols,
};
use cista::manifest::{
    Binding, BindingPolicy, CistaManifest, CompileSection, MetaDependency, MetaManifest,
    MetaSource, PackageRole, SourceKind, SourceSection, TargetMode, TargetSection,
};

fn manifest(kind: SourceKind, mode: TargetMode) -> CistaManifest {
    CistaManifest {
        source: SourceSection {
            package: "example".to_owned(),
            version: "0.1.0".to_owned(),
            faber_min: "0.38.0".to_owned(),
            kind,
            role: PackageRole::Lib,
            interfaces: "interfaces".to_owned(),
            sources: None,
        },
        target: TargetSection {
            language: "rust".to_owned(),
            mode,
            binding_policy: BindingPolicy::Generated,
            source: None,
            artifact: Some("libexample.rlib".to_owned()),
            crate_name: Some("example".to_owned()),
            triple: None,
            rustc: None,
            flags: None,
            compile: None,
        },
        bindings: Vec::new(),
    }
}

fn buildable_manifest() -> CistaManifest {
    let mut manifest = manifest(SourceKind::Source, TargetMode::Compile);
    manifest.target.artifact = None;
    manifest.target.source = Some("target".to_owned());
    manifest.target.compile = Some(CompileSection {
        emit: "library".to_owned(),
        crate_type: "rlib".to_owned(),
        edition: "2021".to_owned(),
    });
    manifest
}

fn compile_manifest(source: Option<&str>) -> CistaManifest {
    let mut manifest = buildable_manifest();
    manifest.target.source = source.map(str::to_owned);
    manifest
}

// --- package inspection ---

#[test]
fn interface_files_are_identified_by_path_components() {
    assert!(is_interface_file("interfaces/mathesis.fab"));
    assert!(is_interface_file("interfaces/solum/path.fab"));
    assert!(!is_interface_file("interfaces/readme.md"));
    assert!(!is_interface_file("other/interfaces/mathesis.fab"));
    assert!(!is_interface_file("interfaces.fab"));
}

#[test]
fn package_interfaces_exclude_non_interface_files() {
    let files = vec![
        "cista.toml".into(),
        "interfaces/solum.fab".into(),
        "targets/rust/host/cista.toml".into(),
    ];

    assert_eq!(interface_files(files), ["interfaces/solum.fab"]);
    assert!(interface_files(Vec::new()).is_empty());
}

#[test]
fn runtime_bindings_are_formatted_for_inspection() {
    let bindings = [Binding {
        source_module: "solum".to_owned(),
        source_symbol: "via".to_owned(),
        target: "norma::solum::via".to_owned(),
    }];

    assert_eq!(runtime_binding_lines(&bindings), ["solum#via -> norma::solum::via"]);
    assert!(runtime_binding_lines(&[]).is_empty());
}

// --- run ---

#[test]
fn executable_path_rejects_library_packages() {
    let manifest = CistaManifest {
        source: SourceSection {
            package: "mathesis".to_owned(),
            version: "0.1.0".to_owned(),
            faber_min: "0.38.0".to_owned(),
            kind: SourceKind::Artifact,
            role: PackageRole::Lib,
            interfaces: "../../../interfaces".to_owned(),
            sources: None,
        },
        target: TargetSection {
            language: "rust".to_owned(),
            mode: TargetMode::Artifact,
            binding_policy: BindingPolicy::Generated,
            source: None,
            artifact: Some("libmathesis.rlib".to_owned()),
            crate_name: Some("mathesis".to_owned()),
            triple: Some("host".to_owned()),
            rustc: None,
            flags: None,
            compile: None,
        },
        bindings: Vec::new(),
    };
    let error = executable_path(&manifest, "target", "host")
        .expect_err("library should not be runnable");
    assert!(error.contains("role `lib`"));
}

#[test]
fn executable_path_joins_a_bare_artifact_name() {
    let mut manifest = manifest(SourceKind::Artifact, TargetMode::Artifact);
    manifest.source.role = PackageRole::Bin;
    manifest.target.triple = Some("host".to_owned());
    manifest.target.artifact = Some("tool".to_owned());
    assert_eq!(executable_path(&manifest, "store/targets/rust/host", "host").unwrap(), "store/targets/rust/host/tool");
    assert!(executable_path(&manifest, "t", "other").unwrap_err().contains("does not match Rust host `other`"));
    manifest.target.artifact = Some("bin/tool".to_owned());
    assert_eq!(
        executable_path(&manifest, "t", "host").unwrap_err(),
        "installed binary artifact must be a file name, got `bin/tool`"
    );
    manifest.target.artifact = None;
    assert_eq!(
        executable_path(&manifest, "t", "host").unwrap_err(),
        "installed binary manifest is missing target.artifact"
    );
}

// --- rust target ---

#[test]
fn verify_target_build_rejects_non_rust_language() {
    let mut manifest = compile_manifest(Some("target"));
    manifest.target.language = "python".to_owned();

    let mut diagnostics = Vec::new();
    verify_target_build(&manifest, None, &mut diagnostics);

    assert!(diagnostics.iter().any(|d| d.contains("only implemented for target.language")));
}

#[test]
fn verify_target_build_rejects_non_compile_mode() {
    let mut manifest = compile_manifest(Some("target"));
    manifest.target.mode = TargetMode::Artifact;

    let mut diagnostics = Vec::new();
    verify_target_build(&manifest, None, &mut diagnostics);

    assert!(diagnostics.iter().any(|d| d.contains("requires target.mode")));
}

#[test]
fn verify_target_build_rejects_missing_target_source() {
    let manifest = compile_manifest(None);

    let mut diagnostics = Vec::new();
    verify_target_build(&manifest, None, &mut diagnostics);

    assert!(diagnostics.iter().any(|d| d.contains("nothing to check")));
}

#[test]
fn verify_target_build_hands_back_the_source_to_check() {
    let manifest = compile_manifest(Some("target"));
    let mut diagnostics = Vec::new();
    assert_eq!(
        verify_target_build(&manifest, Some("/pkg/target"), &mut diagnostics),
        Some("/pkg/target".to_owned())
    );
    assert!(diagnostics.is_empty());
}

#[test]
fn run_cargo_rejects_empty_args() {
    let error = cargo_invocation("Cargo.toml", &Vec::new(), "test")
        .expect_err("empty args must be rejected");
    assert!(error.contains("cargo_args must include a subcommand"));
    let args = cargo_invocation("x/Cargo.toml", &vec!["build".to_owned(), "--lib".to_owned()], "b")
        .unwrap();
    assert_eq!(args, ["build", "--manifest-path", "x/Cargo.toml", "--lib"]);
}

#[test]
fn cargo_build_plans_follow_the_package_role() {
    let mut manifest = buildable_manifest();
    manifest.target.crate_name = Some("my-crate".to_owned());
    let plan = cargo_build_plan(&manifest);
    assert_eq!(plan.args, ["build", "--lib"]);
    assert_eq!(plan.artifact_name, "libmy_crate.rlib");
    manifest.source.role = PackageRole::Bin;
    let plan = cargo_build_plan(&manifest);
    assert_eq!(plan.args, ["build", "--bin", "my-crate"]);
    assert_eq!(plan.artifact_name, "my-crate");
}

#[test]
fn toolchain_reports_are_read() {
    let vv = "rustc 1.88.0 (abc 2025-01-01)\r\nbinary: rustc\r\nhost: x86_64-unknown-linux-gnu\r\nrelease: 1.88.0\n";
    assert_eq!(host_triple_from(vv).unwrap(), "x86_64-unknown-linux-gnu");
    assert!(host_triple_from("release: 1\n").is_err());
    assert_eq!(version_from("rustc 1.88.0 (6b00bc388 2025-06-23)\n").unwrap(), "1.88.0");
    assert_eq!(version_from("rustc").unwrap_err(), "rustc --version did not report a version");
}

// --- shared validation ---

#[test]
fn manifest_shape_rejects_source_kind_with_artifact_mode() {
    let mut diagnostics = Vec::new();
    validate_manifest_shape(&manifest(SourceKind::Source, TargetMode::Artifact), &mut diagnostics);

    assert!(diagnostics
        .iter()
        .any(|diagnostic| diagnostic == "source.kind `source` is incompatible with target.mode `artifact`"));
}

#[test]
fn manifest_shape_rejects_artifact_kind_with_compile_mode() {
    let mut diagnostics = Vec::new();
    validate_manifest_shape(&manifest(SourceKind::Artifact, TargetMode::Compile), &mut diagnostics);

    assert!(diagnostics
        .iter()
        .any(|diagnostic| diagnostic == "source.kind `artifact` is incompatible with target.mode `compile`"));
}

#[test]
fn manifest_shape_rejects_sources_for_artifact_kind() {
    let mut manifest = manifest(SourceKind::Artifact, TargetMode::Artifact);
    manifest.source.sources = Some("src".to_owned());
    let mut diagnostics = Vec::new();
    validate_manifest_shape(&manifest, &mut diagnostics);

    assert!(diagnostics
        .iter()
        .any(|diagnostic| diagnostic == "source kind `artifact` forbids source.sources"));
}

#[test]
fn manifest_shape_rejects_artifact_field_for_compile_mode() {
    let mut diagnostics = Vec::new();
    validate_manifest_shape(&manifest(SourceKind::Source, TargetMode::Compile), &mut diagnostics);

    assert!(diagnostics
        .iter()
        .any(|diagnostic| diagnostic == "target mode `compile` forbids target.artifact"));
}

#[test]
fn manifest_shape_rejects_compile_fields_for_artifact_mode() {
    let mut manifest = manifest(SourceKind::Artifact, TargetMode::Artifact);
    manifest.target.source = Some("target".to_owned());
    manifest.target.compile = Some(CompileSection {
        emit: "library".to_owned(),
        crate_type: "rlib".to_owned(),
        edition: "2021".to_owned(),
    });
    let mut diagnostics = Vec::new();
    validate_manifest_shape(&manifest, &mut diagnostics);

    assert!(diagnostics
        .iter()
        .any(|diagnostic| diagnostic == "target mode `artifact` forbids target.source"));
    assert!(diagnostics
        .iter()
        .any(|diagnostic| diagnostic == "target mode `artifact` forbids [target.compile]"));
}

#[test]
fn manifest_shape_rejects_artifact_provenance_for_compile_mode() {
    let mut manifest = manifest(SourceKind::Source, TargetMode::Compile);
    manifest.target.artifact = None;
    manifest.target.triple = Some("aarch64-apple-darwin".to_owned());
    manifest.target.rustc = Some("rustc 1.88.0".to_owned());
    let mut diagnostics = Vec::new();
    validate_manifest_shape(&manifest, &mut diagnostics);

    assert!(diagnostics
        .iter()
        .any(|diagnostic| diagnostic == "target mode `compile` forbids target.triple"));
    assert!(diagnostics
        .iter()
        .any(|diagnostic| diagnostic == "target mode `compile` forbids target.rustc"));
}

#[test]
fn manifest_shape_requires_provenance_for_artifact_mode() {
    let mut diagnostics = Vec::new();
    validate_manifest_shape(&manifest(SourceKind::Artifact, TargetMode::Artifact), &mut diagnostics);

    assert!(diagnostics
        .iter()
        .any(|diagnostic| diagnostic == "target mode `artifact` requires target.triple"));
    assert!(diagnostics
        .iter()
        .any(|diagnostic| diagnostic == "target mode `artifact` requires target.rustc"));
}

#[test]
fn manifest_shape_rejects_bindings_for_generated_policy() {
    let mut manifest = manifest(SourceKind::Artifact, TargetMode::Artifact);
    manifest.bindings.push(Binding {
        source_module: "example".to_owned(),
        source_symbol: "VALUE".to_owned(),
        target: "example::VALUE".to_owned(),
    });
    let mut diagnostics = Vec::new();
    validate_manifest_shape(&manifest, &mut diagnostics);

    assert!(diagnostics
        .iter()
        .any(|diagnostic| diagnostic == "binding policy `generated` forbids [[bindings]] rows"));
}

#[test]
fn manifest_shape_requires_bindings_for_manifest_policy() {
    let mut manifest = manifest(SourceKind::Artifact, TargetMode::Artifact);
    manifest.target.binding_policy = BindingPolicy::Manifest;
    let mut diagnostics = Vec::new();
    validate_manifest_shape(&manifest, &mut diagnostics);

    assert!(diagnostics.iter().any(|diagnostic| diagnostic
        == "binding policy `manifest` requires at least one [[bindings]] row"));
}

#[test]
fn source_version_must_not_collide_with_transaction_directory_suffixes() {
    for version in ["1.0.0.incoming-123-1", "1.0.0.replaced-123-2"] {
        let mut manifest = buildable_manifest();
        manifest.source.version = version.to_owned();
        let mut diagnostics = Vec::new();

        validate_manifest_shape(&manifest, &mut diagnostics);

        assert!(
            diagnostics.iter().any(|diagnostic| diagnostic
                .contains("collides with Cista install transaction directory namespace")),
            "missing transaction namespace diagnostic for {version}: {diagnostics:?}"
        );
        let identity_error = validate_identity("example", version)
            .expect_err("identity validation must reject transaction-like versions");
        assert!(
            identity_error.iter().any(|diagnostic| diagnostic
                .contains("collides with Cista install transaction directory namespace")),
            "missing identity diagnostic for {version}: {identity_error:?}"
        );
    }
}

#[test]
fn source_identity_segments_must_not_contain_at_signs() {
    for (field, package, version) in [
        ("source.package", "foo@bar", "1.0.0"),
        ("source.version", "foo", "1.0@0"),
    ] {
        let invalid_value = if field == "source.package" { package } else { version };
        let expected = format!("{field} `{invalid_value}` is not a valid package store path segment");
        let mut manifest = buildable_manifest();
        manifest.source.package = package.to_owned();
        manifest.source.version = version.to_owned();
        let mut diagnostics = Vec::new();

        validate_manifest_shape(&manifest, &mut diagnostics);

        assert!(
            diagnostics.iter().any(|diagnostic| diagnostic == &expected),
            "missing @ diagnostic for {field}: {diagnostics:?}"
        );
        let identity_error = validate_identity(package, version)
            .expect_err("identity validation must reject @ in package identity segments");
        assert!(
            identity_error.iter().any(|diagnostic| diagnostic == &expected),
            "missing @ identity diagnostic for {field}: {identity_error:?}"
        );
    }
}

#[test]
fn validate_bindings_reports_missing_symbol() {
    let symbols = vec![ModuleSymbols {
        module: "example".to_owned(),
        symbols: vec!["run".to_owned()],
    }];

    let manifest = {
        let mut m = buildable_manifest();
        m.bindings.push(Binding {
            source_module: "example".to_owned(),
            source_symbol: "nonexistent".to_owned(),
            target: "example::nonexistent".to_owned(),
        });
        m
    };

    let mut diagnostics = Vec::new();
    validate_bindings(&manifest, &symbols, &mut diagnostics);
    assert!(
        diagnostics.iter().any(|d| d.contains("not found in module")),
        "missing symbol should produce diagnostic: {diagnostics:?}"
    );
}

#[test]
fn manifest_paths_must_be_relative_and_normalized() {
    assert_eq!(check_relative_path("dependency", "", false).unwrap_err(), "dependency path must not be empty");
    assert!(check_relative_path("dependency", "/etc/passwd", false)
        .unwrap_err()
        .contains("must be relative"));
    assert!(check_relative_path("dependency", "../sibling", false).is_ok());
    assert_eq!(
        check_relative_path("source.interfaces", "../escape", true).unwrap_err(),
        "source.interfaces path must be normalized without `.` or `..` segments: ../escape"
    );
    assert!(check_relative_path("source.interfaces", "./interfaces", true).is_err());
    assert!(check_relative_path("source.interfaces", "interfaces", true).is_ok());
}

// --- registry ---

#[test]
fn registry_pins_must_be_exact() {
    assert_eq!(exact_identity("tool@1.2.3").unwrap(), ("tool".to_owned(), "1.2.3".to_owned()));
    assert_eq!(
        exact_identity("tool").unwrap_err(),
        "registry package `tool` must use an exact name@version pin"
    );
    assert!(exact_identity("tool@").is_err());
    assert!(exact_identity("../tool@1.2.3").is_err());
}

#[test]
fn local_registry_must_stay_outside_the_published_package() {
    assert_eq!(publish_destination("/reg", "/src/pkg", "tool", "1.0.0").unwrap(), "/reg/tool/1.0.0");
    assert!(publish_destination("/src/pkg/reg", "/src/pkg", "tool", "1.0.0")
        .unwrap_err()
        .contains("cannot be inside published package"));
    assert_eq!(
        publish_copy_error("directory already exists: /reg/tool/1.0.0", "/reg/tool/1.0.0"),
        "registry package already exists and is immutable: /reg/tool/1.0.0"
    );
    assert_eq!(publish_copy_error("disk full", "/x"), "disk full");
}

// --- install ---

#[test]
fn install_takes_exactly_one_source() {
    assert!(matches!(install_source(Some("."), None), Ok(InstallSource::Path(p)) if p == "."));
    assert!(matches!(install_source(None, Some("tool@1.0.0")), Ok(InstallSource::Registry(_))));
    assert!(install_source(Some("."), Some("tool@1.0.0")).is_err());
    assert!(install_source(None, None).is_err());
}

#[test]
fn meta_packages_are_checked_before_install() {
    let meta = MetaManifest {
        source: MetaSource { package: "suite".to_owned(), version: "1.0.0".to_owned() },
        dependencies: vec![
            MetaDependency { package: "a".to_owned(), version: "1.0.0".to_owned(), path: Some("../a".to_owned()) },
            MetaDependency { package: "a".to_owned(), version: "1.0.0".to_owned(), path: Some("../a2".to_owned()) },
            MetaDependency { package: "b".to_owned(), version: "1.0.0".to_owned(), path: None },
        ],
    };
    assert!(check_meta_install(&meta, false).is_ok());
    assert_eq!(
        check_meta_install(&meta, true).unwrap_err(),
        vec!["meta package install does not rewrite a project lock; omit --project".to_owned()]
    );
    assert_eq!(meta_dependency(&meta, 0).unwrap(), ("a@1.0.0".to_owned(), "../a".to_owned()));
    assert_eq!(meta_dependency(&meta, 1).unwrap_err(), "duplicate meta dependency `a@1.0.0`");
    assert_eq!(
        meta_dependency(&meta, 2).unwrap_err(),
        "local meta dependency `b@1.0.0` requires a relative path"
    );
    let empty = MetaManifest { source: MetaSource { package: "suite".to_owned(), version: "1.0.0".to_owned() }, dependencies: Vec::new() };
    assert_eq!(
        check_meta_install(&empty, false).unwrap_err(),
        vec!["meta package requires at least one [[dependencies]] row".to_owned()]
    );
}

#[test]
fn installs_stay_disjoint_from_their_source() {
    assert!(check_store_disjoint("/src/pkg", "/store", "/store/pkg/1.0.0").is_ok());
    assert!(check_store_disjoint("/src/pkg", "/src/pkg/store", "/src/pkg/store/pkg/1.0.0")
        .unwrap_err()
        .starts_with("install store directory must not overlap package source"));
    assert!(check_store_disjoint("/store/pkg/1.0.0/src", "/store", "/store/pkg/1.0.0")
        .unwrap_err()
        .starts_with("install package destination must not overlap package source"));
    assert!(check_disjoint_directories("/a/b", "/a/b/c").is_err());
    assert!(check_disjoint_directories("/a/b", "/a/bc").is_ok());
}

#[test]
fn installed_manifests_describe_the_installed_target() {
    let source = buildable_manifest();
    assert!(ensure_rust_source_install(&source).is_ok());
    assert!(!is_interfaces_only_package(&source));
    let installed = artifact_manifest(&source, "libexample.rlib", "x86_64-unknown-linux-gnu", "1.88.0");
    assert_eq!(installed.source.kind, SourceKind::Artifact);
    assert_eq!(installed.source.interfaces, "../../../interfaces");
    assert_eq!(installed.target.mode, TargetMode::Artifact);
    assert_eq!(installed.target.artifact.as_deref(), Some("libexample.rlib"));
    assert_eq!(installed.target.triple.as_deref(), Some("x86_64-unknown-linux-gnu"));
    assert_eq!(installed.target.flags.and_then(|f| f.edition).as_deref(), Some("2021"));
    assert!(installed.target.compile.is_none());

    let mut pure = buildable_manifest();
    pure.target.source = None;
    assert!(is_interfaces_only_package(&pure));
    let thin = interfaces_only_manifest(&pure);
    assert_eq!(thin.target.mode, TargetMode::Compile);
    assert!(thin.target.artifact.is_none() && thin.bindings.is_empty());

    let mut python = buildable_manifest();
    python.target.language = "python".to_owned();
    assert_eq!(
        ensure_rust_source_install(&python).unwrap_err(),
        vec!["install --path currently supports target.language = `rust`; got `python`".to_owned()]
    );
}

// --- staged replacement ---

fn expect_remove(action: ReplacementAction) -> String {
    match action {
        ReplacementAction::Remove(path) => path,
        _ => panic!("expected a removal"),
    }
}

#[test]
fn finalized_replacement_removes_backup_and_cannot_roll_back() {
    let mut r = DirectoryReplacement::new("/store/a/1".to_owned(), Some("/store/a/1.replaced".to_owned()));
    assert!(r.can_rollback());
    assert_eq!(expect_remove(r.step(ReplacementEvent::Finalize)), "/store/a/1.replaced");
    assert!(matches!(r.step(ReplacementEvent::Done(Ok(()))), ReplacementAction::SyncParent(p) if p == "/store/a/1"));
    assert!(matches!(r.step(ReplacementEvent::Done(Ok(()))), ReplacementAction::Finish(Ok(()))));
    assert!(!r.can_rollback());
    assert!(matches!(r.step(ReplacementEvent::Rollback), ReplacementAction::Finish(Ok(()))));
    assert!(matches!(r.step(ReplacementEvent::Finalize), ReplacementAction::Finish(Ok(()))));
}

#[test]
fn rolled_back_replacement_restores_backup() {
    let mut r = DirectoryReplacement::new("/d".to_owned(), Some("/d.bak".to_owned()));
    assert_eq!(expect_remove(r.step(ReplacementEvent::Rollback)), "/d");
    assert!(matches!(r.step(ReplacementEvent::Done(Ok(()))), ReplacementAction::Restore(b, d) if b == "/d.bak" && d == "/d"));
    assert!(matches!(r.step(ReplacementEvent::Done(Err("busy".to_owned()))), ReplacementAction::Finish(Err(e)) if e == "busy"));
    assert!(r.can_rollback());
}

#[test]
fn meta_install_installs_every_dependency_then_the_manifest() {
    let mut m = MetaInstall::new(2);
    assert_eq!(m.step(MetaEvent::Succeeded), MetaAction::InstallDependency(0));
    assert_eq!(m.step(MetaEvent::Succeeded), MetaAction::InstallDependency(1));
    assert_eq!(m.step(MetaEvent::Succeeded), MetaAction::InstallManifest);
    assert_eq!(m.step(MetaEvent::Succeeded), MetaAction::FinalizeDependencies(2));
    assert_eq!(m.step(MetaEvent::Succeeded), MetaAction::Finish);
}

#[test]
fn meta_install_failure_rolls_back_installed_dependencies() {
    let mut m = MetaInstall::new(3);
    assert_eq!(m.step(MetaEvent::Succeeded), MetaAction::InstallDependency(0));
    assert_eq!(m.step(MetaEvent::Succeeded), MetaAction::InstallDependency(1));
    assert_eq!(
        m.step(MetaEvent::Failed { manifest_final: false }),
        MetaAction::RollbackDependencies(1)
    );
    assert_eq!(m.step(MetaEvent::Succeeded), MetaAction::Finish);

    let mut m = MetaInstall::new(1);
    m.step(MetaEvent::Succeeded);
    assert_eq!(m.step(MetaEvent::Succeeded), MetaAction::InstallManifest);
    assert_eq!(
        m.step(MetaEvent::Failed { manifest_final: false }),
        MetaAction::RollbackDependencies(1)
    );
}

#[test]
fn meta_install_keeps_dependencies_once_the_manifest_is_final() {
    let mut m = MetaInstall::new(0);
    assert_eq!(m.step(MetaEvent::Succeeded), MetaAction::InstallManifest);
    assert_eq!(
        m.step(MetaEvent::Failed { manifest_final: true }),
        MetaAction::FinalizeDependencies(0)
    );
}
