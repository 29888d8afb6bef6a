use cista::project_manifest::{
    manifest_text_is_meta, project_manifest_from_text, project_manifest_from_toml,
    require_exact_dependency, Dependencies, ProjectManifest,
    ProjectPackage, TomlValue,
};

fn manifest() -> ProjectManifest {
    ProjectManifest {
        package: ProjectPackage {
            name: "demo".to_owned(),
            version: Some("0.1.0".to_owned()),
            edition: None,
        },
        dependencies: Dependencies::from_pairs(vec![("norma".to_owned(), "0.1.0".to_owned())]),
        paths: None,
        build: None,
        reader: None,
    }
}

fn text(s: &str) -> TomlValue {
    TomlValue::String(s.to_owned())
}

fn table(entries: Vec<(&str, TomlValue)>) -> TomlValue {
    TomlValue::Table(entries.into_iter().map(|(k, v)| (k.to_owned(), v)).collect())
}

#[test]
fn require_exact_dependency_succeeds_on_match() {
    let result = require_exact_dependency(&manifest(), "norma", "0.1.0");
    assert!(result.is_ok(), "matching version should succeed: {result:?}");
}

#[test]
fn require_exact_dependency_rejects_version_mismatch() {
    let error = require_exact_dependency(&manifest(), "norma", "0.2.0")
        .expect_err("version mismatch must be rejected");
    assert!(error.contains("declares"));
    assert!(error.contains("0.1.0"));
    assert!(error.contains("0.2.0"));
}

#[test]
fn require_exact_dependency_rejects_missing_dependency() {
    let error = require_exact_dependency(&manifest(), "missing-dep", "0.1.0")
        .expect_err("missing dependency must be rejected");
    assert!(error.contains("not declared"));
    assert!(error.contains("missing-dep"));
}

#[test]
fn read_project_manifest_parses_strict_valid_manifest() {
    let manifest = project_manifest_from_text(
        r#"[package]
name = "demo"
version = "0.1.0"

[dependencies]
norma = "0.1.0"
"#,
        "faber.toml",
    )
    .expect("valid strict manifest must parse");
    assert_eq!(manifest.package.name, "demo");
    assert_eq!(manifest.dependencies.get("norma"), Some(&"0.1.0".to_owned()));
}

#[test]
fn read_project_manifest_falls_back_to_loose_parse_for_unknown_fields() {
    let manifest = project_manifest_from_text(
        r#"[package]
name = "demo"
version = "0.1.0"

future-section = true

[dependencies]
norma = "0.1.0"
"#,
        "faber.toml",
    )
    .expect("manifest with unknown top-level keys should fall back to loose parse");
    assert_eq!(manifest.package.name, "demo");
    assert_eq!(manifest.dependencies.get("norma"), Some(&"0.1.0".to_owned()));
}

#[test]
fn read_project_manifest_rejects_missing_package_section() {
    let error = project_manifest_from_text(
        r#"
[dependencies]
norma = "0.1.0"
"#,
        "faber.toml",
    )
    .expect_err("missing [package] must be rejected");
    assert!(error.contains("missing [package]"));
}

#[test]
fn read_project_manifest_rejects_missing_package_name() {
    let error = project_manifest_from_text(
        r#"
[package]
version = "0.1.0"

[dependencies]
norma = "0.1.0"
"#,
        "faber.toml",
    )
    .expect_err("missing package.name must be rejected");
    assert!(error.contains("package.name is required"));
}

#[test]
fn loose_parse_rejects_non_table_dependencies() {
    let error = project_manifest_from_text(
        r#"
dependencies = "norma"

[package]
name = "demo"
"#,
        "faber.toml",
    )
    .expect_err("dependencies must be a table");
    assert_eq!(error, "faber.toml [dependencies] must be a table");
}

#[test]
fn loose_parse_accepts_inline_dependency_versions() {
    let manifest = project_manifest_from_text(
        r#"
future-setting = true

[package]
name = "demo"

[dependencies]
norma = { version = "0.1.0" }
"#,
        "faber.toml",
    )
    .expect("parse forward-compatible manifest");
    assert_eq!(manifest.dependencies.get("norma"), Some(&"0.1.0".to_owned()));
}

#[test]
fn text_that_is_not_toml_is_invalid() {
    let error = project_manifest_from_text("garbage {{{", "faber.toml").expect_err("not TOML");
    assert!(error.starts_with("invalid faber.toml: "));
    assert!(error.len() > "invalid faber.toml: ".len());
}

#[test]
fn meta_role_is_read_from_the_text() {
    let meta = "[source]\npackage = \"meta-example\"\nversion = \"0.1.0\"\nrole = \"meta\"\n";
    assert_eq!(manifest_text_is_meta(meta, "cista.toml"), Ok(true));
    let regular = "[source]\npackage = \"demo\"\nversion = \"0.1.0\"\n";
    assert_eq!(manifest_text_is_meta(regular, "cista.toml"), Ok(false));
    let error = manifest_text_is_meta("garbage {{{", "cista.toml").expect_err("malformed");
    assert!(error.starts_with("failed to parse manifest cista.toml: "));
}

#[test]
fn strict_manifests_keep_their_other_tables() {
    let root = table(vec![
        ("build", table(vec![("out", text("dist"))])),
        ("package", table(vec![("name", text("demo"))])),
    ]);
    let manifest = project_manifest_from_toml(root, "faber.toml").unwrap();
    assert!(manifest.build.is_some());
    let loose = table(vec![
        ("build", table(vec![("out", text("dist"))])),
        ("extra", TomlValue::Integer(1)),
        ("package", table(vec![("name", text("demo"))])),
    ]);
    assert!(project_manifest_from_toml(loose, "faber.toml").unwrap().build.is_none());
    let bad = table(vec![
        ("dependencies", table(vec![("norma", TomlValue::Integer(1))])),
        ("package", table(vec![("name", text("demo"))])),
    ]);
    assert_eq!(
        project_manifest_from_toml(bad, "faber.toml").err().unwrap(),
        "faber.toml dependency `norma` must be an exact version string"
    );
}
