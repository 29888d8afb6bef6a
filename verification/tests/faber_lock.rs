use cista::faber_lock::{
    lock_path, locked_from_install, ordered_lock, upsert_package, FaberLock, InstalledLockInput,
    LockedPackage,
};

fn package(name: &str, version: &str) -> LockedPackage {
    LockedPackage {
        name: name.to_owned(),
        version: version.to_owned(),
        source: format!("path:/sources/{name}"),
        package_root: format!("/store/{name}/{version}"),
        kind: "lib".to_owned(),
        target_language: "rust".to_owned(),
        target_triple: "test-target".to_owned(),
        target_manifest: format!("/store/{name}/{version}/targets/rust/test-target/cista.toml"),
        interface_root: format!("/store/{name}/{version}/interfaces"),
        artifact: String::new(),
        crate_name: name.to_owned(),
        rustc: "rustc test".to_owned(),
    }
}

#[test]
fn upsert_package_replaces_only_the_matching_name() {
    let mut lock = FaberLock {
        packages: vec![package("alpha", "1.0.0"), package("beta", "1.0.0")],
    };

    upsert_package(&mut lock, package("alpha", "2.0.0"));

    assert_eq!(lock.packages, vec![package("alpha", "2.0.0"), package("beta", "1.0.0")]);
}

#[test]
fn upsert_package_removes_duplicate_matching_names() {
    let mut duplicate = package("tool", "0.9.0");
    duplicate.package_root = "/malformed/stale/tool".to_owned();
    duplicate.target_manifest = "/malformed/stale/tool/cista.toml".to_owned();
    let mut lock = FaberLock {
        packages: vec![
            package("alpha", "1.0.0"),
            package("tool", "1.0.0"),
            package("beta", "1.0.0"),
            duplicate,
            package("tool", "1.1.0"),
        ],
    };

    upsert_package(&mut lock, package("tool", "2.0.0"));

    assert_eq!(
        lock.packages,
        vec![package("alpha", "1.0.0"), package("tool", "2.0.0"), package("beta", "1.0.0")]
    );
}

#[test]
fn upsert_appends_a_new_name_and_is_idempotent() {
    let mut lock = FaberLock::default();
    upsert_package(&mut lock, package("zeta", "1.0.0"));
    upsert_package(&mut lock, package("alpha", "1.0.0"));
    assert_eq!(lock.packages, vec![package("zeta", "1.0.0"), package("alpha", "1.0.0")]);
    let once = lock.packages.clone();
    upsert_package(&mut lock, package("alpha", "1.0.0"));
    assert_eq!(lock.packages, once);
}

#[test]
fn write_order_is_by_name_then_version() {
    let lock = FaberLock {
        packages: vec![package("zeta", "1.0.0"), package("alpha", "2.0.0"), package("alpha", "1.0.0")],
    };
    let ordered = ordered_lock(&lock);
    assert_eq!(
        ordered.packages,
        vec![package("alpha", "1.0.0"), package("alpha", "2.0.0"), package("zeta", "1.0.0")]
    );
}

#[test]
fn lock_records_point_into_the_store() {
    let record = locked_from_install(InstalledLockInput {
        name: "tool",
        version: "1.2.3",
        source_path: "/src/tool",
        package_store_root: "/store/tool/1.2.3",
        target_language: "rust",
        target_triple: "host",
        artifact_name: "libtool.rlib",
        crate_name: "tool",
        rustc: "1.88.0",
        kind: "source",
        has_artifact: true,
    });
    assert_eq!(record.source, "path:/src/tool");
    assert_eq!(record.target_manifest, "/store/tool/1.2.3/targets/rust/host/cista.toml");
    assert_eq!(record.interface_root, "/store/tool/1.2.3/interfaces");
    assert_eq!(record.artifact, "/store/tool/1.2.3/targets/rust/host/libtool.rlib");

    let interfaces_only = locked_from_install(InstalledLockInput {
        name: "tool",
        version: "1.2.3",
        source_path: "/src/tool",
        package_store_root: "/store/tool/1.2.3",
        target_language: "rust",
        target_triple: "host",
        artifact_name: "",
        crate_name: "tool",
        rustc: "1.88.0",
        kind: "source",
        has_artifact: false,
    });
    assert_eq!(interfaces_only.artifact, "");
    assert_eq!(lock_path("/project"), "/project/faber.lock");
}

#[test]
fn lock_records_keep_unresolved_paths_as_given() {
    let record = locked_from_install(InstalledLockInput {
        name: "tool",
        version: "1.2.3",
        source_path: "pkg/tool",
        package_store_root: "store/tool/1.2.3",
        target_language: "rust",
        target_triple: "host",
        artifact_name: "",
        crate_name: "tool",
        rustc: "1.88.0",
        kind: "source",
        has_artifact: false,
    });
    assert_eq!(record.source, "path:pkg/tool");
    assert_eq!(record.package_root, "store/tool/1.2.3");
    assert_eq!(record.target_manifest, "store/tool/1.2.3/targets/rust/host/cista.toml");
    assert_eq!(record.artifact, "");
}
