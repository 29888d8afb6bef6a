use cista::store::{
    find_installed, find_target_manifest, list_installed, split_package_id, store_root_from,
    validate_store_identity, validate_target_entries, InstalledPackage, PackageDirectory,
    TreeEntry,
};

fn dir(name: &str, versions: &[&str]) -> PackageDirectory {
    PackageDirectory {
        name: name.to_owned(),
        versions: versions.iter().map(|v| v.to_string()).collect(),
    }
}

#[test]
fn listing_skips_reserved_and_transaction_directories_and_sorts() {
    let dirs = vec![
        dir("zeta", &["1.0.0"]),
        dir(".cache", &["registry"]),
        dir("alpha", &["2.0.0", "1.0.0", "1.0.0.incoming-12-3"]),
    ];
    let packages = list_installed("/store", &dirs);
    let ids: Vec<String> = packages.iter().map(|p| format!("{}@{}", p.name, p.version)).collect();
    assert_eq!(ids, ["alpha@1.0.0", "alpha@2.0.0", "zeta@1.0.0"]);
    assert_eq!(packages[0].package_root, "/store/alpha/1.0.0");
    assert_eq!(packages[0].interfaces_dir, "/store/alpha/1.0.0/interfaces");
}

#[test]
fn package_ids_resolve_against_installed_versions() {
    let dirs = vec![dir("tool", &["1.0.0", "2.0.0"]), dir("solo", &["0.1.0"])];
    let installed = list_installed("/store", &dirs);
    assert_eq!(find_installed("/store", "solo", &installed).unwrap().version, "0.1.0");
    assert_eq!(find_installed("/store", "tool@2.0.0", &installed).unwrap().version, "2.0.0");
    assert_eq!(
        find_installed("/store", "tool", &installed).err().unwrap(),
        "package `tool` has multiple installed versions (1.0.0, 2.0.0); use `tool@<version>`"
    );
    assert_eq!(
        find_installed("/store", ".cache@registry", &installed).err().unwrap(),
        "package `.cache` is not installed in store /store"
    );
    assert_eq!(split_package_id("tool@1.0@x"), ("tool".to_owned(), Some("1.0@x".to_owned())));
    assert_eq!(split_package_id("tool"), ("tool".to_owned(), None));
}

#[test]
fn store_identities_must_be_path_segments() {
    assert!(validate_store_identity("tool", "1.0.0").is_ok());
    let errors = validate_store_identity("", "..").unwrap_err();
    assert_eq!(errors[0], "source.package must not be empty");
    assert!(validate_store_identity("a/b", "1").is_err());
}

fn tool() -> InstalledPackage {
    InstalledPackage {
        name: "tool".to_owned(),
        version: "1.0.0".to_owned(),
        package_root: "/store/tool/1.0.0".to_owned(),
        interfaces_dir: "/store/tool/1.0.0/interfaces".to_owned(),
        targets_dir: "/store/tool/1.0.0/targets".to_owned(),
    }
}

#[test]
fn target_trees_must_only_hold_the_package_manifests() {
    let good = vec![
        TreeEntry::Directory("/t/rust".to_owned()),
        TreeEntry::Manifest("/t/rust/cista.toml".to_owned(), Ok(("tool".to_owned(), "1.0.0".to_owned()))),
        TreeEntry::File("/t/rust/libtool.rlib".to_owned()),
    ];
    assert!(validate_target_entries(&tool(), &good).is_ok());
    assert_eq!(find_target_manifest(&tool(), &good).unwrap(), Some(1));

    let foreign = vec![
        TreeEntry::Manifest("/t/rust/cista.toml".to_owned(), Ok(("other".to_owned(), "1.0.0".to_owned()))),
        TreeEntry::Symlink("/t/link".to_owned()),
    ];
    assert_eq!(
        validate_target_entries(&tool(), &foreign).unwrap_err(),
        "installed package identity mismatch: directory `tool@1.0.0` contains target manifest /t/rust/cista.toml for `other@1.0.0`"
    );
    let linked = vec![TreeEntry::Symlink("/t/link".to_owned())];
    assert_eq!(
        find_target_manifest(&tool(), &linked).unwrap_err(),
        "installed package contains unsupported symlink /t/link"
    );
    assert_eq!(find_target_manifest(&tool(), &Vec::new()).unwrap(), None);
}

#[test]
fn store_root_prefers_explicit_then_environment_then_home() {
    assert_eq!(store_root_from(Some("/s"), Some("/e"), Some("/h")).unwrap(), ("/s".to_owned(), true));
    assert_eq!(store_root_from(None, Some("/e"), Some("/h")).unwrap(), ("/e".to_owned(), true));
    assert_eq!(store_root_from(None, None, Some("/h")).unwrap(), ("/h/.faber/cistae".to_owned(), false));
    assert!(store_root_from(None, None, None).is_err());
}
