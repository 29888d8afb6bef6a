//! Registry rules: exact package pins, where fetched packages are cached,
//! which identities an archive or registry copy must carry, and where a local
//! registry may sit relative to the package being published.

use vstd::prelude::*;
use crate::paths::{join_path, path_join, path_starts_with, starts_with_components};
use crate::registry_http::join_strings;
use crate::store::{identity_diagnostics, join_texts, package_id_parts, split_package_id, validate_store_identity};
use crate::text::{chars_of, matches_at, starts_with, text_eq};

verus! {

broadcast use vstd::string::group_string_axioms;

/// Environment variable naming the local registry root.
pub const REGISTRY_ENV: &'static str = "CISTA_REGISTRY";

/// What reading an exact `name@version` registry pin gives.
pub open spec fn exact_pin(id: Seq<char>) -> Result<(Seq<char>, Seq<char>), Seq<char>> {
    let (name, version) = package_id_parts(id);
    let pin_error = "registry package `"@ + id + "` must use an exact name@version pin"@;
    match version {
        None => Err(pin_error),
        Some(v) => if name.len() == 0 || v.len() == 0 {
            Err(pin_error)
        } else if identity_diagnostics(name, v).len() > 0 {
            Err(join_texts(identity_diagnostics(name, v), "; "@))
        } else {
            Ok((name, v))
        },
    }
}

/// Read an exact `name@version` registry pin.
pub fn exact_identity(package_id: &str) -> (r: Result<(String, String), String>)
    ensures
        match (r, exact_pin(package_id@)) {
            (Ok((n, v)), Ok((a, b))) => n@ == a && v@ == b,
            (Err(e), Err(m)) => e@ == m,
            _ => false,
        },
{
    let (name, version) = split_package_id(package_id);
    let version = match version {
        Some(v) => v,
        None => {
            let mut m = "registry package `".to_owned();
            m.append(package_id);
            m.append("` must use an exact name@version pin");
            return Err(m);
        },
    };
    if chars_of(name.as_str()).len() == 0 || chars_of(version.as_str()).len() == 0 {
        let mut m = "registry package `".to_owned();
        m.append(package_id);
        m.append("` must use an exact name@version pin");
        return Err(m);
    }
    match validate_store_identity(name.as_str(), version.as_str()) {
        Err(diagnostics) => Err(join_strings(&diagnostics, "; ")),
        Ok(()) => Ok((name, version)),
    }
}

/// Where a fetched registry package is cached in the store:
/// `<store>/.cache/registry/<name>/<version>`.
pub open spec fn cache_dir(store_root: Seq<char>, name: Seq<char>, version: Seq<char>) -> Seq<char> {
    path_join(path_join(path_join(path_join(store_root, ".cache"@), "registry"@), name), version)
}

/// The cache directory of a fetched package.
pub fn cache_destination(store_root: &str, name: &str, version: &str) -> (p: String)
    ensures
        p@ == cache_dir(store_root@, name@, version@),
{
    let a = join_path(store_root, ".cache");
    let b = join_path(&a, "registry");
    let c = join_path(&b, name);
    join_path(&c, version)
}

/// A downloaded archive must declare the identity that was requested.
pub fn check_archive_identity(
    name: &str,
    version: &str,
    archive_name: &str,
    archive_version: &str,
) -> (r: Result<(), String>)
    ensures
        (name@ == archive_name@ && version@ == archive_version@) ==> r is Ok,
        !(name@ == archive_name@ && version@ == archive_version@) ==> r is Err && r->Err_0@
            == "remote package `"@ + name@ + "@"@ + version@ + "` archive declares `"@
            + archive_name@ + "@"@ + archive_version@ + "`"@,
{
    if text_eq(name, archive_name) && text_eq(version, archive_version) {
        return Ok(());
    }
    let mut m = "remote package `".to_owned();
    m.append(name);
    m.append("@");
    m.append(version);
    m.append("` archive declares `");
    m.append(archive_name);
    m.append("@");
    m.append(archive_version);
    m.append("`");
    Err(m)
}

/// A package copied from a local registry must declare the requested identity.
pub fn check_registry_identity(
    name: &str,
    version: &str,
    declared_name: &str,
    declared_version: &str,
) -> (r: Result<(), String>)
    ensures
        (name@ == declared_name@ && version@ == declared_version@) ==> r is Ok,
        !(name@ == declared_name@ && version@ == declared_version@) ==> r is Err && r->Err_0@
            == "registry package `"@ + name@ + "@"@ + version@ + "` declares `"@ + declared_name@
            + "@"@ + declared_version@ + "`"@,
{
    if text_eq(name, declared_name) && text_eq(version, declared_version) {
        return Ok(());
    }
    let mut m = "registry package `".to_owned();
    m.append(name);
    m.append("@");
    m.append(version);
    m.append("` declares `");
    m.append(declared_name);
    m.append("@");
    m.append(declared_version);
    m.append("`");
    Err(m)
}

/// A resolved registry package path must stay inside the resolved registry.
pub fn verify_registry_package_path(registry: &str, package: &str) -> (r: Result<(), String>)
    ensures
        starts_with_components(package@, registry@) ==> r is Ok,
        !starts_with_components(package@, registry@) ==> r is Err && r->Err_0@
            == "local registry package "@ + package@ + " resolves outside registry "@ + registry@,
{
    if path_starts_with(package, registry) {
        return Ok(());
    }
    let mut m = "local registry package ".to_owned();
    m.append(package);
    m.append(" resolves outside registry ");
    m.append(registry);
    Err(m)
}

/// Where a published package goes in a local registry, once the registry
/// root is resolved and kept out of the package being published.
pub open spec fn publish_target(
    registry: Seq<char>,
    package_root: Seq<char>,
    name: Seq<char>,
    version: Seq<char>,
) -> Result<Seq<char>, Seq<char>> {
    let destination = path_join(path_join(registry, name), version);
    if starts_with_components(registry, package_root) {
        Err(
            "local registry "@ + registry + " cannot be inside published package "@ + package_root,
        )
    } else if starts_with_components(destination, package_root) {
        Err(
            "local registry destination "@ + destination + " cannot be inside published package "@
                + package_root,
        )
    } else {
        Ok(destination)
    }
}

/// The destination of a package published to a local registry: the registry
/// must not lie inside the package, nor may the destination.
pub fn publish_destination(registry: &str, package_root: &str, name: &str, version: &str) -> (r:
    Result<String, String>)
    ensures
        match (r, publish_target(registry@, package_root@, name@, version@)) {
            (Ok(d), Ok(e)) => d@ == e,
            (Err(e), Err(m)) => e@ == m,
            _ => false,
        },
{
    if path_starts_with(registry, package_root) {
        let mut m = "local registry ".to_owned();
        m.append(registry);
        m.append(" cannot be inside published package ");
        m.append(package_root);
        return Err(m);
    }
    let a = join_path(registry, name);
    let destination = join_path(&a, version);
    if path_starts_with(destination.as_str(), package_root) {
        let mut m = "local registry destination ".to_owned();
        m.append(destination.as_str());
        m.append(" cannot be inside published package ");
        m.append(package_root);
        return Err(m);
    }
    Ok(destination)
}

/// A failed copy into an existing registry destination means the published
/// version already exists; other copy errors are passed on.
pub fn publish_copy_error(error: &str, destination: &str) -> (r: String)
    ensures
        starts_with(error@, "directory already exists:"@) ==> r@
            == "registry package already exists and is immutable: "@ + destination@,
        !starts_with(error@, "directory already exists:"@) ==> r@ == error@,
{
    let v = chars_of(error);
    let prefix = chars_of("directory already exists:");
    if matches_at(&v, &prefix, 0) {
        let mut m = "registry package already exists and is immutable: ".to_owned();
        m.append(destination);
        m
    } else {
        error.to_owned()
    }
}

/// The outcome of an install followed by the removal of its staging
/// directory: both errors when both fail, else whichever failed.
pub fn with_cleanup(install: Result<(), String>, cleanup: Result<(), String>) -> (r: Result<
    (),
    String,
>)
    ensures
        match (install, cleanup) {
            (Ok(()), Ok(())) => r is Ok,
            (Err(a), Err(b)) => r is Err && r->Err_0@ == a@ + "; "@ + b@,
            (Err(a), Ok(())) => r is Err && r->Err_0@ == a@,
            (Ok(()), Err(b)) => r is Err && r->Err_0@ == b@,
        },
{
    match (install, cleanup) {
        (Ok(()), Ok(())) => Ok(()),
        (Err(a), Err(b)) => {
            let mut m = a;
            m.append("; ");
            m.append(b.as_str());
            Err(m)
        },
        (Err(a), Ok(())) => Err(a),
        (Ok(()), Err(b)) => Err(b),
    }
}

/// The message when no registry credentials are stored for an origin.
pub fn missing_credentials(origin: &str) -> (m: String)
    ensures
        m@ == "no registry credentials stored for "@ + origin@ + "; run `cista login`"@,
{
    let mut m = "no registry credentials stored for ".to_owned();
    m.append(origin);
    m.append("; run `cista login`");
    m
}

/// The local registry root: `--registry`, else `CISTA_REGISTRY`.
pub fn registry_root_from(explicit: Option<&str>, from_env: Option<&str>) -> (r: Result<
    String,
    String,
>)
    ensures
        match (explicit, from_env) {
            (Some(p), _) => r is Ok && r->Ok_0@ == p@,
            (None, Some(p)) => r is Ok && r->Ok_0@ == p@,
            (None, None) => r is Err && r->Err_0@
                == "local registry is not configured; pass --registry or set CISTA_REGISTRY"@,
        },
{
    match (explicit, from_env) {
        (Some(p), _) => Ok(p.to_owned()),
        (None, Some(p)) => Ok(p.to_owned()),
        (None, None) => Err(
            "local registry is not configured; pass --registry or set CISTA_REGISTRY".to_owned(),
        ),
    }
}

} // verus!
