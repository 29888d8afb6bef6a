//! Running installed binary packages: which installed target may be run, and
//! where its executable lies.

use vstd::prelude::*;
use crate::commands::rust_target::RUST_LANGUAGE;
use crate::manifest::{package_role_name, CistaManifest, PackageRole};
use crate::paths::{components, join_path, path_components, path_join};
use crate::text::{chars_of, text_eq};

verus! {

/// The installed Rust target directory for a host: `<targets>/rust/<host>`.
pub fn runnable_target_root(targets_dir: &str, host: &str) -> (p: String)
    ensures
        p@ == path_join(path_join(targets_dir@, RUST_LANGUAGE@), host@),
{
    let rust = join_path(targets_dir, RUST_LANGUAGE);
    join_path(&rust, host)
}

/// What locating the executable of an installed package gives.
pub open spec fn executable_for(m: CistaManifest, target_root: Seq<char>, host: Seq<char>) -> Result<
    Seq<char>,
    Seq<char>,
> {
    let id = m.source.package@ + "@"@ + m.source.version@;
    if m.source.role != PackageRole::Bin {
        Err(
            "package `"@ + id + "` has role `"@ + package_role_name(m.source.role)
                + "`; only `bin` packages can be run"@,
        )
    } else if m.target.language@ != RUST_LANGUAGE@ || !(m.target.triple matches Some(t) && t@
        == host) {
        Err("package `"@ + id + "` target metadata does not match Rust host `"@ + host + "`"@)
    } else {
        match m.target.artifact {
            None => Err("installed binary manifest is missing target.artifact"@),
            Some(a) => if components(a@).len() != 1 {
                Err("installed binary artifact must be a file name, got `"@ + a@ + "`"@)
            } else {
                Ok(path_join(target_root, a@))
            },
        }
    }
}

/// The executable of an installed binary package: only a `bin` package whose
/// Rust target was built for `host` and names its artifact by a bare file name
/// can be run. Whether the file exists is for the caller to check.
pub fn executable_path(installed: &CistaManifest, target_root: &str, host: &str) -> (r: Result<
    String,
    String,
>)
    ensures
        match (r, executable_for(*installed, target_root@, host@)) {
            (Ok(p), Ok(q)) => p@ == q,
            (Err(e), Err(m)) => e@ == m,
            _ => false,
        },
{
    let mut id = installed.source.package.clone();
    id.append("@");
    id.append(installed.source.version.as_str());
    if installed.source.role != PackageRole::Bin {
        let mut m = "package `".to_owned();
        m.append(id.as_str());
        m.append("` has role `");
        m.append(installed.source.role.kebab_name());
        m.append("`; only `bin` packages can be run");
        return Err(m);
    }
    let triple_ok = match &installed.target.triple {
        Some(t) => text_eq(t.as_str(), host),
        None => false,
    };
    if !text_eq(installed.target.language.as_str(), RUST_LANGUAGE) || !triple_ok {
        let mut m = "package `".to_owned();
        m.append(id.as_str());
        m.append("` target metadata does not match Rust host `");
        m.append(host);
        m.append("`");
        return Err(m);
    }
    let artifact = match &installed.target.artifact {
        Some(a) => a,
        None => {
            return Err("installed binary manifest is missing target.artifact".to_owned());
        },
    };
    let parts = path_components(&chars_of(artifact.as_str()));
    if parts.len() != 1 {
        let mut m = "installed binary artifact must be a file name, got `".to_owned();
        m.append(artifact.as_str());
        m.append("`");
        return Err(m);
    }
    Ok(join_path(target_root, artifact.as_str()))
}

} // verus!
