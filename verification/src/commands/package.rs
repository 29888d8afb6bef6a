//! Package inspection: which files are Faber interfaces, and how runtime
//! bindings are listed.

use vstd::prelude::*;
use crate::manifest::{
    binding_policy_name, package_role_name, source_kind_name, target_mode_name, Binding,
    CistaManifest,
};
use crate::paths::{components, extension, extension_of, file_name, file_name_of, path_components, Component, PathPart};
use crate::store::views;
use crate::text::{chars_eq, chars_of, concat, decimal, decimal_string};

verus! {

/// A package file is a Faber interface: it lies under the package's top-level
/// `interfaces` directory and has the `fab` extension.
pub open spec fn interface_path(p: Seq<char>) -> bool {
    let cs = components(p);
    &&& cs.len() >= 2
    &&& cs[0] == Component::Normal("interfaces"@)
    &&& file_name(p) matches Some(name) && extension_of(name) == Some("fab"@)
}

/// Whether a package-relative path is a Faber interface file.
pub fn is_interface_file(path: &str) -> (b: bool)
    ensures
        b == interface_path(path@),
{
    let p = chars_of(path);
    let cs = path_components(&p);
    proof {
        reveal_strlit("interfaces");
        reveal_strlit("fab");
    }
    if cs.len() < 2 {
        return false;
    }
    let ghost m = cs@.map_values(|c: PathPart| c@);
    assert(m[0] == cs@[0]@);
    let first = match &cs[0] {
        PathPart::Normal(name) => chars_eq(name, &chars_of("interfaces")),
        _ => false,
    };
    if !first {
        return false;
    }
    match file_name_of(&p) {
        Some(name) => match extension(&name) {
            Some(e) => chars_eq(&e, &chars_of("fab")),
            None => false,
        },
        None => false,
    }
}

/// The interface files among `files`, in order.
pub open spec fn interfaces_among(files: Seq<Seq<char>>) -> Seq<Seq<char>> {
    files.filter(|f: Seq<char>| interface_path(f))
}

/// The interface files among a package's files, in order.
pub fn interface_files(files: Vec<String>) -> (r: Vec<String>)
    ensures
        views(r@) == interfaces_among(views(files@)),
{
    let mut r: Vec<String> = Vec::new();
    let mut i: usize = 0;
    while i < files.len()
        invariant
            i <= files.len(),
            views(r@) == interfaces_among(views(files@).take(i as int)),
        decreases files.len() - i,
    {
        proof {
            reveal(Seq::filter);
            let vs = views(files@);
            assert(vs.take(i + 1).drop_last() =~= vs.take(i as int));
            assert(vs.take(i + 1).last() == files@[i as int]@);
        }
        let ghost before = r@;
        if is_interface_file(files[i].as_str()) {
            r.push(files[i].clone());
            proof {
                assert(views(r@) =~= views(before).push(files@[i as int]@));
            }
        }
        i = i + 1;
    }
    assert(views(files@).take(files.len() as int) =~= views(files@));
    r
}

/// The inspection line of a binding: `module#symbol -> target`.
pub open spec fn binding_line(b: Binding) -> Seq<char> {
    b.source_module@ + "#"@ + b.source_symbol@ + " -> "@ + b.target@
}

/// One inspection line per runtime binding, in order.
pub fn runtime_binding_lines(bindings: &[Binding]) -> (r: Vec<String>)
    ensures
        views(r@) == bindings@.map_values(|b: Binding| binding_line(b)),
{
    let mut r: Vec<String> = Vec::new();
    let mut i: usize = 0;
    while i < bindings.len()
        invariant
            i <= bindings@.len(),
            views(r@) == bindings@.take(i as int).map_values(|b: Binding| binding_line(b)),
        decreases bindings@.len() - i,
    {
        let b = &bindings[i];
        let mut line = b.source_module.clone();
        line.append("#");
        line.append(b.source_symbol.as_str());
        line.append(" -> ");
        line.append(b.target.as_str());
        let ghost before = r@;
        r.push(line);
        proof {
            assert(views(r@) =~= views(before).push(binding_line(bindings@[i as int])));
            assert(bindings@.take(i + 1).map_values(|b: Binding| binding_line(b)) =~= bindings@.take(
                i as int,
            ).map_values(|b: Binding| binding_line(b)).push(binding_line(bindings@[i as int])));
        }
        i = i + 1;
    }
    assert(bindings@.take(bindings@.len() as int) =~= bindings@);
    r
}

/// The summary lines of a manifest, as `inspect` prints them.
pub open spec fn summary_lines(m: CistaManifest) -> Seq<Seq<char>> {
    seq![
        "package: "@ + m.source.package@,
        "version: "@ + m.source.version@,
        "kind: "@ + source_kind_name(m.source.kind),
        "target.language: "@ + m.target.language@,
        "target.mode: "@ + target_mode_name(m.target.mode),
        "binding_policy: "@ + binding_policy_name(m.target.binding_policy),
        "bindings: "@ + decimal(m.bindings@.len()),
    ]
}

/// The summary lines of a manifest.
pub fn manifest_summary_lines(manifest: &CistaManifest) -> (lines: Vec<String>)
    ensures
        views(lines@) == summary_lines(*manifest),
{
    let mut lines: Vec<String> = Vec::new();
    lines.push(concat("package: ", manifest.source.package.as_str()));
    lines.push(concat("version: ", manifest.source.version.as_str()));
    lines.push(concat("kind: ", manifest.source.kind.kebab_name()));
    lines.push(concat("target.language: ", manifest.target.language.as_str()));
    lines.push(concat("target.mode: ", manifest.target.mode.kebab_name()));
    lines.push(concat("binding_policy: ", manifest.target.binding_policy.kebab_name()));
    let count = decimal_string(manifest.bindings.len());
    lines.push(concat("bindings: ", count.as_str()));
    assert(views(lines@) =~= summary_lines(*manifest));
    lines
}

/// The line `check` prints for a valid package.
pub fn check_summary(manifest: &CistaManifest) -> (line: String)
    ensures
        line@ == "ok: "@ + manifest.source.package@ + " "@ + manifest.source.version@ + " ("@
            + source_kind_name(manifest.source.kind) + " "@ + package_role_name(
            manifest.source.role,
        ) + ", target "@ + manifest.target.language@ + ", binding policy "@
            + binding_policy_name(manifest.target.binding_policy) + ")"@,
{
    let mut line = "ok: ".to_owned();
    line.append(manifest.source.package.as_str());
    line.append(" ");
    line.append(manifest.source.version.as_str());
    line.append(" (");
    line.append(manifest.source.kind.kebab_name());
    line.append(" ");
    line.append(manifest.source.role.kebab_name());
    line.append(", target ");
    line.append(manifest.target.language.as_str());
    line.append(", binding policy ");
    line.append(manifest.target.binding_policy.kebab_name());
    line.append(")");
    line
}

} // verus!
