//! Rust target support: which packages can be build-checked, how cargo is
//! invoked, and what the Rust toolchain reports about itself.

use vstd::prelude::*;
use crate::commands::shared::pieces_on;
use crate::manifest::{CistaManifest, PackageRole, TargetMode};
use crate::paths::{join_path, path_join};
use crate::store::views;
use crate::text::{
    chars_of, is_whitespace, is_whitespace_char, matches_at, starts_with, string_of,
    sub_chars, text_eq,
};

verus! {

broadcast use vstd::string::group_string_axioms;

/// The target language this crate can build.
pub const RUST_LANGUAGE: &'static str = "rust";

/// The pieces of `v` between `sep` characters, including empty pieces.
pub fn split_pieces(v: &Vec<char>, sep: char) -> (r: Vec<Vec<char>>)
    ensures
        r@.map_values(|p: Vec<char>| p@) == pieces_on(v@, sep),
{
    let mut r: Vec<Vec<char>> = Vec::new();
    let mut current: Vec<char> = Vec::new();
    let mut i: usize = 0;
    proof {
        assert(v@.take(0) =~= Seq::<char>::empty());
        assert(pieces_on(Seq::<char>::empty(), sep) == seq![Seq::<char>::empty()]);
        assert(r@.map_values(|p: Vec<char>| p@).push(current@) =~= pieces_on(v@.take(0), sep));
    }
    while i < v.len()
        invariant
            i <= v.len(),
            r@.map_values(|p: Vec<char>| p@).push(current@) == pieces_on(v@.take(i as int), sep),
        decreases v.len() - i,
    {
        let ghost before = r@.map_values(|p: Vec<char>| p@);
        let ghost cur = current@;
        proof {
            assert(v@.take(i + 1).drop_last() =~= v@.take(i as int));
            assert(v@.take(i + 1).last() == v@[i as int]);
        }
        if v[i] == sep {
            let done = current;
            current = Vec::new();
            r.push(done);
            proof {
                assert(r@.map_values(|p: Vec<char>| p@) =~= before.push(cur));
                assert(r@.map_values(|p: Vec<char>| p@).push(current@) =~= before.push(cur).push(
                    Seq::empty(),
                ));
            }
        } else {
            current.push(v[i]);
            proof {
                assert(r@.map_values(|p: Vec<char>| p@) =~= before);
                assert(before.push(cur).update(before.len() as int, cur.push(v@[i as int]))
                    =~= before.push(cur.push(v@[i as int])));
            }
        }
        i = i + 1;
    }
    assert(v@.take(v.len() as int) =~= v@);
    let ghost before = r@.map_values(|p: Vec<char>| p@);
    r.push(current);
    assert(r@.map_values(|p: Vec<char>| p@) =~= before.push(r@.last()@));
    r
}

/// The diagnostic, if any, that keeps a package from being build-checked.
pub open spec fn build_check_diagnostics(m: CistaManifest) -> Seq<Seq<char>> {
    if m.target.language@ != RUST_LANGUAGE@ {
        seq![
            "--verify-target-build is only implemented for target.language = `rust`; got `"@
                + m.target.language@ + "`"@,
        ]
    } else if m.target.mode != TargetMode::Compile {
        seq!["--verify-target-build requires target.mode = `compile`"@]
    } else if m.target.source is None {
        seq![
            "--verify-target-build has nothing to check: package has no target.source (interfaces-only)"@,
        ]
    } else {
        Seq::empty()
    }
}

/// Decide whether a package's Rust target can be build-checked. Reasons it
/// cannot are appended to `diagnostics`; when it can and its resolved source
/// directory is known, that directory is returned for `cargo check`.
pub fn verify_target_build(
    manifest: &CistaManifest,
    target_source: Option<&str>,
    diagnostics: &mut Vec<String>,
) -> (r: Option<String>)
    ensures
        views(final(diagnostics)@) == views(old(diagnostics)@) + build_check_diagnostics(
            *manifest,
        ),
        match r {
            Some(dir) => build_check_diagnostics(*manifest).len() == 0 && (target_source
                matches Some(ts) && dir@ == ts@),
            None => build_check_diagnostics(*manifest).len() > 0 || target_source is None,
        },
{
    let ghost before = views(diagnostics@);
    proof {
        reveal_strlit("rust");
    }
    if !text_eq(manifest.target.language.as_str(), RUST_LANGUAGE) {
        let mut m = "--verify-target-build is only implemented for target.language = `rust`; got `".to_owned();
        m.append(manifest.target.language.as_str());
        m.append("`");
        diagnostics.push(m);
        assert(views(diagnostics@) =~= before + build_check_diagnostics(*manifest));
        return None;
    }
    if manifest.target.mode != TargetMode::Compile {
        diagnostics.push("--verify-target-build requires target.mode = `compile`".to_owned());
        assert(views(diagnostics@) =~= before + build_check_diagnostics(*manifest));
        return None;
    }
    if manifest.target.source.is_none() {
        diagnostics.push(
            "--verify-target-build has nothing to check: package has no target.source (interfaces-only)".to_owned(),
        );
        assert(views(diagnostics@) =~= before + build_check_diagnostics(*manifest));
        return None;
    }
    assert(views(diagnostics@) =~= before + build_check_diagnostics(*manifest));
    match target_source {
        Some(ts) => Some(ts.to_owned()),
        None => None,
    }
}

/// The crate a package builds: `target.crate`, else the package name.
pub open spec fn crate_of(m: CistaManifest) -> Seq<char> {
    match m.target.crate_name {
        Some(c) => c@,
        None => m.source.package@,
    }
}

/// `-` replaced by `_`, as cargo names library files.
pub open spec fn underscored(s: Seq<char>) -> Seq<char> {
    s.map_values(|c: char| if c == '-' { '_' } else { c })
}

/// What cargo is asked to build, and the file it produces.
#[derive(Debug)]
pub struct CargoBuild {
    pub args: Vec<String>,
    pub artifact_name: String,
}

/// The cargo arguments and artifact file name for a package's role.
pub open spec fn build_plan(m: CistaManifest, args: Seq<Seq<char>>, artifact: Seq<char>) -> bool {
    match m.source.role {
        PackageRole::Lib => args == seq!["build"@, "--lib"@] && artifact == "lib"@ + underscored(
            crate_of(m),
        ) + ".rlib"@,
        PackageRole::Bin => args == seq!["build"@, "--bin"@, crate_of(m)] && artifact == crate_of(
            m,
        ),
    }
}

/// Plan the cargo build of a package's Rust target: a library builds
/// `lib<crate>.rlib` (with `-` spelled `_`), a binary builds its crate.
pub fn cargo_build_plan(manifest: &CistaManifest) -> (r: CargoBuild)
    ensures
        build_plan(*manifest, views(r.args@), r.artifact_name@),
{
    let crate_name = match &manifest.target.crate_name {
        Some(c) => c.clone(),
        None => manifest.source.package.clone(),
    };
    match manifest.source.role {
        PackageRole::Lib => {
            let v = chars_of(crate_name.as_str());
            let mut name: Vec<char> = vec!['l', 'i', 'b'];
            let mut i: usize = 0;
            while i < v.len()
                invariant
                    i <= v.len(),
                    name@ == seq!['l', 'i', 'b'] + underscored(v@.take(i as int)),
                decreases v.len() - i,
            {
                name.push(if v[i] == '-' { '_' } else { v[i] });
                i = i + 1;
                assert(name@ =~= seq!['l', 'i', 'b'] + underscored(v@.take(i as int)));
            }
            assert(v@.take(v.len() as int) =~= v@);
            let mut artifact_name = string_of(&name);
            artifact_name.append(".rlib");
            assert(v@ == crate_of(*manifest));
            assert(artifact_name@ =~= seq!['l', 'i', 'b'] + underscored(v@) + ".rlib"@);
            let args = vec!["build".to_owned(), "--lib".to_owned()];
            proof {
                reveal_strlit("lib");
                assert(views(args@) =~= seq!["build"@, "--lib"@]);
                assert("lib"@ =~= seq!['l', 'i', 'b']);
                assert(artifact_name@ == "lib"@ + underscored(crate_of(*manifest)) + ".rlib"@);
            }
            CargoBuild { args, artifact_name }
        },
        PackageRole::Bin => {
            let args = vec!["build".to_owned(), "--bin".to_owned(), crate_name.clone()];
            assert(views(args@) =~= seq!["build"@, "--bin"@, crate_name@]);
            CargoBuild { args, artifact_name: crate_name }
        },
    }
}

/// The cargo manifest of a package's Rust target and the target source path
/// as the manifest spells it.
pub fn rust_cargo_paths(package_root: &str, manifest: &CistaManifest) -> (r: Result<
    (String, String),
    String,
>)
    ensures
        match manifest.target.source {
            None => r is Err && r->Err_0@ == "rust target requires target.source"@,
            Some(src) => r is Ok && r->Ok_0.0@ == path_join(
                path_join(package_root@, src@),
                "Cargo.toml"@,
            ) && r->Ok_0.1@ == src@,
        },
{
    match &manifest.target.source {
        None => Err("rust target requires target.source".to_owned()),
        Some(src) => {
            let dir = join_path(package_root, src.as_str());
            Ok((join_path(&dir, "Cargo.toml"), src.clone()))
        },
    }
}

/// The argument list of a cargo run: the subcommand, then
/// `--manifest-path <cargo_toml>`, then the remaining arguments (cargo rejects
/// a global `--manifest-path` before the subcommand).
pub fn cargo_invocation(cargo_toml: &str, cargo_args: &Vec<String>, label: &str) -> (r: Result<
    Vec<String>,
    String,
>)
    ensures
        cargo_args@.len() == 0 ==> r is Err && r->Err_0@ == label@
            + ": cargo_args must include a subcommand"@,
        cargo_args@.len() > 0 ==> r is Ok && views(r->Ok_0@) == seq![
            cargo_args@[0]@,
            "--manifest-path"@,
            cargo_toml@,
        ] + views(cargo_args@).skip(1),
{
    if cargo_args.len() == 0 {
        let mut m = label.to_owned();
        m.append(": cargo_args must include a subcommand");
        return Err(m);
    }
    let mut out = vec![cargo_args[0].clone(), "--manifest-path".to_owned(), cargo_toml.to_owned()];
    let mut i: usize = 1;
    proof {
        assert(views(cargo_args@).skip(1).take(0) =~= Seq::<Seq<char>>::empty());
    }
    while i < cargo_args.len()
        invariant
            1 <= i <= cargo_args.len(),
            views(out@) == seq![cargo_args@[0]@, "--manifest-path"@, cargo_toml@] + views(
                cargo_args@,
            ).skip(1).take(i - 1),
        decreases cargo_args.len() - i,
    {
        let ghost before = views(out@);
        out.push(cargo_args[i].clone());
        proof {
            assert(views(out@) =~= before.push(cargo_args@[i as int]@));
            assert(views(cargo_args@).skip(1).take(i as int) =~= views(cargo_args@).skip(1).take(
                i - 1,
            ).push(cargo_args@[i as int]@));
        }
        i = i + 1;
    }
    assert(views(cargo_args@).skip(1).take(cargo_args.len() - 1) =~= views(cargo_args@).skip(1));
    Ok(out)
}

/// Where `cargo build` leaves an artifact:
/// `<package root>/<target source>/target/debug/<artifact>`.
pub fn built_artifact_path(package_root: &str, target_source: &str, artifact_name: &str) -> (p:
    String)
    ensures
        p@ == path_join(
            path_join(path_join(path_join(package_root@, target_source@), "target"@), "debug"@),
            artifact_name@,
        ),
{
    let a = join_path(package_root, target_source);
    let b = join_path(&a, "target");
    let c = join_path(&b, "debug");
    join_path(&c, artifact_name)
}

/// A line as `str::lines` yields it: a trailing `\r` is dropped from every
/// line that a `\n` ends.
pub open spec fn line_text(pieces: Seq<Seq<char>>, i: int) -> Seq<char> {
    if i < pieces.len() - 1 && pieces[i].len() > 0 && pieces[i].last() == '\r' {
        pieces[i].drop_last()
    } else {
        pieces[i]
    }
}

/// The host triple reported among the lines from index `i` on: the rest of
/// the first line that starts with `host: `.
pub open spec fn host_from(pieces: Seq<Seq<char>>, i: int) -> Option<Seq<char>>
    decreases pieces.len() - i,
{
    if i < 0 || i >= pieces.len() {
        None
    } else if starts_with(line_text(pieces, i), "host: "@) {
        Some(line_text(pieces, i).skip(6))
    } else {
        host_from(pieces, i + 1)
    }
}

/// The host triple in the output of `rustc -vV`.
pub fn host_triple_from(stdout: &str) -> (r: Result<String, String>)
    ensures
        match host_from(pieces_on(stdout@, '\n'), 0) {
            Some(h) => r is Ok && r->Ok_0@ == h,
            None => r is Err && r->Err_0@ == "rustc -vV did not report a host triple"@,
        },
{
    let v = chars_of(stdout);
    let ps = split_pieces(&v, '\n');
    let ghost pv = ps@.map_values(|p: Vec<char>| p@);
    let prefix = chars_of("host: ");
    proof {
        reveal_strlit("host: ");
    }
    let mut i: usize = 0;
    while i < ps.len()
        invariant
            i <= ps.len(),
            pv == ps@.map_values(|p: Vec<char>| p@),
            pv == pieces_on(stdout@, '\n'),
            prefix@ == "host: "@,
            host_from(pv, 0) == host_from(pv, i as int),
        decreases ps.len() - i,
    {
        let piece = &ps[i];
        assert(pv[i as int] == piece@);
        let line = if i + 1 < ps.len() && piece.len() > 0 && piece[piece.len() - 1] == '\r' {
            sub_chars(piece, 0, piece.len() - 1)
        } else {
            piece.clone()
        };
        proof {
            if i + 1 < ps.len() && piece@.len() > 0 && piece@.last() == '\r' {
                assert(line@ =~= piece@.drop_last());
            }
            assert(line@ == line_text(pv, i as int));
        }
        proof {
            reveal_strlit("host: ");
        }
        assert(prefix@.len() == 6);
        if matches_at(&line, &prefix, 0) {
            let rest = sub_chars(&line, 6, line.len());
            assert(rest@ =~= line@.skip(6));
            return Ok(string_of(&rest));
        }
        i = i + 1;
    }
    Err("rustc -vV did not report a host triple".to_owned())
}

/// The white-space separated words of `s`, in order.
pub open spec fn words(s: Seq<char>) -> Seq<Seq<char>>
    decreases s.len(),
{
    if s.len() == 0 {
        Seq::empty()
    } else {
        let prev = words(s.drop_last());
        if is_whitespace(s.last()) {
            prev
        } else if s.len() >= 2 && !is_whitespace(s[s.len() - 2]) && prev.len() > 0 {
            prev.update(prev.len() - 1, prev.last().push(s.last()))
        } else {
            prev.push(seq![s.last()])
        }
    }
}

proof fn lemma_words_nonempty(s: Seq<char>)
    requires
        s.len() > 0,
        !is_whitespace(s.last()),
    ensures
        words(s).len() > 0,
    decreases s.len(),
{
    if s.len() >= 2 && !is_whitespace(s[s.len() - 2]) {
        assert(s.drop_last().last() == s[s.len() - 2]);
        lemma_words_nonempty(s.drop_last());
    }
}

/// The version in the output of `rustc --version`: its second word.
pub fn version_from(stdout: &str) -> (r: Result<String, String>)
    ensures
        words(stdout@).len() >= 2 ==> r is Ok && r->Ok_0@ == words(stdout@)[1],
        words(stdout@).len() < 2 ==> r is Err && r->Err_0@
            == "rustc --version did not report a version"@,
{
    let v = chars_of(stdout);
    let mut found: Vec<Vec<char>> = Vec::new();
    let mut i: usize = 0;
    proof {
        assert(v@.take(0) =~= Seq::<char>::empty());
    }
    while i < v.len()
        invariant
            i <= v.len(),
            v@ == stdout@,
            found@.map_values(|p: Vec<char>| p@) == words(v@.take(i as int)),
        decreases v.len() - i,
    {
        let ghost before = found@.map_values(|p: Vec<char>| p@);
        proof {
            assert(v@.take(i + 1).drop_last() =~= v@.take(i as int));
            assert(v@.take(i + 1).last() == v@[i as int]);
            if i >= 1 {
                assert(v@.take(i + 1)[i - 1] == v@[i - 1]);
            }
        }
        if !is_whitespace_char(v[i]) {
            if i >= 1 && !is_whitespace_char(v[i - 1]) && found.len() > 0 {
                let last = found.len() - 1;
                let mut w = found[last].clone();
                w.push(v[i]);
                found.set(last, w);
                proof {
                    assert(found@.map_values(|p: Vec<char>| p@) =~= before.update(
                        before.len() - 1,
                        before.last().push(v@[i as int]),
                    ));
                }
            } else {
                let w = vec![v[i]];
                assert(w@ =~= seq![v@[i as int]]);
                found.push(w);
                proof {
                    assert(found@.map_values(|p: Vec<char>| p@) =~= before.push(seq![v@[i as int]]));
                }
            }
        } else {
            assert(found@.map_values(|p: Vec<char>| p@) =~= before);
        }
        i = i + 1;
    }
    assert(v@.take(v.len() as int) =~= v@);
    if found.len() >= 2 {
        assert(found@.map_values(|p: Vec<char>| p@)[1] == found@[1]@);
        Ok(string_of(&found[1]))
    } else {
        Err("rustc --version did not report a version".to_owned())
    }
}

} // verus!
