//! Package validation shared by check, install, and publish.

use vstd::prelude::*;
use crate::manifest::{
    source_kind_name, target_mode_name, Binding, BindingPolicy, CistaManifest, SourceKind,
    TargetMode, TargetSection,
};
use crate::paths::{components, has_root, join_path, path_join, pieces, Component, PathPart, path_components};
use crate::store::{
    identity_diagnostics, non_empty_diagnostics, require_non_empty, segment_diagnostics,
    validate_store_identity, validate_store_segment, views,
};
use crate::text::{
    chars_of, contains_char, decimal, decimal_string, has_char, is_whitespace,
    is_whitespace_char, matches_at, starts_with, string_of, sub_chars, text_eq,
};

verus! {

broadcast use vstd::string::group_string_axioms;

/// One diagnostic when `cond` holds.
pub open spec fn when(cond: bool, message: Seq<char>) -> Seq<Seq<char>> {
    if cond {
        seq![message]
    } else {
        Seq::empty()
    }
}

fn push_when(diagnostics: &mut Vec<String>, cond: bool, message: &str)
    ensures
        views(final(diagnostics)@) == views(old(diagnostics)@) + when(cond, message@),
{
    let ghost before = views(diagnostics@);
    if cond {
        diagnostics.push(message.to_owned());
    }
    assert(views(diagnostics@) =~= before + when(cond, message@));
}

/// A piece of a module path that is empty, `.`, or `..`.
pub open spec fn bad_module_piece(piece: Seq<char>) -> bool {
    piece.len() == 0 || piece == seq!['.'] || piece == seq!['.', '.']
}

/// Diagnostics for a binding's source module path.
pub open spec fn module_path_diagnostics(module: Seq<char>) -> Seq<Seq<char>> {
    if module.len() == 0 {
        Seq::empty()
    } else {
        when(
            has_char(module, '\\') || exists|j: int|
                0 <= j < pieces(module).len() && bad_module_piece(#[trigger] pieces(module)[j]),
            "invalid source_module `"@ + module
                + "`: module paths must not contain empty, dot, or dot-dot segments"@,
        )
    }
}

fn is_bad_piece(v: &Vec<char>, start: usize, end: usize) -> (b: bool)
    requires
        start <= end <= v.len(),
    ensures
        b == bad_module_piece(v@.subrange(start as int, end as int)),
{
    let piece = sub_chars(v, start, end);
    let r = piece.len() == 0 || (piece.len() == 1 && piece[0] == '.') || (piece.len() == 2
        && piece[0] == '.' && piece[1] == '.');
    proof {
        if piece@ == seq!['.'] {
            assert(piece@[0] == '.');
        }
        if piece@ == seq!['.', '.'] {
            assert(piece@[0] == '.' && piece@[1] == '.');
        }
        if piece.len() == 1 && piece[0] == '.' {
            assert(piece@ =~= seq!['.']);
        }
        if piece.len() == 2 && piece[0] == '.' && piece[1] == '.' {
            assert(piece@ =~= seq!['.', '.']);
        }
    }
    r
}

/// Whether some `/`-separated piece of `v` is empty, `.`, or `..`.
fn has_bad_piece(v: &Vec<char>) -> (b: bool)
    ensures
        b == exists|j: int|
            0 <= j < pieces(v@).len() && bad_module_piece(#[trigger] pieces(v@)[j]),
{
    let mut start: usize = 0;
    let mut i: usize = 0;
    let mut bad = false;
    proof {
        assert(v@.take(0) =~= Seq::<char>::empty());
        crate::paths::lemma_pieces_nonempty(v@.take(0));
    }
    while i < v.len()
        invariant
            start <= i <= v.len(),
            pieces(v@.take(i as int)).len() >= 1,
            pieces(v@.take(i as int)).last() == v@.subrange(start as int, i as int),
            bad == exists|j: int|
                0 <= j < pieces(v@.take(i as int)).len() - 1 && bad_module_piece(
                    #[trigger] pieces(v@.take(i as int))[j],
                ),
        decreases v.len() - i,
    {
        let ghost ps = pieces(v@.take(i as int));
        let ghost q = v@.take(i + 1);
        proof {
            assert(q.drop_last() =~= v@.take(i as int));
            assert(q.last() == v@[i as int]);
        }
        if v[i] == '/' {
            let this_bad = is_bad_piece(v, start, i);
            proof {
                assert(pieces(q) == ps.push(Seq::empty()));
                assert forall|j: int| 0 <= j < ps.len() implies pieces(q)[j] == ps[j] by {}
                if this_bad {
                    assert(bad_module_piece(pieces(q)[ps.len() - 1]));
                }
                assert(v@.subrange(i + 1, i + 1) =~= Seq::<char>::empty());
                assert(pieces(q).last() =~= Seq::<char>::empty());
            }
            bad = bad || this_bad;
            start = i + 1;
        } else {
            proof {
                assert(pieces(q) == ps.update(ps.len() - 1, ps.last().push(v@[i as int])));
                assert forall|j: int| 0 <= j < ps.len() - 1 implies pieces(q)[j] == ps[j] by {}
                assert(v@.subrange(start as int, i + 1) =~= v@.subrange(start as int, i as int).push(
                    v@[i as int],
                ));
            }
        }
        i = i + 1;
    }
    let last_bad = is_bad_piece(v, start, i);
    proof {
        assert(v@.take(i as int) =~= v@);
        if last_bad {
            assert(bad_module_piece(pieces(v@)[pieces(v@).len() - 1]));
        }
    }
    bad || last_bad
}

/// Append a diagnostic when a non-empty module path has an empty, `.`, or
/// `..` segment or a backslash.
pub fn validate_module_path(module: &str, diagnostics: &mut Vec<String>)
    ensures
        views(final(diagnostics)@) == views(old(diagnostics)@) + module_path_diagnostics(
            module@,
        ),
{
    let ghost before = views(diagnostics@);
    let v = chars_of(module);
    if v.len() == 0 {
        assert(views(diagnostics@) =~= before + module_path_diagnostics(module@));
        return;
    }
    if contains_char(&v, '\\') || has_bad_piece(&v) {
        let mut m = "invalid source_module `".to_owned();
        m.append(module);
        m.append("`: module paths must not contain empty, dot, or dot-dot segments");
        diagnostics.push(m);
    }
    assert(views(diagnostics@) =~= before + module_path_diagnostics(module@));
}

/// Diagnostics for one `[[bindings]]` row at `index`.
pub open spec fn binding_diagnostics(b: Binding, index: nat) -> Seq<Seq<char>> {
    let prefix = "bindings["@ + decimal(index) + "]"@;
    non_empty_diagnostics(prefix + ".source_module"@, b.source_module@) + non_empty_diagnostics(
        prefix + ".source_symbol"@,
        b.source_symbol@,
    ) + non_empty_diagnostics(prefix + ".target"@, b.target@) + module_path_diagnostics(
        b.source_module@,
    )
}

/// Diagnostics for all `[[bindings]]` rows, in order.
pub open spec fn bindings_diagnostics(bs: Seq<Binding>) -> Seq<Seq<char>>
    decreases bs.len(),
{
    if bs.len() == 0 {
        Seq::empty()
    } else {
        bindings_diagnostics(bs.drop_last()) + binding_diagnostics(
            bs.last(),
            (bs.len() - 1) as nat,
        )
    }
}

/// Diagnostic for a source kind that does not pair with the target mode.
pub open spec fn kind_diagnostics(m: CistaManifest) -> Seq<Seq<char>> {
    let kind = m.source.kind;
    let mode = m.target.mode;
    when(
        !((kind == SourceKind::Source && mode == TargetMode::Compile) || (kind
            == SourceKind::Artifact && mode == TargetMode::Artifact)),
        "source.kind `"@ + source_kind_name(kind) + "` is incompatible with target.mode `"@
            + target_mode_name(mode) + "`"@,
    ) + when(
        kind == SourceKind::Artifact && m.source.sources is Some,
        "source kind `artifact` forbids source.sources"@,
    )
}

/// Diagnostics for fields that `compile` mode requires or forbids. Pure Faber
/// packages (generated bindings, no target source) may ship interfaces only.
pub open spec fn compile_mode_diagnostics(t: TargetSection) -> Seq<Seq<char>> {
    let interfaces_only = t.binding_policy == BindingPolicy::Generated && t.source is None;
    when(t.artifact is Some, "target mode `compile` forbids target.artifact"@) + when(
        t.triple is Some,
        "target mode `compile` forbids target.triple"@,
    ) + when(t.rustc is Some, "target mode `compile` forbids target.rustc"@) + when(
        !interfaces_only && t.source is None,
        "target mode `compile` requires target.source"@,
    ) + when(
        !interfaces_only && t.compile is None,
        "target mode `compile` requires [target.compile]"@,
    )
}

/// Diagnostics for fields that `artifact` mode requires or forbids.
pub open spec fn artifact_mode_diagnostics(t: TargetSection) -> Seq<Seq<char>> {
    when(t.source is Some, "target mode `artifact` forbids target.source"@) + when(
        t.compile is Some,
        "target mode `artifact` forbids [target.compile]"@,
    ) + when(t.artifact is None, "target mode `artifact` requires target.artifact"@) + when(
        t.triple is None,
        "target mode `artifact` requires target.triple"@,
    ) + when(t.rustc is None, "target mode `artifact` requires target.rustc"@)
}

/// Diagnostics for the source kind and the target mode, and for the fields
/// each mode requires or forbids.
pub open spec fn mode_diagnostics(m: CistaManifest) -> Seq<Seq<char>> {
    kind_diagnostics(m) + match m.target.mode {
        TargetMode::Compile => compile_mode_diagnostics(m.target),
        TargetMode::Artifact => artifact_mode_diagnostics(m.target),
    }
}

/// Diagnostics for the binding policy against the presence of rows.
pub open spec fn policy_diagnostics(m: CistaManifest) -> Seq<Seq<char>> {
    when(
        m.target.binding_policy == BindingPolicy::Generated && m.bindings@.len() > 0,
        "binding policy `generated` forbids [[bindings]] rows"@,
    ) + when(
        m.target.binding_policy == BindingPolicy::Manifest && m.bindings@.len() == 0,
        "binding policy `manifest` requires at least one [[bindings]] row"@,
    )
}

/// Every diagnostic of the manifest's shape, in the order they are reported.
pub open spec fn shape_diagnostics(m: CistaManifest) -> Seq<Seq<char>> {
    non_empty_diagnostics("source.package"@, m.source.package@) + non_empty_diagnostics(
        "source.version"@,
        m.source.version@,
    ) + non_empty_diagnostics("source.faber_min"@, m.source.faber_min@) + non_empty_diagnostics(
        "target.language"@,
        m.target.language@,
    ) + segment_diagnostics("source.package"@, m.source.package@, false) + segment_diagnostics(
        "source.version"@,
        m.source.version@,
        true,
    ) + mode_diagnostics(m) + policy_diagnostics(m) + bindings_diagnostics(m.bindings@)
}

proof fn lemma_concat_assoc(a: Seq<Seq<char>>, b: Seq<Seq<char>>, c: Seq<Seq<char>>)
    ensures
        a + b + c == a + (b + c),
{
    assert(a + b + c =~= a + (b + c));
}

fn push_kind_diagnostics(manifest: &CistaManifest, diagnostics: &mut Vec<String>)
    ensures
        views(final(diagnostics)@) == views(old(diagnostics)@) + kind_diagnostics(*manifest),
{
    let ghost before = views(diagnostics@);
    let kind = manifest.source.kind;
    let mode = manifest.target.mode;
    let compatible = (kind == SourceKind::Source && mode == TargetMode::Compile) || (kind
        == SourceKind::Artifact && mode == TargetMode::Artifact);
    if !compatible {
        let mut m = "source.kind `".to_owned();
        m.append(kind.kebab_name());
        m.append("` is incompatible with target.mode `");
        m.append(mode.kebab_name());
        m.append("`");
        diagnostics.push(m);
    }
    let ghost first = when(
        !compatible,
        "source.kind `"@ + source_kind_name(kind) + "` is incompatible with target.mode `"@
            + target_mode_name(mode) + "`"@,
    );
    assert(views(diagnostics@) =~= before + first);
    push_when(
        diagnostics,
        kind == SourceKind::Artifact && manifest.source.sources.is_some(),
        "source kind `artifact` forbids source.sources",
    );
    proof {
        lemma_concat_assoc(
            before,
            first,
            when(
                kind == SourceKind::Artifact && manifest.source.sources is Some,
                "source kind `artifact` forbids source.sources"@,
            ),
        );
    }
}

fn push_compile_mode_diagnostics(t: &TargetSection, diagnostics: &mut Vec<String>)
    ensures
        views(final(diagnostics)@) == views(old(diagnostics)@) + compile_mode_diagnostics(*t),
{
    let ghost before = views(diagnostics@);
    push_when(diagnostics, t.artifact.is_some(), "target mode `compile` forbids target.artifact");
    push_when(diagnostics, t.triple.is_some(), "target mode `compile` forbids target.triple");
    push_when(diagnostics, t.rustc.is_some(), "target mode `compile` forbids target.rustc");
    // Pure Faber packages (`binding_policy = generated`) may ship
    // interfaces only — no native target.source / [target.compile].
    // Hand-written native targets still require both fields.
    let interfaces_only = t.binding_policy == BindingPolicy::Generated && t.source.is_none();
    push_when(
        diagnostics,
        !interfaces_only && t.source.is_none(),
        "target mode `compile` requires target.source",
    );
    push_when(
        diagnostics,
        !interfaces_only && t.compile.is_none(),
        "target mode `compile` requires [target.compile]",
    );
    assert(views(diagnostics@) =~= before + compile_mode_diagnostics(*t));
}

fn push_artifact_mode_diagnostics(t: &TargetSection, diagnostics: &mut Vec<String>)
    ensures
        views(final(diagnostics)@) == views(old(diagnostics)@) + artifact_mode_diagnostics(*t),
{
    let ghost before = views(diagnostics@);
    push_when(diagnostics, t.source.is_some(), "target mode `artifact` forbids target.source");
    push_when(diagnostics, t.compile.is_some(), "target mode `artifact` forbids [target.compile]");
    push_when(diagnostics, t.artifact.is_none(), "target mode `artifact` requires target.artifact");
    push_when(diagnostics, t.triple.is_none(), "target mode `artifact` requires target.triple");
    push_when(diagnostics, t.rustc.is_none(), "target mode `artifact` requires target.rustc");
    assert(views(diagnostics@) =~= before + artifact_mode_diagnostics(*t));
}

fn push_mode_diagnostics(manifest: &CistaManifest, diagnostics: &mut Vec<String>)
    ensures
        views(final(diagnostics)@) == views(old(diagnostics)@) + mode_diagnostics(*manifest),
{
    let ghost before = views(diagnostics@);
    push_kind_diagnostics(manifest, diagnostics);
    let ghost middle = views(diagnostics@);
    match manifest.target.mode {
        TargetMode::Compile => push_compile_mode_diagnostics(&manifest.target, diagnostics),
        TargetMode::Artifact => push_artifact_mode_diagnostics(&manifest.target, diagnostics),
    }
    proof {
        lemma_concat_assoc(
            before,
            kind_diagnostics(*manifest),
            match manifest.target.mode {
                TargetMode::Compile => compile_mode_diagnostics(manifest.target),
                TargetMode::Artifact => artifact_mode_diagnostics(manifest.target),
            },
        );
    }
}

fn push_binding_diagnostics(binding: &Binding, index: usize, diagnostics: &mut Vec<String>)
    ensures
        views(final(diagnostics)@) == views(old(diagnostics)@) + binding_diagnostics(
            *binding,
            index as nat,
        ),
{
    let ghost before = views(diagnostics@);
    let mut prefix = "bindings[".to_owned();
    prefix.append(decimal_string(index).as_str());
    prefix.append("]");
    let mut f1 = prefix.clone();
    f1.append(".source_module");
    let mut f2 = prefix.clone();
    f2.append(".source_symbol");
    let mut f3 = prefix.clone();
    f3.append(".target");
    require_non_empty(f1.as_str(), binding.source_module.as_str(), diagnostics);
    require_non_empty(f2.as_str(), binding.source_symbol.as_str(), diagnostics);
    require_non_empty(f3.as_str(), binding.target.as_str(), diagnostics);
    validate_module_path(binding.source_module.as_str(), diagnostics);
    assert(views(diagnostics@) =~= before + binding_diagnostics(*binding, index as nat));
}

/// Append every diagnostic about the manifest's shape: required identity and
/// language fields, store-safe identity segments, the pairing of source kind
/// and target mode, the fields each target mode requires or forbids, the
/// binding policy against the `[[bindings]]` rows, and each row's fields.
pub fn validate_manifest_shape(manifest: &CistaManifest, diagnostics: &mut Vec<String>)
    ensures
        views(final(diagnostics)@) == views(old(diagnostics)@) + shape_diagnostics(*manifest),
{
    let ghost before = views(diagnostics@);
    let ghost p1 = non_empty_diagnostics("source.package"@, manifest.source.package@);
    let ghost p2 = non_empty_diagnostics("source.version"@, manifest.source.version@);
    let ghost p3 = non_empty_diagnostics("source.faber_min"@, manifest.source.faber_min@);
    let ghost p4 = non_empty_diagnostics("target.language"@, manifest.target.language@);
    let ghost p5 = segment_diagnostics("source.package"@, manifest.source.package@, false);
    let ghost p6 = segment_diagnostics("source.version"@, manifest.source.version@, true);
    let ghost p7 = mode_diagnostics(*manifest);
    let ghost p8 = policy_diagnostics(*manifest);
    require_non_empty("source.package", manifest.source.package.as_str(), diagnostics);
    require_non_empty("source.version", manifest.source.version.as_str(), diagnostics);
    proof {
        lemma_concat_assoc(before, p1, p2);
    }
    require_non_empty("source.faber_min", manifest.source.faber_min.as_str(), diagnostics);
    proof {
        lemma_concat_assoc(before, p1 + p2, p3);
    }
    require_non_empty("target.language", manifest.target.language.as_str(), diagnostics);
    proof {
        lemma_concat_assoc(before, p1 + p2 + p3, p4);
    }
    validate_store_segment("source.package", manifest.source.package.as_str(), false, diagnostics);
    proof {
        lemma_concat_assoc(before, p1 + p2 + p3 + p4, p5);
    }
    validate_store_segment("source.version", manifest.source.version.as_str(), true, diagnostics);
    proof {
        lemma_concat_assoc(before, p1 + p2 + p3 + p4 + p5, p6);
    }
    push_mode_diagnostics(manifest, diagnostics);
    proof {
        lemma_concat_assoc(before, p1 + p2 + p3 + p4 + p5 + p6, p7);
    }
    let policy = manifest.target.binding_policy;
    let ghost q1 = when(
        policy == BindingPolicy::Generated && manifest.bindings@.len() > 0,
        "binding policy `generated` forbids [[bindings]] rows"@,
    );
    let ghost q2 = when(
        policy == BindingPolicy::Manifest && manifest.bindings@.len() == 0,
        "binding policy `manifest` requires at least one [[bindings]] row"@,
    );
    let ghost mid = views(diagnostics@);
    push_when(
        diagnostics,
        policy == BindingPolicy::Generated && manifest.bindings.len() > 0,
        "binding policy `generated` forbids [[bindings]] rows",
    );
    push_when(
        diagnostics,
        policy == BindingPolicy::Manifest && manifest.bindings.len() == 0,
        "binding policy `manifest` requires at least one [[bindings]] row",
    );
    proof {
        lemma_concat_assoc(mid, q1, q2);
        assert(p8 == q1 + q2);
        lemma_concat_assoc(before, p1 + p2 + p3 + p4 + p5 + p6 + p7, p8);
    }
    let ghost head = views(diagnostics@);
    assert(head == before + (p1 + p2 + p3 + p4 + p5 + p6 + p7 + p8));
    let mut i: usize = 0;
    while i < manifest.bindings.len()
        invariant
            i <= manifest.bindings.len(),
            views(diagnostics@) == head + bindings_diagnostics(manifest.bindings@.take(i as int)),
        decreases manifest.bindings.len() - i,
    {
        let ghost prev = views(diagnostics@);
        push_binding_diagnostics(&manifest.bindings[i], i, diagnostics);
        proof {
            lemma_concat_assoc(
                head,
                bindings_diagnostics(manifest.bindings@.take(i as int)),
                binding_diagnostics(manifest.bindings@[i as int], i as nat),
            );
            let bs = manifest.bindings@;
            assert(bs.take(i + 1).drop_last() =~= bs.take(i as int));
            assert(bs.take(i + 1).last() == bs[i as int]);
        }
        i = i + 1;
    }
    assert(manifest.bindings@.take(manifest.bindings.len() as int) =~= manifest.bindings@);
    proof {
        lemma_concat_assoc(
            before,
            p1 + p2 + p3 + p4 + p5 + p6 + p7 + p8,
            bindings_diagnostics(manifest.bindings@),
        );
    }
}

/// Validate a package identity for use as store path segments.
pub fn validate_identity(package: &str, version: &str) -> (r: Result<(), Vec<String>>)
    ensures
        match r {
            Ok(()) => identity_diagnostics(package@, version@).len() == 0,
            Err(d) => views(d@) == identity_diagnostics(package@, version@) && d@.len() > 0,
        },
{
    validate_store_identity(package, version)
}

/// The symbols a Faber interface module declares.
#[derive(Debug)]
pub struct ModuleSymbols {
    pub module: String,
    pub symbols: Vec<String>,
}

/// The declared symbols of the first entry for `module`, if any.
pub open spec fn symbols_of(table: Seq<ModuleSymbols>, module: Seq<char>, i: int) -> Option<
    Seq<Seq<char>>,
>
    decreases table.len() - i,
{
    if i < 0 || i >= table.len() {
        None
    } else if table[i].module@ == module {
        Some(views(table[i].symbols@))
    } else {
        symbols_of(table, module, i + 1)
    }
}

/// Diagnostics for bindings whose symbol is missing from their module's
/// declared symbols (modules without an entry are not checked).
pub open spec fn missing_symbol_diagnostics(bs: Seq<Binding>, table: Seq<ModuleSymbols>) -> Seq<
    Seq<char>,
>
    decreases bs.len(),
{
    if bs.len() == 0 {
        Seq::empty()
    } else {
        let b = bs.last();
        missing_symbol_diagnostics(bs.drop_last(), table) + match symbols_of(
            table,
            b.source_module@,
            0,
        ) {
            Some(symbols) => when(
                !symbols.contains(b.source_symbol@),
                "binding source symbol `"@ + b.source_symbol@ + "` not found in module `"@
                    + b.source_module@ + "`"@,
            ),
            None => Seq::empty(),
        }
    }
}

fn find_symbols(table: &Vec<ModuleSymbols>, module: &str) -> (r: Option<usize>)
    ensures
        match r {
            Some(k) => k < table@.len() && symbols_of(table@, module@, 0) == Some(
                views(table@[k as int].symbols@),
            ),
            None => symbols_of(table@, module@, 0) is None,
        },
{
    let mut k: usize = 0;
    while k < table.len()
        invariant
            k <= table.len(),
            symbols_of(table@, module@, 0) == symbols_of(table@, module@, k as int),
        decreases table.len() - k,
    {
        if text_eq(table[k].module.as_str(), module) {
            return Some(k);
        }
        k = k + 1;
    }
    None
}

fn contains_text(items: &Vec<String>, item: &str) -> (b: bool)
    ensures
        b == views(items@).contains(item@),
{
    let mut k: usize = 0;
    while k < items.len()
        invariant
            k <= items.len(),
            forall|j: int| 0 <= j < k ==> views(items@)[j] != item@,
        decreases items.len() - k,
    {
        if text_eq(items[k].as_str(), item) {
            assert(views(items@)[k as int] == item@);
            return true;
        }
        k = k + 1;
    }
    false
}

/// Append a diagnostic for each binding whose source symbol is not declared
/// by its module's interface (modules whose interface was not read are
/// skipped).
pub fn validate_bindings(
    manifest: &CistaManifest,
    interface_symbols: &Vec<ModuleSymbols>,
    diagnostics: &mut Vec<String>,
)
    ensures
        views(final(diagnostics)@) == views(old(diagnostics)@) + missing_symbol_diagnostics(
            manifest.bindings@,
            interface_symbols@,
        ),
{
    let ghost before = views(diagnostics@);
    let mut i: usize = 0;
    while i < manifest.bindings.len()
        invariant
            i <= manifest.bindings.len(),
            views(diagnostics@) == before + missing_symbol_diagnostics(
                manifest.bindings@.take(i as int),
                interface_symbols@,
            ),
        decreases manifest.bindings.len() - i,
    {
        let binding = &manifest.bindings[i];
        let ghost prev = views(diagnostics@);
        let ghost step = match symbols_of(interface_symbols@, binding.source_module@, 0) {
            Some(symbols) => when(
                !symbols.contains(binding.source_symbol@),
                "binding source symbol `"@ + binding.source_symbol@ + "` not found in module `"@
                    + binding.source_module@ + "`"@,
            ),
            None => Seq::empty(),
        };
        match find_symbols(interface_symbols, binding.source_module.as_str()) {
            Some(k) => {
                if !contains_text(&interface_symbols[k].symbols, binding.source_symbol.as_str()) {
                    let mut m = "binding source symbol `".to_owned();
                    m.append(binding.source_symbol.as_str());
                    m.append("` not found in module `");
                    m.append(binding.source_module.as_str());
                    m.append("`");
                    diagnostics.push(m);
                }
                assert(views(diagnostics@) =~= prev + step);
            },
            None => {
                assert(views(diagnostics@) =~= prev + step);
            },
        }
        proof {
            let bs = manifest.bindings@;
            assert(bs.take(i + 1).drop_last() =~= bs.take(i as int));
            assert(bs.take(i + 1).last() == bs[i as int]);
            lemma_concat_assoc(
                before,
                missing_symbol_diagnostics(bs.take(i as int), interface_symbols@),
                step,
            );
        }
        i = i + 1;
    }
    assert(manifest.bindings@.take(manifest.bindings.len() as int) =~= manifest.bindings@);
}

/// `s` without its leading white space.
pub open spec fn trim_start(s: Seq<char>) -> Seq<char>
    decreases s.len(),
{
    if s.len() > 0 && is_whitespace(s[0]) {
        trim_start(s.drop_first())
    } else {
        s
    }
}

/// `s` without its trailing white space.
pub open spec fn trim_end(s: Seq<char>) -> Seq<char>
    decreases s.len(),
{
    if s.len() > 0 && is_whitespace(s.last()) {
        trim_end(s.drop_last())
    } else {
        s
    }
}

/// `s` without surrounding white space.
pub open spec fn trim(s: Seq<char>) -> Seq<char> {
    trim_end(trim_start(s))
}

/// The pieces of `s` between `sep` characters, including empty pieces.
pub open spec fn pieces_on(s: Seq<char>, sep: char) -> Seq<Seq<char>>
    decreases s.len(),
{
    if s.len() == 0 {
        seq![Seq::empty()]
    } else {
        let prev = pieces_on(s.drop_last(), sep);
        if s.last() == sep {
            prev.push(Seq::empty())
        } else {
            prev.update(prev.len() - 1, prev.last().push(s.last()))
        }
    }
}

/// The function a line of a Faber interface declares, if any: after leading
/// white space the line reads `functio `, then a name up to the first `(`,
/// and the name is not blank once trimmed.
pub open spec fn declared_function(line: Seq<char>) -> Option<Seq<char>> {
    let t = trim_start(line);
    let kw = "functio "@;
    if starts_with(t, kw) {
        let rest = t.skip(kw.len() as int);
        let k = crate::store::first_index_from(rest, '(', 0);
        if k >= 0 && trim(rest.take(k)).len() > 0 {
            Some(trim(rest.take(k)))
        } else {
            None
        }
    } else {
        None
    }
}

/// All of `w` is white space.
pub open spec fn all_whitespace(w: Seq<char>) -> bool {
    forall|j: int| 0 <= j < w.len() ==> is_whitespace(#[trigger] w[j])
}

proof fn lemma_trim_start_prefix(w: Seq<char>, l: Seq<char>)
    requires
        all_whitespace(w),
    ensures
        trim_start(w + l) == trim_start(l),
    decreases w.len(),
{
    if w.len() > 0 {
        assert((w + l)[0] == w[0]);
        assert((w + l).drop_first() =~= w.drop_first() + l);
        lemma_trim_start_prefix(w.drop_first(), l);
    } else {
        assert(w + l =~= l);
    }
}

/// What a line declares does not depend on its indentation: white space in
/// front of a line never changes the function it declares.
pub proof fn lemma_declaration_ignores_indentation(w: Seq<char>, l: Seq<char>)
    requires
        all_whitespace(w),
    ensures
        declared_function(w + l) == declared_function(l),
{
    lemma_trim_start_prefix(w, l);
}

/// A line that reads, after any indentation, `functio ` then a name free of
/// `(` then `(`, declares that name (trimmed), when the trimmed name is not
/// empty; a line whose first non-blank text is not `functio ` declares nothing.
pub proof fn lemma_declaration_names_function(
    w: Seq<char>,
    name: Seq<char>,
    rest: Seq<char>,
)
    requires
        all_whitespace(w),
        !has_char(name, '('),
        trim(name).len() > 0,
    ensures
        declared_function(w + ("functio "@ + name + "("@ + rest)) == Some(trim(name)),
{
    reveal_strlit("functio ");
    reveal_strlit("(");
    let l = "functio "@ + name + "("@ + rest;
    lemma_declaration_ignores_indentation(w, l);
    assert(!is_whitespace(l[0]));
    assert(trim_start(l) == l);
    assert(l.subrange(0, 8) =~= "functio "@);
    let r = l.skip(8);
    assert(r =~= name + "("@ + rest);
    assert forall|j: int| 0 <= j < name.len() implies r[j] != '(' by {
        assert(r[j] == name[j]);
    }
    assert(r[name.len() as int] == '(');
    crate::store::lemma_first_index_from(r, '(', 0);
    assert(r.take(name.len() as int) =~= name);
}

/// The functions an interface source declares, line by line (lines are the
/// pieces between `\n` characters; a `\r` ending a line never changes what the
/// line declares).
pub open spec fn declared_functions(source: Seq<char>) -> Set<Seq<char>> {
    Set::new(
        |name: Seq<char>|
            exists|i: int|
                0 <= i < pieces_on(source, '\n').len() && declared_function(
                    #[trigger] pieces_on(source, '\n')[i],
                ) == Some(name),
    )
}

proof fn lemma_pieces_on_nonempty(s: Seq<char>, sep: char)
    ensures
        pieces_on(s, sep).len() >= 1,
    decreases s.len(),
{
    if s.len() > 0 {
        lemma_pieces_on_nonempty(s.drop_last(), sep);
    }
}

/// Index of the first character of `v[start..end]` that is not white space,
/// or `end`.
fn skip_whitespace(v: &Vec<char>, start: usize, end: usize) -> (k: usize)
    requires
        start <= end <= v.len(),
    ensures
        start <= k <= end,
        trim_start(v@.subrange(start as int, end as int)) == v@.subrange(k as int, end as int),
{
    let mut k = start;
    while k < end && is_whitespace_char(v[k])
        invariant
            start <= k <= end <= v.len(),
            trim_start(v@.subrange(start as int, end as int)) == trim_start(
                v@.subrange(k as int, end as int),
            ),
        decreases end - k,
    {
        proof {
            let t = v@.subrange(k as int, end as int);
            assert(t[0] == v@[k as int]);
            assert(t.drop_first() =~= v@.subrange(k + 1, end as int));
        }
        k = k + 1;
    }
    proof {
        let t = v@.subrange(k as int, end as int);
        if k < end {
            assert(t[0] == v@[k as int]);
        }
    }
    k
}

/// Index just past the last character of `v[start..end]` that is not white
/// space, or `start`.
fn skip_whitespace_back(v: &Vec<char>, start: usize, end: usize) -> (k: usize)
    requires
        start <= end <= v.len(),
    ensures
        start <= k <= end,
        trim_end(v@.subrange(start as int, end as int)) == v@.subrange(start as int, k as int),
{
    let mut k = end;
    while k > start && is_whitespace_char(v[k - 1])
        invariant
            start <= k <= end <= v.len(),
            trim_end(v@.subrange(start as int, end as int)) == trim_end(
                v@.subrange(start as int, k as int),
            ),
        decreases k,
    {
        proof {
            let t = v@.subrange(start as int, k as int);
            assert(t.last() == v@[k - 1]);
            assert(t.drop_last() =~= v@.subrange(start as int, k - 1));
        }
        k = k - 1;
    }
    proof {
        let t = v@.subrange(start as int, k as int);
        if k > start {
            assert(t.last() == v@[k - 1]);
        }
    }
    k
}

/// The function that the line `v[start..end]` declares, if any.
fn line_declaration(v: &Vec<char>, start: usize, end: usize) -> (r: Option<String>)
    requires
        start <= end <= v.len(),
    ensures
        match r {
            Some(name) => declared_function(v@.subrange(start as int, end as int)) == Some(name@),
            None => declared_function(v@.subrange(start as int, end as int)) is None,
        },
{
    let ghost line = v@.subrange(start as int, end as int);
    let kw = chars_of("functio ");
    let t = skip_whitespace(v, start, end);
    let ghost ts = trim_start(line);
    if end - t < kw.len() || !matches_at(v, &kw, t) {
        proof {
            if crate::text::starts_with(ts, kw@) {
                assert(ts.subrange(0, kw@.len() as int) =~= v@.subrange(
                    t as int,
                    t + kw@.len(),
                ));
            }
        }
        return None;
    }
    let rest_start = t + kw.len();
    proof {
        assert(ts.subrange(0, kw@.len() as int) =~= v@.subrange(t as int, t + kw@.len()));
        assert(ts.skip(kw@.len() as int) =~= v@.subrange(rest_start as int, end as int));
    }
    let ghost rest = v@.subrange(rest_start as int, end as int);
    let mut k = rest_start;
    while k < end && v[k] != '('
        invariant
            rest_start <= k <= end <= v.len(),
            rest == v@.subrange(rest_start as int, end as int),
            crate::store::first_index_from(rest, '(', 0) == crate::store::first_index_from(
                rest,
                '(',
                k - rest_start,
            ),
        decreases end - k,
    {
        assert(rest[k - rest_start] == v@[k as int]);
        k = k + 1;
    }
    if k == end {
        return None;
    }
    assert(rest[k - rest_start] == v@[k as int]);
    let a = skip_whitespace(v, rest_start, k);
    let b = skip_whitespace_back(v, a, k);
    proof {
        assert(rest.take(k - rest_start) =~= v@.subrange(rest_start as int, k as int));
    }
    if a == b {
        return None;
    }
    Some(string_of(&sub_chars(v, a, b)))
}

/// The functions declared by a Faber interface source: each line that, after
/// leading white space, reads `functio <name>(` contributes its trimmed name.
pub fn interface_symbols(source: &str) -> (names: Vec<String>)
    ensures
        views(names@).to_set() == declared_functions(source@),
{
    let v = chars_of(source);
    let mut names: Vec<String> = Vec::new();
    let mut start: usize = 0;
    let mut i: usize = 0;
    proof {
        assert(v@.take(0) =~= Seq::<char>::empty());
        lemma_pieces_on_nonempty(v@.take(0), '\n');
    }
    while i < v.len()
        invariant
            start <= i <= v.len(),
            v@ == source@,
            pieces_on(v@.take(i as int), '\n').len() >= 1,
            pieces_on(v@.take(i as int), '\n').last() == v@.subrange(start as int, i as int),
            forall|name: Seq<char>|
                views(names@).contains(name) <==> exists|j: int|
                    0 <= j < pieces_on(v@.take(i as int), '\n').len() - 1 && declared_function(
                        #[trigger] pieces_on(v@.take(i as int), '\n')[j],
                    ) == Some(name),
        decreases v.len() - i,
    {
        let ghost ps = pieces_on(v@.take(i as int), '\n');
        let ghost q = v@.take(i + 1);
        let ghost before = views(names@);
        proof {
            assert(q.drop_last() =~= v@.take(i as int));
            assert(q.last() == v@[i as int]);
        }
        if v[i] == '\n' {
            let found = line_declaration(&v, start, i);
            match found {
                Some(name) => {
                    names.push(name);
                },
                None => {},
            }
            proof {
                let qs = pieces_on(q, '\n');
                assert(qs == ps.push(Seq::empty()));
                assert forall|j: int| 0 <= j < ps.len() implies qs[j] == ps[j] by {}
                assert(v@.subrange(i + 1, i + 1) =~= Seq::<char>::empty());
                assert(qs.last() =~= Seq::<char>::empty());
                assert forall|name: Seq<char>|
                    views(names@).contains(name) <==> exists|j: int|
                        0 <= j < qs.len() - 1 && declared_function(#[trigger] qs[j]) == Some(
                            name,
                        ) by {
                    if views(names@).contains(name) {
                        let m = choose|m: int|
                            0 <= m < views(names@).len() && views(names@)[m] == name;
                        if m < before.len() {
                            assert(before[m] == name);
                            assert(before.contains(name));
                            let j = choose|j: int|
                                0 <= j < ps.len() - 1 && declared_function(#[trigger] ps[j])
                                    == Some(name);
                            assert(qs[j] == ps[j]);
                        } else {
                            assert(declared_function(qs[ps.len() - 1]) == Some(name));
                        }
                    }
                    if exists|j: int|
                        0 <= j < qs.len() - 1 && declared_function(#[trigger] qs[j]) == Some(
                            name,
                        ) {
                        let j = choose|j: int|
                            0 <= j < qs.len() - 1 && declared_function(#[trigger] qs[j]) == Some(
                                name,
                            );
                        if j < ps.len() - 1 {
                            assert(qs[j] == ps[j]);
                            assert(before.contains(name));
                            let m = choose|m: int| 0 <= m < before.len() && before[m] == name;
                            assert(views(names@)[m] == name);
                        } else {
                            assert(views(names@)[before.len() as int] == name);
                        }
                    }
                }
            }
            start = i + 1;
        } else {
            proof {
                let qs = pieces_on(q, '\n');
                assert(qs == ps.update(ps.len() - 1, ps.last().push(v@[i as int])));
                assert forall|j: int| 0 <= j < ps.len() - 1 implies qs[j] == ps[j] by {}
                assert(v@.subrange(start as int, i + 1) =~= v@.subrange(start as int, i as int).push(
                    v@[i as int],
                ));
            }
        }
        i = i + 1;
    }
    let ghost before = views(names@);
    let ghost ps = pieces_on(v@, '\n');
    proof {
        assert(v@.take(i as int) =~= v@);
    }
    let found = line_declaration(&v, start, i);
    match found {
        Some(name) => {
            names.push(name);
        },
        None => {},
    }
    proof {
        assert forall|name: Seq<char>|
            views(names@).to_set().contains(name) <==> declared_functions(source@).contains(
                name,
            ) by {
            if views(names@).contains(name) {
                let m = choose|m: int| 0 <= m < views(names@).len() && views(names@)[m] == name;
                if m < before.len() {
                    assert(before[m] == name);
                    assert(before.contains(name));
                } else {
                    assert(declared_function(ps[ps.len() - 1]) == Some(name));
                }
            }
            if exists|j: int|
                0 <= j < ps.len() && declared_function(#[trigger] ps[j]) == Some(name) {
                let j = choose|j: int|
                    0 <= j < ps.len() && declared_function(#[trigger] ps[j]) == Some(name);
                if j < ps.len() - 1 {
                    assert(before.contains(name));
                    let m = choose|m: int| 0 <= m < before.len() && before[m] == name;
                    assert(views(names@)[m] == name);
                } else {
                    assert(views(names@)[before.len() as int] == name);
                }
            }
        }
        assert(views(names@).to_set() =~= declared_functions(source@));
    }
    names
}

/// What the syntactic checks on a path written in a manifest give: it must be
/// non-empty and relative, and (for package paths) free of `.` and `..`.
pub open spec fn relative_path_check(field: Seq<char>, path: Seq<char>, normalized: bool) -> Result<
    (),
    Seq<char>,
> {
    if path.len() == 0 {
        Err(field + " path must not be empty"@)
    } else if has_root(path) {
        Err(field + " path must be relative: "@ + path)
    } else if normalized && exists|i: int|
        0 <= i < components(path).len() && (#[trigger] components(path)[i] == Component::CurDir
            || components(path)[i] == Component::ParentDir) {
        Err(field + " path must be normalized without `.` or `..` segments: "@ + path)
    } else {
        Ok(())
    }
}

/// Check a manifest path before it is resolved against its root: not empty,
/// relative, and, when `normalized` is asked for, without `.` or `..`
/// components.
pub fn check_relative_path(field: &str, path: &str, normalized: bool) -> (r: Result<(), String>)
    ensures
        match (r, relative_path_check(field@, path@, normalized)) {
            (Ok(()), Ok(())) => true,
            (Err(e), Err(m)) => e@ == m,
            _ => false,
        },
{
    let v = chars_of(path);
    if v.len() == 0 {
        let mut m = field.to_owned();
        m.append(" path must not be empty");
        return Err(m);
    }
    assert(v@ == path@);
    if v[0] == '/' {
        let mut m = field.to_owned();
        m.append(" path must be relative: ");
        m.append(path);
        return Err(m);
    }
    if normalized {
        let cs = path_components(&v);
        let ghost m = cs@.map_values(|c: PathPart| c@);
        let mut i: usize = 0;
        while i < cs.len()
            invariant
                i <= cs.len(),
                m == cs@.map_values(|c: PathPart| c@),
                m == components(path@),
                path@.len() > 0,
                !has_root(path@),
                normalized,
                forall|j: int|
                    0 <= j < i ==> !(#[trigger] m[j] == Component::CurDir || m[j]
                        == Component::ParentDir),
            decreases cs.len() - i,
        {
            assert(m[i as int] == cs@[i as int]@);
            let bad = match &cs[i] {
                PathPart::CurDir => true,
                PathPart::ParentDir => true,
                _ => false,
            };
            if bad {
                assert(m[i as int] == Component::CurDir || m[i as int] == Component::ParentDir);
                let mut e = field.to_owned();
                e.append(" path must be normalized without `.` or `..` segments: ");
                e.append(path);
                return Err(e);
            }
            i = i + 1;
        }
    }
    Ok(())
}

/// A resolved path must stay inside its (resolved) root; `root_label` names
/// the root in the message.
pub fn check_contained(field: &str, resolved: &str, root: &str, root_label: &str) -> (r: Result<
    (),
    String,
>)
    ensures
        crate::paths::starts_with_components(resolved@, root@) ==> r is Ok,
        !crate::paths::starts_with_components(resolved@, root@) ==> r is Err && r->Err_0@ == field@
            + " path resolves outside "@ + root_label@ + ": "@ + resolved@,
{
    if crate::paths::path_starts_with(resolved, root) {
        return Ok(());
    }
    let mut m = field.to_owned();
    m.append(" path resolves outside ");
    m.append(root_label);
    m.append(": ");
    m.append(resolved);
    Err(m)
}

/// The interface file of a module: `<interfaces>/<module>.fab`.
pub fn interface_file_path(interface_root: &str, module: &str) -> (p: String)
    ensures
        p@ == path_join(interface_root@, module@ + ".fab"@),
{
    let mut name = module.to_owned();
    name.append(".fab");
    join_path(interface_root, name.as_str())
}

/// The target language must be the one asked for, when one is.
pub fn check_target_language(expected: Option<&str>, declared: &str, diagnostics: &mut Vec<String>)
    ensures
        views(final(diagnostics)@) == views(old(diagnostics)@) + match expected {
            Some(e) => if e@ != declared@ {
                seq![
                    "target language mismatch: expected `"@ + e@ + "`, manifest declares `"@
                        + declared@ + "`"@,
                ]
            } else {
                Seq::empty()
            },
            None => Seq::empty(),
        },
{
    let ghost before = views(diagnostics@);
    match expected {
        Some(e) => {
            if !text_eq(e, declared) {
                let mut m = "target language mismatch: expected `".to_owned();
                m.append(e);
                m.append("`, manifest declares `");
                m.append(declared);
                m.append("`");
                diagnostics.push(m);
            }
        },
        None => {},
    }
    assert(views(diagnostics@) =~= before + match expected {
        Some(e) => if e@ != declared@ {
            seq![
                "target language mismatch: expected `"@ + e@ + "`, manifest declares `"@
                    + declared@ + "`"@,
            ]
        } else {
            Seq::empty()
        },
        None => Seq::empty(),
    });
}

} // verus!
