//! The project `faber.lock` model: one record per installed package, rewritten
//! after each install and written in a stable (name, version) order.

use vstd::prelude::*;
use crate::ordering::{is_sorted, sort_records, stable_arrangement, VersionedRecord};
use crate::paths::{join_path, path_join};
use crate::text::{concat, text_eq};

verus! {

/// File name of the project lockfile.
pub const LOCK_FILE: &'static str = "faber.lock";

/// One locked package record.
#[derive(Debug)]
pub struct LockedPackage {
    pub name: String,
    pub version: String,
    pub source: String,
    pub package_root: String,
    pub kind: String,
    pub target_language: String,
    pub target_triple: String,
    pub target_manifest: String,
    pub interface_root: String,
    /// Absolute artifact path when present; empty for interfaces-only packages.
    pub artifact: String,
    pub crate_name: String,
    pub rustc: String,
}

/// Two records hold the same text in every field.
pub open spec fn same_record(a: LockedPackage, b: LockedPackage) -> bool {
    &&& a.name@ == b.name@
    &&& a.version@ == b.version@
    &&& a.source@ == b.source@
    &&& a.package_root@ == b.package_root@
    &&& a.kind@ == b.kind@
    &&& a.target_language@ == b.target_language@
    &&& a.target_triple@ == b.target_triple@
    &&& a.target_manifest@ == b.target_manifest@
    &&& a.interface_root@ == b.interface_root@
    &&& a.artifact@ == b.artifact@
    &&& a.crate_name@ == b.crate_name@
    &&& a.rustc@ == b.rustc@
}

impl LockedPackage {
    /// A copy of this record.
    pub fn duplicate(&self) -> (r: Self)
        ensures
            r == *self,
    {
        LockedPackage {
            name: self.name.clone(),
            version: self.version.clone(),
            source: self.source.clone(),
            package_root: self.package_root.clone(),
            kind: self.kind.clone(),
            target_language: self.target_language.clone(),
            target_triple: self.target_triple.clone(),
            target_manifest: self.target_manifest.clone(),
            interface_root: self.interface_root.clone(),
            artifact: self.artifact.clone(),
            crate_name: self.crate_name.clone(),
            rustc: self.rustc.clone(),
        }
    }
}

impl Clone for LockedPackage {
    fn clone(&self) -> (r: Self)
        ensures
            r == *self,
    {
        self.duplicate()
    }
}

impl PartialEq for LockedPackage {
    fn eq(&self, other: &Self) -> (r: bool) {
        text_eq(&self.name, &other.name) && text_eq(&self.version, &other.version) && text_eq(
            &self.source,
            &other.source,
        ) && text_eq(&self.package_root, &other.package_root) && text_eq(&self.kind, &other.kind)
            && text_eq(&self.target_language, &other.target_language) && text_eq(
            &self.target_triple,
            &other.target_triple,
        ) && text_eq(&self.target_manifest, &other.target_manifest) && text_eq(
            &self.interface_root,
            &other.interface_root,
        ) && text_eq(&self.artifact, &other.artifact) && text_eq(
            &self.crate_name,
            &other.crate_name,
        ) && text_eq(&self.rustc, &other.rustc)
    }
}

impl vstd::std_specs::cmp::PartialEqSpecImpl for LockedPackage {
    open spec fn obeys_eq_spec() -> bool {
        true
    }

    open spec fn eq_spec(&self, other: &Self) -> bool {
        same_record(*self, *other)
    }
}

impl VersionedRecord for LockedPackage {
    open spec fn record_name(&self) -> Seq<char> {
        self.name@
    }

    open spec fn record_version(&self) -> Seq<char> {
        self.version@
    }

    fn name_text(&self) -> (r: &str) {
        self.name.as_str()
    }

    fn version_text(&self) -> (r: &str) {
        self.version.as_str()
    }

    fn clone_record(&self) -> (r: Self) {
        self.duplicate()
    }
}

/// The lockfile: its package records in file order.
#[derive(Debug)]
pub struct FaberLock {
    pub packages: Vec<LockedPackage>,
}

impl Default for FaberLock {
    fn default() -> (r: Self)
        ensures
            r.packages@.len() == 0,
    {
        FaberLock { packages: Vec::new() }
    }
}

/// Some record of `s` is named `name`.
pub open spec fn has_name(s: Seq<LockedPackage>, name: Seq<char>) -> bool {
    exists|i: int| 0 <= i < s.len() && (#[trigger] s[i]).name@ == name
}

/// How many records of `s` are named `name`.
pub open spec fn count_named(s: Seq<LockedPackage>, name: Seq<char>) -> nat
    decreases s.len(),
{
    if s.len() == 0 {
        0
    } else {
        count_named(s.drop_last(), name) + if s.last().name@ == name {
            1nat
        } else {
            0nat
        }
    }
}

/// The records of `s` that are not named `name`, in order.
pub open spec fn others(s: Seq<LockedPackage>, name: Seq<char>) -> Seq<LockedPackage>
    decreases s.len(),
{
    if s.len() == 0 {
        s
    } else if s.last().name@ == name {
        others(s.drop_last(), name)
    } else {
        others(s.drop_last(), name).push(s.last())
    }
}

/// `s` read left to right with the first record named like `p` replaced by `p`
/// and every later record of that name dropped.
pub open spec fn upsert_prefix(s: Seq<LockedPackage>, p: LockedPackage) -> Seq<LockedPackage>
    decreases s.len(),
{
    if s.len() == 0 {
        s
    } else {
        let prev = upsert_prefix(s.drop_last(), p);
        if s.last().name@ != p.name@ {
            prev.push(s.last())
        } else if has_name(s.drop_last(), p.name@) {
            prev
        } else {
            prev.push(p)
        }
    }
}

/// The records after `p` is upserted into `s`: it takes the place of the first
/// record of its name (later ones are dropped), or is appended when there is none.
pub open spec fn upserted(s: Seq<LockedPackage>, p: LockedPackage) -> Seq<LockedPackage> {
    if has_name(s, p.name@) {
        upsert_prefix(s, p)
    } else {
        s.push(p)
    }
}

proof fn lemma_has_name_push(s: Seq<LockedPackage>, e: LockedPackage, name: Seq<char>)
    ensures
        has_name(s.push(e), name) == (has_name(s, name) || e.name@ == name),
{
    if has_name(s, name) {
        let i = choose|i: int| 0 <= i < s.len() && (#[trigger] s[i]).name@ == name;
        assert(s.push(e)[i] == s[i]);
    }
    if e.name@ == name {
        assert(s.push(e)[s.len() as int] == e);
    }
    if has_name(s.push(e), name) {
        let i = choose|i: int| 0 <= i < s.push(e).len() && (#[trigger] s.push(e)[i]).name@ == name;
        if i < s.len() {
            assert(s[i] == s.push(e)[i]);
        }
    }
}

proof fn lemma_no_name_prefix_is_identity(s: Seq<LockedPackage>, p: LockedPackage)
    requires
        !has_name(s, p.name@),
    ensures
        upsert_prefix(s, p) == s,
    decreases s.len(),
{
    if s.len() > 0 {
        lemma_has_name_push(s.drop_last(), s.last(), p.name@);
        assert(s.drop_last().push(s.last()) =~= s);
        lemma_no_name_prefix_is_identity(s.drop_last(), p);
    }
}

/// Upsert one package record by name: it replaces the first record of the same
/// name in place, later records of that name are dropped, and a record of a new
/// name is appended.
pub fn upsert_package(lock: &mut FaberLock, package: LockedPackage)
    ensures
        final(lock).packages@ == upserted(old(lock).packages@, package),
{
    let ghost s = lock.packages@;
    let mut out: Vec<LockedPackage> = Vec::new();
    let mut seen = false;
    let n = lock.packages.len();
    let mut i: usize = 0;
    while i < n
        invariant
            n == s.len(),
            lock.packages@ == s,
            i <= n,
            out@ == upsert_prefix(s.take(i as int), package),
            seen == has_name(s.take(i as int), package.name@),
        decreases n - i,
    {
        let entry = &lock.packages[i];
        proof {
            assert(s.take(i + 1).drop_last() =~= s.take(i as int));
            assert(s.take(i + 1).last() == s[i as int]);
            assert(s.take(i + 1) =~= s.take(i as int).push(s[i as int]));
            lemma_has_name_push(s.take(i as int), s[i as int], package.name@);
        }
        if !text_eq(&entry.name, &package.name) {
            out.push(entry.duplicate());
        } else if !seen {
            out.push(package.clone());
            seen = true;
        }
        i = i + 1;
    }
    proof {
        assert(s.take(n as int) =~= s);
    }
    if seen {
        lock.packages = out;
    } else {
        proof {
            lemma_no_name_prefix_is_identity(s, package);
        }
        lock.packages.push(package);
    }
}

proof fn lemma_prefix_facts(s: Seq<LockedPackage>, p: LockedPackage)
    ensures
        count_named(upsert_prefix(s, p), p.name@) == if has_name(s, p.name@) {
            1nat
        } else {
            0nat
        },
        others(upsert_prefix(s, p), p.name@) == others(s, p.name@),
        has_name(s, p.name@) ==> exists|i: int|
            0 <= i < upsert_prefix(s, p).len() && #[trigger] upsert_prefix(s, p)[i] == p,
    decreases s.len(),
{
    if s.len() > 0 {
        let t = s.drop_last();
        let e = s.last();
        let prev = upsert_prefix(t, p);
        lemma_prefix_facts(t, p);
        lemma_has_name_push(t, e, p.name@);
        assert(t.push(e) =~= s);
        if e.name@ != p.name@ {
            assert(prev.push(e).drop_last() =~= prev);
            if has_name(t, p.name@) {
                let i = choose|i: int| 0 <= i < prev.len() && #[trigger] prev[i] == p;
                assert(prev.push(e)[i] == p);
            }
        } else if !has_name(t, p.name@) {
            assert(prev.push(p).drop_last() =~= prev);
            assert(prev.push(p)[prev.len() as int] == p);
        }
    }
}

proof fn lemma_count_named_zero(s: Seq<LockedPackage>, name: Seq<char>)
    ensures
        (count_named(s, name) == 0) == !has_name(s, name),
        others(s, name) == s <== !has_name(s, name),
    decreases s.len(),
{
    if s.len() > 0 {
        lemma_has_name_push(s.drop_last(), s.last(), name);
        assert(s.drop_last().push(s.last()) =~= s);
        lemma_count_named_zero(s.drop_last(), name);
    }
}

/// After an upsert the lock holds exactly one record of the package's name, that
/// record is the upserted one, and the records of every other name are kept in
/// their order.
pub proof fn lemma_upsert_single_entry(s: Seq<LockedPackage>, p: LockedPackage)
    ensures
        count_named(upserted(s, p), p.name@) == 1,
        exists|i: int| 0 <= i < upserted(s, p).len() && #[trigger] upserted(s, p)[i] == p,
        others(upserted(s, p), p.name@) == others(s, p.name@),
{
    lemma_prefix_facts(s, p);
    if !has_name(s, p.name@) {
        lemma_count_named_zero(s, p.name@);
        assert(s.push(p).drop_last() =~= s);
        assert(s.push(p)[s.len() as int] == p);
    } else {
        let i = choose|i: int|
            0 <= i < upsert_prefix(s, p).len() && #[trigger] upsert_prefix(s, p)[i] == p;
        assert(upserted(s, p)[i] == p);
    }
}

proof fn lemma_prefix_of_single(s: Seq<LockedPackage>, p: LockedPackage)
    requires
        count_named(s, p.name@) == 1,
        exists|i: int| 0 <= i < s.len() && #[trigger] s[i] == p,
    ensures
        upsert_prefix(s, p) == s,
    decreases s.len(),
{
    if s.len() > 0 {
        let t = s.drop_last();
        let e = s.last();
        assert(t.push(e) =~= s);
        lemma_has_name_push(t, e, p.name@);
        if e.name@ == p.name@ {
            assert(count_named(t, p.name@) == 0);
            lemma_count_named_zero(t, p.name@);
            lemma_no_name_prefix_is_identity(t, p);
            let i = choose|i: int| 0 <= i < s.len() && #[trigger] s[i] == p;
            if i < t.len() {
                assert(t[i] == s[i]);
                assert(has_name(t, p.name@));
            }
            assert(e == p);
        } else {
            let i = choose|i: int| 0 <= i < s.len() && #[trigger] s[i] == p;
            assert(i != s.len() - 1);
            assert(t[i] == s[i]);
            lemma_prefix_of_single(t, p);
        }
    }
}

/// Upserting the same record twice leaves the lock as one upsert left it.
pub proof fn lemma_upsert_idempotent(s: Seq<LockedPackage>, p: LockedPackage)
    ensures
        upserted(upserted(s, p), p) == upserted(s, p),
{
    let u = upserted(s, p);
    lemma_upsert_single_entry(s, p);
    lemma_count_named_zero(u, p.name@);
    let i = choose|i: int| 0 <= i < u.len() && #[trigger] u[i] == p;
    assert(has_name(u, p.name@)) by {
        assert(u[i].name@ == p.name@);
    }
    lemma_prefix_of_single(u, p);
}

/// The lock with its records in (name, version) order, as it is written;
/// records with equal keys keep their order.
pub fn ordered_lock(lock: &FaberLock) -> (r: FaberLock)
    ensures
        is_sorted(r.packages@),
        r.packages@.to_multiset() == lock.packages@.to_multiset(),
        exists|pos: Seq<int>| stable_arrangement(lock.packages@, r.packages@, pos),
{
    let mut copy: Vec<LockedPackage> = Vec::new();
    let mut i: usize = 0;
    while i < lock.packages.len()
        invariant
            i <= lock.packages.len(),
            copy@ == lock.packages@.take(i as int),
        decreases lock.packages.len() - i,
    {
        copy.push(lock.packages[i].duplicate());
        i = i + 1;
        assert(copy@ =~= lock.packages@.take(i as int));
    }
    assert(lock.packages@.take(lock.packages@.len() as int) =~= lock.packages@);
    FaberLock { packages: sort_records(copy) }
}

/// What an install hands over for its lock record. Paths are the canonical
/// package source and store directories; `artifact_name` is relative to the
/// installed target directory and empty for interfaces-only packages.
pub struct InstalledLockInput<'a> {
    pub name: &'a str,
    pub version: &'a str,
    pub source_path: &'a str,
    pub package_store_root: &'a str,
    pub target_language: &'a str,
    pub target_triple: &'a str,
    pub artifact_name: &'a str,
    pub crate_name: &'a str,
    pub rustc: &'a str,
    pub kind: &'a str,
    pub has_artifact: bool,
}

/// The installed target directory: `<root>/targets/<language>/<triple>`.
pub open spec fn target_dir_of(root: Seq<char>, language: Seq<char>, triple: Seq<char>) -> Seq<
    char,
> {
    path_join(path_join(path_join(root, "targets"@), language), triple)
}

/// The lock record of an install.
pub open spec fn lock_record(input: InstalledLockInput, r: LockedPackage) -> bool {
    let target_dir = target_dir_of(
        input.package_store_root@,
        input.target_language@,
        input.target_triple@,
    );
    &&& r.name@ == input.name@
    &&& r.version@ == input.version@
    &&& r.source@ == "path:"@ + input.source_path@
    &&& r.package_root@ == input.package_store_root@
    &&& r.kind@ == input.kind@
    &&& r.target_language@ == input.target_language@
    &&& r.target_triple@ == input.target_triple@
    &&& r.target_manifest@ == path_join(target_dir, "cista.toml"@)
    &&& r.interface_root@ == path_join(input.package_store_root@, "interfaces"@)
    &&& r.artifact@ == if input.has_artifact && input.artifact_name@.len() > 0 {
        path_join(target_dir, input.artifact_name@)
    } else {
        Seq::empty()
    }
    &&& r.crate_name@ == input.crate_name@
    &&& r.rustc@ == input.rustc@
}

/// Build the lock record of a successfully installed package. The artifact is
/// left empty unless the install produced one with a non-empty name. The
/// source and store paths are recorded as given: the caller hands in the paths
/// it resolved (canonical where they can be resolved, else as given).
pub fn locked_from_install(input: InstalledLockInput<'_>) -> (r: LockedPackage)
    ensures
        lock_record(input, r),
{
    let targets = join_path(input.package_store_root, "targets");
    let language_dir = join_path(&targets, input.target_language);
    let target_dir = join_path(&language_dir, input.target_triple);
    let artifact = if input.has_artifact && input.artifact_name.unicode_len() > 0 {
        join_path(&target_dir, input.artifact_name)
    } else {
        String::new()
    };
    proof {
        reveal_strlit("targets");
    }
    let source = concat("path:", input.source_path);
    LockedPackage {
        name: input.name.to_owned(),
        version: input.version.to_owned(),
        source,
        package_root: input.package_store_root.to_owned(),
        kind: input.kind.to_owned(),
        target_language: input.target_language.to_owned(),
        target_triple: input.target_triple.to_owned(),
        target_manifest: join_path(&target_dir, "cista.toml"),
        interface_root: join_path(input.package_store_root, "interfaces"),
        artifact,
        crate_name: input.crate_name.to_owned(),
        rustc: input.rustc.to_owned(),
    }
}

/// The lockfile path inside a project root.
pub fn lock_path(project_root: &str) -> (p: String)
    ensures
        p@ == path_join(project_root@, LOCK_FILE@),
{
    join_path(project_root, LOCK_FILE)
}

} // verus!
