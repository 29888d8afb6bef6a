//! Shared package-store layout rules (cista-owned discovery).
//!
//! A store holds `<package>/<version>/` directories. Names that start with `.`
//! are reserved for the store's own namespaces (such as `.cache`), and
//! version directories named like `<version>.incoming-<pid>-<seq>` or
//! `<version>.replaced-<pid>-<seq>` belong to in-flight install transactions.
//! Reading directories happens at the caller; this module decides which
//! entries are packages, orders them, and resolves package identifiers.

use vstd::prelude::*;
use crate::manifest::CistaManifest;
use crate::ordering::{is_sorted, sort_records, VersionedRecord};
use crate::paths::{join_path, path_join};
use crate::text::{
    all_digits, blank, chars_of, contains_char, digits_only, has_char, is_blank, matches_at,
    occurs_at, sub_chars, text_eq,
};

verus! {

broadcast use vstd::string::group_string_axioms;

/// Text views of a list of strings.
pub open spec fn views(v: Seq<String>) -> Seq<Seq<char>> {
    v.map_values(|s: String| s@)
}

/// Rightmost start position of `needle` in `hay` at or before `i`, or `-1`.
pub open spec fn last_occurrence_from(hay: Seq<char>, needle: Seq<char>, i: int) -> int
    decreases i + 1,
{
    if i < 0 {
        -1
    } else if occurs_at(hay, needle, i) {
        i
    } else {
        last_occurrence_from(hay, needle, i - 1)
    }
}

/// Rightmost start position of `needle` in `hay`, or `-1`.
pub open spec fn last_occurrence(hay: Seq<char>, needle: Seq<char>) -> int {
    last_occurrence_from(hay, needle, hay.len() - needle.len())
}

proof fn lemma_last_occurrence_from(hay: Seq<char>, needle: Seq<char>, i: int)
    requires
        i >= -1,
    ensures
        -1 <= last_occurrence_from(hay, needle, i) <= i,
        last_occurrence_from(hay, needle, i) >= 0 ==> occurs_at(
            hay,
            needle,
            last_occurrence_from(hay, needle, i),
        ),
    decreases i + 1,
{
    if i >= 0 && !occurs_at(hay, needle, i) {
        lemma_last_occurrence_from(hay, needle, i - 1);
    }
}

/// Position of the first `c` in `s` at or after `i`, or `-1`.
pub open spec fn first_index_from(s: Seq<char>, c: char, i: int) -> int
    decreases s.len() - i,
{
    if i < 0 || i >= s.len() {
        -1
    } else if s[i] == c {
        i
    } else {
        first_index_from(s, c, i + 1)
    }
}

pub proof fn lemma_first_index_from(s: Seq<char>, c: char, i: int)
    requires
        0 <= i,
    ensures
        first_index_from(s, c, i) == -1 || (i <= first_index_from(s, c, i) < s.len()
            && s[first_index_from(s, c, i)] == c),
        forall|j: int|
            i <= j < s.len() && (first_index_from(s, c, i) == -1 || j < first_index_from(
                s,
                c,
                i,
            )) ==> s[j] != c,
    decreases s.len() - i,
{
    if i < s.len() && s[i] != c {
        lemma_first_index_from(s, c, i + 1);
    }
}

/// `version` ends in `<marker><digits>-<digits>` after a non-empty base, where
/// `marker` is its last occurrence.
pub open spec fn has_transaction_marker(version: Seq<char>, marker: Seq<char>) -> bool {
    let k = last_occurrence(version, marker);
    if k < 0 {
        false
    } else {
        let suffix = version.skip(k + marker.len());
        let d = first_index_from(suffix, '-', 0);
        k > 0 && d > 0 && d + 1 < suffix.len() && all_digits(suffix.take(d)) && all_digits(
            suffix.skip(d + 1),
        )
    }
}

/// A version name that belongs to an install transaction directory.
pub open spec fn is_transaction_name(version: Seq<char>) -> bool {
    has_transaction_marker(version, ".incoming-"@) || has_transaction_marker(
        version,
        ".replaced-"@,
    )
}

/// A name that may stand as one directory level of the store.
pub open spec fn valid_segment(value: Seq<char>, is_version: bool) -> bool {
    &&& !has_char(value, '/')
    &&& !has_char(value, '\\')
    &&& !has_char(value, '@')
    &&& value != "."@
    &&& value != ".."@
    &&& !(value.len() > 0 && value[0] == '.')
    &&& (!is_version || !is_transaction_name(value))
}

fn has_transaction_suffix(version: &Vec<char>, marker: &Vec<char>) -> (b: bool)
    ensures
        b == has_transaction_marker(version@, marker@),
{
    if marker.len() > version.len() {
        assert(last_occurrence_from(version@, marker@, version@.len() - marker@.len()) == -1);
        return false;
    }
    let mut i: usize = version.len() - marker.len();
    let found: bool;
    loop
        invariant_except_break
            i + marker.len() <= version.len(),
            last_occurrence(version@, marker@) == last_occurrence_from(version@, marker@, i as int),
        ensures
            i + marker.len() <= version.len(),
            found ==> last_occurrence(version@, marker@) == i,
            !found ==> last_occurrence(version@, marker@) == -1,
        decreases i,
    {
        if matches_at(version, marker, i) {
            found = true;
            break;
        }
        if i == 0 {
            assert(last_occurrence_from(version@, marker@, -1) == -1);
            found = false;
            break;
        }
        i = i - 1;
    }
    if !found {
        return false;
    }
    let k = i;
    proof {
        lemma_last_occurrence_from(version@, marker@, k as int);
    }
    let start = k + marker.len();
    let suffix = sub_chars(version, start, version.len());
    let mut d: usize = 0;
    while d < suffix.len() && suffix[d] != '-'
        invariant
            d <= suffix.len(),
            first_index_from(suffix@, '-', 0) == first_index_from(suffix@, '-', d as int),
        decreases suffix.len() - d,
    {
        d = d + 1;
    }
    proof {
        lemma_first_index_from(suffix@, '-', d as int);
    }
    if d == suffix.len() {
        assert(suffix@ =~= version@.skip(k + marker@.len()));
        return false;
    }
    let r = k > 0 && d > 0 && d + 1 < suffix.len() && digits_only(&suffix, 0, d) && digits_only(
        &suffix,
        d + 1,
        suffix.len(),
    );
    proof {
        assert(suffix@.subrange(0, d as int) =~= suffix@.take(d as int));
        assert(suffix@.subrange(d + 1, suffix@.len() as int) =~= suffix@.skip(d + 1));
        assert(suffix@ =~= version@.skip(k + marker@.len()));
    }
    r
}

/// Whether `version` names an install transaction directory
/// (`<base>.incoming-<pid>-<seq>` or `<base>.replaced-<pid>-<seq>`).
pub fn is_install_transaction_directory(version: &str) -> (b: bool)
    ensures
        b == is_transaction_name(version@),
{
    let v = chars_of(version);
    has_transaction_suffix(&v, &chars_of(".incoming-")) || has_transaction_suffix(
        &v,
        &chars_of(".replaced-"),
    )
}

/// Whether `name` is in a reserved store namespace (it starts with `.`).
pub fn is_reserved_store_namespace(name: &str) -> (b: bool)
    ensures
        b == (name@.len() > 0 && name@[0] == '.'),
{
    let v = chars_of(name);
    v.len() > 0 && v[0] == '.'
}

/// Whether `value` may stand as one directory level of the store.
pub fn is_valid_store_segment(value: &str, is_version: bool) -> (b: bool)
    ensures
        b == valid_segment(value@, is_version),
{
    let v = chars_of(value);
    let dot = text_eq(value, ".");
    let dot_dot = text_eq(value, "..");
    proof {
        reveal_strlit(".");
        reveal_strlit("..");
    }
    !contains_char(&v, '/') && !contains_char(&v, '\\') && !contains_char(&v, '@') && !dot
        && !dot_dot && !(v.len() > 0 && v[0] == '.') && (!is_version
        || !is_install_transaction_directory(value))
}

/// Diagnostic for a field that must carry a value.
pub open spec fn non_empty_diagnostics(field: Seq<char>, value: Seq<char>) -> Seq<Seq<char>> {
    if is_blank(value) {
        seq![field + " must not be empty"@]
    } else {
        Seq::empty()
    }
}

/// Diagnostics for a value that must be a store directory name.
pub open spec fn segment_diagnostics(field: Seq<char>, value: Seq<char>, is_version: bool) -> Seq<
    Seq<char>,
> {
    if value.len() == 0 {
        Seq::empty()
    } else {
        (if !valid_segment(value, is_version) {
            seq![field + " `"@ + value + "` is not a valid package store path segment"@]
        } else {
            Seq::empty()
        }) + (if is_version && is_transaction_name(value) {
            seq![
                field + " `"@ + value
                    + "` collides with Cista install transaction directory namespace"@,
            ]
        } else {
            Seq::empty()
        })
    }
}

/// Diagnostics for a package identity.
pub open spec fn identity_diagnostics(package: Seq<char>, version: Seq<char>) -> Seq<Seq<char>> {
    non_empty_diagnostics("source.package"@, package) + non_empty_diagnostics(
        "source.version"@,
        version,
    ) + segment_diagnostics("source.package"@, package, false) + segment_diagnostics(
        "source.version"@,
        version,
        true,
    )
}

/// Append `field must not be empty` when `value` is blank.
pub fn require_non_empty(field: &str, value: &str, diagnostics: &mut Vec<String>)
    ensures
        views(final(diagnostics)@) == views(old(diagnostics)@) + non_empty_diagnostics(
            field@,
            value@,
        ),
{
    let ghost before = views(diagnostics@);
    if blank(value) {
        let mut m = field.to_owned();
        m.append(" must not be empty");
        diagnostics.push(m);
    }
    assert(views(diagnostics@) =~= before + non_empty_diagnostics(field@, value@));
}

/// Append diagnostics when a non-empty `value` cannot be a store directory
/// name (and, for versions, when it collides with transaction directories).
pub fn validate_store_segment(
    field: &str,
    value: &str,
    is_version: bool,
    diagnostics: &mut Vec<String>,
)
    ensures
        views(final(diagnostics)@) == views(old(diagnostics)@) + segment_diagnostics(
            field@,
            value@,
            is_version,
        ),
{
    let ghost before = views(diagnostics@);
    if chars_of(value).len() == 0 {
        assert(views(diagnostics@) =~= before + segment_diagnostics(field@, value@, is_version));
        return;
    }
    assert(value@.len() != 0);
    if !is_valid_store_segment(value, is_version) {
        let mut m = field.to_owned();
        m.append(" `");
        m.append(value);
        m.append("` is not a valid package store path segment");
        diagnostics.push(m);
    }
    let ghost middle = views(diagnostics@);
    if is_version && is_install_transaction_directory(value) {
        let mut m = field.to_owned();
        m.append(" `");
        m.append(value);
        m.append("` collides with Cista install transaction directory namespace");
        diagnostics.push(m);
    }
    assert(views(diagnostics@) =~= before + segment_diagnostics(field@, value@, is_version));
}

/// Validate a package identity for use as store path segments.
pub fn validate_store_identity(package: &str, version: &str) -> (r: Result<(), Vec<String>>)
    ensures
        match r {
            Ok(()) => identity_diagnostics(package@, version@).len() == 0,
            Err(d) => views(d@) == identity_diagnostics(package@, version@) && d@.len() > 0,
        },
{
    let mut diagnostics: Vec<String> = Vec::new();
    assert(views(diagnostics@) =~= Seq::<Seq<char>>::empty());
    require_non_empty("source.package", package, &mut diagnostics);
    require_non_empty("source.version", version, &mut diagnostics);
    validate_store_segment("source.package", package, false, &mut diagnostics);
    validate_store_segment("source.version", version, true, &mut diagnostics);
    assert(views(diagnostics@) =~= identity_diagnostics(package@, version@));
    if diagnostics.len() == 0 {
        Ok(())
    } else {
        Err(diagnostics)
    }
}

/// An installed package version in the store.
#[derive(Debug)]
pub struct InstalledPackage {
    pub name: String,
    pub version: String,
    pub package_root: String,
    pub interfaces_dir: String,
    pub targets_dir: String,
}

impl InstalledPackage {
    /// A copy of this record.
    pub fn duplicate(&self) -> (r: Self)
        ensures
            r == *self,
    {
        InstalledPackage {
            name: self.name.clone(),
            version: self.version.clone(),
            package_root: self.package_root.clone(),
            interfaces_dir: self.interfaces_dir.clone(),
            targets_dir: self.targets_dir.clone(),
        }
    }
}

impl VersionedRecord for InstalledPackage {
    open spec fn record_name(&self) -> Seq<char> {
        self.name@
    }

    open spec fn record_version(&self) -> Seq<char> {
        self.version@
    }

    fn name_text(&self) -> (r: &str) {
        self.name.as_str()
    }

    fn version_text(&self) -> (r: &str) {
        self.version.as_str()
    }

    fn clone_record(&self) -> (r: Self) {
        self.duplicate()
    }
}

/// The record of package `name` at `version` under `store_root`.
pub open spec fn installed_record(
    store_root: Seq<char>,
    name: Seq<char>,
    version: Seq<char>,
    p: InstalledPackage,
) -> bool {
    let root = path_join(path_join(store_root, name), version);
    &&& p.name@ == name
    &&& p.version@ == version
    &&& p.package_root@ == root
    &&& p.interfaces_dir@ == path_join(root, "interfaces"@)
    &&& p.targets_dir@ == path_join(root, "targets"@)
}

/// A package directory of the store as listed by the caller: its name and the
/// names of the directories inside it.
#[derive(Debug)]
pub struct PackageDirectory {
    pub name: String,
    pub versions: Vec<String>,
}

/// The package directory is one the store lists.
pub open spec fn listed_package(name: Seq<char>) -> bool {
    !(name.len() > 0 && name[0] == '.') && valid_segment(name, false)
}

/// The version directory is one the store lists.
pub open spec fn listed_version(version: Seq<char>) -> bool {
    !is_transaction_name(version) && valid_segment(version, true)
}

/// `p` is the record of a listed package version among `dirs`.
pub open spec fn listed_in(store_root: Seq<char>, dirs: Seq<PackageDirectory>, p: InstalledPackage) -> bool {
    exists|i: int, j: int|
        0 <= i < dirs.len() && 0 <= j < dirs[i].versions@.len() && listed_package(dirs[i].name@)
            && listed_version(#[trigger] dirs[i].versions@[j]@) && p.name@ == dirs[i].name@
            && p.version@ == dirs[i].versions@[j]@ && installed_record(
            store_root,
            dirs[i].name@,
            dirs[i].versions@[j]@,
            p,
        )
}

/// Number of listed versions among `dirs`.
pub open spec fn listed_count(dirs: Seq<PackageDirectory>) -> nat
    decreases dirs.len(),
{
    if dirs.len() == 0 {
        0
    } else {
        listed_count(dirs.drop_last()) + if listed_package(dirs.last().name@) {
            listed_versions(dirs.last().versions@)
        } else {
            0
        }
    }
}

/// Number of listed version directories among `versions`.
pub open spec fn listed_versions(versions: Seq<String>) -> nat
    decreases versions.len(),
{
    if versions.len() == 0 {
        0
    } else {
        listed_versions(versions.drop_last()) + if listed_version(versions.last()@) {
            1nat
        } else {
            0nat
        }
    }
}

/// Build one installed record.
pub fn installed_package(store_root: &str, name: &str, version: &str) -> (p: InstalledPackage)
    ensures
        installed_record(store_root@, name@, version@, p),
{
    let package_dir = join_path(store_root, name);
    let root = join_path(package_dir.as_str(), version);
    let interfaces_dir = join_path(root.as_str(), "interfaces");
    let targets_dir = join_path(root.as_str(), "targets");
    InstalledPackage {
        name: name.to_owned(),
        version: version.to_owned(),
        package_root: root,
        interfaces_dir,
        targets_dir,
    }
}

/// Every record in `found` is listed among `dirs`.
pub open spec fn all_listed(store_root: Seq<char>, dirs: Seq<PackageDirectory>, found: Seq<InstalledPackage>) -> bool {
    forall|k: int| 0 <= k < found.len() ==> listed_in(store_root, dirs, #[trigger] found[k])
}

/// `found` holds a record for version `b` of package directory `a`.
pub open spec fn has_record(dirs: Seq<PackageDirectory>, found: Seq<InstalledPackage>, a: int, b: int) -> bool {
    exists|k: int|
        0 <= k < found.len() && found[k].name@ == dirs[a].name@ && found[k].version@
            == dirs[a].versions@[b]@
}

/// Every listed version of the package directories before `i` has a record.
pub open spec fn covers(dirs: Seq<PackageDirectory>, found: Seq<InstalledPackage>, i: int) -> bool {
    forall|a: int, b: int|
        0 <= a < i && 0 <= b < dirs[a].versions@.len() && listed_package(dirs[a].name@)
            && listed_version(#[trigger] dirs[a].versions@[b]@) ==> has_record(dirs, found, a, b)
}

proof fn lemma_has_record_grows(
    dirs: Seq<PackageDirectory>,
    found: Seq<InstalledPackage>,
    p: InstalledPackage,
    a: int,
    b: int,
)
    requires
        has_record(dirs, found, a, b),
    ensures
        has_record(dirs, found.push(p), a, b),
{
    let k = choose|k: int|
        0 <= k < found.len() && found[k].name@ == dirs[a].name@ && found[k].version@
            == dirs[a].versions@[b]@;
    assert(found.push(p)[k] == found[k]);
}

fn collect_versions(
    store_root: &str,
    dirs: &Vec<PackageDirectory>,
    i: usize,
    found: &mut Vec<InstalledPackage>,
)
    requires
        i < dirs.len(),
        listed_package(dirs@[i as int].name@),
        all_listed(store_root@, dirs@, old(found)@),
        covers(dirs@, old(found)@, i as int),
    ensures
        all_listed(store_root@, dirs@, final(found)@),
        covers(dirs@, final(found)@, i + 1),
        final(found)@.len() == old(found)@.len() + listed_versions(dirs@[i as int].versions@),
{
    let dir = &dirs[i];
    let name = dir.name.as_str();
    let ghost start = found@.len();
    let mut j: usize = 0;
    while j < dir.versions.len()
        invariant
            i < dirs.len(),
            dir == &dirs@[i as int],
            name@ == dir.name@,
            listed_package(name@),
            j <= dir.versions.len(),
            all_listed(store_root@, dirs@, found@),
            covers(dirs@, found@, i as int),
            found@.len() == start + listed_versions(dir.versions@.take(j as int)),
            forall|b: int|
                0 <= b < j && listed_version(#[trigger] dir.versions@[b]@) ==> has_record(
                    dirs@,
                    found@,
                    i as int,
                    b,
                ),
        decreases dir.versions.len() - j,
    {
        let version = dir.versions[j].as_str();
        proof {
            assert(dir.versions@.take(j + 1).drop_last() =~= dir.versions@.take(j as int));
        }
        if !is_install_transaction_directory(version) && is_valid_store_segment(version, true) {
            let p = installed_package(store_root, name, version);
            let ghost before = found@;
            found.push(p);
            proof {
                assert(listed_in(store_root@, dirs@, p)) by {
                    assert(dirs@[i as int].versions@[j as int]@ == version@);
                }
                assert forall|k: int| 0 <= k < found@.len() implies listed_in(
                    store_root@,
                    dirs@,
                    #[trigger] found@[k],
                ) by {
                    if k < before.len() {
                        assert(found@[k] == before[k]);
                    }
                }
                assert forall|a: int, b: int|
                    0 <= a < i && 0 <= b < dirs@[a].versions@.len() && listed_package(
                        dirs@[a].name@,
                    ) && listed_version(#[trigger] dirs@[a].versions@[b]@) implies has_record(
                    dirs@,
                    found@,
                    a,
                    b,
                ) by {
                    lemma_has_record_grows(dirs@, before, p, a, b);
                }
                assert forall|b: int|
                    0 <= b < j + 1 && listed_version(#[trigger] dir.versions@[b]@) implies has_record(
                    dirs@,
                    found@,
                    i as int,
                    b,
                ) by {
                    if b < j {
                        lemma_has_record_grows(dirs@, before, p, i as int, b);
                    } else {
                        assert(found@[before.len() as int] == p);
                    }
                }
            }
        }
        j = j + 1;
    }
    assert(dir.versions@.take(j as int) =~= dir.versions@);
    assert forall|a: int, b: int|
        0 <= a < i + 1 && 0 <= b < dirs@[a].versions@.len() && listed_package(dirs@[a].name@)
            && listed_version(#[trigger] dirs@[a].versions@[b]@) implies has_record(
        dirs@,
        found@,
        a,
        b,
    ) by {
        if a == i {
        }
    }
}

proof fn lemma_same_elements<T>(a: Seq<T>, b: Seq<T>)
    requires
        a.to_multiset() == b.to_multiset(),
    ensures
        forall|x: T| a.contains(x) <==> b.contains(x),
{
    broadcast use vstd::seq_lib::group_seq_properties;

    assert forall|x: T| a.contains(x) <==> b.contains(x) by {
        a.to_multiset_ensures();
        b.to_multiset_ensures();
        assert(a.contains(x) <==> a.to_multiset().count(x) > 0);
        assert(b.contains(x) <==> b.to_multiset().count(x) > 0);
    }
}

/// List installed package versions, given the store's package directories and
/// the directories inside each. Reserved namespaces, names that cannot be
/// store segments, and install transaction directories are skipped; the result
/// is ordered by name, then version.
pub fn list_installed(store_root: &str, dirs: &Vec<PackageDirectory>) -> (packages: Vec<
    InstalledPackage,
>)
    ensures
        is_sorted(packages@),
        all_listed(store_root@, dirs@, packages@),
        covers(dirs@, packages@, dirs@.len() as int),
        packages@.len() == listed_count(dirs@),
{
    let mut found: Vec<InstalledPackage> = Vec::new();
    let mut i: usize = 0;
    while i < dirs.len()
        invariant
            i <= dirs.len(),
            all_listed(store_root@, dirs@, found@),
            covers(dirs@, found@, i as int),
            found@.len() == listed_count(dirs@.take(i as int)),
        decreases dirs.len() - i,
    {
        proof {
            assert(dirs@.take(i + 1).drop_last() =~= dirs@.take(i as int));
        }
        let name = dirs[i].name.as_str();
        if !is_reserved_store_namespace(name) && is_valid_store_segment(name, false) {
            collect_versions(store_root, dirs, i, &mut found);
        } else {
            assert(covers(dirs@, found@, i + 1)) by {
                assert(!listed_package(dirs@[i as int].name@));
            }
        }
        i = i + 1;
    }
    let ghost unsorted = found@;
    proof {
        assert(dirs@.take(i as int) =~= dirs@);
    }
    let packages = sort_records(found);
    proof {
        packages@.to_multiset_ensures();
        unsorted.to_multiset_ensures();
        lemma_same_elements(packages@, unsorted);
        assert forall|k: int| 0 <= k < packages@.len() implies listed_in(
            store_root@,
            dirs@,
            #[trigger] packages@[k],
        ) by {
            assert(packages@.contains(packages@[k]));
        }
        assert forall|a: int, b: int|
            0 <= a < dirs@.len() && 0 <= b < dirs@[a].versions@.len() && listed_package(
                dirs@[a].name@,
            ) && listed_version(#[trigger] dirs@[a].versions@[b]@) implies has_record(
            dirs@,
            packages@,
            a,
            b,
        ) by {
            let k = choose|k: int|
                0 <= k < unsorted.len() && unsorted[k].name@ == dirs@[a].name@
                    && unsorted[k].version@ == dirs@[a].versions@[b]@;
            assert(unsorted.contains(unsorted[k]));
            let x = unsorted[k];
            let m = choose|m: int| 0 <= m < packages@.len() && packages@[m] == x;
            assert(packages@[m].name@ == dirs@[a].name@);
        }
    }
    packages
}

/// `(name, version)` parts of a package identifier `name` or `name@version`:
/// the text before the first `@`, and the text after it.
pub open spec fn package_id_parts(id: Seq<char>) -> (Seq<char>, Option<Seq<char>>) {
    let k = first_index_from(id, '@', 0);
    if k < 0 {
        (id, None)
    } else {
        (id.take(k), Some(id.skip(k + 1)))
    }
}

/// Parse `name` or `name@version`.
pub fn split_package_id(package_id: &str) -> (r: (String, Option<String>))
    ensures
        package_id_parts(package_id@) == (r.0@, match r.1 {
            Some(v) => Some(v@),
            None => None::<Seq<char>>,
        }),
{
    let v = chars_of(package_id);
    let mut k: usize = 0;
    while k < v.len() && v[k] != '@'
        invariant
            k <= v.len(),
            v@ == package_id@,
            first_index_from(v@, '@', 0) == first_index_from(v@, '@', k as int),
        decreases v.len() - k,
    {
        k = k + 1;
    }
    if k == v.len() {
        (package_id.to_owned(), None)
    } else {
        let name = crate::text::string_of(&sub_chars(&v, 0, k));
        let version = crate::text::string_of(&sub_chars(&v, k + 1, v.len()));
        assert(v@.subrange(0, k as int) =~= v@.take(k as int));
        assert(v@.subrange(k + 1, v@.len() as int) =~= v@.skip(k + 1));
        (name, Some(version))
    }
}

/// Splitting `name@version` gives back the name and version when the name
/// holds no `@`.
pub proof fn lemma_split_package_id_round_trip(name: Seq<char>, version: Seq<char>)
    requires
        !has_char(name, '@'),
    ensures
        package_id_parts(name + "@"@ + version) == (name, Some(version)),
{
    reveal_strlit("@");
    let id = name + "@"@ + version;
    assert forall|j: int| 0 <= j < name.len() implies id[j] != '@' by {
        assert(id[j] == name[j]);
    }
    assert(id[name.len() as int] == '@');
    lemma_first_index_from(id, '@', 0);
    assert(id.take(name.len() as int) =~= name);
    assert(id.skip(name.len() as int + 1) =~= version);
}

/// The installed records of package `name`, in order.
pub open spec fn records_named(installed: Seq<InstalledPackage>, name: Seq<char>) -> Seq<
    InstalledPackage,
>
    decreases installed.len(),
{
    if installed.len() == 0 {
        Seq::empty()
    } else {
        let prev = records_named(installed.drop_last(), name);
        if installed.last().name@ == name {
            prev.push(installed.last())
        } else {
            prev
        }
    }
}

/// The first record from index `i` on whose version is `version`.
pub open spec fn first_with_version(
    records: Seq<InstalledPackage>,
    version: Seq<char>,
    i: int,
) -> Option<InstalledPackage>
    decreases records.len() - i,
{
    if i < 0 || i >= records.len() {
        None
    } else if records[i].version@ == version {
        Some(records[i])
    } else {
        first_with_version(records, version, i + 1)
    }
}

/// The texts joined by `sep`.
pub open spec fn join_texts(parts: Seq<Seq<char>>, sep: Seq<char>) -> Seq<char>
    decreases parts.len(),
{
    if parts.len() == 0 {
        Seq::empty()
    } else if parts.len() == 1 {
        parts[0]
    } else {
        join_texts(parts.drop_last(), sep) + sep + parts.last()
    }
}

/// The versions of the records, in order.
pub open spec fn versions_of(records: Seq<InstalledPackage>) -> Seq<Seq<char>> {
    records.map_values(|p: InstalledPackage| p.version@)
}

/// What resolving `package_id` among `installed` gives.
pub open spec fn resolve_installed(
    store_root: Seq<char>,
    installed: Seq<InstalledPackage>,
    package_id: Seq<char>,
) -> Result<InstalledPackage, Seq<char>> {
    let (name, version) = package_id_parts(package_id);
    let matches = records_named(installed, name);
    if matches.len() == 0 {
        Err("package `"@ + name + "` is not installed in store "@ + store_root)
    } else {
        match version {
            Some(v) => match first_with_version(matches, v, 0) {
                Some(p) => Ok(p),
                None => Err(
                    "package `"@ + name + "` version `"@ + v + "` is not installed in store "@
                        + store_root,
                ),
            },
            None => if matches.len() == 1 {
                Ok(matches[0])
            } else {
                Err(
                    "package `"@ + name + "` has multiple installed versions ("@ + join_texts(
                        versions_of(matches),
                        ", "@,
                    ) + "); use `"@ + name + "@<version>`"@,
                )
            },
        }
    }
}

proof fn lemma_first_with_version_result(records: Seq<InstalledPackage>, version: Seq<char>, i: int)
    requires
        0 <= i,
    ensures
        first_with_version(records, version, i) matches Some(p) ==> (p.version@ == version
            && records.contains(p)),
        first_with_version(records, version, i) is None ==> forall|j: int|
            i <= j < records.len() ==> (#[trigger] records[j]).version@ != version,
    decreases records.len() - i,
{
    if i < records.len() {
        lemma_first_with_version_result(records, version, i + 1);
    }
}

/// Resolution is exact. A resolved record is an installed record of the
/// requested name; when the identifier names a version, resolution succeeds
/// exactly when a record of that name and version is installed, and the record
/// it gives has that version; when records of the name are installed but none
/// of that version, it fails with the `version ... is not installed` error.
/// When no version is named, it succeeds exactly when one record of the name is
/// installed.
pub proof fn lemma_resolution_is_exact(
    store_root: Seq<char>,
    installed: Seq<InstalledPackage>,
    package_id: Seq<char>,
)
    ensures
        resolve_installed(store_root, installed, package_id) matches Ok(p) ==> p.name@
            == package_id_parts(package_id).0 && installed.contains(p),
        package_id_parts(package_id).1 matches Some(v) ==> ((resolve_installed(
            store_root,
            installed,
            package_id,
        ) is Ok <==> exists|k: int|
            0 <= k < installed.len() && (#[trigger] installed[k]).name@ == package_id_parts(
                package_id,
            ).0 && installed[k].version@ == v) && (resolve_installed(
            store_root,
            installed,
            package_id,
        ) matches Ok(p) ==> p.version@ == v)),
        package_id_parts(package_id).1 matches Some(v) ==> ((exists|k: int|
            0 <= k < installed.len() && (#[trigger] installed[k]).name@ == package_id_parts(
                package_id,
            ).0) && !(exists|k: int|
            0 <= k < installed.len() && (#[trigger] installed[k]).name@ == package_id_parts(
                package_id,
            ).0 && installed[k].version@ == v) ==> resolve_installed(
            store_root,
            installed,
            package_id,
        ) == Err::<InstalledPackage, Seq<char>>(
            "package `"@ + package_id_parts(package_id).0 + "` version `"@ + v
                + "` is not installed in store "@ + store_root,
        )),
{
    let name = package_id_parts(package_id).0;
    let matches = records_named(installed, name);
    lemma_records_named(installed, name);
    lemma_first_with_version_result(matches, match package_id_parts(package_id).1 {
        Some(v) => v,
        None => Seq::empty(),
    }, 0);
    if let Some(v) = package_id_parts(package_id).1 {
        if exists|k: int|
            0 <= k < installed.len() && (#[trigger] installed[k]).name@ == name
                && installed[k].version@ == v {
            let k = choose|k: int|
                0 <= k < installed.len() && (#[trigger] installed[k]).name@ == name
                    && installed[k].version@ == v;
            assert(matches.contains(installed[k]));
            let j = choose|j: int| 0 <= j < matches.len() && matches[j] == installed[k];
            assert(matches[j].version@ == v);
        }
        match first_with_version(matches, v, 0) {
            Some(p) => {
                let j = choose|j: int| 0 <= j < matches.len() && matches[j] == p;
                assert(matches[j].name@ == name);
                let m = choose|m: int| 0 <= m < installed.len() && installed[m] == p;
                assert(installed[m].name@ == name && installed[m].version@ == v);
            },
            None => {},
        }
        if exists|k: int| 0 <= k < installed.len() && (#[trigger] installed[k]).name@ == name {
            let k = choose|k: int| 0 <= k < installed.len() && (#[trigger] installed[k]).name@ == name;
            assert(matches.contains(installed[k]));
        }
    } else {
        if matches.len() == 1 {
            assert(matches[0].name@ == name);
        }
    }
}

/// Resolve `name` or `name@version` among the installed packages of the store
/// at `store_root` (as listed by `list_installed`).
pub fn find_installed(
    store_root: &str,
    package_id: &str,
    installed: &Vec<InstalledPackage>,
) -> (r: Result<InstalledPackage, String>)
    ensures
        match (r, resolve_installed(store_root@, installed@, package_id@)) {
            (Ok(p), Ok(q)) => p == q,
            (Err(e), Err(m)) => e@ == m,
            _ => false,
        },
        r matches Ok(p) ==> p.name@ == package_id_parts(package_id@).0,
        package_id_parts(package_id@).1 matches Some(v) ==> (r matches Ok(p) ==> p.version@ == v),
{
    let r = resolve_among(store_root, package_id, installed);
    proof {
        lemma_resolution_is_exact(store_root@, installed@, package_id@);
    }
    r
}

fn resolve_among(
    store_root: &str,
    package_id: &str,
    installed: &Vec<InstalledPackage>,
) -> (r: Result<InstalledPackage, String>)
    ensures
        match (r, resolve_installed(store_root@, installed@, package_id@)) {
            (Ok(p), Ok(q)) => p == q,
            (Err(e), Err(m)) => e@ == m,
            _ => false,
        },
{
    let (name, version) = split_package_id(package_id);
    let mut matches: Vec<InstalledPackage> = Vec::new();
    let mut i: usize = 0;
    while i < installed.len()
        invariant
            i <= installed.len(),
            matches@ == records_named(installed@.take(i as int), name@),
        decreases installed.len() - i,
    {
        proof {
            assert(installed@.take(i + 1).drop_last() =~= installed@.take(i as int));
            assert(installed@.take(i + 1).last() == installed@[i as int]);
        }
        if text_eq(installed[i].name.as_str(), name.as_str()) {
            matches.push(installed[i].duplicate());
        }
        i = i + 1;
    }
    assert(installed@.take(installed.len() as int) =~= installed@);
    if matches.len() == 0 {
        let mut m = "package `".to_owned();
        m.append(name.as_str());
        m.append("` is not installed in store ");
        m.append(store_root);
        return Err(m);
    }
    match version {
        Some(v) => {
            let mut k: usize = 0;
            while k < matches.len()
                invariant
                    k <= matches.len(),
                    matches.len() > 0,
                    matches@ == records_named(installed@, name@),
                    package_id_parts(package_id@) == (name@, Some(v@)),
                    first_with_version(matches@, v@, 0) == first_with_version(
                        matches@,
                        v@,
                        k as int,
                    ),
                decreases matches.len() - k,
            {
                if text_eq(matches[k].version.as_str(), v.as_str()) {
                    return Ok(matches[k].duplicate());
                }
                k = k + 1;
            }
            let mut m = "package `".to_owned();
            m.append(name.as_str());
            m.append("` version `");
            m.append(v.as_str());
            m.append("` is not installed in store ");
            m.append(store_root);
            Err(m)
        },
        None => {
            if matches.len() == 1 {
                return Ok(matches[0].duplicate());
            }
            let mut versions = matches[0].version.clone();
            let mut k: usize = 1;
            proof {
                assert(versions_of(matches@).take(1).drop_last() =~= Seq::<Seq<char>>::empty());
            }
            while k < matches.len()
                invariant
                    1 <= k <= matches.len(),
                    versions@ == join_texts(versions_of(matches@).take(k as int), ", "@),
                decreases matches.len() - k,
            {
                versions.append(", ");
                versions.append(matches[k].version.as_str());
                proof {
                    let vs = versions_of(matches@);
                    assert(vs.take(k + 1).drop_last() =~= vs.take(k as int));
                    assert(vs.take(k + 1).last() == matches@[k as int].version@);
                }
                k = k + 1;
            }
            assert(versions_of(matches@).take(matches.len() as int) =~= versions_of(matches@));
            let mut m = "package `".to_owned();
            m.append(name.as_str());
            m.append("` has multiple installed versions (");
            m.append(versions.as_str());
            m.append("); use `");
            m.append(name.as_str());
            m.append("@<version>`");
            Err(m)
        },
    }
}

/// The identity mismatch reported for a manifest found inside a package
/// directory.
pub open spec fn identity_mismatch(
    package: InstalledPackage,
    kind: Seq<char>,
    manifest_path: Seq<char>,
    name: Seq<char>,
    version: Seq<char>,
) -> Seq<char> {
    "installed package identity mismatch: directory `"@ + package.name@ + "@"@ + package.version@
        + "` contains "@ + kind + " manifest "@ + manifest_path + " for `"@ + name + "@"@ + version
        + "`"@
}

/// Check that a target manifest found in an installed package directory names
/// that package and version.
pub fn validate_manifest_identity(
    package: &InstalledPackage,
    manifest_path: &str,
    manifest: &CistaManifest,
) -> (r: Result<(), String>)
    ensures
        (manifest.source.package@ == package.name@ && manifest.source.version@ == package.version@)
            ==> r is Ok,
        !(manifest.source.package@ == package.name@ && manifest.source.version@
            == package.version@) ==> (r matches Err(e) && e@ == identity_mismatch(
            *package,
            "target"@,
            manifest_path@,
            manifest.source.package@,
            manifest.source.version@,
        )),
{
    validate_identity_match(
        package,
        "target",
        manifest_path,
        manifest.source.package.as_str(),
        manifest.source.version.as_str(),
    )
}

/// Check that a manifest (of the given kind, `target` or `root`) found in an
/// installed package directory names that package and version.
pub fn validate_identity_match(
    package: &InstalledPackage,
    kind: &str,
    manifest_path: &str,
    name: &str,
    version: &str,
) -> (r: Result<(), String>)
    ensures
        (name@ == package.name@ && version@ == package.version@) ==> r is Ok,
        !(name@ == package.name@ && version@ == package.version@) ==> (r matches Err(e) && e@
            == identity_mismatch(*package, kind@, manifest_path@, name@, version@)),
{
    if text_eq(name, package.name.as_str()) && text_eq(version, package.version.as_str()) {
        return Ok(());
    }
    let mut m = "installed package identity mismatch: directory `".to_owned();
    m.append(package.name.as_str());
    m.append("@");
    m.append(package.version.as_str());
    m.append("` contains ");
    m.append(kind);
    m.append(" manifest ");
    m.append(manifest_path);
    m.append(" for `");
    m.append(name);
    m.append("@");
    m.append(version);
    m.append("`");
    Err(m)
}

/// One entry met while walking an installed package's `targets` tree, in walk
/// order (a directory's entries follow it).
#[derive(Debug)]
pub enum TreeEntry {
    /// A symbolic link at this path.
    Symlink(String),
    /// A directory at this path.
    Directory(String),
    /// A `cista.toml` file at this path: the identity it declares, or why it
    /// could not be read.
    Manifest(String, Result<(String, String), String>),
    /// Another regular file.
    File(String),
    /// Something that is neither a file, a directory nor a link.
    Unsupported(String),
    /// Listing or inspecting failed with this message.
    Failure(String),
}

/// What stops a walk at an entry, if anything.
pub open spec fn entry_error(package: InstalledPackage, e: TreeEntry) -> Option<Seq<char>> {
    match e {
        TreeEntry::Symlink(p) => Some("installed package contains unsupported symlink "@ + p@),
        TreeEntry::Unsupported(p) => Some("installed package contains unsupported entry "@ + p@),
        TreeEntry::Failure(m) => Some(m@),
        TreeEntry::Manifest(p, Err(m)) => Some(m@),
        TreeEntry::Manifest(p, Ok((n, v))) => if n@ == package.name@ && v@ == package.version@ {
            None
        } else {
            Some(identity_mismatch(package, "target"@, p@, n@, v@))
        },
        _ => None,
    }
}

/// The first error among the entries from `i` on.
pub open spec fn first_tree_error(package: InstalledPackage, entries: Seq<TreeEntry>, i: int) -> Option<
    Seq<char>,
>
    decreases entries.len() - i,
{
    if i < 0 || i >= entries.len() {
        None
    } else {
        match entry_error(package, entries[i]) {
            Some(m) => Some(m),
            None => first_tree_error(package, entries, i + 1),
        }
    }
}

fn tree_entry_error(package: &InstalledPackage, e: &TreeEntry) -> (r: Option<String>)
    ensures
        match r {
            Some(m) => entry_error(*package, *e) == Some(m@),
            None => entry_error(*package, *e) is None,
        },
{
    match e {
        TreeEntry::Symlink(p) => {
            let mut m = "installed package contains unsupported symlink ".to_owned();
            m.append(p.as_str());
            Some(m)
        },
        TreeEntry::Unsupported(p) => {
            let mut m = "installed package contains unsupported entry ".to_owned();
            m.append(p.as_str());
            Some(m)
        },
        TreeEntry::Failure(m) => Some(m.clone()),
        TreeEntry::Manifest(_, Err(m)) => Some(m.clone()),
        TreeEntry::Manifest(p, Ok((n, v))) => {
            match validate_identity_match(package, "target", p.as_str(), n.as_str(), v.as_str()) {
                Ok(()) => None,
                Err(m) => Some(m),
            }
        },
        _ => None,
    }
}

/// Every target manifest in an installed package's `targets` tree must name the
/// package; the walk fails at the first link, unsupported entry, failure or
/// foreign manifest.
pub fn validate_target_entries(package: &InstalledPackage, entries: &Vec<TreeEntry>) -> (r: Result<
    (),
    String,
>)
    ensures
        match first_tree_error(*package, entries@, 0) {
            None => r is Ok,
            Some(m) => r is Err && r->Err_0@ == m,
        },
{
    let mut i: usize = 0;
    while i < entries.len()
        invariant
            i <= entries.len(),
            first_tree_error(*package, entries@, 0) == first_tree_error(*package, entries@, i as int),
        decreases entries.len() - i,
    {
        match tree_entry_error(package, &entries[i]) {
            Some(m) => {
                return Err(m);
            },
            None => {},
        }
        i = i + 1;
    }
    Ok(())
}

/// The walk's first decisive entry from `i` on: the index of the first
/// manifest of the package, or the first error.
pub open spec fn first_manifest(package: InstalledPackage, entries: Seq<TreeEntry>, i: int) -> Result<
    Option<int>,
    Seq<char>,
>
    decreases entries.len() - i,
{
    if i < 0 || i >= entries.len() {
        Ok(None)
    } else {
        match entry_error(package, entries[i]) {
            Some(m) => Err(m),
            None => if entries[i] is Manifest {
                Ok(Some(i))
            } else {
                first_manifest(package, entries, i + 1)
            },
        }
    }
}

/// The first target manifest of an installed package, found by walking its
/// `targets` tree in name order: its index among the entries, or the error that
/// stopped the walk first.
pub fn find_target_manifest(package: &InstalledPackage, entries: &Vec<TreeEntry>) -> (r: Result<
    Option<usize>,
    String,
>)
    ensures
        match (r, first_manifest(*package, entries@, 0)) {
            (Ok(Some(k)), Ok(Some(j))) => k == j,
            (Ok(None), Ok(None)) => true,
            (Err(e), Err(m)) => e@ == m,
            _ => false,
        },
{
    let mut i: usize = 0;
    while i < entries.len()
        invariant
            i <= entries.len(),
            first_manifest(*package, entries@, 0) == first_manifest(*package, entries@, i as int),
        decreases entries.len() - i,
    {
        match tree_entry_error(package, &entries[i]) {
            Some(m) => {
                return Err(m);
            },
            None => {},
        }
        match &entries[i] {
            TreeEntry::Manifest(_, _) => {
                return Ok(Some(i));
            },
            _ => {},
        }
        i = i + 1;
    }
    Ok(None)
}

/// What `inspect` resolved its argument to.
#[derive(Debug)]
pub enum ResolvedInspectTarget {
    /// An existing filesystem path (normalized).
    Path(String),
    /// An installed package.
    Installed(InstalledPackage),
}

/// Where the store root comes from: an explicit `--store`, else
/// `CISTAE_HOME`, else `~/.faber/cistae`. The flag says whether the path is
/// to be normalized (the explicit and environment paths are; the default
/// under `HOME` is taken as is).
pub fn store_root_from(explicit: Option<&str>, cistae_home: Option<&str>, home: Option<&str>) -> (r:
    Result<(String, bool), String>)
    ensures
        match (explicit, cistae_home, home) {
            (Some(p), _, _) => r is Ok && r->Ok_0.0@ == p@ && r->Ok_0.1,
            (None, Some(p), _) => r is Ok && r->Ok_0.0@ == p@ && r->Ok_0.1,
            (None, None, Some(h)) => r is Ok && r->Ok_0.0@ == path_join(
                path_join(h@, ".faber"@),
                "cistae"@,
            ) && !r->Ok_0.1,
            (None, None, None) => r is Err && r->Err_0@
                == "CISTAE_HOME is not set and HOME is unavailable; pass --store explicitly"@,
        },
{
    match (explicit, cistae_home, home) {
        (Some(p), _, _) => Ok((p.to_owned(), true)),
        (None, Some(p), _) => Ok((p.to_owned(), true)),
        (None, None, Some(h)) => {
            let faber = crate::paths::join_path(h, ".faber");
            Ok((crate::paths::join_path(&faber, "cistae"), false))
        },
        (None, None, None) => Err(
            "CISTAE_HOME is not set and HOME is unavailable; pass --store explicitly".to_owned(),
        ),
    }
}

proof fn lemma_records_named(installed: Seq<InstalledPackage>, name: Seq<char>)
    ensures
        forall|j: int|
            0 <= j < records_named(installed, name).len() ==> (#[trigger] records_named(
                installed,
                name,
            )[j]).name@ == name && installed.contains(records_named(installed, name)[j]),
        forall|k: int|
            0 <= k < installed.len() && (#[trigger] installed[k]).name@ == name ==> records_named(
                installed,
                name,
            ).contains(installed[k]),
    decreases installed.len(),
{
    if installed.len() > 0 {
        let t = installed.drop_last();
        let prev = records_named(t, name);
        lemma_records_named(t, name);
        let r = records_named(installed, name);
        assert forall|j: int| 0 <= j < r.len() implies (#[trigger] r[j]).name@ == name
            && installed.contains(r[j]) by {
            if j < prev.len() {
                assert(r[j] == prev[j]);
                let k = choose|k: int| 0 <= k < t.len() && t[k] == prev[j];
                assert(installed[k] == t[k]);
            } else {
                assert(r[j] == installed.last());
                assert(installed[installed.len() - 1] == installed.last());
            }
        }
        assert forall|k: int| 0 <= k < installed.len() && (#[trigger] installed[k]).name@
            == name implies r.contains(installed[k]) by {
            if k < t.len() {
                assert(t[k] == installed[k]);
                let j = choose|j: int| 0 <= j < prev.len() && prev[j] == t[k];
                assert(r[j] == prev[j]);
            } else {
                assert(r[r.len() - 1] == installed[k]);
            }
        }
    }
}

proof fn lemma_first_with_version(records: Seq<InstalledPackage>, version: Seq<char>, i: int, j: int)
    requires
        0 <= i <= j < records.len(),
        records[j].version@ == version,
    ensures
        first_with_version(records, version, i) matches Some(q) && q.version@ == version
            && records.contains(q),
    decreases j - i,
{
    if records[i].version@ != version {
        lemma_first_with_version(records, version, i + 1, j);
    }
}

/// Every package version that the store lists resolves, by its exact
/// `name@version` identifier, to a record of that version at the same place in
/// the store.
pub proof fn lemma_listed_packages_resolve(
    store_root: Seq<char>,
    dirs: Seq<PackageDirectory>,
    installed: Seq<InstalledPackage>,
    k: int,
)
    requires
        all_listed(store_root, dirs, installed),
        0 <= k < installed.len(),
    ensures
        resolve_installed(
            store_root,
            installed,
            installed[k].name@ + "@"@ + installed[k].version@,
        ) matches Ok(q) && q.name@ == installed[k].name@ && q.version@ == installed[k].version@
            && q.package_root@ == installed[k].package_root@ && q.interfaces_dir@
            == installed[k].interfaces_dir@ && q.targets_dir@ == installed[k].targets_dir@,
{
    let p = installed[k];
    assert(listed_in(store_root, dirs, p));
    assert(!has_char(p.name@, '@'));
    lemma_split_package_id_round_trip(p.name@, p.version@);
    let matches = records_named(installed, p.name@);
    lemma_records_named(installed, p.name@);
    assert(matches.contains(p));
    let j = choose|j: int| 0 <= j < matches.len() && matches[j] == p;
    lemma_first_with_version(matches, p.version@, 0, j);
    let q = first_with_version(matches, p.version@, 0).unwrap();
    let m = choose|m: int| 0 <= m < matches.len() && matches[m] == q;
    assert(q.name@ == p.name@);
    let n = choose|n: int| 0 <= n < installed.len() && installed[n] == q;
    assert(listed_in(store_root, dirs, installed[n]));
}

} // verus!
