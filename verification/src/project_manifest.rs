//! The project `faber.toml` as far as lock rewrites need it: the package
//! identity and the `[dependencies]` table.
//!
//! The manifest is read from a parsed TOML document. A document that has only
//! the known top-level tables (and well-typed package and dependency entries)
//! is read strictly and keeps its `paths`, `build` and `reader` tables; any other
//! document is read loosely, for forward compatibility, and keeps only the
//! package identity and the dependency versions.

use vstd::prelude::*;
use crate::text::{concat, opt_text, text_eq};

verus! {

/// File name of the project manifest.
pub const PROJECT_MANIFEST: &'static str = "faber.toml";

/// A parsed TOML value. Floats are carried as their decimal text; nothing here
/// reads them.
#[derive(Debug)]
pub enum TomlValue {
    String(String),
    Integer(i64),
    Float(String),
    Boolean(bool),
    Datetime(String),
    Array(Vec<TomlValue>),
    Table(Vec<(String, TomlValue)>),
}

/// The value stored under `key` in a table's entries (the first such entry).
pub open spec fn entry(entries: Seq<(String, TomlValue)>, key: Seq<char>) -> Option<TomlValue>
    decreases entries.len(),
{
    if entries.len() == 0 {
        None
    } else if entries[0].0@ == key {
        Some(entries[0].1)
    } else {
        entry(entries.drop_first(), key)
    }
}

/// `table[key]` when `v` is a table.
pub open spec fn get(v: TomlValue, key: Seq<char>) -> Option<TomlValue> {
    match v {
        TomlValue::Table(entries) => entry(entries@, key),
        _ => None,
    }
}

/// The string held by an optional value, if it is a string.
pub open spec fn as_text(v: Option<TomlValue>) -> Option<Seq<char>> {
    match v {
        Some(TomlValue::String(s)) => Some(s@),
        _ => None,
    }
}

/// An optional value that is absent or a string.
pub open spec fn absent_or_text(v: Option<TomlValue>) -> bool {
    v is None || as_text(v) is Some
}

/// A value that is a table.
pub open spec fn is_table(v: Option<TomlValue>) -> bool {
    v matches Some(TomlValue::Table(_))
}

/// The package section.
#[derive(Debug)]
pub struct ProjectPackage {
    pub name: String,
    pub version: Option<String>,
    pub edition: Option<String>,
}

/// Declared dependency versions by package name.
#[derive(Debug)]
pub struct Dependencies {
    pub entries: Vec<(String, String)>,
}

/// The version pinned for `name` among the (name, version) pairs.
pub open spec fn pinned(entries: Seq<(String, String)>, name: Seq<char>) -> Option<Seq<char>>
    decreases entries.len(),
{
    if entries.len() == 0 {
        None
    } else if entries[0].0@ == name {
        Some(entries[0].1@)
    } else {
        pinned(entries.drop_first(), name)
    }
}

/// The version pinned for `name` is the one of the first entry named `name`;
/// there is none exactly when no entry is named `name`.
pub proof fn lemma_pinned_is_first_entry(entries: Seq<(String, String)>, name: Seq<char>)
    ensures
        pinned(entries, name) is None <==> (forall|k: int|
            0 <= k < entries.len() ==> (#[trigger] entries[k]).0@ != name),
        forall|k: int|
            0 <= k < entries.len() && (#[trigger] entries[k]).0@ == name && (forall|j: int|
                0 <= j < k ==> entries[j].0@ != name) ==> pinned(entries, name) == Some(
                entries[k].1@,
            ),
    decreases entries.len(),
{
    if entries.len() > 0 {
        let rest = entries.drop_first();
        lemma_pinned_is_first_entry(rest, name);
        assert forall|k: int| 0 <= k < rest.len() implies rest[k] == entries[k + 1] by {}
        if entries[0].0@ != name {
            assert forall|k: int|
                0 <= k < entries.len() && (#[trigger] entries[k]).0@ == name && (forall|j: int|
                    0 <= j < k ==> entries[j].0@ != name) implies pinned(entries, name) == Some(
                entries[k].1@,
            ) by {
                assert(k > 0);
                assert(rest[k - 1] == entries[k]);
                assert forall|j: int| 0 <= j < k - 1 implies rest[j].0@ != name by {
                    assert(rest[j] == entries[j + 1]);
                }
            }
            if pinned(entries, name) is None {
                assert forall|k: int| 0 <= k < entries.len() implies (#[trigger] entries[k]).0@
                    != name by {
                    if k > 0 {
                        assert(rest[k - 1] == entries[k]);
                    }
                }
            } else {
                let k = choose|k: int| 0 <= k < rest.len() && (#[trigger] rest[k]).0@ == name;
                assert(entries[k + 1] == rest[k]);
            }
        }
    }
}

impl Dependencies {
    /// Dependencies from (name, version) pairs.
    pub fn from_pairs(entries: Vec<(String, String)>) -> (d: Self)
        ensures
            d.entries@ == entries@,
    {
        Dependencies { entries }
    }

    /// The version declared for `name`.
    pub fn get(&self, name: &str) -> (r: Option<&String>)
        ensures
            match r {
                Some(v) => pinned(self.entries@, name@) == Some(v@),
                None => pinned(self.entries@, name@) is None,
            },
            r is None <==> (forall|k: int|
                0 <= k < self.entries@.len() ==> (#[trigger] self.entries@[k]).0@ != name@),
            forall|k: int|
                0 <= k < self.entries@.len() && (#[trigger] self.entries@[k]).0@ == name@ && (
                forall|j: int| 0 <= j < k ==> self.entries@[j].0@ != name@) ==> (r matches Some(v)
                    && v@ == self.entries@[k].1@),
    {
        proof {
            lemma_pinned_is_first_entry(self.entries@, name@);
        }
        let mut i: usize = 0;
        assert(self.entries@.skip(0) =~= self.entries@);
        while i < self.entries.len()
            invariant
                i <= self.entries.len(),
                pinned(self.entries@, name@) == pinned(self.entries@.skip(i as int), name@),
            decreases self.entries.len() - i,
        {
            proof {
                assert(self.entries@.skip(i as int).drop_first() =~= self.entries@.skip(i + 1));
            }
            if text_eq(self.entries[i].0.as_str(), name) {
                let r = Some(&self.entries[i].1);
                proof {
                    lemma_pinned_is_first_entry(self.entries@, name@);
                    assert forall|k: int|
                        0 <= k < self.entries@.len() && (#[trigger] self.entries@[k]).0@ == name@
                            && (forall|j: int| 0 <= j < k ==> self.entries@[j].0@ != name@) implies (
                    r matches Some(v) && v@ == self.entries@[k].1@) by {
                        assert(pinned(self.entries@, name@) == Some(self.entries@[k].1@));
                    }
                }
                return r;
            }
            i = i + 1;
        }
        None
    }
}

/// The project manifest.
#[derive(Debug)]
pub struct ProjectManifest {
    pub package: ProjectPackage,
    pub dependencies: Dependencies,
    pub paths: Option<TomlValue>,
    pub build: Option<TomlValue>,
    pub reader: Option<TomlValue>,
}

/// The top-level keys a strictly read manifest may have.
pub open spec fn known_top_level(key: Seq<char>) -> bool {
    key == "package"@ || key == "dependencies"@ || key == "paths"@ || key == "build"@ || key
        == "reader"@
}

/// The document reads strictly: a table of known keys whose package has a
/// string name (and string version and edition, when present) and whose
/// dependencies, when present, are a table of strings.
pub open spec fn strict_shape(root: TomlValue) -> bool {
    match root {
        TomlValue::Table(entries) => {
            let package = entry(entries@, "package"@);
            let deps = entry(entries@, "dependencies"@);
            &&& forall|i: int| 0 <= i < entries@.len() ==> known_top_level(#[trigger] entries@[i].0@)
            &&& is_table(package)
            &&& as_text(get(package.unwrap(), "name"@)) is Some
            &&& absent_or_text(get(package.unwrap(), "version"@))
            &&& absent_or_text(get(package.unwrap(), "edition"@))
            &&& (deps is None || (is_table(deps) && forall|i: int|
                0 <= i < deps.unwrap()->Table_0@.len() ==> (#[trigger] deps.unwrap()->Table_0@[i]).1 is String))
        },
        _ => false,
    }
}

/// The version a dependency entry declares: the string itself, or the
/// `version` string of an inline table.
pub open spec fn declared_version(v: TomlValue) -> Option<Seq<char>> {
    match v {
        TomlValue::String(s) => Some(s@),
        _ => as_text(get(v, "version"@)),
    }
}

/// Reading the dependency entries from index `i` on: the (name, version) texts,
/// or the first entry that declares no version.
pub open spec fn read_dependencies(entries: Seq<(String, TomlValue)>, path: Seq<char>, i: int) -> Result<
    Seq<(Seq<char>, Seq<char>)>,
    Seq<char>,
>
    decreases entries.len() - i,
{
    if i < 0 || i >= entries.len() {
        Ok(Seq::empty())
    } else {
        match declared_version(entries[i].1) {
            None => Err(
                path + " dependency `"@ + entries[i].0@ + "` must be an exact version string"@,
            ),
            Some(v) => match read_dependencies(entries, path, i + 1) {
                Ok(rest) => Ok(seq![(entries[i].0@, v)] + rest),
                Err(e) => Err(e),
            },
        }
    }
}

/// The (name, version) texts of dependency pairs.
pub open spec fn pair_texts(pairs: Seq<(String, String)>) -> Seq<(Seq<char>, Seq<char>)> {
    pairs.map_values(|p: (String, String)| (p.0@, p.1@))
}

/// What reading the document at `root` (from the file at `path`) must give:
/// an error message, or the manifest's identity and dependency texts.
pub open spec fn manifest_reading(root: TomlValue, path: Seq<char>) -> Result<
    (Seq<char>, Option<Seq<char>>, Option<Seq<char>>, Seq<(Seq<char>, Seq<char>)>),
    Seq<char>,
> {
    match root {
        TomlValue::Table(entries) => {
            let package = entry(entries@, "package"@);
            if !is_table(package) {
                Err(path + " missing [package]"@)
            } else {
                match as_text(get(package.unwrap(), "name"@)) {
                    None => Err(path + " package.name is required"@),
                    Some(name) => {
                        let deps = entry(entries@, "dependencies"@);
                        let read = match deps {
                            None => Ok(Seq::empty()),
                            Some(TomlValue::Table(d)) => read_dependencies(d@, path, 0),
                            Some(_) => Err(path + " [dependencies] must be a table"@),
                        };
                        match read {
                            Err(e) => Err(e),
                            Ok(pairs) => Ok(
                                (
                                    name,
                                    as_text(get(package.unwrap(), "version"@)),
                                    as_text(get(package.unwrap(), "edition"@)),
                                    pairs,
                                ),
                            ),
                        }
                    },
                }
            }
        },
        _ => Err("invalid "@ + path + ": root must be a table"@),
    }
}

/// The manifest `m` is what `manifest_reading` gives for `root`, and it keeps
/// the `paths`, `build` and `reader` tables exactly when the document reads
/// strictly.
pub open spec fn read_as(root: TomlValue, path: Seq<char>, m: ProjectManifest) -> bool {
    &&& manifest_reading(root, path) matches Ok(r)
    &&& m.package.name@ == r.0
    &&& opt_text(m.package.version) == r.1
    &&& opt_text(m.package.edition) == r.2
    &&& pair_texts(m.dependencies.entries@) == r.3
    &&& if strict_shape(root) {
        m.paths == entry(root->Table_0@, "paths"@) && m.build == entry(
            root->Table_0@,
            "build"@,
        ) && m.reader == entry(root->Table_0@, "reader"@)
    } else {
        m.paths is None && m.build is None && m.reader is None
    }
}

fn lookup<'a>(entries: &'a Vec<(String, TomlValue)>, key: &str) -> (r: Option<&'a TomlValue>)
    ensures
        match r {
            Some(v) => entry(entries@, key@) == Some(*v),
            None => entry(entries@, key@) is None,
        },
{
    let mut i: usize = 0;
    assert(entries@.skip(0) =~= entries@);
    while i < entries.len()
        invariant
            i <= entries.len(),
            entry(entries@, key@) == entry(entries@.skip(i as int), key@),
        decreases entries.len() - i,
    {
        proof {
            assert(entries@.skip(i as int).drop_first() =~= entries@.skip(i + 1));
        }
        if text_eq(entries[i].0.as_str(), key) {
            return Some(&entries[i].1);
        }
        i = i + 1;
    }
    None
}

fn value_entry<'a>(v: &'a TomlValue, key: &str) -> (r: Option<&'a TomlValue>)
    ensures
        match r {
            Some(x) => get(*v, key@) == Some(*x),
            None => get(*v, key@) is None,
        },
{
    match v {
        TomlValue::Table(entries) => lookup(entries, key),
        _ => None,
    }
}

fn text_of(v: Option<&TomlValue>) -> (r: Option<String>)
    ensures
        opt_text(r) == match v {
            Some(x) => as_text(Some(*x)),
            None => None,
        },
{
    match v {
        Some(TomlValue::String(s)) => Some(s.clone()),
        _ => None,
    }
}

fn table_get<'a>(v: &'a TomlValue, key: &str) -> (r: Option<&'a TomlValue>)
    ensures
        match r {
            Some(x) => get(*v, key@) == Some(*x),
            None => get(*v, key@) is None,
        },
{
    match v {
        TomlValue::Table(entries) => lookup(entries, key),
        _ => None,
    }
}

fn take_kept_tables(entries: Vec<(String, TomlValue)>) -> (r: (
    Option<TomlValue>,
    Option<TomlValue>,
    Option<TomlValue>,
))
    ensures
        r.0 == entry(entries@, "paths"@),
        r.1 == entry(entries@, "build"@),
        r.2 == entry(entries@, "reader"@),
{
    let ghost orig = entries@;
    let mut v = entries;
    let mut paths: Option<TomlValue> = None;
    let mut build: Option<TomlValue> = None;
    let mut reader: Option<TomlValue> = None;
    proof {
        assert(orig.skip(orig.len() as int) =~= Seq::<(String, TomlValue)>::empty());
    }
    while v.len() > 0
        invariant
            v@ == orig.take(v@.len() as int),
            v@.len() <= orig.len(),
            paths == entry(orig.skip(v@.len() as int), "paths"@),
            build == entry(orig.skip(v@.len() as int), "build"@),
            reader == entry(orig.skip(v@.len() as int), "reader"@),
        decreases v.len(),
    {
        let ghost j = v@.len() - 1;
        let (k, val) = v.pop().unwrap();
        proof {
            reveal_strlit("paths");
            reveal_strlit("build");
            reveal_strlit("reader");
            assert(orig.skip(j).drop_first() =~= orig.skip(j + 1));
            assert(orig.skip(j)[0] == orig[j]);
            assert(v@ =~= orig.take(j));
            assert(orig.take(j + 1).last() == orig[j]);
            assert(k == orig[j].0 && val == orig[j].1);
        }
        if text_eq(k.as_str(), "paths") {
            assert(k@[0] == 'p' && "build"@[0] == 'b' && "reader"@[0] == 'r');
            paths = Some(val);
        } else if text_eq(k.as_str(), "build") {
            assert(k@[0] == 'b' && "reader"@[0] == 'r');
            build = Some(val);
        } else if text_eq(k.as_str(), "reader") {
            reader = Some(val);
        }
    }
    assert(orig.skip(0) =~= orig);
    (paths, build, reader)
}

fn is_known_top_level(key: &str) -> (b: bool)
    ensures
        b == known_top_level(key@),
{
    text_eq(key, "package") || text_eq(key, "dependencies") || text_eq(key, "paths") || text_eq(
        key,
        "build",
    ) || text_eq(key, "reader")
}

fn absent_or_string(v: Option<&TomlValue>) -> (b: bool)
    ensures
        b == match v {
            Some(x) => absent_or_text(Some(*x)),
            None => true,
        },
{
    match v {
        None => true,
        Some(TomlValue::String(_)) => true,
        Some(_) => false,
    }
}

/// Whether the document reads strictly.
#[verifier::loop_isolation(false)]
pub fn reads_strictly(root: &TomlValue) -> (b: bool)
    ensures
        b == strict_shape(*root),
{
    let entries = match root {
        TomlValue::Table(entries) => entries,
        _ => {
            return false;
        },
    };
    let mut i: usize = 0;
    while i < entries.len()
        invariant
            i <= entries.len(),
            forall|j: int| 0 <= j < i ==> known_top_level(#[trigger] entries@[j].0@),
        decreases entries.len() - i,
    {
        if !is_known_top_level(entries[i].0.as_str()) {
            assert(!known_top_level(entries@[i as int].0@));
            return false;
        }
        i = i + 1;
    }
    let package = match lookup(entries, "package") {
        Some(p) => p,
        None => {
            return false;
        },
    };
    match package {
        TomlValue::Table(_) => {},
        _ => {
            return false;
        },
    }
    if text_of(table_get(package, "name")).is_none() {
        return false;
    }
    if !absent_or_string(table_get(package, "version")) || !absent_or_string(
        table_get(package, "edition"),
    ) {
        return false;
    }
    match lookup(entries, "dependencies") {
        None => true,
        Some(TomlValue::Table(d)) => {
            let mut k: usize = 0;
            while k < d.len()
                invariant
                    k <= d.len(),
                    forall|j: int| 0 <= j < k ==> (#[trigger] d@[j]).1 is String,
                decreases d.len() - k,
            {
                match &d[k].1 {
                    TomlValue::String(_) => {},
                    _ => {
                        assert(!(d@[k as int].1 is String));
                        return false;
                    },
                }
                k = k + 1;
            }
            true
        },
        Some(_) => false,
    }
}

fn dependency_pairs(d: &Vec<(String, TomlValue)>, path: &str) -> (r: Result<
    Vec<(String, String)>,
    String,
>)
    ensures
        match (r, read_dependencies(d@, path@, 0)) {
            (Ok(v), Ok(p)) => pair_texts(v@) == p,
            (Err(e), Err(m)) => e@ == m,
            _ => false,
        },
{
    let mut out: Vec<(String, String)> = Vec::new();
    let mut i: usize = 0;
    while i < d.len()
        invariant
            i <= d.len(),
            read_dependencies(d@, path@, 0) == match read_dependencies(d@, path@, i as int) {
                Ok(rest) => Ok(pair_texts(out@) + rest),
                Err(e) => Err(e),
            },
        decreases d.len() - i,
    {
        let key = &d[i].0;
        let version = match &d[i].1 {
            TomlValue::String(s) => Some(s.clone()),
            other => text_of(table_get(other, "version")),
        };
        match version {
            None => {
                let mut m = path.to_owned();
                m.append(" dependency `");
                m.append(key.as_str());
                m.append("` must be an exact version string");
                return Err(m);
            },
            Some(v) => {
                let ghost before = out@;
                out.push((key.clone(), v));
                proof {
                    assert(pair_texts(out@) =~= pair_texts(before) + seq![(d@[i as int].0@, v@)]);
                    match read_dependencies(d@, path@, i + 1) {
                        Ok(rest) => {
                            assert(pair_texts(before) + (seq![(d@[i as int].0@, v@)] + rest)
                                =~= pair_texts(out@) + rest);
                        },
                        Err(_) => {},
                    }
                }
            },
        }
        i = i + 1;
    }
    proof {
        assert(pair_texts(out@) + Seq::<(Seq<char>, Seq<char>)>::empty() =~= pair_texts(out@));
    }
    Ok(out)
}

/// Read the project manifest from its parsed TOML document; `path` names the
/// file in messages.
pub fn project_manifest_from_toml(root: TomlValue, path: &str) -> (r: Result<
    ProjectManifest,
    String,
>)
    ensures
        match (r, manifest_reading(root, path@)) {
            (Ok(m), Ok(_)) => read_as(root, path@, m),
            (Err(e), Err(m)) => e@ == m,
            _ => false,
        },
{
    let strict = reads_strictly(&root);
    let entries = match &root {
        TomlValue::Table(entries) => entries,
        _ => {
            let mut m = "invalid ".to_owned();
            m.append(path);
            m.append(": root must be a table");
            return Err(m);
        },
    };
    let package = match lookup(entries, "package") {
        Some(p) => p,
        None => {
            return Err(concat(path, " missing [package]"));
        },
    };
    match package {
        TomlValue::Table(_) => {},
        _ => {
            return Err(concat(path, " missing [package]"));
        },
    }
    let name = match text_of(table_get(package, "name")) {
        Some(n) => n,
        None => {
            return Err(concat(path, " package.name is required"));
        },
    };
    let pairs = match lookup(entries, "dependencies") {
        None => Vec::new(),
        Some(TomlValue::Table(d)) => dependency_pairs(d, path)?,
        Some(_) => {
            return Err(concat(path, " [dependencies] must be a table"));
        },
    };
    proof {
        assert(pair_texts(Seq::<(String, String)>::empty()) =~= Seq::empty());
    }
    let version = text_of(table_get(package, "version"));
    let edition = text_of(table_get(package, "edition"));
    let (paths, build, reader) = if strict {
        match root {
            TomlValue::Table(entries) => take_kept_tables(entries),
            _ => (None, None, None),
        }
    } else {
        (None, None, None)
    };
    Ok(
        ProjectManifest {
            package: ProjectPackage { name, version, edition },
            dependencies: Dependencies { entries: pairs },
            paths,
            build,
            reader,
        },
    )
}

/// What the exact-pin check on a dependency gives.
pub open spec fn pin_check(
    deps: Seq<(String, String)>,
    package: Seq<char>,
    version: Seq<char>,
) -> Result<(), Seq<char>> {
    match pinned(deps, package) {
        Some(declared) => if declared == version {
            Ok(())
        } else {
            Err(
                "project declares `"@ + package + " = \""@ + declared
                    + "\"` but installed version is `"@ + version + "`"@,
            )
        },
        None => Err(
            "package `"@ + package + "` is not declared in faber.toml [dependencies]; add `"@
                + package + " = \""@ + version + "\"` before install lock rewrite"@,
        ),
    }
}

/// Require the project to pin `package` at exactly `version`.
pub fn require_exact_dependency(manifest: &ProjectManifest, package: &str, version: &str) -> (r:
    Result<(), String>)
    ensures
        match (r, pin_check(manifest.dependencies.entries@, package@, version@)) {
            (Ok(()), Ok(())) => true,
            (Err(e), Err(m)) => e@ == m,
            _ => false,
        },
{
    match manifest.dependencies.get(package) {
        Some(declared) => {
            if text_eq(declared.as_str(), version) {
                Ok(())
            } else {
                let mut m = "project declares `".to_owned();
                m.append(package);
                m.append(" = \"");
                m.append(declared.as_str());
                m.append("\"` but installed version is `");
                m.append(version);
                m.append("`");
                Err(m)
            }
        },
        None => {
            let mut m = "package `".to_owned();
            m.append(package);
            m.append("` is not declared in faber.toml [dependencies]; add `");
            m.append(package);
            m.append(" = \"");
            m.append(version);
            m.append("\"` before install lock rewrite");
            Err(m)
        },
    }
}


/// `toml::Value` is carried only as far as its conversion into `TomlValue`.
#[verifier::external_type_specification]
#[verifier::external_body]
pub struct ExTomlValue(toml::Value);

/// What `toml::from_str` makes of a text read as a `toml::Value`, converted
/// into `TomlValue`, or the parser's error message.
pub uninterp spec fn parsed_toml_text(text: Seq<char>) -> Result<TomlValue, Seq<char>>;

/// Converts a `toml::Value` into `TomlValue` variant for variant; floats and
/// datetimes are carried as their text. Nothing is claimed of it beyond what
/// `parse_toml_text` names.
#[verifier::external_body]
fn toml_value(value: toml::Value) -> TomlValue {
    match value {
        toml::Value::String(s) => TomlValue::String(s),
        toml::Value::Integer(n) => TomlValue::Integer(n),
        toml::Value::Float(f) => TomlValue::Float(f.to_string()),
        toml::Value::Boolean(b) => TomlValue::Boolean(b),
        toml::Value::Datetime(d) => TomlValue::Datetime(d.to_string()),
        toml::Value::Array(items) => TomlValue::Array(items.into_iter().map(toml_value).collect()),
        toml::Value::Table(t) => TomlValue::Table(t.into_iter().map(|(k, v)| (k, toml_value(v))).collect()),
    }
}

/// Parses `contents` with `toml::from_str` into a `toml::Value`. The contract
/// only names the outcome (`parsed_toml_text`, a function of the text alone);
/// the TOML grammar and the parser's messages are not stated.
#[verifier::external_body]
pub(crate) fn parse_toml_text(contents: &str) -> (r: Result<TomlValue, String>)
    ensures
        match (r, parsed_toml_text(contents@)) {
            (Ok(v), Ok(w)) => v == w,
            (Err(e), Err(m)) => e@ == m,
            _ => false,
        },
{
    match toml::from_str::<toml::Value>(contents) {
        Ok(value) => Ok(toml_value(value)),
        Err(err) => Err(err.to_string()),
    }
}

/// What reading the text of a project manifest at `path` gives, once the text
/// has been parsed into `parsed`.
pub open spec fn text_reading(parsed: Result<TomlValue, Seq<char>>, path: Seq<char>) -> Result<
    (Seq<char>, Option<Seq<char>>, Option<Seq<char>>, Seq<(Seq<char>, Seq<char>)>),
    Seq<char>,
> {
    match parsed {
        Err(e) => Err("invalid "@ + path + ": "@ + e),
        Ok(root) => manifest_reading(root, path),
    }
}

/// Read a project manifest from its text: a text that is not TOML is
/// `invalid <path>: <parser message>`; otherwise the parsed value is read as
/// `project_manifest_from_toml` does.
pub fn project_manifest_from_text(contents: &str, path: &str) -> (r: Result<ProjectManifest, String>)
    ensures
        match (r, text_reading(parsed_toml_text(contents@), path@)) {
            (Ok(m), Ok(_)) => read_as(parsed_toml_text(contents@)->Ok_0, path@, m),
            (Err(e), Err(m)) => e@ == m,
            _ => false,
        },
{
    match parse_toml_text(contents) {
        Ok(root) => project_manifest_from_toml(root, path),
        Err(e) => {
            let head = concat("invalid ", path);
            let head = concat(head.as_str(), ": ");
            Err(concat(head.as_str(), e.as_str()))
        },
    }
}

/// The manifest declares `source.role = "meta"`.
pub open spec fn declares_meta_role(root: TomlValue) -> bool {
    as_text(get_opt(get(root, "source"@), "role"@)) == Some("meta"@)
}

/// The value under `key` of an optional value.
pub open spec fn get_opt(v: Option<TomlValue>, key: Seq<char>) -> Option<TomlValue> {
    match v {
        Some(t) => get(t, key),
        None => None,
    }
}

/// Whether the package manifest text at `path` is a meta manifest: a text
/// that is not TOML is `failed to parse manifest <path>: <parser message>`.
pub fn manifest_text_is_meta(contents: &str, path: &str) -> (r: Result<bool, String>)
    ensures
        match (r, parsed_toml_text(contents@)) {
            (Ok(b), Ok(root)) => b == declares_meta_role(root),
            (Err(e), Err(m)) => e@ == "failed to parse manifest "@ + path@ + ": "@ + m,
            _ => false,
        },
{
    match parse_toml_text(contents) {
        Ok(root) => {
            let source = value_entry(&root, "source");
            let role = match source {
                Some(t) => value_entry(t, "role"),
                None => None,
            };
            match role {
                Some(TomlValue::String(s)) => Ok(text_eq(s.as_str(), "meta")),
                _ => Ok(false),
            }
        },
        Err(e) => {
            let head = concat("failed to parse manifest ", path);
            let head = concat(head.as_str(), ": ");
            Err(concat(head.as_str(), e.as_str()))
        },
    }
}

} // verus!
