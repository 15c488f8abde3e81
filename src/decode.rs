//! Decoding the generic tree into the typed descriptor. Keys outside the
//! schema are ignored; a value of the wrong kind, or a missing required key,
//! is reported with the dotted key it stands under.
use vstd::prelude::*;
use crate::descriptor::{DetailedTomlDependency, TomlDependency, TomlManifest, TomlProject, TomlTarget};
use crate::tree::{get, kind_name, kind_of, lookup, Kind, Tree};

verus! {

/// A value of the wrong kind (or a missing one) under a key.
#[derive(Clone, Debug, PartialEq, Eq)]
pub struct Mismatch {
    pub key: String,
    pub expected: Kind,
    pub found: Option<Kind>,
}

/// A mismatch as a model: key, expected kind, kind found (none when missing).
pub type Miss = (Seq<char>, Kind, Option<Kind>);

pub open spec fn is_miss(m: Mismatch, e: Miss) -> bool {
    m.key@ == e.0 && m.expected == e.1 && m.found == e.2
}

pub open spec fn sub_key(path: Seq<char>, key: Seq<char>) -> Seq<char> {
    path + "."@ + key
}

/// The first error of a sequence of items, each checked by `f`.
pub open spec fn first_error<A>(s: Seq<A>, f: spec_fn(A) -> Option<Miss>) -> Option<Miss>
    decreases s.len(),
{
    if s.len() == 0 {
        None
    } else {
        match first_error(s.drop_last(), f) {
            Some(e) => Some(e),
            None => f(s.last()),
        }
    }
}

proof fn lemma_first_error_step<A>(s: Seq<A>, i: int, f: spec_fn(A) -> Option<Miss>)
    requires
        0 <= i < s.len(),
    ensures
        first_error(s.take(i + 1), f) == match first_error(s.take(i), f) {
            Some(e) => Some(e),
            None => f(s[i]),
        },
{
    assert(s.take(i + 1).drop_last() == s.take(i));
    assert(s.take(i + 1).last() == s[i]);
}

proof fn lemma_first_error_prefix<A>(s: Seq<A>, n: int, f: spec_fn(A) -> Option<Miss>)
    requires
        0 <= n <= s.len(),
        first_error(s.take(n), f) is Some,
    ensures
        first_error(s, f) == first_error(s.take(n), f),
    decreases s.len(),
{
    if s.len() == n {
        assert(s.take(n) == s);
    } else {
        assert(s.drop_last().take(n) == s.take(n));
        lemma_first_error_prefix(s.drop_last(), n, f);
    }
}

// Fields of a table.

pub open spec fn str_error(v: Option<Tree>, path: Seq<char>, required: bool) -> Option<Miss> {
    match v {
        None => if required { Some((path, Kind::String, None)) } else { None },
        Some(Tree::Str(_)) => None,
        Some(t) => Some((path, Kind::String, Some(kind_of(t)))),
    }
}

pub open spec fn bool_error(v: Option<Tree>, path: Seq<char>) -> Option<Miss> {
    match v {
        None => None,
        Some(Tree::Bool(_)) => None,
        Some(t) => Some((path, Kind::Boolean, Some(kind_of(t)))),
    }
}

pub open spec fn strs_error(v: Option<Tree>, path: Seq<char>) -> Option<Miss> {
    match v {
        None => None,
        Some(Tree::Array(items)) => first_error(items@, |t: Tree| str_error(Some(t), path, true)),
        Some(t) => Some((path, Kind::Array, Some(kind_of(t)))),
    }
}

pub open spec fn str_is(v: Option<Tree>, s: String) -> bool {
    v matches Some(Tree::Str(x)) && x@ == s@
}

pub open spec fn opt_str_is(v: Option<Tree>, o: Option<String>) -> bool {
    match v {
        None => o is None,
        Some(_) => o matches Some(s) && str_is(v, s),
    }
}

pub open spec fn opt_bool_is(v: Option<Tree>, o: Option<bool>) -> bool {
    match v {
        None => o is None,
        Some(Tree::Bool(b)) => o == Some(b),
        Some(_) => false,
    }
}

pub open spec fn strs_are(items: Seq<Tree>, out: Seq<String>) -> bool {
    out.len() == items.len() && forall|i: int| 0 <= i < items.len() ==> str_is(Some(#[trigger] items[i]), out[i])
}

pub open spec fn opt_strs_is(v: Option<Tree>, o: Option<Vec<String>>) -> bool {
    match v {
        None => o is None,
        Some(Tree::Array(items)) => o matches Some(out) && strs_are(items@, out@),
        Some(_) => false,
    }
}

fn key_path(path: &str, key: &str) -> (r: String)
    ensures
        r@ == sub_key(path@, key@),
{
    let mut s = String::from_str(path);
    s.append(".");
    s.append(key);
    s
}

fn read_str(entries: &Vec<(String, Tree)>, key: &str, path: &str, required: bool) -> (r: Result<Option<String>, Mismatch>)
    ensures
        match r {
            Ok(o) => str_error(lookup(entries@, key@), path@, required) is None
                && opt_str_is(lookup(entries@, key@), o) && (required ==> o is Some),
            Err(m) => str_error(lookup(entries@, key@), path@, required) matches Some(e) && is_miss(m, e),
        },
{
    match get(entries, key) {
        None => if required {
            Err(Mismatch { key: String::from_str(path), expected: Kind::String, found: None })
        } else {
            Ok(None)
        },
        Some(Tree::Str(s)) => Ok(Some(s.clone())),
        Some(t) => Err(Mismatch { key: String::from_str(path), expected: Kind::String, found: Some(t.kind()) }),
    }
}

fn read_bool(entries: &Vec<(String, Tree)>, key: &str, path: &str) -> (r: Result<Option<bool>, Mismatch>)
    ensures
        match r {
            Ok(o) => bool_error(lookup(entries@, key@), path@) is None && opt_bool_is(lookup(entries@, key@), o),
            Err(m) => bool_error(lookup(entries@, key@), path@) matches Some(e) && is_miss(m, e),
        },
{
    match get(entries, key) {
        None => Ok(None),
        Some(Tree::Bool(b)) => Ok(Some(*b)),
        Some(t) => Err(Mismatch { key: String::from_str(path), expected: Kind::Boolean, found: Some(t.kind()) }),
    }
}

fn read_strs(entries: &Vec<(String, Tree)>, key: &str, path: &str) -> (r: Result<Option<Vec<String>>, Mismatch>)
    ensures
        match r {
            Ok(o) => strs_error(lookup(entries@, key@), path@) is None && opt_strs_is(lookup(entries@, key@), o),
            Err(m) => strs_error(lookup(entries@, key@), path@) matches Some(e) && is_miss(m, e),
        },
{
    match get(entries, key) {
        None => Ok(None),
        Some(Tree::Array(items)) => {
            let ghost f = |t: Tree| str_error(Some(t), path@, true);
            let mut out: Vec<String> = Vec::new();
            let mut i: usize = 0;
            while i < items.len()
                invariant
                    f == (|t: Tree| str_error(Some(t), path@, true)),
                    lookup(entries@, key@) == Some(Tree::Array(*items)),
                    i <= items@.len(),
                    out@.len() == i,
                    first_error(items@.take(i as int), f) is None,
                    forall|j: int| 0 <= j < i ==> str_is(Some(#[trigger] items@[j]), out@[j]),
                decreases items@.len() - i,
            {
                proof {
                    lemma_first_error_step(items@, i as int, f);
                }
                match &items[i] {
                    Tree::Str(s) => out.push(s.clone()),
                    t => {
                        proof {
                            assert(!(items@[i as int] is Str));
                            assert(f(items@[i as int]) == Some((path@, Kind::String, Some(kind_of(items@[i as int])))));
                            lemma_first_error_prefix(items@, i as int + 1, f);
                            assert(lookup(entries@, key@) == Some(Tree::Array(*items)));
                            assert(strs_error(lookup(entries@, key@), path@) == first_error(items@, f));
                        }
                        return Err(Mismatch { key: String::from_str(path), expected: Kind::String, found: Some(t.kind()) });
                    },
                }
                i = i + 1;
            }
            assert(items@.take(i as int) == items@);
            Ok(Some(out))
        },
        Some(t) => Err(Mismatch { key: String::from_str(path), expected: Kind::Array, found: Some(t.kind()) }),
    }
}

pub open spec fn or_else(a: Option<Miss>, b: Option<Miss>) -> Option<Miss> {
    if a is Some { a } else { b }
}

// Targets.

pub open spec fn target_error(t: Tree, path: Seq<char>) -> Option<Miss> {
    match t {
        Tree::Table(e) => or_else(str_error(lookup(e@, "name"@), sub_key(path, "name"@), true),
            or_else(strs_error(lookup(e@, "crate_type"@), sub_key(path, "crate_type"@)),
            or_else(str_error(lookup(e@, "path"@), sub_key(path, "path"@), false),
            bool_error(lookup(e@, "test"@), sub_key(path, "test"@))))),
        _ => Some((path, Kind::Table, Some(kind_of(t)))),
    }
}

pub open spec fn target_is(t: Tree, x: TomlTarget) -> bool {
    &&& t is Table
    &&& str_is(lookup(t->Table_0@, "name"@), x.name)
    &&& opt_strs_is(lookup(t->Table_0@, "crate_type"@), x.crate_type)
    &&& opt_str_is(lookup(t->Table_0@, "path"@), x.path)
    &&& opt_bool_is(lookup(t->Table_0@, "test"@), x.test)
}

pub open spec fn targets_error(v: Option<Tree>, path: Seq<char>) -> Option<Miss> {
    match v {
        None => None,
        Some(Tree::Array(items)) => first_error(items@, |t: Tree| target_error(t, path)),
        Some(t) => Some((path, Kind::Array, Some(kind_of(t)))),
    }
}

pub open spec fn targets_are(v: Option<Tree>, o: Option<Vec<TomlTarget>>) -> bool {
    match v {
        None => o is None,
        Some(Tree::Array(items)) => o matches Some(out) && out@.len() == items@.len()
            && forall|i: int| 0 <= i < items@.len() ==> target_is(#[trigger] items@[i], out@[i]),
        Some(_) => false,
    }
}

fn read_target(t: &Tree, path: &str) -> (r: Result<TomlTarget, Mismatch>)
    ensures
        match r {
            Ok(x) => target_error(*t, path@) is None && target_is(*t, x),
            Err(m) => target_error(*t, path@) matches Some(e) && is_miss(m, e),
        },
{
    match t {
        Tree::Table(e) => {
            let name = read_str(e, "name", key_path(path, "name").as_str(), true)?;
            let crate_type = read_strs(e, "crate_type", key_path(path, "crate_type").as_str())?;
            let file = read_str(e, "path", key_path(path, "path").as_str(), false)?;
            let test = read_bool(e, "test", key_path(path, "test").as_str())?;
            Ok(TomlTarget { name: name.unwrap(), crate_type, path: file, test })
        },
        _ => Err(Mismatch { key: String::from_str(path), expected: Kind::Table, found: Some(t.kind()) }),
    }
}

fn read_targets(entries: &Vec<(String, Tree)>, key: &str) -> (r: Result<Option<Vec<TomlTarget>>, Mismatch>)
    ensures
        match r {
            Ok(o) => targets_error(lookup(entries@, key@), key@) is None && targets_are(lookup(entries@, key@), o),
            Err(m) => targets_error(lookup(entries@, key@), key@) matches Some(e) && is_miss(m, e),
        },
{
    match get(entries, key) {
        None => Ok(None),
        Some(Tree::Array(items)) => {
            let ghost f = |t: Tree| target_error(t, key@);
            let mut out: Vec<TomlTarget> = Vec::new();
            let mut i: usize = 0;
            while i < items.len()
                invariant
                    f == (|t: Tree| target_error(t, key@)),
                    lookup(entries@, key@) == Some(Tree::Array(*items)),
                    i <= items@.len(),
                    out@.len() == i,
                    first_error(items@.take(i as int), f) is None,
                    forall|j: int| 0 <= j < i ==> target_is(#[trigger] items@[j], out@[j]),
                decreases items@.len() - i,
            {
                proof {
                    lemma_first_error_step(items@, i as int, f);
                }
                match read_target(&items[i], key) {
                    Ok(x) => out.push(x),
                    Err(m) => {
                        proof {
                            lemma_first_error_prefix(items@, i as int + 1, f);
                        }
                        return Err(m);
                    },
                }
                i = i + 1;
            }
            assert(items@.take(i as int) == items@);
            Ok(Some(out))
        },
        Some(t) => Err(Mismatch { key: String::from_str(key), expected: Kind::Array, found: Some(t.kind()) }),
    }
}

// The project section.

pub open spec fn project_error(v: Option<Tree>, path: Seq<char>) -> Option<Miss> {
    match v {
        None => None,
        Some(Tree::Table(e)) => or_else(str_error(lookup(e@, "name"@), sub_key(path, "name"@), true),
            or_else(str_error(lookup(e@, "version"@), sub_key(path, "version"@), true),
            or_else(strs_error(lookup(e@, "authors"@), sub_key(path, "authors"@)),
            str_error(lookup(e@, "build"@), sub_key(path, "build"@), false)))),
        Some(t) => Some((path, Kind::Table, Some(kind_of(t)))),
    }
}

/// Authors are optional: a missing list reads as an empty one.
pub open spec fn authors_are(v: Option<Tree>, out: Seq<String>) -> bool {
    match v {
        None => out.len() == 0,
        Some(Tree::Array(items)) => strs_are(items@, out),
        Some(_) => false,
    }
}

pub open spec fn project_is(v: Option<Tree>, o: Option<TomlProject>) -> bool {
    match v {
        None => o is None,
        Some(Tree::Table(e)) => o matches Some(p) && str_is(lookup(e@, "name"@), p.name)
            && str_is(lookup(e@, "version"@), p.version) && authors_are(lookup(e@, "authors"@), p.authors@)
            && opt_str_is(lookup(e@, "build"@), p.build),
        Some(_) => false,
    }
}

fn read_project(entries: &Vec<(String, Tree)>, key: &str) -> (r: Result<Option<TomlProject>, Mismatch>)
    ensures
        match r {
            Ok(o) => project_error(lookup(entries@, key@), key@) is None && project_is(lookup(entries@, key@), o),
            Err(m) => project_error(lookup(entries@, key@), key@) matches Some(e) && is_miss(m, e),
        },
{
    match get(entries, key) {
        None => Ok(None),
        Some(Tree::Table(e)) => {
            let name = read_str(e, "name", key_path(key, "name").as_str(), true)?;
            let version = read_str(e, "version", key_path(key, "version").as_str(), true)?;
            let authors = match read_strs(e, "authors", key_path(key, "authors").as_str())? {
                Some(a) => a,
                None => Vec::new(),
            };
            let build = read_str(e, "build", key_path(key, "build").as_str(), false)?;
            Ok(Some(TomlProject { name: name.unwrap(), version: version.unwrap(), authors, build }))
        },
        Some(t) => Err(Mismatch { key: String::from_str(key), expected: Kind::Table, found: Some(t.kind()) }),
    }
}

// Dependencies.

pub open spec fn detail_error(e: Seq<(String, Tree)>, path: Seq<char>) -> Option<Miss> {
    or_else(str_error(lookup(e, "version"@), sub_key(path, "version"@), false),
    or_else(str_error(lookup(e, "path"@), sub_key(path, "path"@), false),
    or_else(str_error(lookup(e, "git"@), sub_key(path, "git"@), false),
    or_else(str_error(lookup(e, "branch"@), sub_key(path, "branch"@), false),
    or_else(str_error(lookup(e, "tag"@), sub_key(path, "tag"@), false),
    str_error(lookup(e, "rev"@), sub_key(path, "rev"@), false))))))
}

pub open spec fn detail_is(e: Seq<(String, Tree)>, d: DetailedTomlDependency) -> bool {
    &&& opt_str_is(lookup(e, "version"@), d.version)
    &&& opt_str_is(lookup(e, "path"@), d.path)
    &&& opt_str_is(lookup(e, "git"@), d.git)
    &&& opt_str_is(lookup(e, "branch"@), d.branch)
    &&& opt_str_is(lookup(e, "tag"@), d.tag)
    &&& opt_str_is(lookup(e, "rev"@), d.rev)
}

/// A dependency is a version string or a table.
pub open spec fn dep_error(entry: (String, Tree)) -> Option<Miss> {
    let path = sub_key("dependencies"@, entry.0@);
    match entry.1 {
        Tree::Str(_) => None,
        Tree::Table(e) => detail_error(e@, path),
        t => Some((path, Kind::Table, Some(kind_of(t)))),
    }
}

pub open spec fn dep_is(entry: (String, Tree), out: (String, TomlDependency)) -> bool {
    &&& out.0@ == entry.0@
    &&& match entry.1 {
        Tree::Str(s) => out.1 matches TomlDependency::SimpleDep(v) && v@ == s@,
        Tree::Table(e) => out.1 matches TomlDependency::DetailedDep(d) && detail_is(e@, d),
        _ => false,
    }
}

pub open spec fn deps_error(v: Option<Tree>) -> Option<Miss> {
    match v {
        None => None,
        Some(Tree::Table(e)) => first_error(e@, |en: (String, Tree)| dep_error(en)),
        Some(t) => Some(("dependencies"@, Kind::Table, Some(kind_of(t)))),
    }
}

pub open spec fn deps_are(v: Option<Tree>, o: Option<Vec<(String, TomlDependency)>>) -> bool {
    match v {
        None => o is None,
        Some(Tree::Table(e)) => o matches Some(out) && out@.len() == e@.len()
            && forall|i: int| 0 <= i < e@.len() ==> dep_is(#[trigger] e@[i], out@[i]),
        Some(_) => false,
    }
}

fn read_dep(name: &String, t: &Tree) -> (r: Result<(String, TomlDependency), Mismatch>)
    ensures
        match r {
            Ok(x) => dep_error((*name, *t)) is None && dep_is((*name, *t), x),
            Err(m) => dep_error((*name, *t)) matches Some(e) && is_miss(m, e),
        },
{
    let path = key_path("dependencies", name.as_str());
    match t {
        Tree::Str(s) => Ok((name.clone(), TomlDependency::SimpleDep(s.clone()))),
        Tree::Table(e) => {
            let version = read_str(e, "version", key_path(path.as_str(), "version").as_str(), false)?;
            let file = read_str(e, "path", key_path(path.as_str(), "path").as_str(), false)?;
            let git = read_str(e, "git", key_path(path.as_str(), "git").as_str(), false)?;
            let branch = read_str(e, "branch", key_path(path.as_str(), "branch").as_str(), false)?;
            let tag = read_str(e, "tag", key_path(path.as_str(), "tag").as_str(), false)?;
            let rev = read_str(e, "rev", key_path(path.as_str(), "rev").as_str(), false)?;
            let d = DetailedTomlDependency { version, path: file, git, branch, tag, rev };
            Ok((name.clone(), TomlDependency::DetailedDep(d)))
        },
        _ => Err(Mismatch { key: path, expected: Kind::Table, found: Some(t.kind()) }),
    }
}

fn read_deps(entries: &Vec<(String, Tree)>) -> (r: Result<Option<Vec<(String, TomlDependency)>>, Mismatch>)
    ensures
        match r {
            Ok(o) => deps_error(lookup(entries@, "dependencies"@)) is None && deps_are(lookup(entries@, "dependencies"@), o),
            Err(m) => deps_error(lookup(entries@, "dependencies"@)) matches Some(e) && is_miss(m, e),
        },
{
    match get(entries, "dependencies") {
        None => Ok(None),
        Some(Tree::Table(items)) => {
            let ghost f = |en: (String, Tree)| dep_error(en);
            let mut out: Vec<(String, TomlDependency)> = Vec::new();
            let mut i: usize = 0;
            while i < items.len()
                invariant
                    f == (|en: (String, Tree)| dep_error(en)),
                    lookup(entries@, "dependencies"@) == Some(Tree::Table(*items)),
                    i <= items@.len(),
                    out@.len() == i,
                    first_error(items@.take(i as int), f) is None,
                    forall|j: int| 0 <= j < i ==> dep_is(#[trigger] items@[j], out@[j]),
                decreases items@.len() - i,
            {
                proof {
                    lemma_first_error_step(items@, i as int, f);
                }
                match read_dep(&items[i].0, &items[i].1) {
                    Ok(x) => out.push(x),
                    Err(m) => {
                        proof {
                            lemma_first_error_prefix(items@, i as int + 1, f);
                        }
                        return Err(m);
                    },
                }
                i = i + 1;
            }
            assert(items@.take(i as int) == items@);
            Ok(Some(out))
        },
        Some(t) => Err(Mismatch { key: String::from_str("dependencies"), expected: Kind::Table, found: Some(t.kind()) }),
    }
}

// The whole descriptor.

/// The first mismatch of a descriptor, its sections checked in order.
pub open spec fn manifest_error(root: Seq<(String, Tree)>) -> Option<Miss> {
    or_else(project_error(lookup(root, "package"@), "package"@),
    or_else(project_error(lookup(root, "project"@), "project"@),
    or_else(targets_error(lookup(root, "lib"@), "lib"@),
    or_else(targets_error(lookup(root, "bin"@), "bin"@),
    deps_error(lookup(root, "dependencies"@))))))
}

pub open spec fn manifest_is(root: Seq<(String, Tree)>, m: TomlManifest) -> bool {
    &&& project_is(lookup(root, "package"@), m.package)
    &&& project_is(lookup(root, "project"@), m.project)
    &&& targets_are(lookup(root, "lib"@), m.lib)
    &&& targets_are(lookup(root, "bin"@), m.bin)
    &&& deps_are(lookup(root, "dependencies"@), m.dependencies)
}

/// Decodes the root table of a descriptor.
pub fn decode_manifest(root: &Vec<(String, Tree)>) -> (r: Result<TomlManifest, Mismatch>)
    ensures
        match r {
            Ok(m) => manifest_error(root@) is None && manifest_is(root@, m),
            Err(x) => manifest_error(root@) matches Some(e) && is_miss(x, e),
        },
{
    let package = read_project(root, "package")?;
    let project = read_project(root, "project")?;
    let lib = read_targets(root, "lib")?;
    let bin = read_targets(root, "bin")?;
    let dependencies = read_deps(root)?;
    Ok(TomlManifest { package, project, lib, bin, dependencies })
}

/// The text of a mismatch.
pub open spec fn miss_message(e: Miss) -> Seq<char> {
    match e.2 {
        None => "expected a value of type `"@ + kind_name(e.1) + "` for the key `"@ + e.0 + "`"@,
        Some(f) => "expected a value of type `"@ + kind_name(e.1) + "`, but found a value of type `"@
            + kind_name(f) + "` for the key `"@ + e.0 + "`"@,
    }
}

impl Mismatch {
    pub fn message(&self) -> (r: String)
        ensures
            r@ == miss_message((self.key@, self.expected, self.found)),
    {
        let mut s = String::from_str("expected a value of type `");
        s.append(self.expected.name());
        match self.found {
            None => {},
            Some(f) => {
                s.append("`, but found a value of type `");
                s.append(f.name());
            },
        }
        s.append("` for the key `");
        s.append(self.key.as_str());
        s.append("`");
        s
    }
}

} // verus!
