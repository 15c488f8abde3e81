//! Build targets and their normalization from the descriptor's entries.
use vstd::prelude::*;
use crate::descriptor::TomlTarget;
use crate::error::ManifestError;
use crate::tree::str_eq;

verus! {

/// A named build configuration of a target.
#[derive(Clone, Debug, PartialEq, Eq)]
pub struct Profile {
    pub env: String,
    pub test: bool,
}

/// The kinds of artifact a library target can produce.
#[derive(Clone, Copy, Debug, PartialEq, Eq, Structural)]
pub enum LibKind {
    Lib,
    Rlib,
    Dylib,
    StaticLib,
}

pub open spec fn lib_kind_of(tag: Seq<char>) -> Option<LibKind> {
    if tag == "lib"@ {
        Some(LibKind::Lib)
    } else if tag == "rlib"@ {
        Some(LibKind::Rlib)
    } else if tag == "dylib"@ {
        Some(LibKind::Dylib)
    } else if tag == "staticlib"@ {
        Some(LibKind::StaticLib)
    } else {
        None
    }
}

impl LibKind {
    /// Reads one crate-type tag.
    pub fn from_str(tag: &str) -> (r: Option<LibKind>)
        ensures
            r == lib_kind_of(tag@),
    {
        if str_eq(tag, "lib") {
            Some(LibKind::Lib)
        } else if str_eq(tag, "rlib") {
            Some(LibKind::Rlib)
        } else if str_eq(tag, "dylib") {
            Some(LibKind::Dylib)
        } else if str_eq(tag, "staticlib") {
            Some(LibKind::StaticLib)
        } else {
            None
        }
    }

    /// Reads a list of crate-type tags; fails on the first unrecognized one.
    pub fn from_strs(tags: &Vec<String>) -> (r: Result<Vec<LibKind>, ManifestError>)
        ensures
            match r {
                Ok(kinds) => kinds@.len() == tags@.len() && forall|i: int|
                    0 <= i < tags@.len() ==> lib_kind_of(#[trigger] tags@[i]@) == Some(kinds@[i]),
                Err(e) => exists|i: int|
                    0 <= i < tags@.len() && lib_kind_of(#[trigger] tags@[i]@) is None
                        && e == ManifestError::CrateType(tags@[i])
                        && forall|j: int| 0 <= j < i ==> lib_kind_of(#[trigger] tags@[j]@) is Some,
            },
    {
        let mut kinds: Vec<LibKind> = Vec::new();
        let mut i: usize = 0;
        while i < tags.len()
            invariant
                i <= tags@.len(),
                kinds@.len() == i,
                forall|j: int| 0 <= j < i ==> lib_kind_of(#[trigger] tags@[j]@) == Some(kinds@[j]),
            decreases tags@.len() - i,
        {
            match LibKind::from_str(tags[i].as_str()) {
                Some(k) => kinds.push(k),
                None => {
                    return Err(ManifestError::CrateType(tags[i].clone()));
                },
            }
            i = i + 1;
        }
        Ok(kinds)
    }
}

/// What a target builds.
#[derive(Clone, Debug, PartialEq, Eq)]
pub enum TargetKind {
    Lib(Vec<LibKind>),
    Bin,
}

/// One buildable artifact.
#[derive(Clone, Debug, PartialEq, Eq)]
pub struct Target {
    pub kind: TargetKind,
    pub name: String,
    pub path: String,
    pub profiles: Vec<Profile>,
}

/// A compile profile, then a test profile unless the entry turns tests off.
pub open spec fn profiles_for(ps: Seq<Profile>, test: Option<bool>) -> bool {
    &&& ps.len() == (if test == Some(false) { 1int } else { 2int })
    &&& ps[0].env@ == "compile"@
    &&& !ps[0].test
    &&& ps.len() == 2 ==> ps[1].env@ == "test"@ && ps[1].test
}

/// The source file inferred for an entry that names none.
pub open spec fn inferred_path(name: Seq<char>, in_bin_dir: bool) -> Seq<char> {
    if in_bin_dir {
        "src/bin/"@ + name + ".rs"@
    } else {
        "src/"@ + name + ".rs"@
    }
}

pub open spec fn path_for(entry: TomlTarget, in_bin_dir: bool) -> Seq<char> {
    match entry.path {
        Some(p) => p@,
        None => inferred_path(entry.name@, in_bin_dir),
    }
}

/// The crate types of a library entry, when every tag is recognized.
pub open spec fn crate_types_for(entry: TomlTarget, kinds: Seq<LibKind>) -> bool {
    match entry.crate_type {
        None => kinds == seq![LibKind::Lib],
        Some(tags) => kinds.len() == tags@.len() && forall|i: int|
            0 <= i < tags@.len() ==> lib_kind_of(#[trigger] tags@[i]@) == Some(kinds[i]),
    }
}

pub open spec fn crate_types_ok(entry: TomlTarget) -> bool {
    match entry.crate_type {
        None => true,
        Some(tags) => forall|i: int| 0 <= i < tags@.len() ==> lib_kind_of(#[trigger] tags@[i]@) is Some,
    }
}

/// `e` reports the first crate-type tag of a library entry that is not recognized.
pub open spec fn crate_type_error(entry: TomlTarget, e: ManifestError) -> bool {
    match entry.crate_type {
        None => false,
        Some(tags) => exists|i: int|
            0 <= i < tags@.len() && lib_kind_of(#[trigger] tags@[i]@) is None
                && e == ManifestError::CrateType(tags@[i])
                && forall|j: int| 0 <= j < i ==> lib_kind_of(#[trigger] tags@[j]@) is Some,
    }
}

pub open spec fn is_lib_target_of(t: Target, entry: TomlTarget) -> bool {
    &&& t.name@ == entry.name@
    &&& t.path@ == path_for(entry, false)
    &&& profiles_for(t.profiles@, entry.test)
    &&& match t.kind {
        TargetKind::Lib(kinds) => crate_types_for(entry, kinds@),
        TargetKind::Bin => false,
    }
}

pub open spec fn is_bin_target_of(t: Target, entry: TomlTarget, in_bin_dir: bool) -> bool {
    &&& t.name@ == entry.name@
    &&& t.path@ == path_for(entry, in_bin_dir)
    &&& profiles_for(t.profiles@, entry.test)
    &&& t.kind is Bin
}

/// Whether a `lib` section declares a library target: only its first entry counts.
pub open spec fn has_lib(lib: Option<Seq<TomlTarget>>) -> bool {
    lib is Some && lib->0.len() > 0
}

/// Where the binary targets start: after the library target, if any.
pub open spec fn first_bin(lib: Option<Seq<TomlTarget>>) -> int {
    if has_lib(lib) { 1 } else { 0 }
}

pub open spec fn bins_of(bin: Option<Seq<TomlTarget>>) -> Seq<TomlTarget> {
    match bin {
        Some(b) => b,
        None => Seq::empty(),
    }
}

/// The normalized target list: the library target (from the first `lib`
/// entry) first, then one target per `bin` entry in order. Binaries look in
/// `src/bin/` exactly when a library target is declared too.
pub open spec fn normalized(lib: Option<Seq<TomlTarget>>, bin: Option<Seq<TomlTarget>>, ts: Seq<Target>) -> bool {
    &&& ts.len() == first_bin(lib) + bins_of(bin).len()
    &&& has_lib(lib) ==> is_lib_target_of(ts[0], lib->0[0])
    &&& forall|i: int| 0 <= i < bins_of(bin).len() ==> is_bin_target_of(#[trigger] ts[first_bin(lib) + i], bins_of(bin)[i], has_lib(lib))
}

pub open spec fn entries_of(o: Option<&[TomlTarget]>) -> Option<Seq<TomlTarget>> {
    match o {
        Some(s) => Some(s@),
        None => None,
    }
}

fn compile_and_test(test: Option<bool>) -> (r: Vec<Profile>)
    ensures
        profiles_for(r@, test),
{
    let mut ret: Vec<Profile> = Vec::new();
    ret.push(Profile { env: String::from_str("compile"), test: false });
    match test {
        Some(true) | None => ret.push(Profile { env: String::from_str("test"), test: true }),
        _ => {},
    }
    ret
}

fn target_path(entry: &TomlTarget, in_bin_dir: bool) -> (r: String)
    ensures
        r@ == path_for(*entry, in_bin_dir),
{
    match &entry.path {
        Some(p) => p.clone(),
        None => {
            let mut s = if in_bin_dir {
                String::from_str("src/bin/")
            } else {
                String::from_str("src/")
            };
            s.append(entry.name.as_str());
            s.append(".rs");
            s
        },
    }
}

fn lib_target(entry: &TomlTarget) -> (r: Result<Target, ManifestError>)
    ensures
        match r {
            Ok(t) => crate_types_ok(*entry) && is_lib_target_of(t, *entry),
            Err(e) => !crate_types_ok(*entry) && crate_type_error(*entry, e),
        },
{
    let kinds = match &entry.crate_type {
        Some(tags) => match LibKind::from_strs(tags) {
            Ok(kinds) => kinds,
            Err(e) => {
                return Err(e);
            },
        },
        None => {
            let mut kinds: Vec<LibKind> = Vec::new();
            kinds.push(LibKind::Lib);
            assert(kinds@ == seq![LibKind::Lib]);
            kinds
        },
    };
    Ok(Target {
        kind: TargetKind::Lib(kinds),
        name: entry.name.clone(),
        path: target_path(entry, false),
        profiles: compile_and_test(entry.test),
    })
}

fn bin_target(entry: &TomlTarget, in_bin_dir: bool) -> (r: Target)
    ensures
        is_bin_target_of(r, *entry, in_bin_dir),
{
    Target {
        kind: TargetKind::Bin,
        name: entry.name.clone(),
        path: target_path(entry, in_bin_dir),
        profiles: compile_and_test(entry.test),
    }
}

/// Turns the `lib` and `bin` entries into the ordered target list. Fails
/// only on a crate-type tag of the library entry that is not recognized.
pub fn normalize(lib: Option<&[TomlTarget]>, bin: Option<&[TomlTarget]>) -> (r: Result<Vec<Target>, ManifestError>)
    ensures
        match r {
            Ok(ts) => (has_lib(entries_of(lib)) ==> crate_types_ok(lib->0@[0]))
                && normalized(entries_of(lib), entries_of(bin), ts@),
            Err(e) => has_lib(entries_of(lib)) && !crate_types_ok(lib->0@[0]) && crate_type_error(lib->0@[0], e),
        },
{
    let mut ret: Vec<Target> = Vec::new();
    let with_lib = match lib {
        Some(libs) => libs.len() > 0,
        None => false,
    };
    if with_lib {
        let libs = lib.unwrap();
        let t = lib_target(&libs[0])?;
        ret.push(t);
    }
    match bin {
        Some(bins) => {
            let mut i: usize = 0;
            let off: usize = ret.len();
            while i < bins.len()
                invariant
                    i <= bins@.len(),
                    off == first_bin(entries_of(lib)),
                    with_lib == has_lib(entries_of(lib)),
                    ret@.len() == off + i,
                    with_lib ==> is_lib_target_of(ret@[0], lib->0@[0]),
                    forall|j: int| 0 <= j < i ==> is_bin_target_of(#[trigger] ret@[off + j], bins@[j], with_lib),
                decreases bins@.len() - i,
            {
                ret.push(bin_target(&bins[i], with_lib));
                i = i + 1;
            }
        },
        None => {},
    }
    Ok(ret)
}

} // verus!
