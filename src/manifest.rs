//! Assembling a manifest from a typed descriptor.
use vstd::prelude::*;
use crate::descriptor::{DetailedTomlDependency, TomlDependency, TomlManifest, TomlProject, TomlTarget};
use crate::error::ManifestError;
use crate::package::{
    dependency_valid, opt_view, package_id_valid, Dependency, PackageId, Summary,
};
use crate::source::{
    is_central, location_of, location_resolves, to_location, Location, SourceId, SourceKind,
};
use crate::target::{crate_type_error, crate_types_ok, has_lib, normalize, normalized, Target};

verus! {

/// A package fully interpreted: its summary, targets, output directory, the
/// git sources its dependencies name, and its build script.
#[derive(Clone, Debug, PartialEq, Eq)]
pub struct Manifest {
    pub summary: Summary,
    pub targets: Vec<Target>,
    pub target_dir: String,
    pub sources: Vec<SourceId>,
    pub build: Option<String>,
}

/// The git reference of a detailed dependency: its branch, else its tag,
/// else its revision, else `master`.
pub open spec fn reference_of(d: DetailedTomlDependency) -> Seq<char> {
    match d.branch {
        Some(b) => b@,
        None => match d.tag {
            Some(t) => t@,
            None => match d.rev {
                Some(r) => r@,
                None => "master"@,
            },
        },
    }
}

pub open spec fn git_of(dep: TomlDependency) -> Option<Seq<char>> {
    match dep {
        TomlDependency::DetailedDep(d) => opt_view(d.git),
        TomlDependency::SimpleDep(_) => None,
    }
}

pub open spec fn path_of(dep: TomlDependency) -> Option<Seq<char>> {
    match dep {
        TomlDependency::DetailedDep(d) => opt_view(d.path),
        TomlDependency::SimpleDep(_) => None,
    }
}

pub open spec fn req_of(dep: TomlDependency) -> Option<Seq<char>> {
    match dep {
        TomlDependency::SimpleDep(v) => Some(v@),
        TomlDependency::DetailedDep(d) => opt_view(d.version),
    }
}

/// The nested manifest path that a dependency points to: its `path`, when it has no `git`.
pub open spec fn nested_path_of(dep: TomlDependency) -> Option<Seq<char>> {
    if git_of(dep) is Some {
        None
    } else {
        path_of(dep)
    }
}

pub open spec fn dep_ok(name: Seq<char>, dep: TomlDependency) -> bool {
    &&& git_of(dep) is Some ==> location_resolves(git_of(dep)->0)
    &&& dependency_valid(name, req_of(dep))
}

/// The error a failing dependency gives: first its `git` location, then its
/// name and requirement.
pub open spec fn dep_fails_with(name: String, dep: TomlDependency, e: ManifestError) -> bool {
    if git_of(dep) is Some && !location_resolves(git_of(dep)->0) {
        e matches ManifestError::UnresolvedLocation(m) && m@ == git_of(dep)->0
    } else {
        e matches ManifestError::DependencyParse(n) && n@ == name@
    }
}

/// The source of a resolved dependency: a git source at its reference, the
/// ambient source for a path dependency, the central registry otherwise.
pub open spec fn source_of(dep: TomlDependency, ambient: SourceId, s: SourceId) -> bool {
    match dep {
        TomlDependency::SimpleDep(_) => is_central(s),
        TomlDependency::DetailedDep(d) => match d.git {
            Some(g) => (s.kind matches SourceKind::Git(r) && r@ == reference_of(d)) && location_of(g@, s.location),
            None => match d.path {
                Some(_) => s == ambient,
                None => is_central(s),
            },
        },
    }
}

pub open spec fn resolved(name: String, dep: TomlDependency, ambient: SourceId, d: Dependency) -> bool {
    &&& d.name@ == name@
    &&& opt_view(d.req) == req_of(dep)
    &&& source_of(dep, ambient, d.source_id)
}

pub open spec fn first_failure(deps: Seq<(String, TomlDependency)>) -> Option<int>
    decreases deps.len(),
{
    if deps.len() == 0 {
        None
    } else {
        match first_failure(deps.drop_last()) {
            Some(i) => Some(i),
            None => if !dep_ok(deps.last().0@, deps.last().1) {
                Some(deps.len() - 1)
            } else {
                None
            },
        }
    }
}

/// The git sources that the dependencies name, in order.
pub open spec fn git_sources(deps: Seq<(String, TomlDependency)>, out: Seq<Dependency>) -> Seq<SourceId>
    decreases deps.len(),
{
    if deps.len() == 0 {
        Seq::empty()
    } else {
        let prev = git_sources(deps.drop_last(), out.drop_last());
        if git_of(deps.last().1) is Some {
            prev.push(out.last().source_id)
        } else {
            prev
        }
    }
}

/// The nested manifest paths that the dependencies point to, in order.
pub open spec fn nested_paths(deps: Seq<(String, TomlDependency)>) -> Seq<Seq<char>>
    decreases deps.len(),
{
    if deps.len() == 0 {
        Seq::empty()
    } else {
        let prev = nested_paths(deps.drop_last());
        match nested_path_of(deps.last().1) {
            Some(p) => prev.push(p),
            None => prev,
        }
    }
}

pub open spec fn views(s: Seq<String>) -> Seq<Seq<char>> {
    s.map_values(|p: String| p@)
}

pub open spec fn seq_of<T>(o: Option<Vec<T>>) -> Option<Seq<T>> {
    match o {
        Some(v) => Some(v@),
        None => None,
    }
}

pub open spec fn deps_of(m: TomlManifest) -> Seq<(String, TomlDependency)> {
    match m.dependencies {
        Some(d) => d@,
        None => Seq::empty(),
    }
}

/// The project section: `project`, else `package`.
pub open spec fn project_of(m: TomlManifest) -> Option<TomlProject> {
    match m.project {
        Some(p) => Some(p),
        None => m.package,
    }
}

pub open spec fn targets_ok(m: TomlManifest) -> bool {
    has_lib(seq_of(m.lib)) ==> crate_types_ok(seq_of(m.lib)->0[0])
}

/// `e` is the error of a descriptor, checked in this order: the library's
/// crate types, each dependency in order, the project section, the package's
/// coordinate.
pub open spec fn manifest_fails_with(m: TomlManifest, e: ManifestError) -> bool {
    if !targets_ok(m) {
        crate_type_error(seq_of(m.lib)->0[0], e)
    } else if first_failure(deps_of(m)) is Some {
        let i = first_failure(deps_of(m))->0;
        dep_fails_with(deps_of(m)[i].0, deps_of(m)[i].1, e)
    } else if project_of(m) is None {
        e == ManifestError::MissingProjectSection
    } else if !package_id_valid(project_of(m)->0.name@, project_of(m)->0.version@) {
        e matches ManifestError::InvalidPackageId(n) && n@ == project_of(m)->0.name@
    } else {
        false
    }
}

pub open spec fn manifest_ok(m: TomlManifest) -> bool {
    &&& targets_ok(m)
    &&& first_failure(deps_of(m)) is None
    &&& project_of(m) is Some
    &&& package_id_valid(project_of(m)->0.name@, project_of(m)->0.version@)
}

/// `out` and `paths` are what a descriptor that has no error gives, read at `ambient`.
pub open spec fn assembled(m: TomlManifest, ambient: SourceId, out: Manifest, paths: Seq<String>) -> bool {
    let deps = deps_of(m);
    let p = project_of(m)->0;
    let ds = out.summary.dependencies@;
    &&& normalized(seq_of(m.lib), seq_of(m.bin), out.targets@)
    &&& ds.len() == deps.len()
    &&& forall|i: int| 0 <= i < deps.len() ==> resolved(deps[i].0, deps[i].1, ambient, #[trigger] ds[i])
    &&& out.sources@ == git_sources(deps, ds)
    &&& views(paths) == nested_paths(deps)
    &&& out.summary.package_id.name@ == p.name@
    &&& out.summary.package_id.version@ == p.version@
    &&& out.summary.package_id.location == ambient.location
    &&& out.target_dir@ == "target"@
    &&& opt_view(out.build) == opt_view(p.build)
}

proof fn lemma_first_failure_prefix(deps: Seq<(String, TomlDependency)>, n: int)
    requires
        0 <= n <= deps.len(),
        first_failure(deps.take(n)) is Some,
    ensures
        first_failure(deps) == first_failure(deps.take(n)),
    decreases deps.len(),
{
    if deps.len() == n {
        assert(deps.take(n) == deps);
    } else {
        assert(deps.drop_last().take(n) == deps.take(n));
        lemma_first_failure_prefix(deps.drop_last(), n);
    }
}

fn copy_opt(o: &Option<String>) -> (r: Option<String>)
    ensures
        r == *o,
{
    match o {
        Some(s) => Some(s.clone()),
        None => None,
    }
}

fn opt_as_str(o: &Option<String>) -> (r: Option<&str>)
    ensures
        match r {
            Some(s) => *o matches Some(t) && s@ == t@,
            None => o is None,
        },
{
    match o {
        Some(s) => Some(s.as_str()),
        None => None,
    }
}

/// Resolves one dependency entry against the ambient source. Also gives the
/// git source it names and the nested manifest path it points to.
fn resolve_dependency(name: &String, dep: &TomlDependency, ambient: &SourceId) -> (r: Result<(Dependency, Option<SourceId>, Option<String>), ManifestError>)
    ensures
        match r {
            Ok((d, src, path)) => dep_ok(name@, *dep) && resolved(*name, *dep, *ambient, d)
                && (if git_of(*dep) is Some { src == Some(d.source_id) } else { src is None })
                && opt_view(path) == nested_path_of(*dep),
            Err(e) => !dep_ok(name@, *dep) && dep_fails_with(*name, *dep, e),
        },
{
    match dep {
        TomlDependency::SimpleDep(v) => {
            let central = SourceId::for_central();
            let d = Dependency::parse(name.as_str(), Some(v.as_str()), &central)?;
            Ok((d, None, None))
        },
        TomlDependency::DetailedDep(details) => {
            let reference = match &details.branch {
                Some(b) => b.clone(),
                None => match &details.tag {
                    Some(t) => t.clone(),
                    None => match &details.rev {
                        Some(r) => r.clone(),
                        None => String::from_str("master"),
                    },
                },
            };
            let (source_id, src, path) = match &details.git {
                Some(git) => {
                    let loc = match to_location(git.as_str()) {
                        Ok(l) => l,
                        Err(e) => {
                            return Err(e);
                        },
                    };
                    let id = SourceId::new(SourceKind::Git(reference), loc);
                    let copy = id.copy();
                    (id, Some(copy), None)
                },
                None => match &details.path {
                    Some(p) => (ambient.copy(), None, Some(p.clone())),
                    None => (SourceId::for_central(), None, None),
                },
            };
            let d = match Dependency::parse(name.as_str(), opt_as_str(&details.version), &source_id) {
                Ok(d) => d,
                Err(e) => {
                    return Err(e);
                },
            };
            Ok((d, src, path))
        },
    }
}

impl TomlProject {
    /// The coordinate of this project at `namespace`.
    pub fn to_package_id(&self, namespace: &Location) -> (r: Result<PackageId, ManifestError>)
        ensures
            match r {
                Ok(id) => package_id_valid(self.name@, self.version@) && id.name@ == self.name@
                    && id.version@ == self.version@ && id.location == *namespace,
                Err(e) => !package_id_valid(self.name@, self.version@)
                    && (e matches ManifestError::InvalidPackageId(n) && n@ == self.name@),
            },
    {
        PackageId::new(self.name.as_str(), self.version.as_str(), namespace)
    }
}

impl TomlManifest {
    /// Resolves the dependencies and normalizes the targets of this
    /// descriptor, read at `source_id`. Gives the manifest and the paths of
    /// the nested manifests that path dependencies point to.
    pub fn to_manifest(&self, source_id: &SourceId) -> (r: Result<(Manifest, Vec<String>), ManifestError>)
        ensures
            match r {
                Ok((m, paths)) => manifest_ok(*self) && assembled(*self, *source_id, m, paths@),
                Err(e) => !manifest_ok(*self) && manifest_fails_with(*self, e),
            },
    {
        let lib = match &self.lib {
            Some(v) => Some(v.as_slice()),
            None => None,
        };
        let bin = match &self.bin {
            Some(v) => Some(v.as_slice()),
            None => None,
        };
        assert(crate::target::entries_of(lib) == seq_of(self.lib));
        assert(crate::target::entries_of(bin) == seq_of(self.bin));
        let targets = match normalize(lib, bin) {
            Ok(t) => t,
            Err(e) => {
                return Err(e);
            },
        };
        let mut sources: Vec<SourceId> = Vec::new();
        let mut nested: Vec<String> = Vec::new();
        let mut deps: Vec<Dependency> = Vec::new();
        let ghost entries = deps_of(*self);
        match &self.dependencies {
            Some(list) => {
                let mut i: usize = 0;
                while i < list.len()
                    invariant
                        entries == list@,
                        entries == deps_of(*self),
                        targets_ok(*self),
                        normalized(seq_of(self.lib), seq_of(self.bin), targets@),
                        i <= list@.len(),
                        first_failure(entries.take(i as int)) is None,
                        deps@.len() == i,
                        forall|j: int| 0 <= j < i ==> resolved(entries[j].0, entries[j].1, *source_id, #[trigger] deps@[j]),
                        sources@ == git_sources(entries.take(i as int), deps@),
                        views(nested@) == nested_paths(entries.take(i as int)),
                    decreases list@.len() - i,
                {
                    let ghost pre = entries.take(i as int + 1);
                    assert(pre.drop_last() == entries.take(i as int));
                    assert(pre.last() == entries[i as int]);
                    match resolve_dependency(&list[i].0, &list[i].1, source_id) {
                        Ok((d, src, path)) => {
                            let ghost old_deps = deps@;
                            deps.push(d);
                            assert(deps@.drop_last() == old_deps);
                            match src {
                                Some(s) => sources.push(s),
                                None => {},
                            }
                            match path {
                                Some(p) => {
                                    let ghost old_nested = nested@;
                                    nested.push(p);
                                    assert(views(nested@) == views(old_nested).push(p@));
                                },
                                None => {},
                            }
                        },
                        Err(e) => {
                            proof {
                                assert(first_failure(pre) == Some(i as int));
                                lemma_first_failure_prefix(entries, i as int + 1);
                                assert(targets_ok(*self));
                            }
                            return Err(e);
                        },
                    }
                    i = i + 1;
                }
                assert(entries.take(i as int) == entries);
            },
            None => {
                assert(entries.take(0) == entries);
            },
        }
        let project = match &self.project {
            Some(p) => p,
            None => match &self.package {
                Some(p) => p,
                None => {
                    return Err(ManifestError::MissingProjectSection);
                },
            },
        };
        let package_id = match project.to_package_id(source_id.get_location()) {
            Ok(id) => id,
            Err(e) => {
                return Err(e);
            },
        };
        assert(targets_ok(*self));
        assert(first_failure(entries) is None);
        assert(project_of(*self) == Some(*project));
        let manifest = Manifest {
            summary: Summary::new(package_id, deps),
            targets,
            target_dir: String::from_str("target"),
            sources,
            build: copy_opt(&project.build),
        };
        assert(normalized(seq_of(self.lib), seq_of(self.bin), manifest.targets@));
        assert(manifest.summary.dependencies@ == deps@);
        assert(views(nested@) == nested_paths(entries));
        Ok((manifest, nested))
    }
}

} // verus!
