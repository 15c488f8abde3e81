//! Package coordinates and declared dependencies.
use vstd::prelude::*;
use crate::error::ManifestError;
use crate::source::{Location, SourceId};

verus! {

/// Whether `semver::Version::parse` accepts a string.
pub uninterp spec fn is_version(s: Seq<char>) -> bool;

/// Whether `semver::VersionReq::parse` accepts a string.
pub uninterp spec fn is_version_req(s: Seq<char>) -> bool;

/// Relies on `semver::Version::parse`: whether the text is a version.
#[verifier::external_body]
fn version_parses(s: &str) -> (r: bool)
    ensures
        r == is_version(s@),
{
    semver::Version::parse(s).is_ok()
}

/// Relies on `semver::VersionReq::parse`: whether the text is a version requirement.
#[verifier::external_body]
fn version_req_parses(s: &str) -> (r: bool)
    ensures
        r == is_version_req(s@),
{
    semver::VersionReq::parse(s).is_ok()
}

/// A package's coordinate: a non-empty name, a version, and where it lives.
#[derive(Clone, Debug, PartialEq, Eq, Hash)]
pub struct PackageId {
    pub name: String,
    pub version: String,
    pub location: Location,
}

pub open spec fn package_id_valid(name: Seq<char>, version: Seq<char>) -> bool {
    name.len() > 0 && is_version(version)
}

impl PackageId {
    pub open spec fn wf(&self) -> bool {
        package_id_valid(self.name@, self.version@)
    }

    /// Makes a coordinate; fails when the name is empty or the version does not parse.
    pub fn new(name: &str, version: &str, location: &Location) -> (r: Result<PackageId, ManifestError>)
        ensures
            match r {
                Ok(id) => package_id_valid(name@, version@) && id.wf() && id.name@ == name@
                    && id.version@ == version@ && id.location == *location,
                Err(e) => !package_id_valid(name@, version@)
                    && (e matches ManifestError::InvalidPackageId(n) && n@ == name@),
            },
    {
        if name.unicode_len() == 0 || !version_parses(version) {
            return Err(ManifestError::InvalidPackageId(String::from_str(name)));
        }
        Ok(PackageId { name: String::from_str(name), version: String::from_str(version), location: location.copy() })
    }
}

/// A declared dependency: a non-empty name, an optional version
/// requirement (none means any version), and its source.
#[derive(Clone, Debug, PartialEq, Eq)]
pub struct Dependency {
    pub name: String,
    pub req: Option<String>,
    pub source_id: SourceId,
}

pub open spec fn opt_view(o: Option<String>) -> Option<Seq<char>> {
    match o {
        Some(s) => Some(s@),
        None => None,
    }
}

pub open spec fn opt_str_view(o: Option<&str>) -> Option<Seq<char>> {
    match o {
        Some(s) => Some(s@),
        None => None,
    }
}

pub open spec fn dependency_valid(name: Seq<char>, req: Option<Seq<char>>) -> bool {
    name.len() > 0 && match req {
        Some(r) => is_version_req(r),
        None => true,
    }
}

impl Dependency {
    pub open spec fn wf(&self) -> bool {
        dependency_valid(self.name@, opt_view(self.req))
    }

    /// Makes a dependency; fails when the name is empty or the requirement does not parse.
    pub fn parse(name: &str, req: Option<&str>, source_id: &SourceId) -> (r: Result<Dependency, ManifestError>)
        ensures
            match r {
                Ok(d) => dependency_valid(name@, opt_str_view(req)) && d.wf() && d.name@ == name@
                    && opt_view(d.req) == opt_str_view(req) && d.source_id == *source_id,
                Err(e) => !dependency_valid(name@, opt_str_view(req))
                    && (e matches ManifestError::DependencyParse(n) && n@ == name@),
            },
    {
        let req_ok = match req {
            Some(s) => version_req_parses(s),
            None => true,
        };
        if name.unicode_len() == 0 || !req_ok {
            return Err(ManifestError::DependencyParse(String::from_str(name)));
        }
        let req_owned = match req {
            Some(s) => Some(String::from_str(s)),
            None => None,
        };
        Ok(Dependency { name: String::from_str(name), req: req_owned, source_id: source_id.copy() })
    }
}

/// A package's coordinate with its dependencies.
#[derive(Clone, Debug, PartialEq, Eq)]
pub struct Summary {
    pub package_id: PackageId,
    pub dependencies: Vec<Dependency>,
}

impl Summary {
    pub fn new(package_id: PackageId, dependencies: Vec<Dependency>) -> (r: Summary)
        ensures
            r.package_id == package_id,
            r.dependencies == dependencies,
    {
        Summary { package_id, dependencies }
    }
}

} // verus!
