//! Where a package or a dependency comes from.
use vstd::prelude::*;
use crate::error::ManifestError;

verus! {

/// The address of the central registry.
pub const CENTRAL_REGISTRY: &'static str = "https://crates.io/";

/// A location: a local directory, or a URL in its normalized form.
#[derive(Clone, Debug, PartialEq, Eq, Hash)]
pub enum Location {
    Local(String),
    Remote(String),
}

/// How a source is fetched; a git source carries the reference to check out.
#[derive(Clone, Debug, PartialEq, Eq, Hash)]
pub enum SourceKind {
    Git(String),
    Path,
    Registry,
}

/// The identity of a source: its kind and its location.
#[derive(Clone, Debug, PartialEq, Eq, Hash)]
pub struct SourceId {
    pub kind: SourceKind,
    pub location: Location,
}

/// What `url::Url::parse` makes of a string: its serialization, or nothing
/// when the string is not an absolute URL.
pub uninterp spec fn url_serialization(s: Seq<char>) -> Option<Seq<char>>;

/// Relies on `url::Url::parse`, and on `String::from(Url)` giving the URL's
/// serialization.
#[verifier::external_body]
fn parse_url(s: &str) -> (r: Option<String>)
    ensures
        match r {
            Some(u) => url_serialization(s@) == Some(u@),
            None => url_serialization(s@) is None,
        },
{
    url::Url::parse(s).ok().map(String::from)
}

pub open spec fn has_file_prefix(s: Seq<char>) -> bool {
    s.len() >= 5 && s.take(5) == "file:"@
}

/// `loc` is what the string `s` denotes: the rest of a `file:` string is a
/// local path; any other string must be a URL.
pub open spec fn location_of(s: Seq<char>, loc: Location) -> bool {
    if has_file_prefix(s) {
        (loc matches Location::Local(p) && p@ == s.skip(5))
    } else {
        (loc matches Location::Remote(u) && url_serialization(s) == Some(u@))
    }
}

pub open spec fn location_resolves(s: Seq<char>) -> bool {
    has_file_prefix(s) || url_serialization(s) is Some
}

pub open spec fn is_central(id: SourceId) -> bool {
    id.kind is Registry && (id.location matches Location::Remote(u) && u@ == CENTRAL_REGISTRY@)
}

/// Reads a location string.
pub fn to_location(s: &str) -> (r: Result<Location, ManifestError>)
    ensures
        match r {
            Ok(loc) => location_resolves(s@) && location_of(s@, loc),
            Err(e) => !location_resolves(s@) && (e matches ManifestError::UnresolvedLocation(m) && m@ == s@),
        },
{
    let n = s.unicode_len();
    if n >= 5 && crate::tree::str_eq(s.substring_char(0, 5), "file:") {
        Ok(Location::Local(String::from_str(s.substring_char(5, n))))
    } else {
        match parse_url(s) {
            Some(u) => Ok(Location::Remote(u)),
            None => Err(ManifestError::UnresolvedLocation(String::from_str(s))),
        }
    }
}

impl Location {
    pub fn copy(&self) -> (r: Location)
        ensures
            r == *self,
    {
        match self {
            Location::Local(p) => Location::Local(p.clone()),
            Location::Remote(u) => Location::Remote(u.clone()),
        }
    }
}

impl SourceKind {
    pub fn copy(&self) -> (r: SourceKind)
        ensures
            r == *self,
    {
        match self {
            SourceKind::Git(r) => SourceKind::Git(r.clone()),
            SourceKind::Path => SourceKind::Path,
            SourceKind::Registry => SourceKind::Registry,
        }
    }
}

impl SourceId {
    pub fn new(kind: SourceKind, location: Location) -> (r: SourceId)
        ensures
            r.kind == kind,
            r.location == location,
    {
        SourceId { kind, location }
    }

    /// The central registry.
    pub fn for_central() -> (r: SourceId)
        ensures
            is_central(r),
    {
        SourceId { kind: SourceKind::Registry, location: Location::Remote(String::from_str(CENTRAL_REGISTRY)) }
    }

    pub fn get_location(&self) -> (r: &Location)
        ensures
            *r == self.location,
    {
        &self.location
    }

    pub fn copy(&self) -> (r: SourceId)
        ensures
            r == *self,
    {
        SourceId { kind: self.kind.copy(), location: self.location.copy() }
    }
}

} // verus!
