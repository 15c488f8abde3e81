//! The typed form of a descriptor, before sources and targets are resolved.
use vstd::prelude::*;

verus! {

/// A `lib` or `bin` entry as written in the descriptor.
#[derive(Clone, Debug, PartialEq, Eq)]
pub struct TomlTarget {
    pub name: String,
    pub crate_type: Option<Vec<String>>,
    pub path: Option<String>,
    pub test: Option<bool>,
}

/// A dependency written as a table.
#[derive(Clone, Debug, PartialEq, Eq)]
pub struct DetailedTomlDependency {
    pub version: Option<String>,
    pub path: Option<String>,
    pub git: Option<String>,
    pub branch: Option<String>,
    pub tag: Option<String>,
    pub rev: Option<String>,
}

/// A dependency: a bare version requirement, or a table.
#[derive(Clone, Debug, PartialEq, Eq)]
pub enum TomlDependency {
    SimpleDep(String),
    DetailedDep(DetailedTomlDependency),
}

/// The `package` (or `project`) section.
#[derive(Clone, Debug, PartialEq, Eq)]
pub struct TomlProject {
    pub name: String,
    pub version: String,
    pub authors: Vec<String>,
    pub build: Option<String>,
}

/// A whole descriptor. The dependencies keep the order of the table they
/// came from.
#[derive(Clone, Debug, PartialEq, Eq)]
pub struct TomlManifest {
    pub package: Option<TomlProject>,
    pub project: Option<TomlProject>,
    pub lib: Option<Vec<TomlTarget>>,
    pub bin: Option<Vec<TomlTarget>>,
    pub dependencies: Option<Vec<(String, TomlDependency)>>,
}

} // verus!
