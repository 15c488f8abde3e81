//! What can go wrong when a descriptor is interpreted.
use vstd::prelude::*;

verus! {

/// Every failure of interpreting a descriptor.
#[derive(Clone, Debug, PartialEq, Eq)]
pub enum ManifestError {
    /// The descriptor's bytes are not UTF-8.
    NotUtf8,
    /// The text does not parse; the message locates each problem.
    Syntax(String),
    /// The tree does not have the descriptor's shape; the message says where.
    Decode(String),
    /// Neither a `package` nor a `project` section.
    MissingProjectSection,
    /// The package's name is empty or its version does not parse.
    InvalidPackageId(String),
    /// The named dependency has an empty name or a requirement that does not parse.
    DependencyParse(String),
    /// A `git` location that is neither `file:` nor a URL.
    UnresolvedLocation(String),
    /// A crate-type tag that is not recognized.
    CrateType(String),
}

pub open spec fn invalid_manifest(cause: Seq<char>) -> Seq<char> {
    "Cargo.toml is not a valid manifest\n\n"@ + cause
}

/// The text shown for an error: every error found after the text parsed
/// carries the invalid-manifest preamble.
pub open spec fn error_text(e: ManifestError) -> Seq<char> {
    match e {
        ManifestError::NotUtf8 => "Cargo.toml is not valid UTF-8"@,
        ManifestError::Syntax(m) => m@,
        ManifestError::Decode(m) => invalid_manifest(m@),
        ManifestError::MissingProjectSection => invalid_manifest("No `package` or `project` section found."@),
        ManifestError::InvalidPackageId(n) => invalid_manifest("invalid package `"@ + n@ + "`"@),
        ManifestError::DependencyParse(n) => invalid_manifest("invalid dependency `"@ + n@ + "`"@),
        ManifestError::UnresolvedLocation(s) => invalid_manifest("could not resolve the location `"@ + s@ + "`"@),
        ManifestError::CrateType(t) => invalid_manifest("could not parse `"@ + t@ + "` as a crate type"@),
    }
}

fn quoted(before: &str, name: &String, after: &str) -> (r: String)
    ensures
        r@ == invalid_manifest(before@ + name@ + after@),
{
    let mut s = String::from_str("Cargo.toml is not a valid manifest\n\n");
    s.append(before);
    s.append(name.as_str());
    s.append(after);
    s
}

impl ManifestError {
    /// The message shown to a user.
    pub fn message(&self) -> (r: String)
        ensures
            r@ == error_text(*self),
    {
        match self {
            ManifestError::NotUtf8 => String::from_str("Cargo.toml is not valid UTF-8"),
            ManifestError::Syntax(m) => m.clone(),
            ManifestError::Decode(m) => {
                proof {
                    reveal_strlit("");
                }
                let r = quoted("", m, "");
                assert(""@ + m@ + ""@ == m@);
                r
            },
            ManifestError::MissingProjectSection => {
                proof {
                    reveal_strlit("");
                }
                let none = String::new();
                let r = quoted("No `package` or `project` section found.", &none, "");
                assert("No `package` or `project` section found."@ + none@ + ""@
                    == "No `package` or `project` section found."@);
                r
            },
            ManifestError::InvalidPackageId(n) => quoted("invalid package `", n, "`"),
            ManifestError::DependencyParse(n) => quoted("invalid dependency `", n, "`"),
            ManifestError::UnresolvedLocation(s) => quoted("could not resolve the location `", s, "`"),
            ManifestError::CrateType(t) => quoted("could not parse `", t, "` as a crate type"),
        }
    }
}

} // verus!
