//! Reading a descriptor's text into the generic tree, through the `toml`
//! crate, and interpreting a whole descriptor.
use vstd::prelude::*;
use vstd::string::StringSliceAdditionalSpecFns;
use crate::decode::{decode_manifest, manifest_error, manifest_is, miss_message};
use crate::error::ManifestError;
use crate::manifest::{assembled, manifest_fails_with, manifest_ok, Manifest};
use crate::source::SourceId;
use crate::text::{issue_line, issue_lines, located_line, syntax_message, SyntaxIssue};
use crate::tree::{Kind, Tree};

verus! {

#[verifier::external_type_specification]
#[verifier::external_body]
pub struct ExTomlValue(toml::Value);

/// Values nested deeper than this keep only their kind in the tree; the
/// descriptor's schema reads no deeper than four levels.
pub const NESTING_LIMIT: usize = 32;

/// What `toml` makes of a text: the entries of its root table, in full; or
/// the byte range its error points at (when it has one) and what went wrong.
pub uninterp spec fn toml_document(text: Seq<char>) -> Result<Seq<(String, Tree)>, (Option<(usize, usize)>, Seq<char>)>;

/// What a `toml::Value` holds, in full, as a tree.
pub uninterp spec fn value_contents(v: toml::Value) -> Tree;

/// The entries `es`, whose values `toml` holds, are the entries `full`.
pub open spec fn holds_entries(es: Seq<(String, toml::Value)>, full: Seq<(String, Tree)>) -> bool {
    &&& es.len() == full.len()
    &&& forall|i: int| 0 <= i < es.len() ==> (#[trigger] es[i]).0 == full[i].0 && value_contents(es[i].1) == full[i].1
}

/// Relies on `toml::Table`'s `FromStr` (that is, `toml::from_str`): the
/// entries of the root table; on an error, `toml::de::Error::span` and
/// `toml::de::Error::message` give its byte range and description.
#[verifier::external_body]
fn parse_document(text: &str) -> (r: Result<Vec<(String, toml::Value)>, (Option<(usize, usize)>, String)>)
    ensures
        match r {
            Ok(es) => toml_document(text@) matches Ok(full) && holds_entries(es@, full),
            Err((span, desc)) => toml_document(text@) == Err::<Seq<(String, Tree)>, _>((span, desc@)),
        },
{
    match text.parse::<toml::Table>() {
        Ok(t) => Ok(t.into_iter().collect()),
        Err(e) => Err((e.span().map(|r| (r.start, r.end)), e.message().to_string())),
    }
}

/// A `toml::Value` with its variant told apart.
pub enum Node {
    Str(String),
    Bool(bool),
    Array(Vec<toml::Value>),
    Table(Vec<(String, toml::Value)>),
    Scalar(Kind),
}

/// Relies on the variants of `toml::Value`: tells them apart and moves their
/// contents out.
#[verifier::external_body]
fn node_of(v: toml::Value) -> (r: Node)
    ensures
        match r {
            Node::Str(s) => value_contents(v) == Tree::Str(s),
            Node::Bool(b) => value_contents(v) == Tree::Bool(b),
            Node::Scalar(k) => value_contents(v) == Tree::Scalar(k) && k != Kind::String && k != Kind::Boolean
                && k != Kind::Array && k != Kind::Table,
            Node::Array(items) => value_contents(v) matches Tree::Array(ts) && ts@.len() == items@.len()
                && forall|i: int| 0 <= i < items@.len() ==> value_contents(#[trigger] items@[i]) == ts@[i],
            Node::Table(es) => value_contents(v) matches Tree::Table(ts) && holds_entries(es@, ts@),
        },
{
    match v {
        toml::Value::String(s) => Node::Str(s),
        toml::Value::Integer(_) => Node::Scalar(Kind::Integer),
        toml::Value::Float(_) => Node::Scalar(Kind::Float),
        toml::Value::Boolean(b) => Node::Bool(b),
        toml::Value::Datetime(_) => Node::Scalar(Kind::Datetime),
        toml::Value::Array(a) => Node::Array(a),
        toml::Value::Table(t) => Node::Table(t.into_iter().collect()),
    }
}

/// `got` is the tree `full` with every array and table nested `depth` levels
/// down (or deeper) kept only as its kind.
pub open spec fn cut_of(full: Tree, got: Tree, depth: int) -> bool
    decreases depth, 0int,
{
    match full {
        Tree::Array(items) => if depth <= 0 {
            got == Tree::Scalar(Kind::Array)
        } else {
            got matches Tree::Array(g) && g@.len() == items@.len() && forall|i: int|
                0 <= i < items@.len() ==> cut_of(#[trigger] items@[i], g@[i], depth - 1)
        },
        Tree::Table(es) => if depth <= 0 {
            got == Tree::Scalar(Kind::Table)
        } else {
            got matches Tree::Table(g) && entries_cut(es@, g@, depth - 1)
        },
        _ => got == full,
    }
}

/// The entries `got` are the entries `full` with their values cut at `depth`.
pub open spec fn entries_cut(full: Seq<(String, Tree)>, got: Seq<(String, Tree)>, depth: int) -> bool
    decreases depth, 1int,
{
    &&& got.len() == full.len()
    &&& forall|i: int| 0 <= i < full.len() ==> (#[trigger] got[i]).0 == full[i].0 && cut_of(full[i].1, got[i].1, depth)
}

fn tree_of(v: toml::Value, depth: usize) -> (r: Tree)
    ensures
        cut_of(value_contents(v), r, depth as int),
    decreases depth, 0nat,
{
    let ghost full = value_contents(v);
    match node_of(v) {
        Node::Str(s) => Tree::Str(s),
        Node::Bool(b) => Tree::Bool(b),
        Node::Scalar(k) => Tree::Scalar(k),
        Node::Array(items) => {
            if depth == 0 {
                return Tree::Scalar(Kind::Array);
            }
            let ghost orig = items@;
            let mut items = items;
            let mut out: Vec<Tree> = Vec::new();
            while items.len() > 0
                invariant
                    depth > 0,
                    out@.len() + items@.len() == orig.len(),
                    items@ == orig.skip(out@.len() as int),
                    forall|j: int| 0 <= j < out@.len() ==> cut_of(value_contents(orig[j]), #[trigger] out@[j], depth - 1),
                decreases items@.len(),
            {
                let ghost k = out@.len() as int;
                assert(orig.skip(k)[0] == orig[k]);
                let item = items.remove(0);
                assert(items@ == orig.skip(k + 1));
                out.push(tree_of(item, depth - 1));
            }
            Tree::Array(out)
        },
        Node::Table(entries) => {
            if depth == 0 {
                return Tree::Scalar(Kind::Table);
            }
            Tree::Table(table_of(entries, depth - 1))
        },
    }
}

fn table_of(entries: Vec<(String, toml::Value)>, depth: usize) -> (r: Vec<(String, Tree)>)
    ensures
        forall|full: Seq<(String, Tree)>| holds_entries(entries@, full) ==> entries_cut(full, r@, depth as int),
    decreases depth, 1nat,
{
    let ghost orig = entries@;
    let mut entries = entries;
    let mut out: Vec<(String, Tree)> = Vec::new();
    while entries.len() > 0
        invariant
            out@.len() + entries@.len() == orig.len(),
            entries@ == orig.skip(out@.len() as int),
            forall|j: int| 0 <= j < out@.len() ==> (#[trigger] out@[j]).0 == orig[j].0
                && cut_of(value_contents(orig[j].1), out@[j].1, depth as int),
        decreases entries@.len(),
    {
        let ghost k = out@.len() as int;
        assert(orig.skip(k)[0] == orig[k]);
        let (key, v) = entries.remove(0);
        assert(entries@ == orig.skip(k + 1));
        out.push((key, tree_of(v, depth)));
    }
    out
}

/// Parses a descriptor's text into the entries of its root table, nested
/// values cut at `NESTING_LIMIT`. A text that `toml` refuses gives a syntax
/// error that locates the problem in `file`.
pub fn parse(toml: &str, file: &str) -> (r: Result<Vec<(String, Tree)>, ManifestError>)
    ensures
        match toml_document(toml@) {
            Ok(full) => r matches Ok(es) && entries_cut(full, es@, NESTING_LIMIT as int),
            Err((span, desc)) => r matches Err(ManifestError::Syntax(m)) && (toml.spec_bytes().len() < usize::MAX
                ==> m@ == "could not parse input TOML\n"@ + located_line(toml.spec_bytes(), file@, span, desc)),
        },
{
    match parse_document(toml) {
        Ok(entries) => Ok(table_of(entries, NESTING_LIMIT)),
        Err((span, desc)) => {
            let bytes = toml.as_bytes();
            if bytes.len() < usize::MAX {
                let mut issues: Vec<SyntaxIssue> = Vec::new();
                issues.push(SyntaxIssue { span, desc });
                let m = syntax_message(bytes, file, &issues);
                proof {
                    let one = issues@;
                    assert(one.len() == 1);
                    assert(one.drop_last() == Seq::<SyntaxIssue>::empty());
                    assert(issue_lines(bytes@, file@, one.drop_last()) == Seq::<char>::empty());
                    assert(issue_lines(bytes@, file@, one) == Seq::<char>::empty() + issue_line(bytes@, file@, one.last()));
                    assert(Seq::<char>::empty() + issue_line(bytes@, file@, one.last()) == issue_line(bytes@, file@, one.last()));
                }
                Err(ManifestError::Syntax(m))
            } else {
                Err(ManifestError::Syntax(desc))
            }
        },
    }
}

/// What `std::str::from_utf8` makes of bytes: their text, when they are UTF-8.
pub uninterp spec fn utf8_decode(b: Seq<u8>) -> Option<Seq<char>>;

/// Relies on `std::str::from_utf8`: the text the bytes encode, if they are
/// UTF-8; the text is those bytes.
#[verifier::external_body]
fn utf8_text(b: &[u8]) -> (r: Option<&str>)
    ensures
        match r {
            Some(s) => utf8_decode(b@) == Some(s@) && s.spec_bytes() == b@,
            None => utf8_decode(b@) is None,
        },
{
    std::str::from_utf8(b).ok()
}

/// `r` is what the root table `root` interprets to, read at `ambient`: a
/// shape mismatch gives its message; otherwise the decoded descriptor is
/// resolved.
pub open spec fn interpreted(root: Seq<(String, Tree)>, ambient: SourceId, r: Result<(Manifest, Vec<String>), ManifestError>) -> bool {
    match manifest_error(root) {
        Some(miss) => r matches Err(ManifestError::Decode(msg)) && msg@ == miss_message(miss),
        None => exists|t: crate::descriptor::TomlManifest| manifest_is(root, t) && match r {
            Ok((m, paths)) => manifest_ok(t) && assembled(t, ambient, m, paths@),
            Err(e) => !manifest_ok(t) && manifest_fails_with(t, e),
        },
    }
}

/// Interprets the root table of a descriptor read at `source_id`.
pub fn manifest_from_tree(root: &Vec<(String, Tree)>, source_id: &SourceId) -> (r: Result<(Manifest, Vec<String>), ManifestError>)
    ensures
        interpreted(root@, *source_id, r),
{
    match decode_manifest(root) {
        Err(m) => Err(ManifestError::Decode(m.message())),
        Ok(t) => t.to_manifest(source_id),
    }
}

/// Interprets a descriptor's bytes, read at `source_id`: the manifest and
/// the paths of the nested manifests its path dependencies point to.
pub fn to_manifest(contents: &[u8], source_id: &SourceId) -> (r: Result<(Manifest, Vec<String>), ManifestError>)
    ensures
        match utf8_decode(contents@) {
            None => r == Err::<(Manifest, Vec<String>), ManifestError>(ManifestError::NotUtf8),
            Some(text) => match toml_document(text) {
                Ok(full) => exists|es: Seq<(String, Tree)>| entries_cut(full, es, NESTING_LIMIT as int)
                    && interpreted(es, *source_id, r),
                Err((span, desc)) => r matches Err(ManifestError::Syntax(m)) && (contents@.len() < usize::MAX
                    ==> m@ == "could not parse input TOML\n"@ + located_line(contents@, "Cargo.toml"@, span, desc)),
            },
        },
{
    let text = match utf8_text(contents) {
        Some(t) => t,
        None => {
            return Err(ManifestError::NotUtf8);
        },
    };
    let root = match parse(text, "Cargo.toml") {
        Ok(root) => root,
        Err(e) => {
            return Err(e);
        },
    };
    let r = manifest_from_tree(&root, source_id);
    assert(entries_cut(toml_document(text@)->Ok_0, root@, NESTING_LIMIT as int));
    r
}

} // verus!
