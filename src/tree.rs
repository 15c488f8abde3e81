//! The generic key/value tree that a descriptor is decoded from.
use vstd::prelude::*;

verus! {

/// The kind of a value of the tree, as named in messages.
#[derive(Clone, Copy, Debug, PartialEq, Eq, Structural)]
pub enum Kind {
    String,
    Integer,
    Float,
    Boolean,
    Datetime,
    Array,
    Table,
}

impl Kind {
    /// The name of the kind, as a reader of the descriptor knows it.
    pub fn name(&self) -> (r: &'static str)
        ensures
            r@ == kind_name(*self),
    {
        match self {
            Kind::String => "string",
            Kind::Integer => "integer",
            Kind::Float => "float",
            Kind::Boolean => "boolean",
            Kind::Datetime => "datetime",
            Kind::Array => "array",
            Kind::Table => "table",
        }
    }
}

pub open spec fn kind_name(k: Kind) -> Seq<char> {
    match k {
        Kind::String => "string"@,
        Kind::Integer => "integer"@,
        Kind::Float => "float"@,
        Kind::Boolean => "boolean"@,
        Kind::Datetime => "datetime"@,
        Kind::Array => "array"@,
        Kind::Table => "table"@,
    }
}

/// A value of the descriptor's tree. Values that the descriptor's schema
/// never reads (numbers, dates) keep only their kind.
#[derive(Debug)]
pub enum Tree {
    Str(String),
    Bool(bool),
    Array(Vec<Tree>),
    Table(Vec<(String, Tree)>),
    Scalar(Kind),
}

pub open spec fn kind_of(t: Tree) -> Kind {
    match t {
        Tree::Str(_) => Kind::String,
        Tree::Bool(_) => Kind::Boolean,
        Tree::Array(_) => Kind::Array,
        Tree::Table(_) => Kind::Table,
        Tree::Scalar(k) => k,
    }
}

impl Tree {
    pub fn kind(&self) -> (r: Kind)
        ensures
            r == kind_of(*self),
    {
        match self {
            Tree::Str(_) => Kind::String,
            Tree::Bool(_) => Kind::Boolean,
            Tree::Array(_) => Kind::Array,
            Tree::Table(_) => Kind::Table,
            Tree::Scalar(k) => *k,
        }
    }
}

/// Index of the first entry of a table whose key is `key`.
pub open spec fn find_key(entries: Seq<(String, Tree)>, key: Seq<char>) -> Option<int>
    decreases entries.len(),
{
    if entries.len() == 0 {
        None
    } else {
        match find_key(entries.drop_last(), key) {
            Some(i) => Some(i),
            None => if entries.last().0@ == key {
                Some(entries.len() - 1)
            } else {
                None
            },
        }
    }
}

/// The value of the first entry of a table whose key is `key`.
pub open spec fn lookup(entries: Seq<(String, Tree)>, key: Seq<char>) -> Option<Tree> {
    match find_key(entries, key) {
        Some(i) => Some(entries[i].1),
        None => None,
    }
}

proof fn lemma_find_key_bounds(entries: Seq<(String, Tree)>, key: Seq<char>)
    ensures
        match find_key(entries, key) {
            Some(i) => 0 <= i < entries.len() && entries[i].0@ == key,
            None => forall|j: int| 0 <= j < entries.len() ==> entries[j].0@ != key,
        },
    decreases entries.len(),
{
    if entries.len() > 0 {
        lemma_find_key_bounds(entries.drop_last(), key);
        assert forall|j: int| 0 <= j < entries.len() - 1 implies entries.drop_last()[j] == entries[j] by {}
    }
}

proof fn lemma_find_key_prefix(entries: Seq<(String, Tree)>, n: int, key: Seq<char>)
    requires
        0 <= n <= entries.len(),
        find_key(entries.take(n), key) is Some,
    ensures
        find_key(entries, key) == find_key(entries.take(n), key),
    decreases entries.len(),
{
    if entries.len() == n {
        assert(entries.take(n) == entries);
    } else {
        assert(entries.drop_last().take(n) == entries.take(n));
        lemma_find_key_prefix(entries.drop_last(), n, key);
    }
}

/// Finds the value stored under `key` in a table.
pub fn get<'a>(entries: &'a Vec<(String, Tree)>, key: &str) -> (r: Option<&'a Tree>)
    ensures
        match r {
            Some(t) => lookup(entries@, key@) == Some(*t),
            None => lookup(entries@, key@) is None,
        },
{
    let mut i: usize = 0;
    while i < entries.len()
        invariant
            i <= entries@.len(),
            find_key(entries@.take(i as int), key@) is None,
        decreases entries@.len() - i,
    {
        assert(entries@.take(i as int + 1).drop_last() == entries@.take(i as int));
        if str_eq(entries[i].0.as_str(), key) {
            proof {
                let s = entries@.take(i as int + 1);
                assert(s.drop_last() == entries@.take(i as int));
                assert(s.last() == entries@[i as int]);
                lemma_find_key_prefix(entries@, i as int + 1, key@);
            }
            return Some(&entries[i].1);
        }
        i = i + 1;
    }
    assert(entries@.take(i as int) == entries@);
    proof {
        lemma_find_key_bounds(entries@, key@);
    }
    None
}

/// Character-by-character equality of two strings.
pub fn str_eq(a: &str, b: &str) -> (r: bool)
    ensures
        r == (a@ == b@),
{
    let n = a.unicode_len();
    if n != b.unicode_len() {
        return false;
    }
    let mut i: usize = 0;
    while i < n
        invariant
            n == a@.len(),
            n == b@.len(),
            i <= n,
            a@.take(i as int) == b@.take(i as int),
        decreases n - i,
    {
        if a.get_char(i) != b.get_char(i) {
            assert(a@[i as int] != b@[i as int]);
            return false;
        }
        assert(a@.take(i as int + 1) == a@.take(i as int).push(a@[i as int]));
        assert(b@.take(i as int + 1) == b@.take(i as int).push(b@[i as int]));
        i = i + 1;
    }
    assert(a@ == a@.take(n as int));
    assert(b@ == b@.take(n as int));
    true
}

} // verus!
