//! Properties that hold across the functions of the library.
use vstd::prelude::*;
use crate::descriptor::{DetailedTomlDependency, TomlDependency, TomlManifest};
use crate::error::ManifestError;
use crate::manifest::{
    assembled, deps_of, first_failure, manifest_fails_with, manifest_ok, nested_path_of, nested_paths,
    project_of, resolved, targets_ok,
};
use crate::package::{opt_view, package_id_valid, Dependency};
use crate::source::{is_central, SourceId, SourceKind};
use crate::target::{has_lib, normalized, profiles_for, Profile, Target};
use crate::descriptor::TomlTarget;
use crate::text::{issue_line, line_col_of, position_text, syntax_report, SyntaxIssue};

verus! {

/// A descriptor with only a valid `package` section interprets to a
/// manifest with no dependencies, no targets and no nested paths.
pub proof fn lemma_minimal_descriptor(m: TomlManifest, ambient: SourceId, out: crate::manifest::Manifest, paths: Seq<String>)
    requires
        m.package matches Some(p) && package_id_valid(p.name@, p.version@),
        m.project is None,
        m.lib is None,
        m.bin is None,
        m.dependencies is None,
    ensures
        manifest_ok(m),
        assembled(m, ambient, out, paths) ==> out.summary.dependencies@.len() == 0 && out.targets@.len() == 0
            && paths.len() == 0,
{
    assert(deps_of(m) == Seq::<(String, TomlDependency)>::empty());
    assert(nested_paths(deps_of(m)) == Seq::<Seq<char>>::empty());
    assert(crate::manifest::views(paths).len() == paths.len());
}

/// A dependency written as a bare version string comes from the central
/// registry and requires exactly that version.
pub proof fn lemma_simple_dependency(name: String, v: String, ambient: SourceId, d: Dependency)
    requires
        resolved(name, TomlDependency::SimpleDep(v), ambient, d),
    ensures
        is_central(d.source_id),
        opt_view(d.req) == Some(v@),
{
}

/// A git dependency checks out its branch if it names one, whatever its tag
/// or revision; with no branch, tag or revision it checks out `master`.
pub proof fn lemma_git_reference(name: String, det: DetailedTomlDependency, ambient: SourceId, d: Dependency)
    requires
        det.git is Some,
        resolved(name, TomlDependency::DetailedDep(det), ambient, d),
    ensures
        d.source_id.kind is Git,
        det.branch matches Some(b) ==> d.source_id.kind->Git_0@ == b@,
        det.branch is None && det.tag is None && det.rev is None ==> d.source_id.kind->Git_0@ == "master"@,
{
}

proof fn lemma_nested_paths_contain(deps: Seq<(String, TomlDependency)>, i: int)
    requires
        0 <= i < deps.len(),
        nested_path_of(deps[i].1) is Some,
    ensures
        nested_paths(deps).contains(nested_path_of(deps[i].1)->0),
    decreases deps.len(),
{
    let prev = nested_paths(deps.drop_last());
    if i < deps.len() - 1 {
        assert(deps.drop_last()[i] == deps[i]);
        lemma_nested_paths_contain(deps.drop_last(), i);
        let k = choose|k: int| 0 <= k < prev.len() && prev[k] == nested_path_of(deps[i].1)->0;
        match nested_path_of(deps.last().1) {
            Some(p) => assert(prev.push(p)[k] == prev[k]),
            None => {},
        }
    } else {
        assert(prev.push(nested_path_of(deps[i].1)->0).last() == nested_path_of(deps[i].1)->0);
    }
}

/// A path dependency (with no `git`) inherits the ambient source, and its
/// path is among the nested manifest paths.
pub proof fn lemma_path_dependency(deps: Seq<(String, TomlDependency)>, i: int, ambient: SourceId, d: Dependency)
    requires
        0 <= i < deps.len(),
        deps[i].1 matches TomlDependency::DetailedDep(det) && det.git is None && det.path is Some,
        resolved(deps[i].0, deps[i].1, ambient, d),
    ensures
        d.source_id == ambient,
        nested_paths(deps).contains(deps[i].1->DetailedDep_0.path->0@),
{
    lemma_nested_paths_contain(deps, i);
}

/// A binary entry with no path of its own looks in `src/bin/` when a library
/// target is declared, and in `src/` otherwise; the library target comes first.
pub proof fn lemma_binary_paths(lib: Option<Seq<TomlTarget>>, bin: Seq<TomlTarget>, ts: Seq<Target>, i: int)
    requires
        normalized(lib, Some(bin), ts),
        0 <= i < bin.len(),
        bin[i].path is None,
    ensures
        has_lib(lib) ==> ts[0].kind is Lib && ts[i + 1].kind is Bin
            && ts[i + 1].path@ == "src/bin/"@ + bin[i].name@ + ".rs"@,
        !has_lib(lib) ==> ts[i].kind is Bin && ts[i].path@ == "src/"@ + bin[i].name@ + ".rs"@,
{
    assert(crate::target::is_bin_target_of(ts[crate::target::first_bin(lib) + i], bin[i], has_lib(lib)));
}

/// A target whose entry sets `test = false` has only a compile profile;
/// otherwise it has a compile and a test profile.
pub proof fn lemma_profiles(ps: Seq<Profile>, test: Option<bool>)
    requires
        profiles_for(ps, test),
    ensures
        test == Some(false) ==> ps.len() == 1 && ps[0].env@ == "compile"@ && !ps[0].test,
        test != Some(false) ==> ps.len() == 2 && ps[0].env@ == "compile"@ && ps[1].env@ == "test"@ && ps[1].test,
{
}

/// A descriptor with neither a `package` nor a `project` section gives no
/// manifest; when no earlier error is found, it fails with exactly the
/// missing-section error.
pub proof fn lemma_missing_project(m: TomlManifest, e: ManifestError)
    requires
        m.package is None,
        m.project is None,
    ensures
        !manifest_ok(m),
        targets_ok(m) && first_failure(deps_of(m)) is None ==> (manifest_fails_with(m, e)
            <==> e == ManifestError::MissingProjectSection),
{
}

/// In an interpreted manifest, a git dependency that names a branch checks
/// out that branch, whatever tag or revision it names too; one that names
/// no branch, tag or revision checks out `master`.
pub proof fn lemma_manifest_git_reference(m: TomlManifest, ambient: SourceId, out: crate::manifest::Manifest, paths: Seq<String>, i: int)
    requires
        assembled(m, ambient, out, paths),
        0 <= i < deps_of(m).len(),
        deps_of(m)[i].1 matches TomlDependency::DetailedDep(det) && det.git is Some,
    ensures
        ({
            let det = deps_of(m)[i].1->DetailedDep_0;
            let kind = out.summary.dependencies@[i].source_id.kind;
            &&& kind is Git
            &&& det.branch matches Some(b) ==> kind->Git_0@ == b@
            &&& det.branch is None && det.tag is None && det.rev is None ==> kind->Git_0@ == "master"@
        }),
{
    assert(resolved(deps_of(m)[i].0, deps_of(m)[i].1, ambient, out.summary.dependencies@[i]));
}

pub open spec fn span_start(issue: SyntaxIssue) -> int {
    match issue.span {
        Some((lo, _)) => lo as int,
        None => 0,
    }
}

/// The report of a problem at a byte range starts with the one-based line
/// and column of the range's first byte: one more than the line breaks
/// before it, and one more than the bytes since the last of them.
pub proof fn lemma_syntax_position(b: Seq<u8>, file: Seq<char>, issue: SyntaxIssue)
    requires
        issue.span matches Some((lo, hi)) && lo <= b.len(),
    ensures
        ({
            let lo = span_start(issue);
            let r = syntax_report(b, file, seq![issue]);
            &&& line_col_of(b, lo) == (crate::text::newlines(b, lo) as int + 1, lo - crate::text::line_start(b, lo) + 1)
            &&& ("could not parse input TOML\n"@ + file + ":"@ + position_text(line_col_of(b, lo))).is_prefix_of(r)
        }),
{
    let s = seq![issue];
    assert(s.drop_last() == Seq::<SyntaxIssue>::empty());
    assert(s.last() == issue);
    let head = "could not parse input TOML\n"@;
    let lo = span_start(issue);
    let pre = head + file + ":"@ + position_text(line_col_of(b, lo));
    let r = syntax_report(b, file, s);
    assert(crate::text::issue_lines(b, file, s.drop_last()) == Seq::<char>::empty());
    assert(Seq::<char>::empty() + issue_line(b, file, issue) == issue_line(b, file, issue));
    assert(crate::text::issue_lines(b, file, s) == issue_line(b, file, issue));
    assert(r.subrange(0, pre.len() as int) == pre);
}

/// `p` occurs in `s`.
pub open spec fn occurs_in(p: Seq<char>, s: Seq<char>) -> bool {
    exists|k: int| 0 <= k && k + p.len() <= s.len() && #[trigger] s.subrange(k, k + p.len()) == p
}

proof fn lemma_occurs_concat(p: Seq<char>, a: Seq<char>, b: Seq<char>)
    ensures
        occurs_in(p, a) ==> occurs_in(p, a + b),
        occurs_in(p, b) ==> occurs_in(p, a + b),
{
    if occurs_in(p, a) {
        let k = choose|k: int| 0 <= k && k + p.len() <= a.len() && #[trigger] a.subrange(k, k + p.len()) == p;
        assert((a + b).subrange(k, k + p.len()) == a.subrange(k, k + p.len()));
    }
    if occurs_in(p, b) {
        let k = choose|k: int| 0 <= k && k + p.len() <= b.len() && #[trigger] b.subrange(k, k + p.len()) == p;
        assert((a + b).subrange(a.len() + k, a.len() + k + p.len()) == b.subrange(k, k + p.len()));
    }
}

/// The position that starts the report line of an issue with a range.
pub open spec fn issue_position(b: Seq<u8>, file: Seq<char>, issue: SyntaxIssue) -> Seq<char> {
    file + ":"@ + position_text(line_col_of(b, span_start(issue)))
}

proof fn lemma_issue_lines_locate(b: Seq<u8>, file: Seq<char>, issues: Seq<SyntaxIssue>, i: int)
    requires
        0 <= i < issues.len(),
        issues[i].span is Some,
    ensures
        occurs_in(issue_position(b, file, issues[i]), crate::text::issue_lines(b, file, issues)),
    decreases issues.len(),
{
    let prev = crate::text::issue_lines(b, file, issues.drop_last());
    let last = issue_line(b, file, issues.last());
    let p = issue_position(b, file, issues[i]);
    if i < issues.len() - 1 {
        assert(issues.drop_last()[i] == issues[i]);
        lemma_issue_lines_locate(b, file, issues.drop_last(), i);
        lemma_occurs_concat(p, prev, last);
    } else {
        assert(last.subrange(0, p.len() as int) == p);
        let k: int = 0;
        assert(last.subrange(k, k + p.len()) == p);
        assert(occurs_in(p, last));
        lemma_occurs_concat(p, prev, last);
    }
}

/// Every problem with a byte range is located in the report by its file and
/// the one-based line and column of its first byte.
pub proof fn lemma_syntax_positions(b: Seq<u8>, file: Seq<char>, issues: Seq<SyntaxIssue>, i: int)
    requires
        0 <= i < issues.len(),
        issues[i].span is Some,
    ensures
        occurs_in(issue_position(b, file, issues[i]), syntax_report(b, file, issues)),
{
    lemma_issue_lines_locate(b, file, issues, i);
    lemma_occurs_concat(issue_position(b, file, issues[i]), "could not parse input TOML\n"@,
        crate::text::issue_lines(b, file, issues));
}

} // verus!
