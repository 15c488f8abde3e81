//! Positions in a descriptor's text and the messages that locate syntax errors.
use vstd::prelude::*;

verus! {

pub open spec fn digit_text(d: nat) -> Seq<char> {
    if d == 0 { "0"@ } else if d == 1 { "1"@ } else if d == 2 { "2"@ } else if d == 3 { "3"@ }
    else if d == 4 { "4"@ } else if d == 5 { "5"@ } else if d == 6 { "6"@ } else if d == 7 { "7"@ }
    else if d == 8 { "8"@ } else { "9"@ }
}

/// The decimal digits of `n`.
pub open spec fn decimal_of(n: nat) -> Seq<char>
    decreases n,
{
    if n < 10 {
        digit_text(n)
    } else {
        decimal_of(n / 10) + digit_text(n % 10)
    }
}

fn digit(d: usize) -> (r: &'static str)
    requires
        d < 10,
    ensures
        r@ == digit_text(d as nat),
{
    if d == 0 { "0" } else if d == 1 { "1" } else if d == 2 { "2" } else if d == 3 { "3" }
    else if d == 4 { "4" } else if d == 5 { "5" } else if d == 6 { "6" } else if d == 7 { "7" }
    else if d == 8 { "8" } else { "9" }
}

/// Writes `n` in decimal.
pub fn decimal(n: usize) -> (r: String)
    ensures
        r@ == decimal_of(n as nat),
    decreases n,
{
    if n < 10 {
        String::from_str(digit(n))
    } else {
        let mut s = decimal(n / 10);
        s.append(digit(n % 10));
        s
    }
}

/// The number of line breaks among the first `n` bytes.
pub open spec fn newlines(b: Seq<u8>, n: int) -> nat
    decreases n,
{
    if n <= 0 {
        0
    } else {
        newlines(b, n - 1) + if b[n - 1] == 10u8 { 1nat } else { 0nat }
    }
}

/// Where the line holding byte `n` starts.
pub open spec fn line_start(b: Seq<u8>, n: int) -> int
    decreases n,
{
    if n <= 0 {
        0
    } else if b[n - 1] == 10u8 {
        n
    } else {
        line_start(b, n - 1)
    }
}

proof fn lemma_line_bounds(b: Seq<u8>, n: int)
    requires
        0 <= n,
    ensures
        newlines(b, n) <= n,
        0 <= line_start(b, n) <= n,
    decreases n,
{
    if n > 0 {
        lemma_line_bounds(b, n - 1);
    }
}

/// The one-based line and column of a byte offset (an offset past the end
/// counts as the end).
pub open spec fn line_col_of(b: Seq<u8>, offset: int) -> (int, int) {
    let n = if offset > b.len() { b.len() as int } else { offset };
    (newlines(b, n) as int + 1, n - line_start(b, n) + 1)
}

/// The one-based line and column of byte `offset` of `text`.
pub fn line_col(text: &[u8], offset: usize) -> (r: (usize, usize))
    requires
        text@.len() < usize::MAX,
    ensures
        (r.0 as int, r.1 as int) == line_col_of(text@, offset as int),
{
    let n = if offset > text.len() { text.len() } else { offset };
    let mut line: usize = 0;
    let mut start: usize = 0;
    let mut i: usize = 0;
    while i < n
        invariant
            n <= text@.len() < usize::MAX,
            i <= n,
            line as nat == newlines(text@, i as int),
            start as int == line_start(text@, i as int),
        decreases n - i,
    {
        proof {
            lemma_line_bounds(text@, i as int);
        }
        if text[i] == 10u8 {
            line = line + 1;
            start = i + 1;
        }
        i = i + 1;
    }
    proof {
        lemma_line_bounds(text@, n as int);
    }
    (line + 1, n - start + 1)
}

/// One problem found in a text: the byte range it spans, when known, and what it is.
#[derive(Clone, Debug, PartialEq, Eq)]
pub struct SyntaxIssue {
    pub span: Option<(usize, usize)>,
    pub desc: String,
}

pub open spec fn position_text(p: (int, int)) -> Seq<char> {
    decimal_of(p.0 as nat) + ":"@ + decimal_of(p.1 as nat)
}

/// One line of a syntax report: `file:line:col desc`, or
/// `file:line:col-line:col desc` when the problem spans a range.
pub open spec fn located_line(b: Seq<u8>, file: Seq<char>, span: Option<(usize, usize)>, desc: Seq<char>) -> Seq<char> {
    match span {
        None => file + " "@ + desc + "\n"@,
        Some((lo, hi)) => {
            let a = line_col_of(b, lo as int);
            let z = line_col_of(b, hi as int);
            file + ":"@ + position_text(a) + (if a != z { "-"@ + position_text(z) } else { Seq::empty() })
                + " "@ + desc + "\n"@
        },
    }
}

pub open spec fn issue_line(b: Seq<u8>, file: Seq<char>, issue: SyntaxIssue) -> Seq<char> {
    located_line(b, file, issue.span, issue.desc@)
}

pub open spec fn issue_lines(b: Seq<u8>, file: Seq<char>, issues: Seq<SyntaxIssue>) -> Seq<char>
    decreases issues.len(),
{
    if issues.len() == 0 {
        Seq::empty()
    } else {
        issue_lines(b, file, issues.drop_last()) + issue_line(b, file, issues.last())
    }
}

pub open spec fn syntax_report(b: Seq<u8>, file: Seq<char>, issues: Seq<SyntaxIssue>) -> Seq<char> {
    "could not parse input TOML\n"@ + issue_lines(b, file, issues)
}

fn position(p: (usize, usize)) -> (r: String)
    ensures
        r@ == position_text((p.0 as int, p.1 as int)),
{
    let mut s = decimal(p.0);
    s.append(":");
    s.append(decimal(p.1).as_str());
    s
}

fn issue_text(text: &[u8], file: &str, issue: &SyntaxIssue) -> (r: String)
    requires
        text@.len() < usize::MAX,
    ensures
        r@ == issue_line(text@, file@, *issue),
{
    let mut s = String::from_str(file);
    match issue.span {
        None => {
            s.append(" ");
        },
        Some((lo, hi)) => {
            let a = line_col(text, lo);
            let z = line_col(text, hi);
            s.append(":");
            s.append(position(a).as_str());
            if a.0 != z.0 || a.1 != z.1 {
                s.append("-");
                s.append(position(z).as_str());
            } else {
                assert(s@ + Seq::<char>::empty() == s@);
            }
            s.append(" ");
        },
    }
    s.append(issue.desc.as_str());
    s.append("\n");
    s
}

/// The report of the problems found in `text`, read from `file`.
pub fn syntax_message(text: &[u8], file: &str, issues: &Vec<SyntaxIssue>) -> (r: String)
    requires
        text@.len() < usize::MAX,
    ensures
        r@ == syntax_report(text@, file@, issues@),
{
    let mut s = String::from_str("could not parse input TOML\n");
    let mut i: usize = 0;
    while i < issues.len()
        invariant
            text@.len() < usize::MAX,
            i <= issues@.len(),
            s@ == "could not parse input TOML\n"@ + issue_lines(text@, file@, issues@.take(i as int)),
        decreases issues@.len() - i,
    {
        assert(issues@.take(i as int + 1).drop_last() == issues@.take(i as int));
        let line = issue_text(text, file, &issues[i]);
        s.append(line.as_str());
        i = i + 1;
    }
    assert(issues@.take(i as int) == issues@);
    s
}

} // verus!
