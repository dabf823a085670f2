//! Findings of a scan.
use vstd::prelude::*;
use crate::text::string_of_str;

verus! {

#[derive(Clone, Copy, Debug, PartialEq, Eq, Structural)]
pub enum Severity {
    Error,
    Warning,
}

/// One finding: which package it concerns, which check raised it, how
/// severe it is, what is wrong, how to fix it, and (once known) which part
/// of the scan it came from (`direct`, `transitive`, ...).
#[derive(Debug)]
pub struct Issue {
    pub package: String,
    pub check: String,
    pub severity: Severity,
    pub message: String,
    pub fix: String,
    pub source: Option<String>,
}

pub struct IssueView {
    pub package: Seq<char>,
    pub check: Seq<char>,
    pub severity: Severity,
    pub message: Seq<char>,
    pub fix: Seq<char>,
    pub source: Option<Seq<char>>,
}

pub open spec fn opt_view(o: Option<String>) -> Option<Seq<char>> {
    match o {
        Some(s) => Some(s@),
        None => None,
    }
}

impl View for Issue {
    type V = IssueView;

    open spec fn view(&self) -> IssueView {
        IssueView {
            package: self.package@,
            check: self.check@,
            severity: self.severity,
            message: self.message@,
            fix: self.fix@,
            source: opt_view(self.source),
        }
    }
}

/// An issue with the given package, check and severity, and empty text.
pub open spec fn issue_spec(package: Seq<char>, check: Seq<char>, severity: Severity) -> IssueView {
    IssueView {
        package,
        check,
        severity,
        message: Seq::empty(),
        fix: Seq::empty(),
        source: None,
    }
}

/// The same issue with its message and fix text.
pub open spec fn with_text(i: IssueView, message: Seq<char>, fix: Seq<char>) -> IssueView {
    IssueView { message, fix, ..i }
}

pub fn clone_opt_string(o: &Option<String>) -> (r: Option<String>)
    ensures
        opt_view(r) == opt_view(*o),
{
    match o {
        Some(s) => Some(s.clone()),
        None => None,
    }
}

impl Issue {
    pub fn new(package: &str, check: &str, severity: Severity) -> (r: Issue)
        ensures
            r@ == issue_spec(package@, check@, severity),
    {
        Issue {
            package: string_of_str(package),
            check: string_of_str(check),
            severity,
            message: String::new(),
            fix: String::new(),
            source: None,
        }
    }

    pub fn message(self, message: &str) -> (r: Issue)
        ensures
            r@ == (IssueView { message: message@, ..self@ }),
    {
        Issue { message: string_of_str(message), ..self }
    }

    pub fn fix(self, fix: &str) -> (r: Issue)
        ensures
            r@ == (IssueView { fix: fix@, ..self@ }),
    {
        Issue { fix: string_of_str(fix), ..self }
    }

    /// A copy of this issue.
    pub fn duplicate(&self) -> (r: Issue)
        ensures
            r@ == self@,
    {
        Issue {
            package: self.package.clone(),
            check: self.check.clone(),
            severity: self.severity,
            message: self.message.clone(),
            fix: self.fix.clone(),
            source: clone_opt_string(&self.source),
        }
    }
}

impl Clone for Issue {
    fn clone(&self) -> (r: Issue)
        ensures
            r@ == self@,
    {
        self.duplicate()
    }
}

/// A character that would act on a terminal instead of printing: ASCII and
/// C1 control characters.
pub open spec fn is_terminal_control(c: char) -> bool {
    c < ' ' || ('\u{7F}' <= c && c <= '\u{9F}')
}

/// `s` without its terminal control characters.
pub open spec fn sanitized(s: Seq<char>) -> Seq<char>
    decreases s.len(),
{
    if s.len() == 0 {
        Seq::empty()
    } else {
        sanitized(s.drop_last()) + if is_terminal_control(s.last()) {
            Seq::empty()
        } else {
            seq![s.last()]
        }
    }
}

/// Text from a scanned file, made safe to print: control characters, which
/// could move the cursor or rewrite earlier output, are dropped.
pub fn sanitize_for_terminal(s: &str) -> (r: String)
    ensures
        r@ == sanitized(s@),
{
    let v = crate::text::chars_of(s);
    let mut r = String::new();
    let mut i: usize = 0;
    assert(v@.take(0) == Seq::<char>::empty());
    while i < v.len()
        invariant
            i <= v@.len(),
            v@ == s@,
            r@ == sanitized(v@.take(i as int)),
        decreases v.len() - i,
    {
        let c = v[i];
        proof {
            let t = v@.take(i + 1);
            assert(t.drop_last() == v@.take(i as int));
            assert(t.last() == c);
        }
        if c < ' ' || ('\u{7F}' <= c && c <= '\u{9F}') {
            assert(r@ == r@ + Seq::<char>::empty());
        } else {
            crate::text::string_push(&mut r, c);
        }
        i = i + 1;
    }
    assert(v@.take(i as int) == v@);
    r
}

/// Sanitized text holds no terminal control character, and keeps every
/// other character of the input, in order.
pub proof fn lemma_sanitized_is_printable(s: Seq<char>)
    ensures
        forall|i: int| 0 <= i < sanitized(s).len() ==> !is_terminal_control(#[trigger] sanitized(s)[i]),
        (!exists|i: int| 0 <= i < s.len() && is_terminal_control(#[trigger] s[i])) ==> sanitized(s) == s,
    decreases s.len(),
{
    if s.len() > 0 {
        let t = s.drop_last();
        lemma_sanitized_is_printable(t);
        let r = sanitized(s);
        assert forall|i: int| 0 <= i < r.len() implies !is_terminal_control(#[trigger] r[i]) by {
            if i < sanitized(t).len() {
                assert(r[i] == sanitized(t)[i]);
            }
        }
        if !exists|i: int| 0 <= i < s.len() && is_terminal_control(#[trigger] s[i]) {
            assert(!exists|i: int| 0 <= i < t.len() && is_terminal_control(#[trigger] t[i])) by {
                if exists|i: int| 0 <= i < t.len() && is_terminal_control(#[trigger] t[i]) {
                    let i = choose|i: int| 0 <= i < t.len() && is_terminal_control(#[trigger] t[i]);
                    assert(s[i] == t[i]);
                }
            }
            assert(!is_terminal_control(s[s.len() - 1]));
            assert(t.push(s.last()) =~= s);
        }
    }
}

} // verus!
