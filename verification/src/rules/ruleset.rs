//! Issues: what the scanner found, as the reports and the gates read it.

use crate::text::{clone_texts, opt_text, texts};
use vstd::prelude::*;

verus! {

/// How much an issue weighs. Errors and warnings count against the gates;
/// information does not.
#[derive(Clone, Copy, Debug, PartialEq, Eq, Structural)]
pub enum Severity {
    Error,
    Warning,
    Info,
}

impl Severity {
    /// The severity's name in reports.
    pub open spec fn name_text(self) -> Seq<char> {
        match self {
            Severity::Error => "error"@,
            Severity::Warning => "warning"@,
            Severity::Info => "info"@,
        }
    }

    /// The severity's name in reports.
    pub fn name(self) -> (r: &'static str)
        ensures
            r@ == self.name_text(),
    {
        match self {
            Severity::Error => "error",
            Severity::Warning => "warning",
            Severity::Info => "info",
        }
    }
}

/// One finding.
#[derive(Debug)]
pub struct Issue {
    /// Where the finding begins, in bytes.
    pub offset: usize,
    /// How long it is, in bytes.
    pub length: usize,
    pub line: usize,
    pub col: usize,
    pub found: String,
    pub suggestions: Vec<String>,
    /// Whether what is suggested is to delete the term.
    pub deletes: bool,
    /// The name of the rule's type.
    pub rule_type: String,
    pub severity: Severity,
    pub context: Option<String>,
    pub english: Option<String>,
    /// What the translation anchor said, where it was asked.
    pub anchor_match: Option<bool>,
}

/// What an `Issue` holds.
pub ghost struct IssueView {
    pub offset: usize,
    pub length: usize,
    pub line: usize,
    pub col: usize,
    pub found: Seq<char>,
    pub suggestions: Seq<Seq<char>>,
    pub deletes: bool,
    pub rule_type: Seq<char>,
    pub severity: Severity,
    pub context: Option<Seq<char>>,
    pub english: Option<Seq<char>>,
    pub anchor_match: Option<bool>,
}

impl View for Issue {
    type V = IssueView;

    open spec fn view(&self) -> IssueView {
        IssueView {
            offset: self.offset,
            length: self.length,
            line: self.line,
            col: self.col,
            found: self.found@,
            suggestions: texts(self.suggestions@),
            deletes: self.deletes,
            rule_type: self.rule_type@,
            severity: self.severity,
            context: opt_text(self.context),
            english: opt_text(self.english),
            anchor_match: self.anchor_match,
        }
    }
}

/// What each issue of a list holds.
pub open spec fn issues_view(list: Seq<Issue>) -> Seq<IssueView> {
    Seq::new(list.len(), |i: int| list[i]@)
}

impl Issue {
    /// A finding without coordinates: line and column are 0 until a line index
    /// is applied.
    pub fn new(
        offset: usize,
        length: usize,
        found: &str,
        suggestions: Vec<String>,
        rule_type: &str,
        severity: Severity,
    ) -> (r: Issue)
        ensures
            r@ == (IssueView {
                offset,
                length,
                line: 0,
                col: 0,
                found: found@,
                suggestions: texts(suggestions@),
                deletes: false,
                rule_type: rule_type@,
                severity,
                context: None,
                english: None,
                anchor_match: None,
            }),
    {
        Issue {
            offset,
            length,
            line: 0,
            col: 0,
            found: found.to_owned(),
            suggestions,
            deletes: false,
            rule_type: rule_type.to_owned(),
            severity,
            context: None,
            english: None,
            anchor_match: None,
        }
    }
}

impl Clone for Issue {
    fn clone(&self) -> (r: Self)
        ensures
            r@ == self@,
    {
        Issue {
            offset: self.offset,
            length: self.length,
            line: self.line,
            col: self.col,
            found: self.found.clone(),
            suggestions: clone_texts(&self.suggestions),
            deletes: self.deletes,
            rule_type: self.rule_type.clone(),
            severity: self.severity,
            context: self.context.clone(),
            english: self.english.clone(),
            anchor_match: self.anchor_match,
        }
    }
}

/// A copy of an issue list.
pub fn clone_issues(list: &Vec<Issue>) -> (r: Vec<Issue>)
    ensures
        issues_view(r@) == issues_view(list@),
        r.len() == list.len(),
{
    let mut out: Vec<Issue> = Vec::new();
    let mut i: usize = 0;
    while i < list.len()
        invariant
            i <= list.len(),
            out.len() == i,
            forall|k: int| 0 <= k < i ==> (#[trigger] out@[k])@ == list@[k]@,
        decreases list.len() - i,
    {
        out.push(list[i].clone());
        i += 1;
    }
    assert(issues_view(out@) =~= issues_view(list@));
    out
}

} // verus!
