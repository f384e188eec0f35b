//! Per-project ignore terms.
//!
//! A term that a project has declared uninteresting stays visible but stops
//! failing the build: its severity drops to information, which takes it out of
//! both the error and the warning gate.

use crate::rules::ruleset::{issues_view, Issue, IssueView, Severity};
use crate::text::{contains_text, texts};
use vstd::prelude::*;

verus! {

/// An issue after the ignore terms were applied to it: where its term is among
/// them it drops to information, and nothing else about it changes.
pub open spec fn ignored(issue: IssueView, terms: Seq<Seq<char>>) -> IssueView {
    if terms.contains(issue.found) {
        IssueView { severity: Severity::Info, ..issue }
    } else {
        issue
    }
}

/// A list of issues after the ignore terms were applied.
pub open spec fn all_ignored(issues: Seq<IssueView>, terms: Seq<Seq<char>>) -> Seq<IssueView> {
    issues.map_values(|issue: IssueView| ignored(issue, terms))
}

/// Downgrades the issues whose term is among the ignore terms.
pub fn apply_ignore_set(issues: &mut Vec<Issue>, ignore_set: &Vec<String>)
    ensures
        issues_view(final(issues)@) == all_ignored(issues_view(old(issues)@), texts(ignore_set@)),
{
    let ghost before = issues_view(issues@);
    let ghost terms = texts(ignore_set@);
    let mut i: usize = 0;
    while i < issues.len()
        invariant
            i <= issues.len(),
            issues.len() == before.len(),
            terms == texts(ignore_set@),
            forall|k: int| 0 <= k < i ==> (#[trigger] issues@[k])@ == ignored(before[k], terms),
            forall|k: int| i <= k < issues.len() ==> (#[trigger] issues@[k])@ == before[k],
        decreases issues.len() - i,
    {
        if contains_text(ignore_set, issues[i].found.as_str()) {
            issues[i].severity = Severity::Info;
        }
        i += 1;
    }
    assert(issues_view(issues@) =~= all_ignored(before, terms));
}

/// Applying the ignore terms a second time changes nothing.
pub proof fn law_ignoring_is_idempotent(issues: Seq<IssueView>, terms: Seq<Seq<char>>)
    ensures
        all_ignored(all_ignored(issues, terms), terms) == all_ignored(issues, terms),
{
    assert(all_ignored(all_ignored(issues, terms), terms) =~= all_ignored(issues, terms));
}

/// Without ignore terms nothing changes.
pub proof fn law_no_terms_change_nothing(issues: Seq<IssueView>)
    ensures
        all_ignored(issues, seq![]) == issues,
{
    assert(all_ignored(issues, seq![]) =~= issues);
}

/// A term that the project ignores drops to information, and every other issue
/// keeps its severity; no issue is added, dropped, moved or changed otherwise.
pub proof fn law_ignored_terms_drop_to_information(
    issues: Seq<IssueView>,
    terms: Seq<Seq<char>>,
    i: int,
)
    requires
        0 <= i < issues.len(),
    ensures
        ({
            let after = all_ignored(issues, terms);
            &&& after.len() == issues.len()
            &&& terms.contains(issues[i].found) ==> after[i].severity == Severity::Info
            &&& !terms.contains(issues[i].found) ==> after[i].severity == issues[i].severity
            &&& after[i] == (IssueView { severity: after[i].severity, ..issues[i] })
        }),
{
}

/// Applying the ignore terms keeps every issue in its place and changes the
/// severity of those whose term is ignored, to information, and nothing else.
pub proof fn law_applying_ignore_terms(
    issues: &mut Vec<Issue>,
    ignore_set: &Vec<String>,
    i: int,
)
    requires
        call_ensures(apply_ignore_set, (issues, ignore_set), ()),
        0 <= i < old(issues)@.len(),
    ensures
        final(issues)@.len() == old(issues)@.len(),
        ({
            let before = old(issues)@[i]@;
            let after = final(issues)@[i]@;
            &&& texts(ignore_set@).contains(before.found) ==> after == (IssueView {
                severity: Severity::Info,
                ..before
            })
            &&& !texts(ignore_set@).contains(before.found) ==> after == before
        }),
{
    let before = issues_view(old(issues)@);
    let after = issues_view(final(issues)@);
    assert(after.len() == before.len());
    assert(after[i] == all_ignored(before, texts(ignore_set@))[i]);
}

} // verus!
