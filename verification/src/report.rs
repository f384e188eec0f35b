//! The reports: one file's findings as JSON, human lines, compact lines, a
//! table, or SARIF.

use crate::lint::Colors;
use crate::plan::{LintPlan, LintPlanView};
use crate::rules::ruleset::{clone_issues, issues_view, Issue, IssueView, Severity};
use crate::text::{
    append2, append3, dec, decimal, in_order, insert_in_order, join, joined, opt_text, pieces,
    pushed, replace_char, replaced, same, split, string_from, texts,
};
use vstd::prelude::*;

verus! {

/// One file's results, as handed to the reports.
#[derive(Debug)]
pub struct FileReport {
    pub file_arg: String,
    pub detected_script: String,
    pub issues: Vec<Issue>,
    pub error_count: usize,
    pub warning_count: usize,
    pub tm_suppressed: usize,
    pub fixes_applied: Option<usize>,
    pub fixes_skipped: Option<usize>,
    pub fixes_declined: Option<usize>,
    pub ai_signature: Option<String>,
    pub translationese_signature: Option<String>,
    /// The text that the consistency report reads: the rewritten one where
    /// changes were written, the scanned one otherwise.
    pub consistency_text: String,
    pub text_char_count: usize,
    pub multi: bool,
}

/// What a `FileReport` holds.
pub ghost struct ReportView {
    pub file_arg: Seq<char>,
    pub detected_script: Seq<char>,
    pub issues: Seq<IssueView>,
    pub error_count: usize,
    pub warning_count: usize,
    pub tm_suppressed: usize,
    pub fixes_applied: Option<usize>,
    pub fixes_skipped: Option<usize>,
    pub fixes_declined: Option<usize>,
    pub ai_signature: Option<Seq<char>>,
    pub translationese_signature: Option<Seq<char>>,
    pub consistency_text: Seq<char>,
    pub text_char_count: usize,
    pub multi: bool,
}

impl View for FileReport {
    type V = ReportView;

    open spec fn view(&self) -> ReportView {
        ReportView {
            file_arg: self.file_arg@,
            detected_script: self.detected_script@,
            issues: issues_view(self.issues@),
            error_count: self.error_count,
            warning_count: self.warning_count,
            tm_suppressed: self.tm_suppressed,
            fixes_applied: self.fixes_applied,
            fixes_skipped: self.fixes_skipped,
            fixes_declined: self.fixes_declined,
            ai_signature: opt_text(self.ai_signature),
            translationese_signature: opt_text(self.translationese_signature),
            consistency_text: self.consistency_text@,
            text_char_count: self.text_char_count,
            multi: self.multi,
        }
    }
}

// Shared parts.

/// What is left of a path below a directory; nothing where the path does not
/// lie below it.
pub uninterp spec fn path_under(path: Seq<char>, dir: Seq<char>) -> Option<Seq<char>>;

/// `Path::strip_prefix`: a function of the two paths, component by component, by
/// the rules of the platform that the program is built for.
#[verifier::external_body]
fn strip_dir(path: &str, dir: &str) -> (r: Option<String>)
    ensures
        opt_text(r) == path_under(path@, dir@),
{
    std::path::Path::new(path).strip_prefix(dir).ok().map(|p| p.to_string_lossy().into_owned())
}

/// The prefix of a file's lines: nothing for standard input, else the path
/// relative to the current directory where it lies below it, and a colon.
pub open spec fn path_prefix(file: Seq<char>, relative: Option<Seq<char>>) -> Seq<char> {
    if file == "--"@ {
        ""@
    } else {
        match relative {
            Some(path) => path + ":"@,
            None => file + ":"@,
        }
    }
}

/// The prefix of a file's lines, where it is known what the path is relative to
/// the current directory.
pub fn prefix_of(file_arg: &str, relative: Option<String>) -> (r: String)
    ensures
        r@ == path_prefix(file_arg@, opt_text(relative)),
{
    if same(file_arg, "--") {
        return string_from("");
    }
    match relative {
        Some(path) => append2(path.as_str(), ":"),
        None => append2(file_arg, ":"),
    }
}

/// The prefix of a file's lines, given the current directory, if there is one.
pub fn display_path_prefix(file_arg: &str, cwd: &Option<String>) -> (r: String)
    ensures
        r@ == path_prefix(
            file_arg@,
            match opt_text(*cwd) {
                Some(dir) => path_under(file_arg@, dir),
                None => None,
            },
        ),
{
    let relative = match cwd {
        Some(dir) => strip_dir(file_arg, dir.as_str()),
        None => None,
    };
    prefix_of(file_arg, relative)
}

/// Suggestions for display.
pub open spec fn suggestions_text(issue: IssueView) -> Seq<char> {
    if issue.deletes {
        "(delete)"@
    } else {
        joined(issue.suggestions, ", "@)
    }
}

/// Joins an issue's suggestions for display; a suggestion to delete is shown
/// as such.
pub fn format_suggestions(issue: &Issue) -> (r: String)
    ensures
        r@ == suggestions_text(issue@),
{
    if issue.deletes {
        string_from("(delete)")
    } else {
        join(&issue.suggestions, ", ")
    }
}

// JSON.

/// One file's results in the JSON report.
#[derive(Debug)]
pub struct FileOutput {
    pub file: String,
    pub detected_script: String,
    pub issues: Vec<Issue>,
    pub total: usize,
    pub errors: usize,
    pub warnings: usize,
    pub tm_suppressed: Option<usize>,
    pub fixes_applied: Option<usize>,
    pub fixes_skipped: Option<usize>,
    pub fixes_declined: Option<usize>,
    pub ai_signature: Option<String>,
    pub translationese_signature: Option<String>,
    pub style_scorecard: Option<String>,
    pub consistency: Option<String>,
}

/// What a `FileOutput` holds.
pub ghost struct OutputView {
    pub file: Seq<char>,
    pub detected_script: Seq<char>,
    pub issues: Seq<IssueView>,
    pub total: usize,
    pub errors: usize,
    pub warnings: usize,
    pub tm_suppressed: Option<usize>,
    pub fixes_applied: Option<usize>,
    pub fixes_skipped: Option<usize>,
    pub fixes_declined: Option<usize>,
    pub ai_signature: Option<Seq<char>>,
    pub translationese_signature: Option<Seq<char>>,
    pub style_scorecard: Option<Seq<char>>,
    pub consistency: Option<Seq<char>>,
}

impl View for FileOutput {
    type V = OutputView;

    open spec fn view(&self) -> OutputView {
        OutputView {
            file: self.file@,
            detected_script: self.detected_script@,
            issues: issues_view(self.issues@),
            total: self.total,
            errors: self.errors,
            warnings: self.warnings,
            tm_suppressed: self.tm_suppressed,
            fixes_applied: self.fixes_applied,
            fixes_skipped: self.fixes_skipped,
            fixes_declined: self.fixes_declined,
            ai_signature: opt_text(self.ai_signature),
            translationese_signature: opt_text(self.translationese_signature),
            style_scorecard: opt_text(self.style_scorecard),
            consistency: opt_text(self.consistency),
        }
    }
}

/// A document-wide consistency report, in its serialized form.
#[derive(Debug)]
pub struct ConsistencyReport {
    pub text: String,
    /// Whether it reports nothing.
    pub empty: bool,
}

/// The consistency report that is shown: one that was asked for and reports
/// something.
pub open spec fn shown_consistency(asked: bool, report: Option<ConsistencyReport>) -> Option<
    Seq<char>,
> {
    match report {
        Some(r) => if asked && !r.empty {
            Some(r.text@)
        } else {
            None
        },
        None => None,
    }
}

/// One file's results in the JSON report: everything of the report, the
/// scorecard where the style was asked for, and a consistency report that has
/// something to say.
pub open spec fn json_output(
    r: ReportView,
    plan: LintPlanView,
    scorecard: Option<Seq<char>>,
    consistency: Option<ConsistencyReport>,
) -> OutputView {
    OutputView {
        file: r.file_arg,
        detected_script: r.detected_script,
        issues: r.issues,
        total: r.issues.len() as usize,
        errors: r.error_count,
        warnings: r.warning_count,
        tm_suppressed: if r.tm_suppressed > 0 {
            Some(r.tm_suppressed)
        } else {
            None
        },
        fixes_applied: r.fixes_applied,
        fixes_skipped: r.fixes_skipped,
        fixes_declined: r.fixes_declined,
        ai_signature: r.ai_signature,
        translationese_signature: r.translationese_signature,
        style_scorecard: if plan.detect_style {
            scorecard
        } else {
            None
        },
        consistency: shown_consistency(plan.consistency, consistency),
    }
}

/// Builds the JSON result of one file.
pub fn render_json(
    r: &FileReport,
    plan: &LintPlan,
    scorecard: Option<String>,
    consistency: Option<ConsistencyReport>,
) -> (out: FileOutput)
    ensures
        out@ == json_output(r@, plan@, opt_text(scorecard), consistency),
{
    let shown = match consistency {
        Some(report) => if plan.consistency && !report.empty {
            Some(report.text)
        } else {
            None
        },
        None => None,
    };
    FileOutput {
        file: r.file_arg.clone(),
        detected_script: r.detected_script.clone(),
        issues: clone_issues(&r.issues),
        total: r.issues.len(),
        errors: r.error_count,
        warnings: r.warning_count,
        tm_suppressed: if r.tm_suppressed > 0 {
            Some(r.tm_suppressed)
        } else {
            None
        },
        fixes_applied: r.fixes_applied,
        fixes_skipped: r.fixes_skipped,
        fixes_declined: r.fixes_declined,
        ai_signature: r.ai_signature.clone(),
        translationese_signature: r.translationese_signature.clone(),
        style_scorecard: if plan.detect_style {
            scorecard
        } else {
            None
        },
        consistency: shown,
    }
}

// Human lines.

/// The color of a severity.
pub open spec fn severity_color(s: Severity, c: Colors) -> Seq<char> {
    match s {
        Severity::Error => c.red@,
        Severity::Warning => c.yellow@,
        Severity::Info => c.cyan@,
    }
}

/// What the translation anchor said, for display.
pub open spec fn verify_tag(anchor: Option<bool>) -> Seq<char> {
    match anchor {
        Some(true) => " [verified]"@,
        Some(false) => " [unverified]"@,
        None => ""@,
    }
}

/// The prefix of a file's lines in human format.
pub open spec fn human_prefix(file: Seq<char>, multi: bool, c: Colors) -> Seq<char> {
    if multi {
        c.bold@ + file + c.reset@ + ":"@
    } else {
        ""@
    }
}

/// One issue's line in human format.
pub open spec fn issue_line(prefix: Seq<char>, i: IssueView, c: Colors) -> Seq<char> {
    prefix + dec(i.line as nat) + ":"@ + dec(i.col as nat) + ": "@ + severity_color(i.severity, c)
        + i.severity.name_text() + c.reset@ + " "@ + c.dim@ + "["@ + i.rule_type + "]"@ + c.reset@
        + " '"@ + c.bold@ + i.found + c.reset@ + "' -> "@ + suggestions_text(i) + verify_tag(
        i.anchor_match,
    )
}

/// One issue's lines in human format: its own, and where explanations were
/// asked for, its context and its English.
pub open spec fn issue_lines(prefix: Seq<char>, i: IssueView, explain: bool, c: Colors) -> Seq<
    Seq<char>,
> {
    let first = seq![issue_line(prefix, i, c)];
    let context = match i.context {
        Some(text) if explain => seq!["  "@ + c.dim@ + "context:"@ + c.reset@ + " "@ + text],
        _ => seq![],
    };
    let english = match i.english {
        Some(text) if explain => seq!["  "@ + c.dim@ + "english:"@ + c.reset@ + " "@ + text],
        _ => seq![],
    };
    first + context + english
}

/// The lines of a list of issues.
pub open spec fn all_issue_lines(
    prefix: Seq<char>,
    issues: Seq<IssueView>,
    explain: bool,
    c: Colors,
) -> Seq<Seq<char>>
    decreases issues.len(),
{
    if issues.len() == 0 {
        seq![]
    } else {
        all_issue_lines(prefix, issues.drop_last(), explain, c) + issue_lines(
            prefix,
            issues.last(),
            explain,
            c,
        )
    }
}

/// One file's lines in human format.
pub open spec fn human_lines(r: ReportView, explain: bool, c: Colors) -> Seq<Seq<char>> {
    let prefix = human_prefix(r.file_arg, r.multi, c);
    if r.issues.len() == 0 {
        seq![prefix + c.dim@ + "No issues found."@ + c.reset@]
    } else {
        all_issue_lines(prefix, r.issues, explain, c).push(
            "\n"@ + prefix + c.bold@ + dec(r.issues.len()) + " issue(s) found."@ + c.reset@,
        )
    }
}

fn severity_color_of(s: Severity, c: &Colors) -> (r: &'static str)
    ensures
        r@ == severity_color(s, *c),
{
    match s {
        Severity::Error => c.red,
        Severity::Warning => c.yellow,
        Severity::Info => c.cyan,
    }
}

fn verify_tag_of(anchor: Option<bool>) -> (r: &'static str)
    ensures
        r@ == verify_tag(anchor),
{
    match anchor {
        Some(true) => " [verified]",
        Some(false) => " [unverified]",
        None => "",
    }
}

fn issue_line_of(prefix: &str, i: &Issue, c: &Colors) -> (r: String)
    ensures
        r@ == issue_line(prefix@, i@, *c),
{
    let mut s = prefix.to_owned();
    s.append(decimal(i.line).as_str());
    s.append(":");
    s.append(decimal(i.col).as_str());
    s.append(": ");
    s.append(severity_color_of(i.severity, c));
    s.append(i.severity.name());
    s.append(c.reset);
    s.append(" ");
    s.append(c.dim);
    s.append("[");
    s.append(i.rule_type.as_str());
    s.append("]");
    s.append(c.reset);
    s.append(" '");
    s.append(c.bold);
    s.append(i.found.as_str());
    s.append(c.reset);
    s.append("' -> ");
    s.append(format_suggestions(i).as_str());
    s.append(verify_tag_of(i.anchor_match));
    s
}

fn detail_line(label: &str, text: &str, c: &Colors) -> (r: String)
    ensures
        r@ == "  "@ + c.dim@ + label@ + c.reset@ + " "@ + text@,
{
    let mut s = "  ".to_owned();
    s.append(c.dim);
    s.append(label);
    s.append(c.reset);
    s.append(" ");
    s.append(text);
    s
}

fn push_issue_lines(out: Vec<String>, prefix: &str, i: &Issue, explain: bool, c: &Colors) -> (r: Vec<
    String,
>)
    ensures
        texts(r@) == texts(out@) + issue_lines(prefix@, i@, explain, *c),
{
    let ghost before = texts(out@);
    let mut out = pushed(out, issue_line_of(prefix, i, c));
    if explain {
        if let Some(text) = &i.context {
            out = pushed(out, detail_line("context:", text.as_str(), c));
        }
        if let Some(text) = &i.english {
            out = pushed(out, detail_line("english:", text.as_str(), c));
        }
    }
    assert(texts(out@) =~= before + issue_lines(prefix@, i@, explain, *c));
    out
}

/// One file's lines in human format, for standard error.
pub fn render_human(r: &FileReport, explain: bool, c: &Colors) -> (out: Vec<String>)
    ensures
        texts(out@) == human_lines(r@, explain, *c),
{
    let prefix = if r.multi {
        let mut s = c.bold.to_owned();
        s.append(r.file_arg.as_str());
        s.append(c.reset);
        s.append(":");
        s
    } else {
        string_from("")
    };
    let mut out: Vec<String> = Vec::new();
    assert(texts(out@) =~= seq![]);
    if r.issues.len() == 0 {
        let mut s = prefix;
        s.append(c.dim);
        s.append("No issues found.");
        s.append(c.reset);
        let out = pushed(out, s);
        assert(texts(out@) =~= human_lines(r@, explain, *c));
        return out;
    }
    let ghost all = issues_view(r.issues@);
    let mut i: usize = 0;
    assert(all.take(0) =~= seq![]);
    while i < r.issues.len()
        invariant
            i <= r.issues.len(),
            all == issues_view(r.issues@),
            texts(out@) == all_issue_lines(prefix@, all.take(i as int), explain, *c),
        decreases r.issues.len() - i,
    {
        assert(all.take(i + 1).drop_last() =~= all.take(i as int));
        assert(all.take(i + 1).last() == r.issues@[i as int]@);
        out = push_issue_lines(out, prefix.as_str(), &r.issues[i], explain, c);
        i += 1;
    }
    assert(all.take(i as int) =~= all);
    let mut s = "\n".to_owned();
    s.append(prefix.as_str());
    s.append(c.bold);
    s.append(decimal(r.issues.len()).as_str());
    s.append(" issue(s) found.");
    s.append(c.reset);
    pushed(out, s)
}

// Compact lines.

/// One issue as the compact report sees it: what it is grouped by, and where
/// it is.
#[derive(Debug)]
pub struct CompactIssue {
    pub found: String,
    /// The short name of the rule's type.
    pub rule: String,
    /// The suggestions, with a bar between neighbours.
    pub suggestions: String,
    /// The short name of the severity.
    pub severity: String,
    pub line: usize,
    pub col: usize,
    pub context: Option<String>,
    pub english: Option<String>,
}

/// What a `CompactIssue` holds.
pub ghost struct CompactView {
    pub found: Seq<char>,
    pub rule: Seq<char>,
    pub suggestions: Seq<char>,
    pub severity: Seq<char>,
    pub line: usize,
    pub col: usize,
    pub context: Option<Seq<char>>,
    pub english: Option<Seq<char>>,
}

impl View for CompactIssue {
    type V = CompactView;

    open spec fn view(&self) -> CompactView {
        CompactView {
            found: self.found@,
            rule: self.rule@,
            suggestions: self.suggestions@,
            severity: self.severity@,
            line: self.line,
            col: self.col,
            context: opt_text(self.context),
            english: opt_text(self.english),
        }
    }
}

/// What each issue of a list holds.
pub open spec fn compact_view(list: Seq<CompactIssue>) -> Seq<CompactView> {
    Seq::new(list.len(), |i: int| list[i]@)
}

/// Two issues belong to one group.
pub open spec fn alike(a: CompactView, b: CompactView) -> bool {
    a.found == b.found && a.rule == b.rule && a.suggestions == b.suggestions && a.severity
        == b.severity
}

fn are_alike(a: &CompactIssue, b: &CompactIssue) -> (r: bool)
    ensures
        r == alike(a@, b@),
{
    same(a.found.as_str(), b.found.as_str()) && same(a.rule.as_str(), b.rule.as_str()) && same(
        a.suggestions.as_str(),
        b.suggestions.as_str(),
    ) && same(a.severity.as_str(), b.severity.as_str())
}

/// An issue is the first of its group.
pub open spec fn leads(list: Seq<CompactView>, i: int) -> bool {
    forall|k: int| 0 <= k < i ==> !alike(#[trigger] list[k], list[i])
}

/// An issue does not lie after another in the source.
pub open spec fn not_after(a: CompactView, b: CompactView) -> bool {
    a.line < b.line || (a.line == b.line && a.col <= b.col)
}

/// Places one more group into the order of groups: behind all that do not lie
/// after it.
pub open spec fn placed(list: Seq<CompactView>, order: Seq<int>, i: int) -> Seq<int>
    decreases order.len(),
{
    if order.len() == 0 || not_after(list[order.last()], list[i]) {
        order.push(i)
    } else {
        placed(list, order.drop_last(), i).push(order.last())
    }
}

/// The first issues of the groups among the first `n` issues, in source order.
pub open spec fn group_order(list: Seq<CompactView>, n: int) -> Seq<int>
    decreases n,
{
    if n <= 0 {
        seq![]
    } else if leads(list, n - 1) {
        placed(list, group_order(list, n - 1), n - 1)
    } else {
        group_order(list, n - 1)
    }
}

/// A location for display.
pub open spec fn location_text(line: usize, col: usize) -> Seq<char> {
    dec(line as nat) + ":"@ + dec(col as nat)
}

/// The locations of the issues after `i`, among the first `n`, that belong to
/// its group.
pub open spec fn other_locations(list: Seq<CompactView>, i: int, n: int) -> Seq<Seq<char>>
    decreases n,
{
    if i < 0 || n <= i + 1 {
        seq![]
    } else if alike(list[i], list[n - 1]) {
        other_locations(list, i, n - 1).push(location_text(list[n - 1].line, list[n - 1].col))
    } else {
        other_locations(list, i, n - 1)
    }
}

/// The first suggestion, and how many there are besides.
pub open spec fn short_suggestions(s: Seq<char>) -> Seq<char> {
    let parts = pieces(s, '|');
    if parts.len() <= 1 {
        parts[0]
    } else {
        parts[0] + "+"@ + dec((parts.len() - 1) as nat)
    }
}

/// What is said of a group's other locations.
pub open spec fn elsewhere(others: Seq<Seq<char>>) -> Seq<char> {
    if others.len() == 0 {
        ""@
    } else {
        " (\u{d7}"@ + dec((others.len() + 1) as nat) + " also at "@ + joined(others, ","@) + ")"@
    }
}

/// The explanation at the end of a compact line. A context stays on one line.
pub open spec fn compact_explanation(i: CompactView, explain: bool) -> Seq<char> {
    let context = match i.context {
        Some(text) if explain => " ["@ + replaced(text, '\n', ' ') + "]"@,
        _ => ""@,
    };
    let english = match i.english {
        Some(text) if explain => " ("@ + text + ")"@,
        _ => ""@,
    };
    context + english
}

/// The line of the group whose first issue is at `i`.
pub open spec fn compact_line(prefix: Seq<char>, list: Seq<CompactView>, i: int, explain: bool)
    -> Seq<char> {
    prefix + location_text(list[i].line, list[i].col) + ":"@ + list[i].severity + ":"@
        + list[i].rule + ":"@ + list[i].found + "\u{2192}"@ + short_suggestions(
        list[i].suggestions,
    ) + elsewhere(other_locations(list, i, list.len() as int)) + compact_explanation(
        list[i],
        explain,
    )
}

/// The compact report: one line per group, in source order.
pub open spec fn compact_lines(prefix: Seq<char>, list: Seq<CompactView>, explain: bool) -> Seq<
    Seq<char>,
> {
    group_order(list, list.len() as int).map_values(
        |i: int| compact_line(prefix, list, i, explain),
    )
}

fn location(line: usize, col: usize) -> (r: String)
    ensures
        r@ == location_text(line, col),
{
    append3(decimal(line).as_str(), ":", decimal(col).as_str())
}

fn is_leader(list: &Vec<CompactIssue>, i: usize) -> (r: bool)
    requires
        i < list.len(),
    ensures
        r == leads(compact_view(list@), i as int),
{
    let mut k: usize = 0;
    while k < i
        invariant
            k <= i < list.len(),
            forall|j: int|
                0 <= j < k ==> !alike(
                    #[trigger] compact_view(list@)[j],
                    compact_view(list@)[i as int],
                ),
        decreases i - k,
    {
        if are_alike(&list[k], &list[i]) {
            assert(alike(compact_view(list@)[k as int], compact_view(list@)[i as int]));
            return false;
        }
        k += 1;
    }
    true
}

/// The positions of a list of indices.
pub open spec fn as_ints(list: Seq<usize>) -> Seq<int> {
    list.map_values(|i: usize| i as int)
}

fn place(list: &Vec<CompactIssue>, order: Vec<usize>, i: usize) -> (r: Vec<usize>)
    requires
        i < list.len(),
        forall|k: int| 0 <= k < order.len() ==> #[trigger] order@[k] < list.len(),
    ensures
        as_ints(r@) == placed(compact_view(list@), as_ints(order@), i as int),
        forall|k: int| 0 <= k < r.len() ==> #[trigger] r@[k] < list.len(),
{
    let ghost all = compact_view(list@);
    let ghost before = as_ints(order@);
    let mut order = order;
    let mut p: usize = order.len();
    assert(before.take(p as int) =~= before);
    assert(before.skip(p as int) =~= seq![]);
    assert(placed(all, before.take(p as int), i as int) + before.skip(p as int) =~= placed(
        all,
        before,
        i as int,
    ));
    while p > 0 && !(list[order[p - 1]].line < list[i].line || (list[order[p - 1]].line
        == list[i].line && list[order[p - 1]].col <= list[i].col))
        invariant
            p <= order.len(),
            i < list.len(),
            all == compact_view(list@),
            before == as_ints(order@),
            forall|k: int| 0 <= k < order.len() ==> #[trigger] order@[k] < list.len(),
            placed(all, before.take(p as int), i as int) + before.skip(p as int) == placed(
                all,
                before,
                i as int,
            ),
        decreases p,
    {
        let ghost head = before.take(p as int);
        assert(head.last() == before[p - 1]);
        assert(head.drop_last() =~= before.take(p - 1));
        assert(placed(all, head, i as int) == placed(all, before.take(p - 1), i as int).push(
            before[p - 1],
        ));
        assert(placed(all, before.take(p - 1), i as int) + before.skip(p - 1) =~= placed(
            all,
            head,
            i as int,
        ) + before.skip(p as int));
        p -= 1;
    }
    assert(p > 0 ==> before.take(p as int).last() == order@[p - 1] as int);
    assert(placed(all, before.take(p as int), i as int) == before.take(p as int).push(i as int));
    let ghost old_order = order@;
    order.insert(p, i);
    assert(as_ints(order@) =~= before.take(p as int).push(i as int) + before.skip(p as int));
    assert forall|k: int| 0 <= k < order.len() implies #[trigger] order@[k] < list.len() by {
        if k < p {
            assert(order@[k] == old_order[k]);
        } else if k > p {
            assert(order@[k] == old_order[k - 1]);
        }
    }
    order
}

fn order_of_groups(list: &Vec<CompactIssue>) -> (r: Vec<usize>)
    ensures
        as_ints(r@) == group_order(compact_view(list@), list.len() as int),
        forall|k: int| 0 <= k < r.len() ==> #[trigger] r@[k] < list.len(),
{
    let mut order: Vec<usize> = Vec::new();
    assert(as_ints(order@) =~= seq![]);
    let mut n: usize = 0;
    while n < list.len()
        invariant
            n <= list.len(),
            as_ints(order@) == group_order(compact_view(list@), n as int),
            forall|k: int| 0 <= k < order.len() ==> #[trigger] order@[k] < list.len(),
        decreases list.len() - n,
    {
        if is_leader(list, n) {
            order = place(list, order, n);
        }
        n += 1;
    }
    order
}

fn locations_after(list: &Vec<CompactIssue>, i: usize) -> (r: Vec<String>)
    requires
        i < list.len(),
    ensures
        texts(r@) == other_locations(compact_view(list@), i as int, list.len() as int),
{
    let mut out: Vec<String> = Vec::new();
    assert(texts(out@) =~= seq![]);
    let mut n: usize = i + 1;
    while n < list.len()
        invariant
            i < n <= list.len(),
            texts(out@) == other_locations(compact_view(list@), i as int, n as int),
        decreases list.len() - n,
    {
        if are_alike(&list[i], &list[n]) {
            out = pushed(out, location(list[n].line, list[n].col));
        }
        n += 1;
    }
    out
}

fn short_suggestions_of(s: &str) -> (r: String)
    ensures
        r@ == short_suggestions(s@),
{
    let parts = split(s, '|');
    assert(texts(parts@)[0] == parts@[0]@);
    assert(texts(parts@).len() == parts.len());
    if parts.len() <= 1 {
        parts[0].clone()
    } else {
        append3(parts[0].as_str(), "+", decimal(parts.len() - 1).as_str())
    }
}

fn elsewhere_of(others: &Vec<String>) -> (r: String)
    requires
        others.len() < usize::MAX,
    ensures
        r@ == elsewhere(texts(others@)),
{
    assert(texts(others@).len() == others.len());
    if others.len() == 0 {
        return string_from("");
    }
    let mut s = " (\u{d7}".to_owned();
    s.append(decimal(others.len() + 1).as_str());
    s.append(" also at ");
    s.append(join(others, ",").as_str());
    s.append(")");
    s
}

fn compact_explanation_of(i: &CompactIssue, explain: bool) -> (r: String)
    ensures
        r@ == compact_explanation(i@, explain),
{
    let context = match &i.context {
        Some(text) => if explain {
            append3(" [", replace_char(text.as_str(), '\n', ' ').as_str(), "]")
        } else {
            string_from("")
        },
        None => string_from(""),
    };
    let english = match &i.english {
        Some(text) => if explain {
            append3(" (", text.as_str(), ")")
        } else {
            string_from("")
        },
        None => string_from(""),
    };
    append2(context.as_str(), english.as_str())
}

fn compact_line_of(prefix: &str, list: &Vec<CompactIssue>, i: usize, explain: bool) -> (r: String)
    requires
        i < list.len(),
    ensures
        r@ == compact_line(prefix@, compact_view(list@), i as int, explain),
{
    let others = locations_after(list, i);
    proof {
        lemma_other_locations_len(compact_view(list@), i as int, list.len() as int);
        assert(texts(others@).len() == others.len());
    }
    let mut s = prefix.to_owned();
    s.append(location(list[i].line, list[i].col).as_str());
    s.append(":");
    s.append(list[i].severity.as_str());
    s.append(":");
    s.append(list[i].rule.as_str());
    s.append(":");
    s.append(list[i].found.as_str());
    s.append("\u{2192}");
    s.append(short_suggestions_of(list[i].suggestions.as_str()).as_str());
    s.append(elsewhere_of(&others).as_str());
    s.append(compact_explanation_of(&list[i], explain).as_str());
    s
}

proof fn lemma_other_locations_len(list: Seq<CompactView>, i: int, n: int)
    requires
        0 <= i < n,
    ensures
        other_locations(list, i, n).len() <= n - 1 - i,
    decreases n,
{
    if n > i + 1 {
        lemma_other_locations_len(list, i, n - 1);
    }
}

/// One file's lines in compact format.
pub fn render_compact(prefix: &str, list: &Vec<CompactIssue>, explain: bool) -> (r: Vec<String>)
    ensures
        texts(r@) == compact_lines(prefix@, compact_view(list@), explain),
{
    let ghost all = compact_view(list@);
    let order = order_of_groups(list);
    let mut out: Vec<String> = Vec::new();
    let mut k: usize = 0;
    while k < order.len()
        invariant
            k <= order.len(),
            all == compact_view(list@),
            out.len() == k,
            forall|j: int| 0 <= j < order.len() ==> #[trigger] order@[j] < list.len(),
            forall|j: int|
                0 <= j < k ==> (#[trigger] out@[j])@ == compact_line(
                    prefix@,
                    all,
                    order@[j] as int,
                    explain,
                ),
        decreases order.len() - k,
    {
        let i: usize = order[k];
        out.push(compact_line_of(prefix, list, i, explain));
        k += 1;
    }
    assert(texts(out@) =~= compact_lines(prefix@, all, explain)) by {
        assert(as_ints(order@) == group_order(all, all.len() as int));
        assert forall|j: int| 0 <= j < out.len() implies #[trigger] texts(out@)[j]
            == compact_lines(prefix@, all, explain)[j] by {
            assert(out@[j]@ == compact_line(prefix@, all, order@[j] as int, explain));
            assert(as_ints(order@)[j] == order@[j] as int);
        }
    }
    out
}

/// Groups come out in source order.
pub open spec fn in_source_order(list: Seq<CompactView>, order: Seq<int>) -> bool {
    forall|a: int, b: int|
        0 <= a < b < order.len() ==> not_after(
            list[#[trigger] order[a]],
            list[#[trigger] order[b]],
        )
}

proof fn lemma_placed(list: Seq<CompactView>, order: Seq<int>, i: int)
    requires
        in_source_order(list, order),
    ensures
        in_source_order(list, placed(list, order, i)),
        forall|x: int| #[trigger]
            placed(list, order, i).contains(x) <==> order.contains(x) || x == i,
        placed(list, order, i).len() == order.len() + 1,
    decreases order.len(),
{
    let after = placed(list, order, i);
    if order.len() == 0 || not_after(list[order.last()], list[i]) {
        assert forall|a: int, b: int| 0 <= a < b < after.len() implies not_after(
            list[#[trigger] after[a]],
            list[#[trigger] after[b]],
        ) by {
            assert(after[a] == order[a]);
            if b == order.len() {
                if a < order.len() - 1 {
                    assert(not_after(list[order[a]], list[order[order.len() - 1]]));
                }
            } else {
                assert(after[b] == order[b]);
            }
        }
        assert forall|x: int| #[trigger] after.contains(x) <==> order.contains(x) || x == i by {
            if order.contains(x) {
                let k = choose|k: int| 0 <= k < order.len() && order[k] == x;
                assert(after[k] == x);
            }
            if x == i {
                assert(after[order.len() as int] == x);
            }
            if after.contains(x) {
                let k = choose|k: int| 0 <= k < after.len() && after[k] == x;
                if k < order.len() {
                    assert(order[k] == x);
                }
            }
        }
    } else {
        let front = order.drop_last();
        assert forall|a: int, b: int| 0 <= a < b < front.len() implies not_after(
            list[#[trigger] front[a]],
            list[#[trigger] front[b]],
        ) by {
            assert(front[a] == order[a] && front[b] == order[b]);
        }
        lemma_placed(list, front, i);
        let inner = placed(list, front, i);
        assert forall|a: int, b: int| 0 <= a < b < after.len() implies not_after(
            list[#[trigger] after[a]],
            list[#[trigger] after[b]],
        ) by {
            if b < inner.len() {
                assert(after[a] == inner[a] && after[b] == inner[b]);
            } else {
                assert(after[a] == inner[a]);
                assert(inner.contains(inner[a]));
                assert(after[b] == order.last());
                if inner[a] != i {
                    let k = choose|k: int| 0 <= k < front.len() && front[k] == inner[a];
                    assert(order[k] == inner[a]);
                    assert(not_after(list[order[k]], list[order[order.len() - 1]]));
                }
            }
        }
        assert forall|x: int| #[trigger] after.contains(x) <==> order.contains(x) || x == i by {
            if order.contains(x) {
                let k = choose|k: int| 0 <= k < order.len() && order[k] == x;
                if k < front.len() {
                    assert(front[k] == x);
                    assert(inner.contains(x));
                    let m = choose|m: int| 0 <= m < inner.len() && inner[m] == x;
                    assert(after[m] == x);
                } else {
                    assert(after[inner.len() as int] == x);
                }
            }
            if x == i {
                assert(inner.contains(x));
                let m = choose|m: int| 0 <= m < inner.len() && inner[m] == x;
                assert(after[m] == x);
            }
            if after.contains(x) {
                let m = choose|m: int| 0 <= m < after.len() && after[m] == x;
                if m < inner.len() {
                    assert(inner[m] == x);
                    assert(inner.contains(x));
                    if x != i {
                        let k = choose|k: int| 0 <= k < front.len() && front[k] == x;
                        assert(order[k] == x);
                    }
                } else {
                    assert(order[order.len() - 1] == x);
                }
            }
        }
    }
}

proof fn lemma_group_order(list: Seq<CompactView>, n: int)
    requires
        0 <= n <= list.len(),
    ensures
        in_source_order(list, group_order(list, n)),
        forall|i: int| #[trigger]
            group_order(list, n).contains(i) <==> 0 <= i < n && leads(list, i),
    decreases n,
{
    if n > 0 {
        lemma_group_order(list, n - 1);
        if leads(list, n - 1) {
            lemma_placed(list, group_order(list, n - 1), n - 1);
        }
    }
}

proof fn lemma_some_leader(list: Seq<CompactView>, i: int)
    requires
        0 <= i < list.len(),
    ensures
        exists|k: int| 0 <= k <= i && #[trigger] leads(list, k) && alike(list[k], list[i]),
    decreases i,
{
    if leads(list, i) {
        assert(leads(list, i) && alike(list[i], list[i]));
    } else {
        let j = choose|j: int| 0 <= j < i && alike(#[trigger] list[j], list[i]);
        lemma_some_leader(list, j);
        let k = choose|k: int| 0 <= k <= j && #[trigger] leads(list, k) && alike(list[k], list[j]);
        assert(leads(list, k) && alike(list[k], list[i]));
    }
}

/// The compact report leaves no issue out and repeats none: its lines are in
/// source order, every issue belongs to a group that has one, and no two lines
/// are for one group.
pub proof fn law_compact_report_covers_every_issue(list: Seq<CompactView>)
    ensures
        ({
            let order = group_order(list, list.len() as int);
            &&& in_source_order(list, order)
            &&& forall|i: int|
                0 <= i < list.len() ==> exists|k: int| #[trigger]
                    order.contains(k) && alike(list[k], #[trigger] list[i])
            &&& forall|a: int, b: int|
                #![trigger order.contains(a), order.contains(b)]
                order.contains(a) && order.contains(b) && alike(list[a], list[b]) ==> a == b
        }),
{
    let order = group_order(list, list.len() as int);
    lemma_group_order(list, list.len() as int);
    assert forall|i: int| 0 <= i < list.len() implies exists|k: int| #[trigger]
        order.contains(k) && alike(list[k], #[trigger] list[i]) by {
        lemma_some_leader(list, i);
        let k = choose|k: int| 0 <= k <= i && #[trigger] leads(list, k) && alike(list[k], list[i]);
        assert(order.contains(k));
    }
    assert forall|a: int, b: int|
        #![trigger order.contains(a), order.contains(b)]
        order.contains(a) && order.contains(b) && alike(list[a], list[b]) implies a == b by {
        if a < b {
            assert(leads(list, b));
            assert(!alike(list[a], list[b]));
        } else if b < a {
            assert(leads(list, a));
            assert(!alike(list[b], list[a]));
        }
    }
}

// The table.

/// One group of issues in the table. Texts are escaped for a table cell.
#[derive(Debug)]
pub struct TabularRow {
    pub found: String,
    pub suggestions: Vec<String>,
    /// Whether what is suggested is to delete the term.
    pub deletes: bool,
    pub rule: String,
    pub severity: String,
    pub count: usize,
    pub locations: String,
    pub explanation: Option<String>,
}

/// What a `TabularRow` holds.
pub ghost struct RowView {
    pub found: Seq<char>,
    pub suggestions: Seq<Seq<char>>,
    pub deletes: bool,
    pub rule: Seq<char>,
    pub severity: Seq<char>,
    pub count: usize,
    pub locations: Seq<char>,
    pub explanation: Option<Seq<char>>,
}

impl View for TabularRow {
    type V = RowView;

    open spec fn view(&self) -> RowView {
        RowView {
            found: self.found@,
            suggestions: texts(self.suggestions@),
            deletes: self.deletes,
            rule: self.rule@,
            severity: self.severity@,
            count: self.count,
            locations: self.locations@,
            explanation: opt_text(self.explanation),
        }
    }
}

/// What each row of a table holds.
pub open spec fn rows_view(rows: Seq<TabularRow>) -> Seq<RowView> {
    Seq::new(rows.len(), |i: int| rows[i]@)
}

/// A list of locations, each with the file's prefix.
pub open spec fn prefixed_locations(prefix: Seq<char>, locs: Seq<(usize, usize)>) -> Seq<
    Seq<char>,
> {
    locs.map_values(|l: (usize, usize)| prefix + location_text(l.0, l.1))
}

/// The locations of a group: in the short form for standard input, and each
/// with its file otherwise, so that a consumer can take them apart.
pub fn location_cell(prefix: &str, locs: &Vec<(usize, usize)>, short_form: String) -> (r: String)
    ensures
        r@ == if prefix@.len() == 0 {
            short_form@
        } else {
            joined(prefixed_locations(prefix@, locs@), ","@)
        },
{
    if prefix.unicode_len() == 0 {
        return short_form;
    }
    let mut parts: Vec<String> = Vec::new();
    let mut i: usize = 0;
    while i < locs.len()
        invariant
            i <= locs.len(),
            parts.len() == i,
            forall|k: int|
                0 <= k < i ==> (#[trigger] parts@[k])@ == prefix@ + location_text(
                    locs@[k].0,
                    locs@[k].1,
                ),
        decreases locs.len() - i,
    {
        let l = locs[i];
        parts.push(append2(prefix, location(l.0, l.1).as_str()));
        i += 1;
    }
    assert(texts(parts@) =~= prefixed_locations(prefix@, locs@));
    join(&parts, ",")
}

/// The table's header.
pub open spec fn header_text(explain: bool) -> Seq<char> {
    if explain {
        "found\tsug\ttype\tsev\tn\tloc\texpl"@
    } else {
        "found\tsug\ttype\tsev\tn\tloc"@
    }
}

/// One row of the table as a line. The last column is there, if empty, wherever
/// explanations were asked for.
pub open spec fn row_line(r: RowView, explain: bool) -> Seq<char> {
    r.found + "\t"@ + (if r.deletes {
        "(delete)"@
    } else {
        joined(r.suggestions, ","@)
    }) + "\t"@ + r.rule + "\t"@ + r.severity + "\t"@ + dec(r.count as nat) + "\t"@ + r.locations + (
    if explain {
        "\t"@ + match r.explanation {
            Some(text) => text,
            None => ""@,
        }
    } else {
        ""@
    })
}

/// One file's part of the table: nothing without issues, and the header where
/// it was not printed before.
pub open spec fn table_lines(rows: Seq<RowView>, explain: bool, header_printed: bool) -> Seq<
    Seq<char>,
> {
    let body = rows.map_values(|r: RowView| row_line(r, explain));
    if rows.len() == 0 {
        seq![]
    } else if header_printed {
        body
    } else {
        seq![header_text(explain)] + body
    }
}

fn row_line_of(r: &TabularRow, explain: bool) -> (line: String)
    ensures
        line@ == row_line(r@, explain),
{
    let suggestions = if r.deletes {
        string_from("(delete)")
    } else {
        join(&r.suggestions, ",")
    };
    let explanation = if explain {
        match &r.explanation {
            Some(text) => append2("\t", text.as_str()),
            None => append2("\t", ""),
        }
    } else {
        string_from("")
    };
    let mut s = r.found.clone();
    s.append("\t");
    s.append(suggestions.as_str());
    s.append("\t");
    s.append(r.rule.as_str());
    s.append("\t");
    s.append(r.severity.as_str());
    s.append("\t");
    s.append(decimal(r.count).as_str());
    s.append("\t");
    s.append(r.locations.as_str());
    s.append(explanation.as_str());
    s
}

/// One file's part of the table. `header_printed` is shared across files, so
/// that the header appears once per run.
pub fn render_tabular(rows: &Vec<TabularRow>, explain: bool, header_printed: &mut bool) -> (r: Vec<
    String,
>)
    ensures
        texts(r@) == table_lines(rows_view(rows@), explain, *old(header_printed)),
        *final(header_printed) == (*old(header_printed) || rows.len() > 0),
{
    let mut out: Vec<String> = Vec::new();
    assert(texts(out@) =~= seq![]);
    if rows.len() == 0 {
        return out;
    }
    let ghost printed = *header_printed;
    if !*header_printed {
        out = pushed(
            out,
            if explain {
                string_from("found\tsug\ttype\tsev\tn\tloc\texpl")
            } else {
                string_from("found\tsug\ttype\tsev\tn\tloc")
            },
        );
        *header_printed = true;
    }
    let ghost head = texts(out@);
    let ghost all = rows_view(rows@);
    let mut i: usize = 0;
    assert(head + all.take(0).map_values(|r: RowView| row_line(r, explain)) =~= head);
    while i < rows.len()
        invariant
            i <= rows.len(),
            all == rows_view(rows@),
            texts(out@) == head + all.take(i as int).map_values(
                |r: RowView| row_line(r, explain),
            ),
        decreases rows.len() - i,
    {
        out = pushed(out, row_line_of(&rows[i], explain));
        assert(texts(out@) =~= head + all.take(i + 1).map_values(
            |r: RowView| row_line(r, explain),
        )) by {
            assert(all.take(i + 1) =~= all.take(i as int).push(all[i as int]));
        }
        i += 1;
    }
    assert(all.take(i as int) =~= all);
    assert(texts(out@) =~= table_lines(all, explain, printed));
    out
}

/// The header appears once per run: after a file with issues, no other file
/// repeats it.
pub proof fn law_the_header_appears_once(
    first: Seq<RowView>,
    second: Seq<RowView>,
    explain: bool,
    header_printed: bool,
)
    requires
        first.len() > 0,
    ensures
        table_lines(first, explain, header_printed) + table_lines(
            second,
            explain,
            header_printed || first.len() > 0,
        ) == table_lines(first + second, explain, header_printed),
{
    let line = |r: RowView| row_line(r, explain);
    assert((first + second).map_values(line) =~= first.map_values(line) + second.map_values(line));
    assert(second.len() == 0 ==> second.map_values(line) =~= seq![]);
    assert(table_lines(second, explain, true) =~= second.map_values(line));
    assert(table_lines(first, explain, header_printed) + second.map_values(line) =~= table_lines(
        first + second,
        explain,
        header_printed,
    ));
}

// SARIF.

/// One SARIF result.
#[derive(Debug)]
pub struct SarifResult {
    pub rule_id: String,
    pub level: &'static str,
    pub message: String,
    pub uri: String,
    pub start_line: usize,
    pub start_column: usize,
    pub byte_offset: usize,
    pub byte_length: usize,
}

/// What a `SarifResult` holds.
pub ghost struct SarifView {
    pub rule_id: Seq<char>,
    pub level: Seq<char>,
    pub message: Seq<char>,
    pub uri: Seq<char>,
    pub start_line: usize,
    pub start_column: usize,
    pub byte_offset: usize,
    pub byte_length: usize,
}

impl View for SarifResult {
    type V = SarifView;

    open spec fn view(&self) -> SarifView {
        SarifView {
            rule_id: self.rule_id@,
            level: self.level@,
            message: self.message@,
            uri: self.uri@,
            start_line: self.start_line,
            start_column: self.start_column,
            byte_offset: self.byte_offset,
            byte_length: self.byte_length,
        }
    }
}

/// A severity in SARIF's words.
pub open spec fn sarif_level(s: Severity) -> Seq<char> {
    match s {
        Severity::Error => "error"@,
        Severity::Warning => "warning"@,
        Severity::Info => "note"@,
    }
}

/// The id of a rule.
pub open spec fn sarif_rule_id(rule: Seq<char>) -> Seq<char> {
    "zhtw-mcp/"@ + rule
}

/// One issue of a file as a SARIF result.
pub open spec fn sarif_result(uri: Seq<char>, i: IssueView) -> SarifView {
    SarifView {
        rule_id: sarif_rule_id(i.rule_type),
        level: sarif_level(i.severity),
        message: "'"@ + i.found + "' -> "@ + suggestions_text(i),
        uri,
        start_line: i.line,
        start_column: i.col,
        byte_offset: i.offset,
        byte_length: i.length,
    }
}

/// A rule's definition.
#[derive(Debug)]
pub struct SarifRule {
    pub id: String,
    pub short_description: String,
}

/// What a whole run collects for its SARIF document.
#[derive(Debug)]
pub struct SarifLog {
    rules: Vec<String>,
    results: Vec<SarifResult>,
}

/// What a `SarifLog` holds.
pub ghost struct SarifLogView {
    /// The types of the rules that found something, in order.
    pub rules: Seq<Seq<char>>,
    pub results: Seq<SarifView>,
}

impl View for SarifLog {
    type V = SarifLogView;

    closed spec fn view(&self) -> SarifLogView {
        SarifLogView {
            rules: texts(self.rules@),
            results: Seq::new(self.results@.len(), |i: int| self.results@[i]@),
        }
    }
}

/// The rule types of a list of issues.
pub open spec fn rule_types(issues: Seq<IssueView>) -> Set<Seq<char>> {
    issues.map_values(|i: IssueView| i.rule_type).to_set()
}

fn sarif_level_of(s: Severity) -> (r: &'static str)
    ensures
        r@ == sarif_level(s),
{
    match s {
        Severity::Error => "error",
        Severity::Warning => "warning",
        Severity::Info => "note",
    }
}

fn sarif_result_of(uri: &str, i: &Issue) -> (r: SarifResult)
    ensures
        r@ == sarif_result(uri@, i@),
{
    let mut message = "'".to_owned();
    message.append(i.found.as_str());
    message.append("' -> ");
    message.append(format_suggestions(i).as_str());
    SarifResult {
        rule_id: append2("zhtw-mcp/", i.rule_type.as_str()),
        level: sarif_level_of(i.severity),
        message,
        uri: string_from(uri),
        start_line: i.line,
        start_column: i.col,
        byte_offset: i.offset,
        byte_length: i.length,
    }
}

impl SarifLog {
    /// The rules are in order, each once.
    pub closed spec fn wf(&self) -> bool {
        in_order(texts(self.rules@))
    }

    /// A log without results.
    pub fn new() -> (r: Self)
        ensures
            r.wf(),
            r@ == (SarifLogView { rules: seq![], results: seq![] }),
    {
        let r = SarifLog { rules: Vec::new(), results: Vec::new() };
        assert(r@.rules =~= seq![]);
        assert(r@.results =~= seq![]);
        r
    }

    /// The results so far.
    pub fn results(&self) -> (r: &Vec<SarifResult>)
        ensures
            Seq::new(r@.len(), |i: int| r@[i]@) == self@.results,
    {
        &self.results
    }

    /// The definitions of the rules that found something, ordered by id.
    pub fn rules(&self) -> (r: Vec<SarifRule>)
        ensures
            r.len() == self@.rules.len(),
            forall|i: int|
                0 <= i < r.len() ==> (#[trigger] r@[i]).id@ == sarif_rule_id(self@.rules[i])
                    && r@[i].short_description@ == self@.rules[i] + " check"@,
    {
        let mut out: Vec<SarifRule> = Vec::new();
        let mut i: usize = 0;
        while i < self.rules.len()
            invariant
                i <= self.rules.len(),
                out.len() == i,
                forall|k: int|
                    0 <= k < i ==> (#[trigger] out@[k]).id@ == sarif_rule_id(self@.rules[k])
                        && out@[k].short_description@ == self@.rules[k] + " check"@,
            decreases self.rules.len() - i,
        {
            let name = self.rules[i].as_str();
            assert(self@.rules[i as int] == name@);
            out.push(
                SarifRule {
                    id: append2("zhtw-mcp/", name),
                    short_description: append2(name, " check"),
                },
            );
            i += 1;
        }
        out
    }

    /// Adds one file's results to the run's.
    pub fn collect_sarif(&mut self, r: &FileReport)
        requires
            old(self).wf(),
        ensures
            final(self).wf(),
            final(self)@.results == old(self)@.results + r@.issues.map_values(
                |i: IssueView| sarif_result(r@.file_arg, i),
            ),
            in_order(final(self)@.rules),
            final(self)@.rules.to_set() == old(self)@.rules.to_set().union(
                rule_types(r@.issues),
            ),
    {
        let ghost before = self@;
        let ghost all = r@.issues;
        let ghost uri = r@.file_arg;
        let mut rules: Vec<String> = Vec::new();
        std::mem::swap(&mut rules, &mut self.rules);
        let mut i: usize = 0;
        assert(all.take(0).map_values(|i: IssueView| sarif_result(uri, i)) =~= seq![]);
        assert(before.results + Seq::<SarifView>::empty() =~= before.results);
        assert(rule_types(all.take(0)) =~= Set::empty());
        assert(before.rules.to_set().union(Set::empty()) =~= before.rules.to_set());
        while i < r.issues.len()
            invariant
                i <= r.issues.len(),
                all == issues_view(r.issues@),
                uri == r.file_arg@,
                in_order(texts(rules@)),
                self@.results == before.results + all.take(i as int).map_values(
                    |i: IssueView| sarif_result(uri, i),
                ),
                texts(rules@).to_set() == before.rules.to_set().union(
                    rule_types(all.take(i as int)),
                ),
            decreases r.issues.len() - i,
        {
            let ghost results = self@.results;
            rules = insert_in_order(rules, r.issues[i].rule_type.clone());
            self.results.push(sarif_result_of(r.file_arg.as_str(), &r.issues[i]));
            proof {
                let next = all.take(i + 1);
                assert(next =~= all.take(i as int).push(all[i as int]));
                assert(self@.results =~= results.push(sarif_result(uri, all[i as int])));
                assert(next.map_values(|i: IssueView| sarif_result(uri, i)) =~= all.take(
                    i as int,
                ).map_values(|i: IssueView| sarif_result(uri, i)).push(
                    sarif_result(uri, all[i as int]),
                ));
                lemma_rule_types_push(all.take(i as int), all[i as int]);
                assert(before.rules.to_set().union(rule_types(all.take(i as int))).insert(
                    all[i as int].rule_type,
                ) =~= before.rules.to_set().union(rule_types(next)));
            }
            i += 1;
        }
        assert(all.take(i as int) =~= all);
        self.rules = rules;
    }
}

proof fn lemma_rule_types_push(issues: Seq<IssueView>, i: IssueView)
    ensures
        rule_types(issues.push(i)) == rule_types(issues).insert(i.rule_type),
{
    let f = |i: IssueView| i.rule_type;
    let a = issues.map_values(f);
    let b = issues.push(i).map_values(f);
    assert(b =~= a.push(i.rule_type));
    assert forall|x: Seq<char>| a.to_set().insert(i.rule_type).contains(x) implies
        #[trigger] b.to_set().contains(x) by {
        if x == i.rule_type {
            assert(b[a.len() as int] == x);
        } else {
            let k = choose|k: int| 0 <= k < a.len() && a[k] == x;
            assert(b[k] == x);
        }
    }
    assert forall|x: Seq<char>| #[trigger] b.to_set().contains(x) implies a.to_set().insert(
        i.rule_type,
    ).contains(x) by {
        let k = choose|k: int| 0 <= k < b.len() && b[k] == x;
        if k < a.len() {
            assert(a[k] == x);
        }
    }
    assert(b.to_set() =~= a.to_set().insert(i.rule_type));
}

/// A line is headed by the file, relative to the current directory where it lies
/// below it; standard input has no heading.
pub proof fn law_what_heads_a_line(file: Seq<char>, relative: Option<Seq<char>>)
    ensures
        file == "--"@ ==> path_prefix(file, relative).len() == 0,
        file != "--"@ && relative is Some ==> path_prefix(file, relative) == relative->Some_0
            + ":"@,
        file != "--"@ && relative is None ==> path_prefix(file, relative) == file + ":"@,
{
    reveal_strlit("");
}

/// What is suggested is every replacement, or that the term be deleted.
pub proof fn law_what_is_suggested(i: IssueView)
    ensures
        i.deletes ==> suggestions_text(i) == "(delete)"@,
        !i.deletes ==> suggestions_text(i) == joined(i.suggestions, ", "@),
{
}

/// The machine-readable report carries all that the file's report says: every
/// issue with the counts, the fixes, the signatures, and the reports that were
/// asked for and found something.
pub proof fn law_what_the_json_report_carries(
    r: ReportView,
    plan: LintPlanView,
    scorecard: Option<Seq<char>>,
    consistency: Option<ConsistencyReport>,
)
    requires
        r.issues.len() <= usize::MAX,
    ensures
        ({
            let o = json_output(r, plan, scorecard, consistency);
            &&& o.file == r.file_arg && o.detected_script == r.detected_script
            &&& o.issues == r.issues
            &&& o.total == r.issues.len()
            &&& o.errors == r.error_count && o.warnings == r.warning_count
            &&& o.tm_suppressed is Some <==> r.tm_suppressed > 0
            &&& o.tm_suppressed is Some ==> o.tm_suppressed->Some_0 == r.tm_suppressed
            &&& o.fixes_applied == r.fixes_applied && o.fixes_skipped == r.fixes_skipped
                && o.fixes_declined == r.fixes_declined
            &&& o.ai_signature == r.ai_signature
            &&& o.translationese_signature == r.translationese_signature
            &&& plan.detect_style ==> o.style_scorecard == scorecard
            &&& !plan.detect_style ==> o.style_scorecard is None
            &&& o.consistency is Some <==> plan.consistency && consistency is Some
                && !consistency->Some_0.empty
            &&& o.consistency is Some ==> o.consistency->Some_0 == consistency->Some_0.text@
        }),
{
}

/// The human report says of a clean file that it is clean. Of any other it has
/// the lines of every issue, in order, and then their number; a batch of several
/// files heads each line with its file.
pub proof fn law_the_human_report(r: ReportView, explain: bool, c: Colors)
    ensures
        ({
            let lines = human_lines(r, explain, c);
            let prefix = human_prefix(r.file_arg, r.multi, c);
            &&& r.multi ==> prefix == c.bold@ + r.file_arg + c.reset@ + ":"@
            &&& !r.multi ==> prefix.len() == 0
            &&& r.issues.len() == 0 ==> lines == seq![
                prefix + c.dim@ + "No issues found."@ + c.reset@,
            ]
            &&& r.issues.len() > 0 ==> lines.last() == "\n"@ + prefix + c.bold@ + dec(
                r.issues.len(),
            ) + " issue(s) found."@ + c.reset@
            &&& r.issues.len() > 0 ==> lines.drop_last() == all_issue_lines(
                prefix,
                r.issues,
                explain,
                c,
            )
        }),
{
    reveal_strlit("");
    let prefix = human_prefix(r.file_arg, r.multi, c);
    if r.issues.len() > 0 {
        assert(human_lines(r, explain, c).drop_last() =~= all_issue_lines(
            prefix,
            r.issues,
            explain,
            c,
        ));
    }
}

/// Each issue adds its own lines after those of the issues before it: one that
/// says what and where it is, and with explanations one for its context and one
/// for its English term, where it has them.
pub proof fn law_the_lines_of_an_issue(
    prefix: Seq<char>,
    issues: Seq<IssueView>,
    i: IssueView,
    explain: bool,
    c: Colors,
)
    ensures
        all_issue_lines(prefix, seq![], explain, c).len() == 0,
        all_issue_lines(prefix, issues.push(i), explain, c) == all_issue_lines(
            prefix,
            issues,
            explain,
            c,
        ) + issue_lines(prefix, i, explain, c),
        ({
            let lines = issue_lines(prefix, i, explain, c);
            let details = |label: Seq<char>, text: Seq<char>|
                "  "@ + c.dim@ + label + c.reset@ + " "@ + text;
            let n = 1 + (if explain && i.context is Some { 1int } else { 0 }) + (if explain
                && i.english is Some { 1int } else { 0 });
            &&& lines.len() == n
            &&& lines[0] == issue_line(prefix, i, c)
            &&& explain && i.context is Some ==> lines[1] == details(
                "context:"@,
                i.context->Some_0,
            )
            &&& explain && i.english is Some ==> lines[n - 1] == details(
                "english:"@,
                i.english->Some_0,
            )
        }),
{
    assert(issues.push(i).drop_last() =~= issues);
}

/// An issue's line says where it stands, how severe it is in the color of that
/// severity, of which rule it is, what was found, what is suggested, and what
/// the anchor said, where it was asked.
pub proof fn law_the_line_of_an_issue(prefix: Seq<char>, i: IssueView, c: Colors)
    ensures
        ({
            let place = prefix + dec(i.line as nat) + ":"@ + dec(i.col as nat) + ": "@;
            let rule = c.dim@ + "["@ + i.rule_type + "]"@ + c.reset@;
            let what = " '"@ + c.bold@ + i.found + c.reset@ + "' -> "@ + suggestions_text(i);
            let told = |color: Seq<char>, name: Seq<char>, tag: Seq<char>|
                issue_line(prefix, i, c) == place + (color + (name + (c.reset@ + (" "@ + (rule + (
                what + tag))))));
            let tagged = |color: Seq<char>, name: Seq<char>|
                {
                    &&& i.anchor_match == Some(true) ==> told(color, name, " [verified]"@)
                    &&& i.anchor_match == Some(false) ==> told(color, name, " [unverified]"@)
                    &&& i.anchor_match is None ==> told(color, name, ""@)
                };
            &&& i.severity == Severity::Error ==> tagged(c.red@, "error"@)
            &&& i.severity == Severity::Warning ==> tagged(c.yellow@, "warning"@)
            &&& i.severity == Severity::Info ==> tagged(c.cyan@, "info"@)
        }),
{
    let place = prefix + dec(i.line as nat) + ":"@ + dec(i.col as nat) + ": "@;
    let rule = c.dim@ + "["@ + i.rule_type + "]"@ + c.reset@;
    let what = " '"@ + c.bold@ + i.found + c.reset@ + "' -> "@ + suggestions_text(i);
    let color = severity_color(i.severity, c);
    let name = i.severity.name_text();
    let tag = verify_tag(i.anchor_match);
    assert(issue_line(prefix, i, c) =~= place + (color + (name + (c.reset@ + (" "@ + (rule + (what
        + tag)))))));
}

/// Two issues are put into one line of the compact report exactly where they
/// agree in what was found, in the rule, in what is suggested and in severity.
/// Lines are ordered by line, and within a line by column.
pub proof fn law_what_the_compact_report_groups(a: CompactView, b: CompactView)
    ensures
        alike(a, b) <==> a.found == b.found && a.rule == b.rule && a.suggestions == b.suggestions
            && a.severity == b.severity,
        not_after(a, b) <==> a.line < b.line || (a.line == b.line && a.col <= b.col),
{
}

/// The compact report has one line for each group, that of its first issue;
/// groups that begin at the same place keep the order in which they were found.
pub proof fn law_a_group_stands_at_its_first_issue(list: Seq<CompactView>, i: int)
    requires
        0 <= i < list.len(),
    ensures
        ({
            let order = group_order(list, list.len() as int);
            &&& order.contains(i) <==> forall|k: int|
                0 <= k < i ==> !alike(#[trigger] list[k], list[i])
            &&& order.no_duplicates()
            &&& forall|a: int, b: int|
                0 <= a < b < order.len() && list[order[a]].line == list[order[b]].line
                    && list[order[a]].col == list[order[b]].col ==> #[trigger] order[a]
                    < #[trigger] order[b]
        }),
{
    lemma_group_order(list, list.len() as int);
    lemma_order_is_stable(list, list.len() as int);
    let order = group_order(list, list.len() as int);
    assert(order.contains(i) <==> leads(list, i));
    assert forall|a: int, b: int|
        0 <= a < b < order.len() && list[order[a]].line == list[order[b]].line
            && list[order[a]].col == list[order[b]].col implies #[trigger] order[a]
        < #[trigger] order[b] by {
        assert(stands_before(list, order[a], order[b]));
    }
    assert(order.no_duplicates()) by {
        assert forall|a: int, b: int|
            0 <= a < order.len() && 0 <= b < order.len() && a != b implies order[a] != order[b] by {
            if a < b {
                assert(stands_before(list, order[a], order[b]));
            } else {
                assert(stands_before(list, order[b], order[a]));
            }
        }
    }
}

/// One issue stands before another in the source, or at the same place and was
/// found before it.
spec fn stands_before(list: Seq<CompactView>, i: int, j: int) -> bool {
    not_after(list[i], list[j]) && (not_after(list[j], list[i]) ==> i < j)
}

proof fn lemma_order_is_stable(list: Seq<CompactView>, n: int)
    requires
        0 <= n <= list.len(),
    ensures
        forall|a: int, b: int|
            0 <= a < b < group_order(list, n).len() ==> stands_before(
                list,
                #[trigger] group_order(list, n)[a],
                #[trigger] group_order(list, n)[b],
            ),
        forall|x: int| #[trigger] group_order(list, n).contains(x) ==> 0 <= x < n,
    decreases n,
{
    if n > 0 {
        lemma_order_is_stable(list, n - 1);
        lemma_group_order(list, n - 1);
        lemma_group_order(list, n);
        if leads(list, n - 1) {
            lemma_placed_is_stable(list, group_order(list, n - 1), n - 1);
        }
    }
}

proof fn lemma_placed_is_stable(list: Seq<CompactView>, order: Seq<int>, i: int)
    requires
        forall|a: int, b: int|
            0 <= a < b < order.len() ==> stands_before(
                list,
                #[trigger] order[a],
                #[trigger] order[b],
            ),
        forall|x: int| #[trigger] order.contains(x) ==> x < i,
    ensures
        forall|a: int, b: int|
            0 <= a < b < placed(list, order, i).len() ==> stands_before(
                list,
                #[trigger] placed(list, order, i)[a],
                #[trigger] placed(list, order, i)[b],
            ),
    decreases order.len(),
{
    let after = placed(list, order, i);
    assert(in_source_order(list, order)) by {
        assert forall|a: int, b: int| 0 <= a < b < order.len() implies not_after(
            list[#[trigger] order[a]],
            list[#[trigger] order[b]],
        ) by {
            assert(stands_before(list, order[a], order[b]));
        }
    }
    if order.len() == 0 || not_after(list[order.last()], list[i]) {
        assert forall|a: int, b: int| 0 <= a < b < after.len() implies stands_before(
            list,
            #[trigger] after[a],
            #[trigger] after[b],
        ) by {
            assert(after[a] == order[a]);
            assert(order.contains(order[a]));
            if b == order.len() {
                if a < order.len() - 1 {
                    assert(stands_before(list, order[a], order[order.len() - 1]));
                }
            } else {
                assert(after[b] == order[b]);
            }
        }
    } else {
        let front = order.drop_last();
        assert forall|a: int, b: int| 0 <= a < b < front.len() implies stands_before(
            list,
            #[trigger] front[a],
            #[trigger] front[b],
        ) by {
            assert(front[a] == order[a] && front[b] == order[b]);
        }
        assert forall|x: int| #[trigger] front.contains(x) implies x < i by {
            let k = choose|k: int| 0 <= k < front.len() && front[k] == x;
            assert(order[k] == x);
            assert(order.contains(x));
        }
        assert(in_source_order(list, front)) by {
            assert forall|a: int, b: int| 0 <= a < b < front.len() implies not_after(
                list[#[trigger] front[a]],
                list[#[trigger] front[b]],
            ) by {
                assert(stands_before(list, front[a], front[b]));
            }
        }
        lemma_placed_is_stable(list, front, i);
        lemma_placed(list, front, i);
        let inner = placed(list, front, i);
        assert forall|a: int, b: int| 0 <= a < b < after.len() implies stands_before(
            list,
            #[trigger] after[a],
            #[trigger] after[b],
        ) by {
            assert(after[a] == inner[a]);
            if b < inner.len() {
                assert(after[b] == inner[b]);
            } else {
                assert(after[b] == order.last());
                assert(inner.contains(inner[a]));
                if inner[a] != i {
                    let k = choose|k: int| 0 <= k < front.len() && front[k] == inner[a];
                    assert(order[k] == inner[a]);
                    assert(stands_before(list, order[k], order[order.len() - 1]));
                }
            }
        }
    }
}

/// A group's line names every other place at which its issue was found, in the
/// order in which they were found: an issue that is found later adds its place
/// exactly where it belongs to the group.
pub proof fn law_every_place_of_a_group_is_named(
    list: Seq<CompactView>,
    x: CompactView,
    i: int,
)
    requires
        0 <= i < list.len(),
    ensures
        ({
            let n = list.len() as int;
            let before = other_locations(list, i, n);
            let after = other_locations(list.push(x), i, n + 1);
            &&& alike(list[i], x) ==> after == before.push(
                dec(x.line as nat) + ":"@ + dec(x.col as nat),
            )
            &&& !alike(list[i], x) ==> after == before
        }),
        other_locations(list.push(x), list.len() as int, (list.len() + 1) as int).len() == 0,
{
    lemma_places_so_far(list, x, i, list.len() as int);
    assert(list.push(x)[list.len() as int] == x);
    assert(list.push(x)[i] == list[i]);
}

proof fn lemma_places_so_far(list: Seq<CompactView>, x: CompactView, i: int, n: int)
    requires
        0 <= i < list.len(),
        0 <= n <= list.len(),
    ensures
        other_locations(list.push(x), i, n) == other_locations(list, i, n),
    decreases n,
{
    if n > i + 1 {
        lemma_places_so_far(list, x, i, n - 1);
        assert(list.push(x)[n - 1] == list[n - 1]);
        assert(list.push(x)[i] == list[i]);
    }
}

/// A line of the compact report: where the group's first issue stands, its
/// severity, its rule, what was found, the first suggestion with the number of
/// the others, the group's other places, and the explanations asked for.
pub proof fn law_a_line_of_the_compact_report(
    prefix: Seq<char>,
    list: Seq<CompactView>,
    k: int,
    explain: bool,
)
    requires
        0 <= k < compact_lines(prefix, list, explain).len(),
    ensures
        ({
            let order = group_order(list, list.len() as int);
            let i = list[order[k]];
            let place = dec(i.line as nat) + ":"@ + dec(i.col as nat);
            let others = other_locations(list, order[k], list.len() as int);
            let parts = pieces(i.suggestions, '|');
            let first = if parts.len() <= 1 {
                parts[0]
            } else {
                parts[0] + "+"@ + dec((parts.len() - 1) as nat)
            };
            let also = if others.len() == 0 {
                ""@
            } else {
                " (\u{d7}"@ + dec(others.len() + 1) + " also at "@ + joined(others, ","@) + ")"@
            };
            let context = if explain && i.context is Some {
                " ["@ + replaced(i.context->Some_0, '\n', ' ') + "]"@
            } else {
                ""@
            };
            let english = if explain && i.english is Some {
                " ("@ + i.english->Some_0 + ")"@
            } else {
                ""@
            };
            &&& compact_lines(prefix, list, explain).len() == order.len()
            &&& compact_lines(prefix, list, explain)[k] == (prefix + place + ":"@ + i.severity
                + ":"@ + i.rule + ":"@ + i.found) + ("\u{2192}"@ + first + also + context + english)
        }),
{
    let order = group_order(list, list.len() as int);
    let i = list[order[k]];
    let first = short_suggestions(i.suggestions);
    let also = elsewhere(other_locations(list, order[k], list.len() as int));
    let context = if explain && i.context is Some {
        " ["@ + replaced(i.context->Some_0, '\n', ' ') + "]"@
    } else {
        ""@
    };
    let english = if explain && i.english is Some {
        " ("@ + i.english->Some_0 + ")"@
    } else {
        ""@
    };
    assert(compact_explanation(i, explain) == context + english);
    let place = dec(i.line as nat) + ":"@ + dec(i.col as nat);
    assert(compact_lines(prefix, list, explain)[k] =~= (prefix + place + ":"@ + i.severity + ":"@
        + i.rule + ":"@ + i.found) + ("\u{2192}"@ + first + also + context + english));
}

/// The table has a row for every row given, in order, headed once: before the
/// first rows that are printed. A row's cells are what was found, what is
/// suggested, the rule, the severity, the number and the places, and its
/// explanation where explanations were asked for.
pub proof fn law_the_table(
    rows: Seq<RowView>,
    explain: bool,
    header_printed: bool,
    i: int,
)
    requires
        0 <= i < rows.len(),
    ensures
        ({
            let lines = table_lines(rows, explain, header_printed);
            let h = if header_printed { 0int } else { 1 };
            let r = rows[i];
            let tab = "\t"@;
            let suggested = if r.deletes { "(delete)"@ } else { joined(r.suggestions, ","@) };
            let cells = r.found + tab + suggested + tab + r.rule + tab + r.severity + tab + dec(
                r.count as nat,
            ) + tab + r.locations;
            let told = if r.explanation is Some { r.explanation->Some_0 } else { ""@ };
            &&& lines.len() == rows.len() + h
            &&& !header_printed && explain ==> lines[0]
                == "found\tsug\ttype\tsev\tn\tloc\texpl"@
            &&& !header_printed && !explain ==> lines[0] == "found\tsug\ttype\tsev\tn\tloc"@
            &&& explain ==> lines[i + h] == cells + (tab + told)
            &&& !explain ==> lines[i + h] == cells
        }),
        table_lines(seq![], explain, header_printed).len() == 0,
{
    reveal_strlit("");
    let r = rows[i];
    let tab = "\t"@;
    let suggested = if r.deletes { "(delete)"@ } else { joined(r.suggestions, ","@) };
    let cells = r.found + tab + suggested + tab + r.rule + tab + r.severity + tab + dec(
        r.count as nat,
    ) + tab + r.locations;
    let told = if r.explanation is Some { r.explanation->Some_0 } else { ""@ };
    if explain {
        assert(row_line(r, explain) == cells + (tab + told));
    } else {
        assert(row_line(r, explain) == cells + ""@);
        assert(cells + ""@ =~= cells);
    }
}

/// A place in the table names its file in a batch of several.
pub proof fn law_places_in_the_table(
    prefix: Seq<char>,
    locs: Seq<(usize, usize)>,
    i: int,
)
    requires
        0 <= i < locs.len(),
    ensures
        prefixed_locations(prefix, locs).len() == locs.len(),
        prefixed_locations(prefix, locs)[i] == prefix + (dec(locs[i].0 as nat) + ":"@ + dec(
            locs[i].1 as nat,
        )),
{
}

/// A result of the SARIF log says of its issue where it stands, by line and
/// column and by bytes, of which rule it is, how severe in SARIF's terms, what
/// was found and what is suggested.
pub proof fn law_a_sarif_result(uri: Seq<char>, i: IssueView)
    ensures
        ({
            let r = sarif_result(uri, i);
            &&& r.uri == uri
            &&& r.rule_id == "zhtw-mcp/"@ + i.rule_type
            &&& i.severity == Severity::Error ==> r.level == "error"@
            &&& i.severity == Severity::Warning ==> r.level == "warning"@
            &&& i.severity == Severity::Info ==> r.level == "note"@
            &&& r.message == "'"@ + i.found + "' -> "@ + suggestions_text(i)
            &&& r.start_line == i.line && r.start_column == i.col
            &&& r.byte_offset == i.offset && r.byte_length == i.length
        }),
{
}

/// The rules that a log lists are those of the issues in it, and no others.
pub proof fn law_the_rules_of_a_log(issues: Seq<IssueView>, rule: Seq<char>)
    ensures
        rule_types(issues).contains(rule) <==> exists|i: int|
            0 <= i < issues.len() && (#[trigger] issues[i]).rule_type == rule,
{
    let names = issues.map_values(|i: IssueView| i.rule_type);
    if rule_types(issues).contains(rule) {
        let k = choose|k: int| 0 <= k < names.len() && names[k] == rule;
        assert(issues[k].rule_type == rule);
    }
    if exists|i: int| 0 <= i < issues.len() && (#[trigger] issues[i]).rule_type == rule {
        let k = choose|k: int| 0 <= k < issues.len() && (#[trigger] issues[k]).rule_type == rule;
        assert(names[k] == rule);
        assert(names.contains(rule));
    }
}

/// The compact report's lines are those of its groups, one for each.
pub proof fn law_what_the_compact_report_prints(
    prefix: &str,
    list: &Vec<CompactIssue>,
    explain: bool,
    r: Vec<String>,
    k: int,
)
    requires
        call_ensures(render_compact, (prefix, list, explain), r),
        0 <= k < r@.len(),
    ensures
        r@.len() == group_order(compact_view(list@), list@.len() as int).len(),
        r@[k]@ == compact_line(
            prefix@,
            compact_view(list@),
            group_order(compact_view(list@), list@.len() as int)[k],
            explain,
        ),
{
    let lines = compact_lines(prefix@, compact_view(list@), explain);
    assert(texts(r@).len() == lines.len());
    assert(texts(r@)[k] == lines[k]);
}

/// The JSON report lists the issues of the file's report with their counts.
pub proof fn law_what_the_json_report_lists(
    r: &FileReport,
    plan: &LintPlan,
    scorecard: Option<String>,
    consistency: Option<ConsistencyReport>,
    out: FileOutput,
)
    requires
        call_ensures(render_json, (r, plan, scorecard, consistency), out),
    ensures
        out@.file == r@.file_arg,
        out@.issues == r@.issues,
        out@.total == r@.issues.len() as usize,
        out@.errors == r@.error_count,
        out@.warnings == r@.warning_count,
        out@.fixes_applied == r@.fixes_applied,
{
}

/// The human report of a clean file is one line; any other has at least one line
/// for each issue and one for their number.
pub proof fn law_what_the_human_report_prints(
    r: &FileReport,
    explain: bool,
    c: &Colors,
    out: Vec<String>,
)
    requires
        call_ensures(render_human, (r, explain, c), out),
    ensures
        r@.issues.len() == 0 ==> out@.len() == 1,
        r@.issues.len() > 0 ==> out@.len() >= r@.issues.len() + 1,
        r@.issues.len() > 0 && !explain ==> out@.len() == r@.issues.len() + 1,
{
    let prefix = human_prefix(r@.file_arg, r@.multi, *c);
    lemma_lines_of_issues(prefix, r@.issues, explain, *c);
    assert(texts(out@).len() == human_lines(r@, explain, *c).len());
}

proof fn lemma_lines_of_issues(
    prefix: Seq<char>,
    issues: Seq<IssueView>,
    explain: bool,
    c: Colors,
)
    ensures
        all_issue_lines(prefix, issues, explain, c).len() >= issues.len(),
        !explain ==> all_issue_lines(prefix, issues, explain, c).len() == issues.len(),
    decreases issues.len(),
{
    if issues.len() > 0 {
        lemma_lines_of_issues(prefix, issues.drop_last(), explain, c);
    }
}

/// The table's header is printed once: before the first rows, and not where
/// there are none.
pub proof fn law_when_the_header_is_printed(
    rows: &Vec<TabularRow>,
    explain: bool,
    header_printed: &mut bool,
    r: Vec<String>,
)
    requires
        call_ensures(render_tabular, (rows, explain, header_printed), r),
    ensures
        *final(header_printed) <==> *old(header_printed) || rows@.len() > 0,
        rows@.len() == 0 ==> r@.len() == 0,
        rows@.len() > 0 && *old(header_printed) ==> r@.len() == rows@.len(),
        rows@.len() > 0 && !*old(header_printed) ==> r@.len() == rows@.len() + 1,
{
    assert(texts(r@).len() == table_lines(rows_view(rows@), explain, *old(header_printed)).len());
}

/// A cell of places names them all, with their file in a batch of several.
pub proof fn law_a_cell_of_places(
    prefix: &str,
    locs: &Vec<(usize, usize)>,
    short_form: String,
    r: String,
)
    requires
        call_ensures(location_cell, (prefix, locs, short_form), r),
    ensures
        prefix@.len() == 0 ==> r@ == short_form@,
        prefix@.len() > 0 ==> r@ == joined(prefixed_locations(prefix@, locs@), ","@),
{
}

/// The SARIF log gains a result for every issue of a file, after those it has,
/// and lists every rule that found something.
pub proof fn law_what_the_sarif_log_gains(
    log: &mut SarifLog,
    r: &FileReport,
    i: int,
)
    requires
        call_ensures(SarifLog::collect_sarif, (log, r), ()),
        0 <= i < r@.issues.len(),
    ensures
        final(log)@.results.len() == old(log)@.results.len() + r@.issues.len(),
        final(log)@.results.take(old(log)@.results.len() as int) == old(log)@.results,
        final(log)@.results[old(log)@.results.len() + i] == sarif_result(
            r@.file_arg,
            r@.issues[i],
        ),
        final(log)@.rules.contains(r@.issues[i].rule_type),
        in_order(final(log)@.rules),
{
    let before = old(log)@.results;
    assert(final(log)@.results.take(before.len() as int) =~= before);
    law_the_rules_of_a_log(r@.issues, r@.issues[i].rule_type);
    assert(final(log)@.rules.to_set().contains(r@.issues[i].rule_type));
}

/// A line is headed by its file, relative to the current directory where that is
/// known and the file lies below it.
pub proof fn law_how_a_file_is_shown(file: &str, cwd: &Option<String>, r: String)
    requires
        call_ensures(display_path_prefix, (file, cwd), r),
    ensures
        file@ == "--"@ ==> r@.len() == 0,
        file@ != "--"@ && *cwd is None ==> r@ == file@ + ":"@,
        file@ != "--"@ && *cwd is Some && path_under(file@, (*cwd)->Some_0@) is None ==> r@ == file@
            + ":"@,
        file@ != "--"@ && *cwd is Some && path_under(file@, (*cwd)->Some_0@) is Some ==> r@
            == path_under(file@, (*cwd)->Some_0@)->Some_0 + ":"@,
{
    reveal_strlit("");
}

/// The rules of a log are listed under the program's name, each with what it
/// checks.
pub proof fn law_the_rules_as_listed(log: &SarifLog, r: Vec<SarifRule>, i: int)
    requires
        call_ensures(SarifLog::rules, (log,), r),
        0 <= i < log@.rules.len(),
    ensures
        r@.len() == log@.rules.len(),
        r@[i].id@ == "zhtw-mcp/"@ + log@.rules[i],
        r@[i].short_description@ == log@.rules[i] + " check"@,
{
}

} // verus!
