//! What a lint batch counts and concludes: one file's results from its scan,
//! its fixes and the project's exceptions, and the run's verdict.

use crate::cli::{EXIT_FAILURE, EXIT_GATE};
use crate::lint::{
    opt_fix, Colors, EmissionView, FixEmission, FixResult, FixView, ScannedFile, ScannedView,
};
use crate::lint_args::LintFormat;
use crate::plan::{LintPlan, LintPlanView};
use crate::report::{FileReport, ReportView};
use crate::rules::ruleset::{issues_view, Issue, IssueView, Severity};
use crate::scan::ProfileConfig;
use crate::text::{dec, decimal, fail, opt_text, pushed, string_from, texts, CliError};
use vstd::prelude::*;

verus! {

/// How an issue was resolved.
#[derive(Clone, Copy, Debug, PartialEq, Eq, Structural)]
pub enum ResolutionTier {
    Deterministic,
    Heuristic,
    LlmJudged,
    Unresolved,
}

/// Running counts across every file of a batch.
#[derive(Clone, Copy, Debug, PartialEq, Eq, Structural)]
pub struct LintTotals {
    pub errors: usize,
    pub warnings: usize,
    pub deterministic: usize,
    pub heuristic: usize,
    pub llm_judged: usize,
    pub unresolved: usize,
    /// Issues that the baseline kept out of the report.
    pub baseline_count: usize,
    /// Files that could not be processed at all.
    pub failed_files: usize,
}

impl LintTotals {
    /// `n` more issues can be counted.
    pub open spec fn room(self, n: nat) -> bool {
        &&& self.errors + self.warnings + n <= usize::MAX
        &&& self.deterministic + n <= usize::MAX
        &&& self.heuristic + n <= usize::MAX
        &&& self.llm_judged + n <= usize::MAX
        &&& self.unresolved + n <= usize::MAX
        &&& self.baseline_count + n <= usize::MAX
    }

    /// Whether `n` more issues can be counted.
    pub fn has_room(&self, n: usize) -> (r: bool)
        ensures
            r == self.room(n as nat),
    {
        self.errors <= usize::MAX - n && self.warnings <= usize::MAX - n - self.errors
            && self.deterministic <= usize::MAX - n && self.heuristic <= usize::MAX - n
            && self.llm_judged <= usize::MAX - n && self.unresolved <= usize::MAX - n
            && self.baseline_count <= usize::MAX - n
    }
}

impl Default for LintTotals {
    fn default() -> (r: Self)
        ensures
            r == no_totals(),
    {
        LintTotals {
            errors: 0,
            warnings: 0,
            deterministic: 0,
            heuristic: 0,
            llm_judged: 0,
            unresolved: 0,
            baseline_count: 0,
            failed_files: 0,
        }
    }
}

/// Nothing counted.
pub open spec fn no_totals() -> LintTotals {
    LintTotals {
        errors: 0,
        warnings: 0,
        deterministic: 0,
        heuristic: 0,
        llm_judged: 0,
        unresolved: 0,
        baseline_count: 0,
        failed_files: 0,
    }
}

// One file.

/// What a scan of the rewritten text found.
#[derive(Debug)]
pub struct Rescan {
    pub issues: Vec<Issue>,
    pub ai_signature: Option<String>,
    pub translationese_signature: Option<String>,
}

/// What is known of a file once its text is settled: the issues to report, and
/// the two signatures.
#[derive(Debug)]
pub struct Findings {
    pub issues: Vec<Issue>,
    pub ai_signature: Option<String>,
    pub translationese_signature: Option<String>,
}

/// What a `Findings` holds.
pub ghost struct FindingsView {
    pub issues: Seq<IssueView>,
    pub ai_signature: Option<Seq<char>>,
    pub translationese_signature: Option<Seq<char>>,
}

impl View for Findings {
    type V = FindingsView;

    open spec fn view(&self) -> FindingsView {
        FindingsView {
            issues: issues_view(self.issues@),
            ai_signature: opt_text(self.ai_signature),
            translationese_signature: opt_text(self.translationese_signature),
        }
    }
}

impl View for Rescan {
    type V = FindingsView;

    open spec fn view(&self) -> FindingsView {
        FindingsView {
            issues: issues_view(self.issues@),
            ai_signature: opt_text(self.ai_signature),
            translationese_signature: opt_text(self.translationese_signature),
        }
    }
}

/// What is reported of a file: what the scan found, or where the text was
/// rewritten, what the second scan found. A signature is refreshed only where
/// its detector is on.
pub open spec fn settled_findings(
    first: FindingsView,
    rescan: Option<FindingsView>,
    cfg: ProfileConfig,
) -> FindingsView {
    match rescan {
        None => first,
        Some(second) => FindingsView {
            issues: second.issues,
            ai_signature: if cfg.ai_on() {
                second.ai_signature
            } else {
                first.ai_signature
            },
            translationese_signature: if cfg.translationese_detection {
                second.translationese_signature
            } else {
                first.translationese_signature
            },
        },
    }
}

/// Settles what is reported of a file. `rescan` is there exactly where changes
/// were written.
pub fn settle(first: Findings, rescan: Option<Rescan>, cfg: &ProfileConfig) -> (r: Findings)
    ensures
        r@ == settled_findings(
            first@,
            match rescan {
                Some(second) => Some(second@),
                None => None,
            },
            *cfg,
        ),
{
    match rescan {
        None => first,
        Some(second) => {
            let ai_signature = if cfg.ai_active() {
                second.ai_signature
            } else {
                first.ai_signature
            };
            let translationese_signature = if cfg.translationese_detection {
                second.translationese_signature
            } else {
                first.translationese_signature
            };
            Findings { issues: second.issues, ai_signature, translationese_signature }
        },
    }
}

/// An issue with what others say of it: whether the baseline knows it, and how
/// it was resolved.
#[derive(Debug)]
pub struct JudgedIssue {
    pub issue: Issue,
    pub known: bool,
    pub tier: ResolutionTier,
}

/// What a `JudgedIssue` holds.
pub ghost struct JudgedView {
    pub issue: IssueView,
    pub known: bool,
    pub tier: ResolutionTier,
}

impl View for JudgedIssue {
    type V = JudgedView;

    open spec fn view(&self) -> JudgedView {
        JudgedView { issue: self.issue@, known: self.known, tier: self.tier }
    }
}

/// What each judged issue of a list holds.
pub open spec fn judged_view(list: Seq<JudgedIssue>) -> Seq<JudgedView> {
    Seq::new(list.len(), |i: int| list[i]@)
}

/// The baseline filters the report: it was given, and it is not being
/// rewritten.
pub open spec fn baseline_filters(plan: LintPlanView) -> bool {
    plan.baseline_path is Some && !plan.update_baseline
}

/// What the baseline leaves in the report, in order.
pub open spec fn unfiltered(list: Seq<JudgedView>, filters: bool) -> Seq<JudgedView>
    decreases list.len(),
{
    if list.len() == 0 {
        seq![]
    } else if filters && list.last().known {
        unfiltered(list.drop_last(), filters)
    } else {
        unfiltered(list.drop_last(), filters).push(list.last())
    }
}

/// The issues of judged issues.
pub open spec fn issues_of(list: Seq<JudgedView>) -> Seq<IssueView> {
    list.map_values(|j: JudgedView| j.issue)
}

/// How many issues have a severity.
pub open spec fn count_severity(list: Seq<JudgedView>, s: Severity) -> nat
    decreases list.len(),
{
    if list.len() == 0 {
        0
    } else {
        count_severity(list.drop_last(), s) + if list.last().issue.severity == s {
            1nat
        } else {
            0
        }
    }
}

/// How many issues were resolved at a tier.
pub open spec fn count_tier(list: Seq<JudgedView>, t: ResolutionTier) -> nat
    decreases list.len(),
{
    if list.len() == 0 {
        0
    } else {
        count_tier(list.drop_last(), t) + if list.last().tier == t {
            1nat
        } else {
            0
        }
    }
}

/// The totals with one file's reported issues counted. What the baseline kept
/// out counts for nothing else.
pub open spec fn with_file(totals: LintTotals, list: Seq<JudgedView>, filters: bool) -> LintTotals {
    let kept = unfiltered(list, filters);
    LintTotals {
        errors: (totals.errors + count_severity(kept, Severity::Error)) as usize,
        warnings: (totals.warnings + count_severity(kept, Severity::Warning)) as usize,
        deterministic: (totals.deterministic + count_tier(
            kept,
            ResolutionTier::Deterministic,
        )) as usize,
        heuristic: (totals.heuristic + count_tier(kept, ResolutionTier::Heuristic)) as usize,
        llm_judged: (totals.llm_judged + count_tier(kept, ResolutionTier::LlmJudged)) as usize,
        unresolved: (totals.unresolved + count_tier(kept, ResolutionTier::Unresolved)) as usize,
        baseline_count: (totals.baseline_count + (list.len() - kept.len())) as usize,
        failed_files: totals.failed_files,
    }
}

/// One file's reported issues, with their counts.
#[derive(Debug)]
pub struct Counted {
    pub issues: Vec<Issue>,
    pub errors: usize,
    pub warnings: usize,
}

proof fn lemma_counts(list: Seq<JudgedView>, filters: bool)
    ensures
        unfiltered(list, filters).len() <= list.len(),
        count_severity(unfiltered(list, filters), Severity::Error) + count_severity(
            unfiltered(list, filters),
            Severity::Warning,
        ) <= unfiltered(list, filters).len(),
        count_tier(unfiltered(list, filters), ResolutionTier::Deterministic) <= unfiltered(
            list,
            filters,
        ).len(),
        count_tier(unfiltered(list, filters), ResolutionTier::Heuristic) <= unfiltered(
            list,
            filters,
        ).len(),
        count_tier(unfiltered(list, filters), ResolutionTier::LlmJudged) <= unfiltered(
            list,
            filters,
        ).len(),
        count_tier(unfiltered(list, filters), ResolutionTier::Unresolved) <= unfiltered(
            list,
            filters,
        ).len(),
    decreases list.len(),
{
    if list.len() > 0 {
        lemma_counts(list.drop_last(), filters);
        let before = unfiltered(list.drop_last(), filters);
        if !(filters && list.last().known) {
            assert(before.push(list.last()).drop_last() =~= before);
        }
    }
}

/// The totals with one more issue seen.
spec fn with_issue(t: LintTotals, j: JudgedView, filters: bool) -> LintTotals {
    if filters && j.known {
        LintTotals { baseline_count: (t.baseline_count + 1) as usize, ..t }
    } else {
        LintTotals {
            errors: if j.issue.severity == Severity::Error {
                (t.errors + 1) as usize
            } else {
                t.errors
            },
            warnings: if j.issue.severity == Severity::Warning {
                (t.warnings + 1) as usize
            } else {
                t.warnings
            },
            deterministic: if j.tier == ResolutionTier::Deterministic {
                (t.deterministic + 1) as usize
            } else {
                t.deterministic
            },
            heuristic: if j.tier == ResolutionTier::Heuristic {
                (t.heuristic + 1) as usize
            } else {
                t.heuristic
            },
            llm_judged: if j.tier == ResolutionTier::LlmJudged {
                (t.llm_judged + 1) as usize
            } else {
                t.llm_judged
            },
            unresolved: if j.tier == ResolutionTier::Unresolved {
                (t.unresolved + 1) as usize
            } else {
                t.unresolved
            },
            ..t
        }
    }
}

proof fn lemma_with_file_step(t: LintTotals, list: Seq<JudgedView>, j: JudgedView, filters: bool)
    requires
        t.room((list.len() + 1) as nat),
    ensures
        with_file(t, list, filters).room(1),
        with_file(t, list.push(j), filters) == with_issue(with_file(t, list, filters), j, filters),
        unfiltered(list.push(j), filters) == if filters && j.known {
            unfiltered(list, filters)
        } else {
            unfiltered(list, filters).push(j)
        },
{
    lemma_counts(list, filters);
    assert(list.push(j).drop_last() =~= list);
    let kept = unfiltered(list, filters);
    assert(kept.push(j).drop_last() =~= kept);
    assert(kept.push(j).last() == j);
}

fn count_issue(totals: LintTotals, severity: Severity, tier: ResolutionTier) -> (r: LintTotals)
    requires
        totals.room(1),
    ensures
        forall|j: JudgedView|
            j.issue.severity == severity && j.tier == tier ==> r == #[trigger] with_issue(
                totals,
                j,
                false,
            ),
{
    let mut t = totals;
    match severity {
        Severity::Error => {
            t.errors += 1;
        },
        Severity::Warning => {
            t.warnings += 1;
        },
        Severity::Info => {},
    }
    match tier {
        ResolutionTier::Deterministic => {
            t.deterministic += 1;
        },
        ResolutionTier::Heuristic => {
            t.heuristic += 1;
        },
        ResolutionTier::LlmJudged => {
            t.llm_judged += 1;
        },
        ResolutionTier::Unresolved => {
            t.unresolved += 1;
        },
    }
    t
}

fn count_judged(totals: LintTotals, j: &JudgedIssue, filters: bool) -> (r: LintTotals)
    requires
        totals.room(1),
    ensures
        r == with_issue(totals, j@, filters),
{
    if filters && j.known {
        let mut t = totals;
        t.baseline_count += 1;
        t
    } else {
        let r = count_issue(totals, j.issue.severity, j.tier);
        assert(r == with_issue(totals, j@, false));
        r
    }
}

/// Filters one file's issues by the baseline and counts what is left.
pub fn count_file(list: &Vec<JudgedIssue>, plan: &LintPlan, totals: &mut LintTotals) -> (r: Counted)
    requires
        old(totals).room(list.len() as nat),
    ensures
        ({
            let kept = unfiltered(judged_view(list@), baseline_filters(plan@));
            &&& issues_view(r.issues@) == issues_of(kept)
            &&& r.errors == count_severity(kept, Severity::Error)
            &&& r.warnings == count_severity(kept, Severity::Warning)
        }),
        *final(totals) == with_file(
            *old(totals),
            judged_view(list@),
            baseline_filters(plan@),
        ),
{
    let ghost all = judged_view(list@);
    let ghost start = *totals;
    let filters = plan.baseline_path.is_some() && !plan.update_baseline;
    let mut issues: Vec<Issue> = Vec::new();
    let mut t = *totals;
    let mut i: usize = 0;
    assert(all.take(0) =~= seq![]);
    assert(issues_view(issues@) =~= issues_of(unfiltered(all.take(0), filters)));
    while i < list.len()
        invariant
            i <= list.len(),
            all == judged_view(list@),
            start.room(list.len() as nat),
            t == with_file(start, all.take(i as int), filters),
            issues_view(issues@) == issues_of(unfiltered(all.take(i as int), filters)),
        decreases list.len() - i,
    {
        let ghost head = all.take(i as int);
        let ghost j = all[i as int];
        let ghost kept = unfiltered(head, filters);
        proof {
            assert(all.take(i + 1) =~= head.push(j));
            lemma_with_file_step(start, head, j, filters);
        }
        t = count_judged(t, &list[i], filters);
        if !(filters && list[i].known) {
            let ghost before = issues_view(issues@);
            issues.push(list[i].issue.clone());
            assert(issues_view(issues@) =~= before.push(j.issue));
            assert(issues_of(kept.push(j)) =~= issues_of(kept).push(j.issue));
        }
        i += 1;
    }
    proof {
        assert(all.take(i as int) =~= all);
        lemma_counts(all, filters);
    }
    let errors: usize = t.errors - totals.errors;
    let warnings: usize = t.warnings - totals.warnings;
    *totals = t;
    Counted { issues, errors, warnings }
}

/// The label of the script that a file is written in. One that was converted
/// was Simplified.
pub open spec fn script_label(input_was_sc: bool, detected: Seq<char>) -> Seq<char> {
    if input_was_sc {
        "simplified"@
    } else {
        detected
    }
}

/// How many characters the reported text has: the fixer's, where its changes
/// were written, else the scanned one's.
pub open spec fn reported_chars(scanned: usize, fix: Option<FixView>, wrote_changes: bool) -> usize {
    match fix {
        Some(f) => if wrote_changes {
            f.text.len() as usize
        } else {
            scanned
        },
        None => scanned,
    }
}

/// One file's report.
pub open spec fn file_report(
    file: Seq<char>,
    scanned: ScannedView,
    fix: Option<FixView>,
    emitted: EmissionView,
    findings: FindingsView,
    kept: Seq<JudgedView>,
    tm_suppressed: usize,
    multi: bool,
) -> ReportView {
    ReportView {
        file_arg: file,
        detected_script: script_label(scanned.input_was_sc, scanned.output.detected_script),
        issues: issues_of(kept),
        error_count: count_severity(kept, Severity::Error) as usize,
        warning_count: count_severity(kept, Severity::Warning) as usize,
        tm_suppressed,
        fixes_applied: match fix {
            Some(f) => Some(f.applied),
            None => None,
        },
        fixes_skipped: match fix {
            Some(f) => Some(f.skipped),
            None => None,
        },
        fixes_declined: match fix {
            Some(f) => Some(f.declined),
            None => None,
        },
        ai_signature: findings.ai_signature,
        translationese_signature: findings.translationese_signature,
        consistency_text: if emitted.wrote_changes {
            emitted.text
        } else {
            scanned.text
        },
        text_char_count: reported_chars(scanned.text_char_count, fix, emitted.wrote_changes),
        multi,
    }
}

/// Counts one file's issues and builds its report. `findings` is what was
/// settled for the file, and `judged` its issues after the translation memory
/// and the ignore terms.
pub fn process_scanned_file(
    file_arg: &str,
    scanned: &ScannedFile,
    fix: &Option<FixResult>,
    emitted: &FixEmission,
    findings: &Findings,
    judged: &Vec<JudgedIssue>,
    tm_suppressed: usize,
    multi: bool,
    plan: &LintPlan,
    totals: &mut LintTotals,
) -> (r: FileReport)
    requires
        old(totals).room(judged.len() as nat),
    ensures
        r@ == file_report(
            file_arg@,
            scanned@,
            opt_fix(*fix),
            emitted@,
            findings@,
            unfiltered(judged_view(judged@), baseline_filters(plan@)),
            tm_suppressed,
            multi,
        ),
        *final(totals) == with_file(
            *old(totals),
            judged_view(judged@),
            baseline_filters(plan@),
        ),
{
    let counted = count_file(judged, plan, totals);
    let detected_script = if scanned.input_was_sc {
        string_from("simplified")
    } else {
        scanned.output.detected_script.clone()
    };
    let (fixes_applied, fixes_skipped, fixes_declined, fixed_chars) = match fix {
        Some(f) => (
            Some(f.applied),
            Some(f.skipped),
            Some(f.declined),
            f.text.as_str().unicode_len(),
        ),
        None => (None, None, None, scanned.text_char_count),
    };
    let text_char_count: usize = if emitted.wrote_changes {
        fixed_chars
    } else {
        scanned.text_char_count
    };
    let consistency_text = if emitted.wrote_changes {
        emitted.text.clone()
    } else {
        scanned.text.clone()
    };
    FileReport {
        file_arg: string_from(file_arg),
        detected_script,
        issues: counted.issues,
        error_count: counted.errors,
        warning_count: counted.warnings,
        tm_suppressed,
        fixes_applied,
        fixes_skipped,
        fixes_declined,
        ai_signature: findings.ai_signature.clone(),
        translationese_signature: findings.translationese_signature.clone(),
        consistency_text,
        text_char_count,
        multi,
    }
}

/// Where one file's report goes.
#[derive(Clone, Copy, Debug, PartialEq, Eq, Structural)]
pub enum Sink {
    /// Printed at once.
    JsonNow,
    /// Kept for one array at the end.
    JsonLater,
    Human,
    Compact,
    Tabular,
    /// Kept for one document at the end.
    Sarif,
}

/// Chooses where one file's report goes. Several files in JSON make one array.
pub fn sink(format: LintFormat, multi: bool) -> (r: Sink)
    ensures
        r == match format {
            LintFormat::Json => if multi {
                Sink::JsonLater
            } else {
                Sink::JsonNow
            },
            LintFormat::Human => Sink::Human,
            LintFormat::Compact => Sink::Compact,
            LintFormat::Tabular => Sink::Tabular,
            LintFormat::Sarif => Sink::Sarif,
        },
{
    match format {
        LintFormat::Json => if multi {
            Sink::JsonLater
        } else {
            Sink::JsonNow
        },
        LintFormat::Human => Sink::Human,
        LintFormat::Compact => Sink::Compact,
        LintFormat::Tabular => Sink::Tabular,
        LintFormat::Sarif => Sink::Sarif,
    }
}

/// Counts a file that could not be processed, which does not stop the others.
pub fn count_failed(totals: &mut LintTotals)
    requires
        old(totals).failed_files < usize::MAX,
    ensures
        *final(totals) == (LintTotals {
            failed_files: (old(totals).failed_files + 1) as usize,
            ..*old(totals)
        }),
{
    totals.failed_files = totals.failed_files + 1;
}

// The end of a batch.

/// The baseline file to rewrite, if it is to be rewritten; there must be one.
pub fn baseline_to_save(plan: &LintPlan) -> (r: Result<Option<String>, CliError>)
    ensures
        match r {
            Ok(path) => opt_text(path) == if plan@.update_baseline {
                plan@.baseline_path
            } else {
                None
            } && !(plan@.update_baseline && plan@.baseline_path is None),
            Err(e) => plan@.update_baseline && plan@.baseline_path is None && e.message@
                == "--update-baseline requires --baseline <file>"@,
        },
{
    if !plan.update_baseline {
        return Ok(None);
    }
    match &plan.baseline_path {
        Some(path) => Ok(Some(path.clone())),
        None => Err(fail("--update-baseline requires --baseline <file>")),
    }
}

/// What is said of a baseline that was rewritten.
pub fn baseline_saved(fingerprints: usize, path: &str, c: &Colors) -> (r: String)
    ensures
        r@ == c.dim@ + "Baseline updated:"@ + c.reset@ + " "@ + dec(fingerprints as nat)
            + " fingerprint(s) in "@ + path@,
{
    let mut s = c.dim.to_owned();
    s.append("Baseline updated:");
    s.append(c.reset);
    s.append(" ");
    s.append(decimal(fingerprints).as_str());
    s.append(" fingerprint(s) in ");
    s.append(path);
    s
}

/// The first telemetry line.
pub open spec fn telemetry_counts(t: LintTotals, files: usize) -> Seq<char> {
    "[telemetry] files="@ + dec(files as nat) + " total_issues="@ + dec(
        (t.errors + t.warnings) as nat,
    ) + " errors="@ + dec(t.errors as nat) + " warnings="@ + dec(t.warnings as nat)
}

/// The second telemetry line.
pub open spec fn telemetry_tiers(t: LintTotals) -> Seq<char> {
    "[telemetry] resolution: deterministic="@ + dec(t.deterministic as nat) + " heuristic="@ + dec(
        t.heuristic as nat,
    ) + " llm_judged="@ + dec(t.llm_judged as nat) + " unresolved="@ + dec(t.unresolved as nat)
}

impl LintTotals {
    /// The telemetry lines.
    pub fn report_telemetry(&self, file_count: usize) -> (r: Vec<String>)
        requires
            self.errors + self.warnings <= usize::MAX,
        ensures
            texts(r@) == seq![telemetry_counts(*self, file_count), telemetry_tiers(*self)],
    {
        let mut counts = "[telemetry] files=".to_owned();
        counts.append(decimal(file_count).as_str());
        counts.append(" total_issues=");
        counts.append(decimal(self.errors + self.warnings).as_str());
        counts.append(" errors=");
        counts.append(decimal(self.errors).as_str());
        counts.append(" warnings=");
        counts.append(decimal(self.warnings).as_str());
        let mut tiers = "[telemetry] resolution: deterministic=".to_owned();
        tiers.append(decimal(self.deterministic).as_str());
        tiers.append(" heuristic=");
        tiers.append(decimal(self.heuristic).as_str());
        tiers.append(" llm_judged=");
        tiers.append(decimal(self.llm_judged).as_str());
        tiers.append(" unresolved=");
        tiers.append(decimal(self.unresolved).as_str());
        let r = vec![counts, tiers];
        assert(texts(r@) =~= seq![telemetry_counts(*self, file_count), telemetry_tiers(*self)]);
        r
    }
}

/// What a batch exits with. A file that could not be processed outranks the
/// gates, since they were computed over an incomplete set.
pub open spec fn exit_of(t: LintTotals, plan: LintPlanView) -> i32 {
    if t.failed_files > 0 {
        EXIT_FAILURE
    } else if t.errors > plan.max_errors || (plan.max_warnings is Some && t.warnings
        > plan.max_warnings->Some_0) {
        EXIT_GATE
    } else {
        0
    }
}

/// The lines at the end of a batch, on standard error: what the baseline kept
/// out, the telemetry, and the files that failed.
pub open spec fn closing_lines(t: LintTotals, plan: LintPlanView, files: usize, c: Colors) -> Seq<
    Seq<char>,
> {
    let baseline = if baseline_filters(plan) && t.baseline_count > 0 {
        seq![c.dim@ + dec(t.baseline_count as nat) + " baseline issue(s) suppressed."@ + c.reset@]
    } else {
        seq![]
    };
    let telemetry = if plan.telemetry {
        seq![telemetry_counts(t, files), telemetry_tiers(t)]
    } else {
        seq![]
    };
    let failed = if t.failed_files > 0 {
        seq![
            c.dim@ + dec(t.failed_files as nat) + " file(s) could not be processed"@ + c.reset@,
        ]
    } else {
        seq![]
    };
    baseline + telemetry + failed
}

/// How a batch ends.
#[derive(Debug)]
pub struct BatchEnd {
    /// The files' JSON results are printed as one array.
    pub json_array: bool,
    /// The SARIF document is printed.
    pub sarif_document: bool,
    /// What is said on standard error.
    pub lines: Vec<String>,
    pub status: i32,
}

fn counted_line(before: &str, n: usize, after: &str, end: &str) -> (r: String)
    ensures
        r@ == before@ + dec(n as nat) + after@ + end@,
{
    let mut s = before.to_owned();
    s.append(decimal(n).as_str());
    s.append(after);
    s.append(end);
    s
}

/// Decides how a batch over `files` files ends, once its baseline was saved
/// where that was asked for.
pub fn finish_batch(t: &LintTotals, plan: &LintPlan, files: usize, c: &Colors) -> (r: BatchEnd)
    requires
        t.errors + t.warnings <= usize::MAX,
    ensures
        r.json_array == (files > 1 && plan@.format == LintFormat::Json),
        r.sarif_document == (plan@.format == LintFormat::Sarif),
        texts(r.lines@) == closing_lines(*t, plan@, files, *c),
        r.status == exit_of(*t, plan@),
{
    let mut lines: Vec<String> = Vec::new();
    assert(texts(lines@) =~= seq![]);
    if plan.baseline_path.is_some() && !plan.update_baseline && t.baseline_count > 0 {
        lines = pushed(
            lines,
            counted_line(c.dim, t.baseline_count, " baseline issue(s) suppressed.", c.reset),
        );
    }
    if plan.telemetry {
        let mut telemetry = t.report_telemetry(files);
        let ghost before = lines@;
        let ghost added = telemetry@;
        lines.append(&mut telemetry);
        assert(texts(lines@) =~= texts(before) + texts(added));
    }
    if t.failed_files > 0 {
        lines = pushed(
            lines,
            counted_line(c.dim, t.failed_files, " file(s) could not be processed", c.reset),
        );
    }
    assert(texts(lines@) =~= closing_lines(*t, plan@, files, *c));
    let warnings_exceeded = match plan.max_warnings {
        Some(limit) => t.warnings > limit,
        None => false,
    };
    let status: i32 = if t.failed_files > 0 {
        EXIT_FAILURE
    } else if t.errors > plan.max_errors || warnings_exceeded {
        EXIT_GATE
    } else {
        0
    };
    BatchEnd {
        json_array: files > 1 && plan.format == LintFormat::Json,
        sarif_document: plan.format == LintFormat::Sarif,
        lines,
        status,
    }
}

// Laws.

/// A run exits with 0 exactly where every file was processed and neither limit
/// was exceeded, with the failure status exactly where some file was not
/// processed, and with the status of a failed gate otherwise.
pub proof fn law_exit_codes_are_a_contract(t: LintTotals, plan: LintPlanView)
    ensures
        exit_of(t, plan) == EXIT_FAILURE <==> t.failed_files > 0,
        exit_of(t, plan) == 0 <==> t.failed_files == 0 && t.errors <= plan.max_errors && (
        plan.max_warnings is None || t.warnings <= plan.max_warnings->Some_0),
        exit_of(t, plan) == 0 || exit_of(t, plan) == EXIT_GATE || exit_of(t, plan)
            == EXIT_FAILURE,
{
}

/// An issue that is only information counts against neither gate: with it or
/// without it the run's errors and warnings are the same.
pub proof fn law_information_passes_the_gates(
    t: LintTotals,
    list: Seq<JudgedView>,
    j: JudgedView,
    filters: bool,
)
    requires
        j.issue.severity == Severity::Info,
    ensures
        with_file(t, list.push(j), filters).errors == with_file(t, list, filters).errors,
        with_file(t, list.push(j), filters).warnings == with_file(t, list, filters).warnings,
{
    assert(list.push(j).drop_last() =~= list);
    let kept = unfiltered(list, filters);
    assert(kept.push(j).drop_last() =~= kept);
}

/// An issue that the baseline knows is neither reported nor counted while the
/// baseline filters.
pub proof fn law_known_issues_pass_the_gates(t: LintTotals, list: Seq<JudgedView>, j: JudgedView)
    requires
        j.known,
    ensures
        unfiltered(list.push(j), true) == unfiltered(list, true),
        with_file(t, list.push(j), true).errors == with_file(t, list, true).errors,
        with_file(t, list.push(j), true).warnings == with_file(t, list, true).warnings,
{
    assert(list.push(j).drop_last() =~= list);
}

/// Without a baseline, or while it is being rewritten, every issue is reported.
pub proof fn law_nothing_is_hidden_without_a_baseline(list: Seq<JudgedView>)
    ensures
        unfiltered(list, false) == list,
    decreases list.len(),
{
    if list.len() > 0 {
        law_nothing_is_hidden_without_a_baseline(list.drop_last());
        assert(list.drop_last().push(list.last()) =~= list);
    } else {
        assert(unfiltered(list, false) =~= list);
    }
}

/// Every reported issue is resolved at one tier: the four tier counts of a file
/// add up to the number of issues reported for it.
pub proof fn law_tiers_add_up(list: Seq<JudgedView>)
    ensures
        count_tier(list, ResolutionTier::Deterministic) + count_tier(
            list,
            ResolutionTier::Heuristic,
        ) + count_tier(list, ResolutionTier::LlmJudged) + count_tier(
            list,
            ResolutionTier::Unresolved,
        ) == list.len(),
    decreases list.len(),
{
    if list.len() > 0 {
        law_tiers_add_up(list.drop_last());
    }
}

/// An issue that is reported raises the count of its severity and that of its
/// tier by one, for the file and for the run, and no other count: which tier it
/// was resolved at does not matter to the gates.
pub proof fn law_a_reported_issue_counts_once(
    t: LintTotals,
    list: Seq<JudgedView>,
    j: JudgedView,
    filters: bool,
)
    requires
        t.room(list.len() + 1),
        !filters || !j.known,
    ensures
        ({
            let before = with_file(t, list, filters);
            let after = with_file(t, list.push(j), filters);
            let s = j.issue.severity;
            &&& after.errors == before.errors + if s == Severity::Error { 1int } else { 0 }
            &&& after.warnings == before.warnings + if s == Severity::Warning { 1int } else { 0 }
            &&& after.deterministic == before.deterministic + if j.tier
                == ResolutionTier::Deterministic { 1int } else { 0 }
            &&& after.heuristic == before.heuristic + if j.tier == ResolutionTier::Heuristic {
                1int
            } else {
                0
            }
            &&& after.llm_judged == before.llm_judged + if j.tier == ResolutionTier::LlmJudged {
                1int
            } else {
                0
            }
            &&& after.unresolved == before.unresolved + if j.tier == ResolutionTier::Unresolved {
                1int
            } else {
                0
            }
            &&& after.baseline_count == before.baseline_count
            &&& after.failed_files == before.failed_files
        }),
        unfiltered(list.push(j), filters) == unfiltered(list, filters).push(j),
{
    assert(list.push(j).drop_last() =~= list);
    let kept = unfiltered(list, filters);
    assert(kept.push(j).drop_last() =~= kept);
    lemma_counts_fit(list, filters);
}

/// An issue that the baseline keeps out raises the count of what it kept out by
/// one, and no other.
pub proof fn law_a_known_issue_counts_as_known(
    t: LintTotals,
    list: Seq<JudgedView>,
    j: JudgedView,
)
    requires
        t.room(list.len() + 1),
        j.known,
    ensures
        ({
            let before = with_file(t, list, true);
            let after = with_file(t, list.push(j), true);
            &&& after.baseline_count == before.baseline_count + 1
            &&& after == (LintTotals { baseline_count: after.baseline_count, ..before })
        }),
{
    assert(list.push(j).drop_last() =~= list);
    lemma_counts_fit(list, true);
}

/// A file without issues changes no count.
pub proof fn law_a_clean_file_counts_nothing(t: LintTotals, filters: bool)
    ensures
        with_file(t, seq![], filters) == t,
{
}

/// No count of what is reported exceeds the number of issues found.
pub proof fn lemma_counts_fit(list: Seq<JudgedView>, filters: bool)
    ensures
        unfiltered(list, filters).len() <= list.len(),
        count_severity(unfiltered(list, filters), Severity::Error) + count_severity(
            unfiltered(list, filters),
            Severity::Warning,
        ) <= list.len(),
        count_tier(unfiltered(list, filters), ResolutionTier::Deterministic) <= list.len(),
        count_tier(unfiltered(list, filters), ResolutionTier::Heuristic) <= list.len(),
        count_tier(unfiltered(list, filters), ResolutionTier::LlmJudged) <= list.len(),
        count_tier(unfiltered(list, filters), ResolutionTier::Unresolved) <= list.len(),
    decreases list.len(),
{
    if list.len() > 0 {
        let front = list.drop_last();
        lemma_counts_fit(front, filters);
        let kept = unfiltered(front, filters);
        assert(kept.push(list.last()).drop_last() =~= kept);
    }
}

/// A count is the number of issues of that severity, or of that tier, in the
/// list, whatever else holds of them.
pub proof fn law_counts_are_numbers_of_issues(
    list: Seq<JudgedView>,
    s: Severity,
    tier: ResolutionTier,
)
    ensures
        count_severity(list, s) == list.filter(|j: JudgedView| j.issue.severity == s).len(),
        count_tier(list, tier) == list.filter(|j: JudgedView| j.tier == tier).len(),
    decreases list.len(),
{
    reveal(Seq::filter);
    if list.len() > 0 {
        law_counts_are_numbers_of_issues(list.drop_last(), s, tier);
    }
}

/// What is reported is what was found, in its order, without what the baseline
/// keeps out.
pub proof fn law_what_is_reported(list: Seq<JudgedView>, filters: bool)
    ensures
        unfiltered(list, filters) == list.filter(|j: JudgedView| !(filters && j.known)),
    decreases list.len(),
{
    reveal(Seq::filter);
    if list.len() > 0 {
        law_what_is_reported(list.drop_last(), filters);
    }
}

/// The baseline keeps issues out exactly where one is given and is not being
/// rewritten.
pub proof fn law_when_the_baseline_filters(plan: LintPlanView)
    ensures
        baseline_filters(plan) <==> plan.baseline_path is Some && !plan.update_baseline,
{
}

/// One error more than is allowed fails the run, and so does one warning more
/// where warnings are limited: the statuses are 0, 1 and 2.
pub proof fn law_one_issue_too_many_fails_the_gate(
    t: LintTotals,
    list: Seq<JudgedView>,
    j: JudgedView,
    plan: LintPlanView,
)
    requires
        t.room(list.len() + 1),
        t.failed_files == 0,
        !(baseline_filters(plan) && j.known),
        j.issue.severity == Severity::Error && with_file(t, list, baseline_filters(plan)).errors
            >= plan.max_errors || j.issue.severity == Severity::Warning && plan.max_warnings is Some
            && with_file(t, list, baseline_filters(plan)).warnings >= plan.max_warnings->Some_0,
    ensures
        exit_of(with_file(t, list.push(j), baseline_filters(plan)), plan) == 1,
{
    law_a_reported_issue_counts_once(t, list, j, baseline_filters(plan));
}

/// The status of a run: 2 where some file was not processed, else 1 where a
/// limit was exceeded, else 0.
pub proof fn law_the_statuses(t: LintTotals, plan: LintPlanView)
    ensures
        ({
            let exceeded = t.errors > plan.max_errors || (plan.max_warnings is Some && t.warnings
                > plan.max_warnings->Some_0);
            &&& t.failed_files > 0 ==> exit_of(t, plan) == 2
            &&& t.failed_files == 0 && exceeded ==> exit_of(t, plan) == 1
            &&& t.failed_files == 0 && !exceeded ==> exit_of(t, plan) == 0
        }),
{
}

/// A rewritten text is reported by its own scan: its issues stand alone, and its
/// signatures too where their detectors are on. Without a second scan the first
/// one stands.
pub proof fn law_the_last_scan_is_reported(
    first: FindingsView,
    second: FindingsView,
    cfg: ProfileConfig,
)
    ensures
        settled_findings(first, None, cfg) == first,
        ({
            let r = settled_findings(first, Some(second), cfg);
            let ai = cfg.ai_filler_detection || cfg.ai_semantic_safety || cfg.ai_density_detection
                || cfg.ai_structural_patterns;
            &&& r.issues == second.issues
            &&& ai ==> r.ai_signature == second.ai_signature
            &&& !ai ==> r.ai_signature == first.ai_signature
            &&& cfg.translationese_detection ==> r.translationese_signature
                == second.translationese_signature
            &&& !cfg.translationese_detection ==> r.translationese_signature
                == first.translationese_signature
        }),
{
}

/// A report's counts are those of the issues that it lists.
pub proof fn law_a_report_counts_what_it_lists(
    file: Seq<char>,
    scanned: ScannedView,
    fix: Option<FixView>,
    emitted: EmissionView,
    findings: FindingsView,
    kept: Seq<JudgedView>,
    tm_suppressed: usize,
    multi: bool,
)
    requires
        kept.len() <= usize::MAX,
    ensures
        ({
            let r = file_report(
                file,
                scanned,
                fix,
                emitted,
                findings,
                kept,
                tm_suppressed,
                multi,
            );
            &&& r.issues.len() == kept.len()
            &&& forall|i: int| 0 <= i < kept.len() ==> #[trigger] r.issues[i] == kept[i].issue
            &&& r.error_count == r.issues.filter(
                |i: IssueView| i.severity == Severity::Error,
            ).len()
            &&& r.warning_count == r.issues.filter(
                |i: IssueView| i.severity == Severity::Warning,
            ).len()
        }),
{
    lemma_counted_issues(kept, Severity::Error);
    lemma_counted_issues(kept, Severity::Warning);
    let issues = issues_of(kept);
    assert(issues.filter(|i: IssueView| i.severity == Severity::Error).len() <= kept.len());
    assert(issues.filter(|i: IssueView| i.severity == Severity::Warning).len() <= kept.len());
}

proof fn lemma_counted_issues(kept: Seq<JudgedView>, s: Severity)
    ensures
        count_severity(kept, s) == issues_of(kept).filter(
            |i: IssueView| i.severity == s,
        ).len(),
        count_severity(kept, s) <= kept.len(),
    decreases kept.len(),
{
    reveal(Seq::filter);
    if kept.len() > 0 {
        lemma_counted_issues(kept.drop_last(), s);
        assert(issues_of(kept).drop_last() =~= issues_of(kept.drop_last()));
    }
}

/// The rest of a report: the file as it was named, the script that the input was
/// written in, what the fixer did where it ran, and the text that was left, by
/// its length.
pub proof fn law_what_a_report_says(
    file: Seq<char>,
    scanned: ScannedView,
    fix: Option<FixView>,
    emitted: EmissionView,
    findings: FindingsView,
    kept: Seq<JudgedView>,
    tm_suppressed: usize,
    multi: bool,
)
    ensures
        ({
            let r = file_report(
                file,
                scanned,
                fix,
                emitted,
                findings,
                kept,
                tm_suppressed,
                multi,
            );
            &&& r.file_arg == file
            &&& r.multi == multi
            &&& r.tm_suppressed == tm_suppressed
            &&& scanned.input_was_sc ==> r.detected_script == "simplified"@
            &&& !scanned.input_was_sc ==> r.detected_script == scanned.output.detected_script
            &&& fix is None ==> r.fixes_applied is None && r.fixes_skipped is None
                && r.fixes_declined is None
            &&& fix is Some ==> r.fixes_applied == Some(fix->Some_0.applied) && r.fixes_skipped
                == Some(fix->Some_0.skipped) && r.fixes_declined == Some(fix->Some_0.declined)
            &&& r.ai_signature == findings.ai_signature
            &&& r.translationese_signature == findings.translationese_signature
            &&& emitted.wrote_changes ==> r.consistency_text == emitted.text
            &&& !emitted.wrote_changes ==> r.consistency_text == scanned.text
            &&& fix is Some && emitted.wrote_changes ==> r.text_char_count
                == fix->Some_0.text.len() as usize
            &&& fix is None || !emitted.wrote_changes ==> r.text_char_count
                == scanned.text_char_count
        }),
{
}

/// What is said at the end of a batch: what the baseline kept out, where it
/// filtered and kept something out; the telemetry where it was asked for; and
/// the files that failed, where some did.
pub proof fn law_what_a_batch_ends_with(
    t: LintTotals,
    plan: LintPlanView,
    files: usize,
    c: Colors,
)
    ensures
        ({
            let lines = closing_lines(t, plan, files, c);
            let kept_out = plan.baseline_path is Some && !plan.update_baseline && t.baseline_count
                > 0;
            let told = c.dim@ + dec(t.baseline_count as nat) + " baseline issue(s) suppressed."@
                + c.reset@;
            let failed = c.dim@ + dec(t.failed_files as nat) + " file(s) could not be processed"@
                + c.reset@;
            let n = (if kept_out { 1int } else { 0 }) + (if plan.telemetry { 2int } else { 0 }) + (
            if t.failed_files > 0 { 1int } else { 0 });
            &&& lines.len() == n
            &&& kept_out ==> lines[0] == told
            &&& t.failed_files > 0 ==> lines.last() == failed
            &&& plan.telemetry ==> ({
                let k = if kept_out { 1int } else { 0 };
                &&& lines[k] == "[telemetry] files="@ + dec(files as nat) + " total_issues="@ + dec(
                    (t.errors + t.warnings) as nat,
                ) + " errors="@ + dec(t.errors as nat) + " warnings="@ + dec(t.warnings as nat)
                &&& lines[k + 1] == "[telemetry] resolution: deterministic="@ + dec(
                    t.deterministic as nat,
                ) + " heuristic="@ + dec(t.heuristic as nat) + " llm_judged="@ + dec(
                    t.llm_judged as nat,
                ) + " unresolved="@ + dec(t.unresolved as nat)
            })
        }),
{
}

/// What one file adds to the run: `count_file` lists the issues that the
/// baseline does not keep out, and counts those of each severity, in the file
/// and in the run alike.
pub proof fn law_a_file_is_counted(
    list: &Vec<JudgedIssue>,
    plan: &LintPlan,
    totals: &mut LintTotals,
    r: Counted,
)
    requires
        call_ensures(count_file, (list, plan, totals), r),
        old(totals).room(list@.len()),
    ensures
        ({
            let filters = plan@.baseline_path is Some && !plan@.update_baseline;
            let kept = judged_view(list@).filter(|j: JudgedView| !(filters && j.known));
            let errors = kept.filter(|j: JudgedView| j.issue.severity == Severity::Error).len();
            let warnings = kept.filter(
                |j: JudgedView| j.issue.severity == Severity::Warning,
            ).len();
            &&& r.issues@.len() == kept.len()
            &&& forall|i: int| 0 <= i < kept.len() ==> (#[trigger] r.issues@[i])@ == kept[i].issue
            &&& r.errors == errors
            &&& r.warnings == warnings
            &&& final(totals).errors == old(totals).errors + errors
            &&& final(totals).warnings == old(totals).warnings + warnings
            &&& final(totals).baseline_count == old(totals).baseline_count + (list@.len()
                - kept.len())
            &&& final(totals).failed_files == old(totals).failed_files
        }),
{
    let filters = baseline_filters(plan@);
    let judged = judged_view(list@);
    law_what_is_reported(judged, filters);
    let kept = unfiltered(judged, filters);
    assert(kept == judged.filter(|j: JudgedView| !(filters && j.known)));
    law_counts_are_numbers_of_issues(kept, Severity::Error, ResolutionTier::Deterministic);
    law_counts_are_numbers_of_issues(kept, Severity::Warning, ResolutionTier::Deterministic);
    lemma_counts_fit(judged, filters);
    assert(issues_view(r.issues@).len() == issues_of(kept).len());
    assert forall|i: int| 0 <= i < kept.len() implies (#[trigger] r.issues@[i])@
        == kept[i].issue by {
        assert(issues_view(r.issues@)[i] == issues_of(kept)[i]);
    }
}

/// A report lists what was counted, and its counts are those of the issues that
/// it lists.
pub proof fn law_a_report_lists_what_was_counted(
    file: &str,
    scanned: &ScannedFile,
    fix: &Option<FixResult>,
    emitted: &FixEmission,
    findings: &Findings,
    judged: &Vec<JudgedIssue>,
    tm_suppressed: usize,
    multi: bool,
    plan: &LintPlan,
    totals: &mut LintTotals,
    r: FileReport,
)
    requires
        call_ensures(
            process_scanned_file,
            (
                file,
                scanned,
                fix,
                emitted,
                findings,
                judged,
                tm_suppressed,
                multi,
                plan,
                totals,
            ),
            r,
        ),
        old(totals).room(judged@.len()),
    ensures
        r@.file_arg == file@,
        r@.error_count == r@.issues.filter(|i: IssueView| i.severity == Severity::Error).len(),
        r@.warning_count == r@.issues.filter(|i: IssueView| i.severity == Severity::Warning).len(),
        final(totals).errors == old(totals).errors + r@.error_count,
        final(totals).warnings == old(totals).warnings + r@.warning_count,
{
    let filters = baseline_filters(plan@);
    let list = judged_view(judged@);
    let kept = unfiltered(list, filters);
    lemma_counts_fit(list, filters);
    law_a_report_counts_what_it_lists(
        file@,
        scanned@,
        opt_fix(*fix),
        emitted@,
        findings@,
        kept,
        tm_suppressed,
        multi,
    );
}

/// The end of a batch: its status says whether all was processed and within the
/// limits, and the formats that hold one document for all files print it then.
pub proof fn law_how_a_batch_ends(
    t: &LintTotals,
    plan: &LintPlan,
    files: usize,
    c: &Colors,
    r: BatchEnd,
)
    requires
        call_ensures(finish_batch, (t, plan, files, c), r),
    ensures
        ({
            let exceeded = t.errors > plan@.max_errors || (plan@.max_warnings is Some && t.warnings
                > plan@.max_warnings->Some_0);
            &&& t.failed_files > 0 ==> r.status == 2
            &&& t.failed_files == 0 && exceeded ==> r.status == 1
            &&& t.failed_files == 0 && !exceeded ==> r.status == 0
            &&& r.json_array <==> files > 1 && plan@.format == LintFormat::Json
            &&& r.sarif_document <==> plan@.format == LintFormat::Sarif
        }),
{
}

/// Each format has its own way out, and of several files one JSON array is made.
pub proof fn law_where_a_report_goes(format: LintFormat, multi: bool, r: Sink)
    requires
        call_ensures(sink, (format, multi), r),
    ensures
        r == Sink::JsonLater <==> format == LintFormat::Json && multi,
        r == Sink::JsonNow <==> format == LintFormat::Json && !multi,
        r == Sink::Human <==> format == LintFormat::Human,
        r == Sink::Compact <==> format == LintFormat::Compact,
        r == Sink::Tabular <==> format == LintFormat::Tabular,
        r == Sink::Sarif <==> format == LintFormat::Sarif,
{
}

/// A baseline is saved exactly where it is being rewritten, to the file that was
/// given, and rewriting needs one.
pub proof fn law_when_a_baseline_is_saved(
    plan: &LintPlan,
    r: Result<Option<String>, CliError>,
)
    requires
        call_ensures(baseline_to_save, (plan,), r),
    ensures
        r is Err <==> plan@.update_baseline && plan@.baseline_path is None,
        r is Ok ==> (r->Ok_0 is Some <==> plan@.update_baseline),
        r is Ok && r->Ok_0 is Some ==> Some(r->Ok_0->Some_0@) == plan@.baseline_path,
{
}

/// A file that could not be processed is counted, and nothing else changes.
pub proof fn law_a_failed_file_is_counted(totals: &mut LintTotals)
    requires
        call_ensures(count_failed, (totals,), ()),
        old(totals).failed_files < usize::MAX,
    ensures
        final(totals).failed_files == old(totals).failed_files + 1,
        *final(totals) == (LintTotals {
            failed_files: final(totals).failed_files,
            ..*old(totals)
        }),
{
}

/// A run starts with nothing counted.
pub proof fn law_a_run_starts_at_zero()
    ensures
        ({
            let t = no_totals();
            t.errors == 0 && t.warnings == 0 && t.deterministic == 0 && t.heuristic == 0
                && t.llm_judged == 0 && t.unresolved == 0 && t.baseline_count == 0
                && t.failed_files == 0
        }),
{
}

/// What is said of a saved baseline names how much it holds and where it lies.
pub proof fn law_what_is_said_of_a_baseline(n: usize, path: &str, c: &Colors, r: String)
    requires
        call_ensures(baseline_saved, (n, path, c), r),
    ensures
        r@ == c.dim@ + "Baseline updated:"@ + c.reset@ + " "@ + dec(n as nat)
            + " fingerprint(s) in "@ + path@,
{
}

} // verus!
