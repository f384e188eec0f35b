//! One file's way through `lint`, step by step.
//!
//! A file is first scanned, or answered for from the cache, and then fixed,
//! written, scanned again, verified, filtered and reported. The scanner, the
//! fixer, the stores and the file system are the caller's part: each step here
//! takes what they came back with and says what is wanted of them next.

use crate::batch::{
    baseline_filters, count_severity, file_report, judged_view, process_scanned_file,
    reported_chars, settle, settled_findings, unfiltered, with_file, Findings, FindingsView,
    JudgedIssue, JudgedView, LintTotals, Rescan, ResolutionTier,
};
use crate::cache::{
    age, content_lookup, entry_of, fast_lookup, key_text, EntryView, FileMeta, HitView, ParamsView,
    ScanCache, ScanParams,
};
use crate::lint::{
    check_file_size, emission, emit_fix_result, fast_outcome, fast_scan, opt_fix, opt_scanned,
    read_scan, slow_outcome, text_needed, too_large, Colors, EmissionView, FixEmission, FixResult,
    FixView, ScannedFile, ScannedView, MAX_CLI_FILE_BYTES,
};
use crate::lint_args::FixMode;
use crate::plan::{LintPlan, LintPlanView};
use crate::report::FileReport;
use crate::rules::ignore::{all_ignored, apply_ignore_set, ignored};
use crate::rules::ruleset::{clone_issues, issues_view, Issue, IssueView, Severity};
use crate::scan::{
    content_type_for, content_type_of, params_of, scan_params, ContentType, ProfileConfig,
    ScanOutput, ScanOutputView,
};
use crate::text::{string_from, CliError};
use vstd::prelude::*;
use vstd::utf8::encode_utf8;

verus! {

// Scanning.

/// A file to scan: how it is read, and what its scan depends on.
#[derive(Debug)]
pub struct FileScan {
    file_arg: String,
    content_type: ContentType,
    params: ScanParams,
}

/// What a `FileScan` holds.
pub ghost struct FileScanView {
    pub file: Seq<char>,
    pub content_type: ContentType,
    pub params: ParamsView,
}

impl View for FileScan {
    type V = FileScanView;

    closed spec fn view(&self) -> FileScanView {
        FileScanView {
            file: self.file_arg@,
            content_type: self.content_type,
            params: self.params@,
        }
    }
}

/// What is wanted after a file was read.
#[derive(Debug)]
pub enum AfterRead {
    /// Nothing: the scan is known.
    Done(ScannedFile),
    /// This text is to be scanned.
    Scan(String),
}

/// What an `AfterRead` holds.
pub ghost enum AfterReadView {
    Done(ScannedView),
    Scan(Seq<char>),
}

impl View for AfterRead {
    type V = AfterReadView;

    open spec fn view(&self) -> AfterReadView {
        match *self {
            AfterRead::Done(s) => AfterReadView::Done(s@),
            AfterRead::Scan(text) => AfterReadView::Scan(text@),
        }
    }
}

/// What the cache, if there is one, knows of a file of that time and size.
pub open spec fn known_by_meta(
    cache: Option<ScanCache>,
    now: u64,
    f: FileScanView,
    meta: FileMeta,
) -> Option<HitView> {
    match cache {
        Some(c) => fast_lookup(c@, now, c.ttl(), f.file, meta, f.params),
        None => None,
    }
}

/// What the cache, if there is one, knows of a file of that content.
pub open spec fn known_by_content(
    cache: Option<ScanCache>,
    now: u64,
    f: FileScanView,
    text: Seq<char>,
) -> Option<HitView> {
    match cache {
        Some(c) => content_lookup(c@, now, c.ttl(), f.file, encode_utf8(text), f.params),
        None => None,
    }
}

/// The cache's entries with one scan's result put among them.
pub open spec fn with_scan(
    m: Map<Seq<char>, EntryView>,
    now: u64,
    f: FileScanView,
    meta: FileMeta,
    text: Seq<char>,
    input_was_sc: bool,
    output: ScanOutputView,
) -> Map<Seq<char>, EntryView> {
    m.insert(
        key_text(f.file, f.params),
        entry_of(
            now,
            f.file,
            encode_utf8(text),
            meta,
            f.params,
            output,
            input_was_sc,
            text.len() as usize,
        ),
    )
}

impl FileScan {
    /// A file of a batch.
    pub fn new(
        file_arg: &str,
        plan: &LintPlan,
        cfg: &ProfileConfig,
        ruleset_hash: &str,
        version: &str,
        fingerprint: &str,
    ) -> (r: Self)
        ensures
            ({
                let content_type = content_type_of(plan@.content_type_override, file_arg@);
                r@ == (FileScanView {
                    file: file_arg@,
                    content_type,
                    params: params_of(
                        ruleset_hash@,
                        *cfg,
                        content_type,
                        plan@,
                        version@,
                        fingerprint@,
                    ),
                })
            }),
    {
        let content_type = content_type_for(&plan.content_type_override, file_arg);
        let params = scan_params(ruleset_hash, cfg, content_type, plan, version, fingerprint);
        FileScan { file_arg: string_from(file_arg), content_type, params }
    }

    /// How the file is read.
    pub fn content_type(&self) -> (r: ContentType)
        ensures
            r == self@.content_type,
    {
        self.content_type
    }

    /// Takes the file's time and size, before anything of it was read. A file
    /// beyond the limit is refused. The answer is the scan, where the cache
    /// knows it and nothing later needs the text; else the file is to be read.
    pub fn opened(
        &self,
        meta: FileMeta,
        cache: &Option<ScanCache>,
        now: u64,
        plan: &LintPlan,
    ) -> (r: Result<Option<ScannedFile>, CliError>)
        requires
            *cache is Some ==> (*cache)->Some_0.loaded(),
        ensures
            match r {
                Ok(done) => {
                    &&& meta.size <= MAX_CLI_FILE_BYTES
                    &&& opt_scanned(done) == fast_scan(
                        known_by_meta(*cache, now, self@, meta),
                        plan@,
                        self@.content_type,
                    )
                },
                Err(e) => {
                    &&& meta.size > MAX_CLI_FILE_BYTES
                    &&& e.message@ == too_large(self@.file, meta.size)
                },
            },
    {
        if let Err(e) = check_file_size(self.file_arg.as_str(), meta.size) {
            return Err(e);
        }
        let hit = match cache {
            Some(c) => c.check_fast_at(
                now,
                self.file_arg.as_str(),
                meta.mtime_secs,
                meta.size,
                &self.params,
            ).into_hit(),
            None => None,
        };
        Ok(fast_outcome(hit, plan, self.content_type))
    }

    /// Takes the file's text, converted where it was Simplified. The answer is
    /// the scan, where the cache knows it for this content; else the text is
    /// to be scanned.
    pub fn read(
        &self,
        text: String,
        input_was_sc: bool,
        cache: &Option<ScanCache>,
        now: u64,
        plan: &LintPlan,
    ) -> (r: AfterRead)
        requires
            *cache is Some ==> (*cache)->Some_0.loaded(),
        ensures
            r@ == match known_by_content(*cache, now, self@, text@) {
                Some(hit) => AfterReadView::Done(
                    read_scan(text@, input_was_sc, hit.output, plan@, self@.content_type),
                ),
                None => AfterReadView::Scan(text@),
            },
    {
        let hit = match cache {
            Some(c) => c.check_content_at(
                now,
                self.file_arg.as_str(),
                text.as_str().as_bytes(),
                &self.params,
            ),
            None => None,
        };
        match hit {
            Some(h) => AfterRead::Done(
                slow_outcome(text, input_was_sc, h.output, plan, self.content_type),
            ),
            None => AfterRead::Scan(text),
        }
    }

    /// Takes what a scan of the file's text found, and puts it into the cache,
    /// where there is one.
    pub fn scanned(
        &self,
        text: String,
        input_was_sc: bool,
        meta: FileMeta,
        output: ScanOutput,
        cache: &mut Option<ScanCache>,
        now: u64,
        plan: &LintPlan,
    ) -> (r: ScannedFile)
        requires
            *old(cache) is Some ==> (*old(cache))->Some_0.wf(),
        ensures
            r@ == read_scan(text@, input_was_sc, output@, plan@, self@.content_type),
            match *old(cache) {
                Some(before) => {
                    &&& *final(cache) is Some
                    &&& ({
                        let after = (*final(cache))->Some_0;
                        &&& after.wf()
                        &&& after.unsaved()
                        &&& after.loaded() == before.loaded()
                        &&& after.ttl() == before.ttl()
                        &&& after.path_bytes() == before.path_bytes()
                        &&& after@ == with_scan(
                            before@,
                            now,
                            self@,
                            meta,
                            text@,
                            input_was_sc,
                            output@,
                        )
                    })
                },
                None => *final(cache) is None,
            },
    {
        if let Some(mut c) = cache.take() {
            c.put_at(
                now,
                self.file_arg.as_str(),
                text.as_str().as_bytes(),
                meta.mtime_secs,
                meta.size,
                &self.params,
                output.clone(),
                input_was_sc,
                text.as_str().unicode_len(),
            );
            *cache = Some(c);
        }
        slow_outcome(text, input_was_sc, output, plan, self.content_type)
    }
}

/// A file that did not change since it was scanned is not read again: with the
/// same time and size, within the time to live, the cache answers with the same
/// scan. What is left out are converted files and batches that need the text.
pub proof fn law_an_unchanged_file_is_not_read_again(
    m: Map<Seq<char>, EntryView>,
    f: FileScanView,
    meta: FileMeta,
    text: Seq<char>,
    output: ScanOutputView,
    plan: LintPlanView,
    written: u64,
    now: u64,
    ttl: u64,
)
    requires
        age(now, written) <= ttl,
        text.len() <= usize::MAX,
        meta.size == 0 || text.len() > 0,
        !text_needed(plan),
    ensures
        ({
            let after = with_scan(m, written, f, meta, text, false, output);
            fast_scan(
                fast_lookup(after, now, ttl, f.file, meta, f.params),
                plan,
                f.content_type,
            ) == Some(read_scan(text, false, output, plan, f.content_type))
        }),
{
}

/// A file that was touched but holds the same text is not scanned again.
pub proof fn law_a_touched_file_is_not_scanned_again(
    m: Map<Seq<char>, EntryView>,
    f: FileScanView,
    meta: FileMeta,
    text: Seq<char>,
    input_was_sc: bool,
    output: ScanOutputView,
    written: u64,
    now: u64,
    ttl: u64,
)
    requires
        age(now, written) <= ttl,
        text.len() <= usize::MAX,
    ensures
        ({
            let after = with_scan(m, written, f, meta, text, input_was_sc, output);
            let hit = content_lookup(after, now, ttl, f.file, encode_utf8(text), f.params);
            hit is Some && hit->Some_0.output == output
        }),
{
    if text.len() == 0 {
        assert(text =~= seq![]);
        reveal_with_fuel(encode_utf8, 1);
    }
}

// After the scan.

/// What is wanted next for a file that was scanned.
#[derive(Clone, Copy, Debug, PartialEq, Eq, Structural)]
pub enum Stage {
    /// The glossary and the local disambiguation.
    Prepare,
    /// The fixer.
    Fix,
    /// The document put where it belongs.
    Emit,
    /// A scan of the rewritten text.
    Rescan,
    /// The translation anchor.
    Verify,
    /// The translation memory.
    Suppress,
    /// The baseline, and how each issue was resolved.
    Judge,
    /// Nothing: the file was reported.
    Done,
}

impl Stage {
    /// Where a stage stands in the order.
    pub open spec fn rank(self) -> nat {
        match self {
            Stage::Prepare => 0,
            Stage::Fix => 1,
            Stage::Emit => 2,
            Stage::Rescan => 3,
            Stage::Verify => 4,
            Stage::Suppress => 5,
            Stage::Judge => 6,
            Stage::Done => 7,
        }
    }
}

/// The stage after the preparation: the fixer, where it was asked for.
pub open spec fn after_prepare(plan: LintPlanView) -> Stage {
    if plan.fix_mode != FixMode::Off {
        Stage::Fix
    } else {
        Stage::Emit
    }
}

/// The stage once the reported text is settled: the anchor, where it was asked
/// for.
pub open spec fn after_settling(plan: LintPlanView) -> Stage {
    if plan.verify {
        Stage::Verify
    } else {
        Stage::Suppress
    }
}

/// The stage after the document went where it belongs: a second scan, where
/// the document changed.
pub open spec fn after_emit(plan: LintPlanView, wrote_changes: bool) -> Stage {
    if wrote_changes {
        Stage::Rescan
    } else {
        after_settling(plan)
    }
}

/// What others say of an issue: whether the baseline knows it, and how it was
/// resolved.
#[derive(Clone, Copy, Debug, PartialEq, Eq, Structural)]
pub struct Verdict {
    pub known: bool,
    pub tier: ResolutionTier,
}

/// Issues with their verdicts.
pub open spec fn judged_by(issues: Seq<IssueView>, verdicts: Seq<Verdict>) -> Seq<JudgedView> {
    Seq::new(
        issues.len(),
        |i: int|
            JudgedView { issue: issues[i], known: verdicts[i].known, tier: verdicts[i].tier },
    )
}

/// A file on its way from the scan to the report.
#[derive(Debug)]
pub struct FilePass {
    stage: Stage,
    file_arg: String,
    multi: bool,
    scanned: ScannedFile,
    findings: Findings,
    fix: Option<FixResult>,
    emitted: Option<FixEmission>,
    tm_suppressed: usize,
}

/// What a `FilePass` holds.
pub ghost struct PassView {
    pub stage: Stage,
    pub file: Seq<char>,
    pub multi: bool,
    pub scanned: ScannedView,
    pub findings: FindingsView,
    pub fix: Option<FixView>,
    /// Where the document went, once that is decided.
    pub emitted: Option<EmissionView>,
    pub tm_suppressed: usize,
}

/// What an optional emission holds.
pub open spec fn opt_emission(o: Option<FixEmission>) -> Option<EmissionView> {
    match o {
        Some(e) => Some(e@),
        None => None,
    }
}

impl View for FilePass {
    type V = PassView;

    closed spec fn view(&self) -> PassView {
        PassView {
            stage: self.stage,
            file: self.file_arg@,
            multi: self.multi,
            scanned: self.scanned@,
            findings: self.findings@,
            fix: opt_fix(self.fix),
            emitted: opt_emission(self.emitted),
            tm_suppressed: self.tm_suppressed,
        }
    }
}

impl PassView {
    /// The text that is reported on: what was written, or the scanned text
    /// where nothing was.
    pub open spec fn reported_text(self) -> Seq<char> {
        match self.emitted {
            Some(e) => if e.wrote_changes {
                e.text
            } else {
                self.scanned.text
            },
            None => self.scanned.text,
        }
    }

    /// The pass with other issues, at another stage.
    pub open spec fn with_issues(self, issues: Seq<IssueView>, stage: Stage) -> PassView {
        PassView { stage, findings: FindingsView { issues, ..self.findings }, ..self }
    }
}

fn settling_stage(plan: &LintPlan) -> (r: Stage)
    ensures
        r == after_settling(plan@),
{
    if plan.verify {
        Stage::Verify
    } else {
        Stage::Suppress
    }
}

impl FilePass {
    /// From the emission on, it is known where the document went.
    pub open spec fn wf(&self) -> bool {
        self@.stage.rank() > Stage::Emit.rank() ==> self@.emitted is Some
    }

    /// A file that was scanned.
    pub fn new(file_arg: &str, scanned: ScannedFile, multi: bool) -> (r: Self)
        ensures
            r.wf(),
            r@ == (PassView {
                stage: Stage::Prepare,
                file: file_arg@,
                multi,
                scanned: scanned@,
                findings: FindingsView {
                    issues: scanned@.output.issues,
                    ai_signature: scanned@.output.ai_signature,
                    translationese_signature: scanned@.output.translationese_signature,
                },
                fix: None,
                emitted: None,
                tm_suppressed: 0,
            }),
    {
        let findings = Findings {
            issues: clone_issues(&scanned.output.issues),
            ai_signature: scanned.output.ai_signature.clone(),
            translationese_signature: scanned.output.translationese_signature.clone(),
        };
        FilePass {
            stage: Stage::Prepare,
            file_arg: string_from(file_arg),
            multi,
            scanned,
            findings,
            fix: None,
            emitted: None,
            tm_suppressed: 0,
        }
    }

    /// What is wanted next.
    pub fn stage(&self) -> (r: Stage)
        ensures
            r == self@.stage,
    {
        self.stage
    }

    /// The scanned text.
    pub fn text(&self) -> (r: &str)
        ensures
            r@ == self@.scanned.text,
    {
        self.scanned.text.as_str()
    }

    /// How the text is read.
    pub fn content_type(&self) -> (r: ContentType)
        ensures
            r == self@.scanned.content_type,
    {
        self.scanned.content_type
    }

    /// The issues as they stand.
    pub fn issues(&self) -> (r: &Vec<Issue>)
        ensures
            issues_view(r@) == self@.findings.issues,
    {
        &self.findings.issues
    }

    /// The issues that the baseline gains: all of them where it is rewritten.
    pub fn baseline_gains(&self, plan: &LintPlan) -> (r: Vec<Issue>)
        ensures
            issues_view(r@) == if plan@.update_baseline {
                self@.findings.issues
            } else {
                Seq::<IssueView>::empty()
            },
    {
        if plan.update_baseline {
            clone_issues(&self.findings.issues)
        } else {
            Vec::new()
        }
    }

    /// Whether the fixer ran.
    pub fn was_fixed(&self) -> (r: bool)
        ensures
            r == self@.fix is Some,
    {
        self.fix.is_some()
    }

    /// The text that is reported on.
    pub fn reported_text(&self) -> (r: &str)
        ensures
            r@ == self@.reported_text(),
    {
        match &self.emitted {
            Some(e) => if e.wrote_changes {
                e.text.as_str()
            } else {
                self.scanned.text.as_str()
            },
            None => self.scanned.text.as_str(),
        }
    }

    /// Takes the issues as the glossary and the disambiguation left them.
    pub fn prepared(&mut self, issues: Vec<Issue>, plan: &LintPlan)
        requires
            old(self)@.stage == Stage::Prepare,
        ensures
            final(self).wf(),
            final(self)@ == old(self)@.with_issues(issues_view(issues@), after_prepare(plan@)),
    {
        self.findings.issues = issues;
        self.stage = if plan.fix_mode != FixMode::Off {
            Stage::Fix
        } else {
            Stage::Emit
        };
    }

    /// Takes what the fixer made of the text.
    pub fn fixed(&mut self, fix: FixResult)
        requires
            old(self)@.stage == Stage::Fix,
        ensures
            final(self).wf(),
            final(self)@ == (PassView { stage: Stage::Emit, fix: Some(fix@), ..old(self)@ }),
    {
        self.fix = Some(fix);
        self.stage = Stage::Emit;
    }

    /// Decides where the document and the lines about it go.
    pub fn emit(&mut self, plan: &LintPlan, c: &Colors) -> (r: &FixEmission)
        requires
            old(self)@.stage == Stage::Emit,
        ensures
            final(self).wf(),
            r@ == emission(
                old(self)@.file,
                old(self)@.scanned.text,
                old(self)@.fix,
                old(self)@.scanned.input_was_sc,
                plan@,
                *c,
            ),
            final(self)@ == (PassView {
                stage: after_emit(plan@, r@.wrote_changes),
                emitted: Some(r@),
                ..old(self)@
            }),
    {
        let e = emit_fix_result(
            self.file_arg.as_str(),
            self.scanned.text.as_str(),
            &self.fix,
            self.scanned.input_was_sc,
            plan,
            c,
        );
        self.stage = if e.wrote_changes {
            Stage::Rescan
        } else {
            settling_stage(plan)
        };
        self.emitted = Some(e);
        self.emitted.as_ref().unwrap()
    }

    /// Takes what the second scan found, in the rewritten text.
    pub fn rescanned(&mut self, rescan: Rescan, cfg: &ProfileConfig, plan: &LintPlan)
        requires
            old(self).wf(),
            old(self)@.stage == Stage::Rescan,
        ensures
            final(self).wf(),
            final(self)@ == (PassView {
                stage: after_settling(plan@),
                findings: settled_findings(old(self)@.findings, Some(rescan@), *cfg),
                ..old(self)@
            }),
    {
        let first = Findings {
            issues: Vec::new(),
            ai_signature: self.findings.ai_signature.clone(),
            translationese_signature: self.findings.translationese_signature.clone(),
        };
        self.findings = settle(first, Some(rescan), cfg);
        self.stage = settling_stage(plan);
    }

    /// Takes the issues as the translation anchor left them.
    pub fn verified(&mut self, issues: Vec<Issue>)
        requires
            old(self).wf(),
            old(self)@.stage == Stage::Verify,
        ensures
            final(self).wf(),
            final(self)@ == old(self)@.with_issues(issues_view(issues@), Stage::Suppress),
    {
        self.findings.issues = issues;
        self.stage = Stage::Suppress;
    }

    /// Takes the issues that the translation memory left, and how many it took
    /// out. The project's ignore terms are applied to what is left.
    pub fn suppressed(&mut self, issues: Vec<Issue>, tm_suppressed: usize, plan: &LintPlan)
        requires
            old(self).wf(),
            old(self)@.stage == Stage::Suppress,
        ensures
            final(self).wf(),
            final(self)@ == (PassView {
                tm_suppressed,
                ..old(self)@.with_issues(
                    all_ignored(issues_view(issues@), plan@.ignore_terms),
                    Stage::Judge,
                )
            }),
    {
        let mut kept = issues;
        apply_ignore_set(&mut kept, &plan.ignore_terms);
        self.findings.issues = kept;
        self.tm_suppressed = tm_suppressed;
        self.stage = Stage::Judge;
    }

    /// Takes a verdict on every issue, counts what is reported, and hands out
    /// the report.
    pub fn judged(&mut self, verdicts: &Vec<Verdict>, plan: &LintPlan, totals: &mut LintTotals) -> (r:
        FileReport)
        requires
            old(self).wf(),
            old(self)@.stage == Stage::Judge,
            verdicts.len() == old(self)@.findings.issues.len(),
            old(totals).room(verdicts.len() as nat),
        ensures
            final(self)@ == (PassView { stage: Stage::Done, ..old(self)@ }),
            ({
                let judged = judged_by(old(self)@.findings.issues, verdicts@);
                &&& r@ == file_report(
                    old(self)@.file,
                    old(self)@.scanned,
                    old(self)@.fix,
                    old(self)@.emitted->Some_0,
                    old(self)@.findings,
                    unfiltered(judged, baseline_filters(plan@)),
                    old(self)@.tm_suppressed,
                    old(self)@.multi,
                )
                &&& *final(totals) == with_file(*old(totals), judged, baseline_filters(plan@))
            }),
    {
        let ghost issues = self@.findings.issues;
        let mut judged: Vec<JudgedIssue> = Vec::new();
        let mut i: usize = 0;
        while i < verdicts.len()
            invariant
                i <= verdicts.len(),
                verdicts.len() == issues.len(),
                issues == issues_view(self.findings.issues@),
                judged.len() == i,
                forall|k: int|
                    0 <= k < i ==> (#[trigger] judged@[k])@ == judged_by(issues, verdicts@)[k],
            decreases verdicts.len() - i,
        {
            judged.push(
                JudgedIssue {
                    issue: self.findings.issues[i].clone(),
                    known: verdicts[i].known,
                    tier: verdicts[i].tier,
                },
            );
            i += 1;
        }
        assert(judged_view(judged@) =~= judged_by(issues, verdicts@));
        self.stage = Stage::Done;
        process_scanned_file(
            self.file_arg.as_str(),
            &self.scanned,
            &self.fix,
            self.emitted.as_ref().unwrap(),
            &self.findings,
            &judged,
            self.tm_suppressed,
            self.multi,
            plan,
            totals,
        )
    }
}

// Laws.

/// A pass only moves forward, whatever the plan and whatever was written, so it
/// ends.
pub proof fn law_a_pass_moves_forward(plan: LintPlanView, wrote_changes: bool)
    ensures
        Stage::Prepare.rank() < after_prepare(plan).rank() <= Stage::Emit.rank(),
        Stage::Emit.rank() < after_emit(plan, wrote_changes).rank() <= Stage::Suppress.rank(),
        Stage::Rescan.rank() < after_settling(plan).rank() <= Stage::Suppress.rank(),
{
}

/// A dry run, and a run that changes nothing, reports what the first scan
/// found: there is no second one.
pub proof fn law_only_what_was_written_is_scanned_again(
    file: Seq<char>,
    text: Seq<char>,
    fix: Option<FixView>,
    input_was_sc: bool,
    plan: LintPlanView,
    c: Colors,
)
    ensures
        after_emit(plan, emission(file, text, fix, input_was_sc, plan, c).wrote_changes)
            == Stage::Rescan <==> !plan.dry_run && (input_was_sc || (fix is Some
            && fix->Some_0.applied > 0)),
{
}

/// The length that a report gives is that of the text it is on: the written
/// text where something was written, else the text that was scanned, even where
/// that was not kept.
pub proof fn law_the_reported_length_is_that_of_the_reported_text(
    file: Seq<char>,
    text: Seq<char>,
    input_was_sc: bool,
    output: ScanOutputView,
    content_type: ContentType,
    fix: Option<FixView>,
    plan: LintPlanView,
    c: Colors,
)
    ensures
        ({
            let scanned = read_scan(text, input_was_sc, output, plan, content_type);
            let e = emission(file, scanned.text, fix, input_was_sc, plan, c);
            reported_chars(scanned.text_char_count, fix, e.wrote_changes) == (
            if e.wrote_changes {
                e.text.len()
            } else {
                text.len()
            }) as usize
        }),
{
}

/// Ignored terms count against neither gate: where every error and every
/// warning of a file is about an ignored term, the file adds to neither count.
pub proof fn law_ignored_terms_pass_the_gates(
    t: LintTotals,
    issues: Seq<IssueView>,
    terms: Seq<Seq<char>>,
    verdicts: Seq<Verdict>,
    filters: bool,
)
    requires
        forall|i: int|
            0 <= i < issues.len() && (#[trigger] issues[i]).severity != Severity::Info
                ==> terms.contains(issues[i].found),
    ensures
        ({
            let after = with_file(t, judged_by(all_ignored(issues, terms), verdicts), filters);
            after.errors == t.errors && after.warnings == t.warnings
        }),
{
    let judged = judged_by(all_ignored(issues, terms), verdicts);
    assert forall|i: int| 0 <= i < judged.len() implies (#[trigger] judged[i]).issue.severity
        == Severity::Info by {
        assert(all_ignored(issues, terms)[i] == ignored(issues[i], terms));
    }
    lemma_information_is_not_counted(judged, filters);
}

proof fn lemma_information_is_not_counted(list: Seq<JudgedView>, filters: bool)
    requires
        forall|i: int|
            0 <= i < list.len() ==> (#[trigger] list[i]).issue.severity == Severity::Info,
    ensures
        count_severity(unfiltered(list, filters), Severity::Error) == 0,
        count_severity(unfiltered(list, filters), Severity::Warning) == 0,
    decreases list.len(),
{
    if list.len() > 0 {
        let head = list.drop_last();
        assert forall|i: int| 0 <= i < head.len() implies (#[trigger] head[i]).issue.severity
            == Severity::Info by {
            assert(head[i] == list[i]);
        }
        lemma_information_is_not_counted(head, filters);
        let kept = unfiltered(head, filters);
        assert(list.last() == list[list.len() - 1]);
        assert(kept.push(list.last()).drop_last() =~= kept);
    }
}

/// The fixer runs exactly where fixing was asked for, a rewritten text is
/// scanned again, and the anchor is asked exactly where verification was asked
/// for: no file skips one of these.
pub proof fn law_what_a_pass_goes_through(plan: LintPlanView, wrote_changes: bool)
    ensures
        after_prepare(plan) == Stage::Fix <==> plan.fix_mode != FixMode::Off,
        after_prepare(plan) == Stage::Emit <==> plan.fix_mode == FixMode::Off,
        after_emit(plan, wrote_changes) == Stage::Rescan <==> wrote_changes,
        after_emit(plan, false) == Stage::Verify <==> plan.verify,
        after_emit(plan, false) == Stage::Suppress <==> !plan.verify,
        after_settling(plan) == Stage::Verify <==> plan.verify,
        after_settling(plan) == Stage::Suppress <==> !plan.verify,
{
}

/// Every issue is judged by the verdict in its own place.
pub proof fn law_each_issue_has_its_verdict(
    issues: Seq<IssueView>,
    verdicts: Seq<Verdict>,
    i: int,
)
    requires
        0 <= i < issues.len(),
    ensures
        judged_by(issues, verdicts).len() == issues.len(),
        judged_by(issues, verdicts)[i].issue == issues[i],
        judged_by(issues, verdicts)[i].known == verdicts[i].known,
        judged_by(issues, verdicts)[i].tier == verdicts[i].tier,
{
}

/// What is reported on is the document as the pass left it: what was written
/// where something was, and what was read otherwise.
pub proof fn law_the_document_that_is_reported_on(p: PassView)
    ensures
        p.emitted is Some && p.emitted->Some_0.wrote_changes ==> p.reported_text()
            == p.emitted->Some_0.text,
        p.emitted is None || !p.emitted->Some_0.wrote_changes ==> p.reported_text()
            == p.scanned.text,
{
}

/// Replacing the issues of a pass changes nothing else of it but the stage.
pub proof fn law_new_issues_change_nothing_else(p: PassView, issues: Seq<IssueView>, stage: Stage)
    ensures
        ({
            let q = p.with_issues(issues, stage);
            &&& q.findings.issues == issues
            &&& q.stage == stage
            &&& q.findings.ai_signature == p.findings.ai_signature
            &&& q.findings.translationese_signature == p.findings.translationese_signature
            &&& q == (PassView { stage: q.stage, findings: q.findings, ..p })
        }),
{
}

/// A scan is filed under the file and its parameters, with what it was made of
/// and what it found; no other entry of the cache changes.
pub proof fn law_a_scan_is_filed(
    m: Map<Seq<char>, EntryView>,
    now: u64,
    f: FileScanView,
    meta: FileMeta,
    text: Seq<char>,
    input_was_sc: bool,
    output: ScanOutputView,
    k: Seq<char>,
)
    ensures
        ({
            let after = with_scan(m, now, f, meta, text, input_was_sc, output);
            let own = key_text(f.file, f.params);
            &&& after.contains_key(own)
            &&& after[own].file_path == f.file
            &&& after[own].params == f.params
            &&& after[own].content_hash == crate::cache::blake3_text(encode_utf8(text))
            &&& after[own].file_meta == meta
            &&& after[own].output == output
            &&& after[own].input_was_sc == input_was_sc
            &&& after[own].text_char_count == text.len() as usize
            &&& after[own].timestamp_secs == now
            &&& k != own ==> (after.contains_key(k) <==> m.contains_key(k))
            &&& k != own && m.contains_key(k) ==> after[k] == m[k]
        }),
{
}

/// A file that was edited since its scan is scanned again, where the edit shows
/// in the digest, whatever else is in the cache.
pub proof fn law_an_edited_text_is_not_known(
    m: Map<Seq<char>, EntryView>,
    f: FileScanView,
    meta: FileMeta,
    text: Seq<char>,
    edited: Seq<char>,
    input_was_sc: bool,
    output: ScanOutputView,
    written: u64,
    now: u64,
    ttl: u64,
)
    requires
        crate::cache::blake3_text(encode_utf8(text)) != crate::cache::blake3_text(
            encode_utf8(edited),
        ),
    ensures
        content_lookup(
            with_scan(m, written, f, meta, text, input_was_sc, output),
            now,
            ttl,
            f.file,
            encode_utf8(edited),
            f.params,
        ) is None,
{
}

/// Without a cache nothing is known; with one, it is asked for the file under
/// its parameters.
pub proof fn law_what_the_cache_is_asked(
    cache: ScanCache,
    now: u64,
    f: FileScanView,
    meta: FileMeta,
    text: Seq<char>,
)
    ensures
        known_by_meta(None, now, f, meta) is None,
        known_by_content(None, now, f, text) is None,
        known_by_meta(Some(cache), now, f, meta) == fast_lookup(
            cache@,
            now,
            cache.ttl(),
            f.file,
            meta,
            f.params,
        ),
        known_by_content(Some(cache), now, f, text) == content_lookup(
            cache@,
            now,
            cache.ttl(),
            f.file,
            encode_utf8(text),
            f.params,
        ),
{
}

/// An ignored term drops to information and is still reported: a file's report
/// lists as many issues as were found, where no baseline filters.
pub proof fn law_ignored_terms_stay_visible(
    issues: Seq<IssueView>,
    terms: Seq<Seq<char>>,
    verdicts: Seq<Verdict>,
    i: int,
)
    requires
        0 <= i < issues.len(),
    ensures
        ({
            let kept = unfiltered(judged_by(all_ignored(issues, terms), verdicts), false);
            &&& kept.len() == issues.len()
            &&& kept[i].issue.found == issues[i].found
        }),
{
    crate::batch::law_nothing_is_hidden_without_a_baseline(
        judged_by(all_ignored(issues, terms), verdicts),
    );
}

/// A file that the cache does not know by its content is scanned, with the text
/// that was read; one that it knows is not, and its scan is the known one.
pub proof fn law_what_is_scanned(
    f: &FileScan,
    text: String,
    input_was_sc: bool,
    cache: &Option<ScanCache>,
    now: u64,
    plan: &LintPlan,
    r: AfterRead,
)
    requires
        call_ensures(FileScan::read, (f, text, input_was_sc, cache, now, plan), r),
    ensures
        ({
            let known = known_by_content(*cache, now, f@, text@);
            &&& known is None ==> r@ == AfterReadView::Scan(text@)
            &&& known is Some ==> r@ is Done && r@->Done_0.output == known->Some_0.output
                && r@->Done_0.input_was_sc == input_was_sc
            &&& *cache is None ==> r@ is Scan
            &&& *cache is Some && r@ is Done ==> ({
                let c = (*cache)->Some_0;
                let e = c@[key_text(f@.file, f@.params)];
                c@.contains_key(key_text(f@.file, f@.params)) && e.content_hash
                    == crate::cache::blake3_text(encode_utf8(text@)) && r@->Done_0.output
                    == e.output
            })
        }),
{
}

/// A file beyond the limit is refused before anything else; another is answered
/// from the cache only where the cache has it by its time and size.
pub proof fn law_what_opening_a_file_tells(
    f: &FileScan,
    meta: FileMeta,
    cache: &Option<ScanCache>,
    now: u64,
    plan: &LintPlan,
    r: Result<Option<ScannedFile>, CliError>,
)
    requires
        call_ensures(FileScan::opened, (f, meta, cache, now, plan), r),
    ensures
        r is Err <==> meta.size > 16777216,
        r is Ok && r->Ok_0 is Some ==> *cache is Some && ({
            let c = (*cache)->Some_0;
            let e = c@[key_text(f@.file, f@.params)];
            c@.contains_key(key_text(f@.file, f@.params)) && e.file_meta == meta
                && r->Ok_0->Some_0@.output == e.output
        }),
{
}

/// A file is scanned as what its name or the flag makes it, and under its own
/// name.
pub proof fn law_how_a_file_is_scanned(
    file: &str,
    plan: &LintPlan,
    cfg: &ProfileConfig,
    ruleset_hash: &str,
    version: &str,
    fingerprint: &str,
    r: FileScan,
)
    requires
        call_ensures(FileScan::new, (file, plan, cfg, ruleset_hash, version, fingerprint), r),
    ensures
        r@.file == file@,
        r@.content_type == content_type_of(plan@.content_type_override, file@),
        r@.params.ruleset_hash == ruleset_hash@,
        r@.params.content_type == r@.content_type.key_text(),
{
}

/// The baseline gains every issue of a pass where it is being rewritten, and
/// none otherwise.
pub proof fn law_what_the_baseline_gains(pass: &FilePass, plan: &LintPlan, r: Vec<Issue>)
    requires
        call_ensures(FilePass::baseline_gains, (pass, plan), r),
    ensures
        plan@.update_baseline ==> issues_view(r@) == pass@.findings.issues,
        !plan@.update_baseline ==> r@.len() == 0,
{
    if !plan@.update_baseline {
        assert(issues_view(r@).len() == 0);
    }
}

/// A pass starts with what the scan found, and before anything was fixed.
pub proof fn law_how_a_pass_starts(file: &str, scanned: ScannedFile, multi: bool, r: FilePass)
    requires
        call_ensures(FilePass::new, (file, scanned, multi), r),
    ensures
        r@.stage == Stage::Prepare,
        r@.file == file@ && r@.multi == multi && r@.scanned == scanned@,
        r@.findings.issues == scanned@.output.issues,
        r@.findings.ai_signature == scanned@.output.ai_signature,
        r@.findings.translationese_signature == scanned@.output.translationese_signature,
        r@.fix is None && r@.emitted is None && r@.tm_suppressed == 0,
{
}

/// What each step of a pass is given is what the pass goes on with, and no step
/// changes what it is not about.
pub proof fn law_the_steps_of_a_pass(
    pass: &mut FilePass,
    issues: Vec<Issue>,
    fix: FixResult,
    rescan: Rescan,
    taken: usize,
    cfg: &ProfileConfig,
    plan: &LintPlan,
)
    ensures
        call_ensures(FilePass::prepared, (pass, issues, plan), ()) ==> {
            &&& final(pass)@.findings.issues == issues_view(issues@)
            &&& final(pass)@.stage == Stage::Fix <==> plan@.fix_mode != FixMode::Off
            &&& final(pass)@.scanned == old(pass)@.scanned
        },
        call_ensures(FilePass::fixed, (pass, fix), ()) ==> {
            &&& final(pass)@.fix == Some(fix@)
            &&& final(pass)@.stage == Stage::Emit
            &&& final(pass)@.findings == old(pass)@.findings
        },
        call_ensures(FilePass::rescanned, (pass, rescan, cfg, plan), ()) ==> {
            &&& final(pass)@.findings.issues == issues_view(rescan.issues@)
            &&& final(pass)@.stage == Stage::Verify <==> plan@.verify
            &&& final(pass)@.fix == old(pass)@.fix
        },
        call_ensures(FilePass::verified, (pass, issues), ()) ==> {
            &&& final(pass)@.findings.issues == issues_view(issues@)
            &&& final(pass)@.stage == Stage::Suppress
        },
        call_ensures(FilePass::suppressed, (pass, issues, taken, plan), ()) ==> {
            &&& final(pass)@.findings.issues == all_ignored(
                issues_view(issues@),
                plan@.ignore_terms,
            )
            &&& final(pass)@.tm_suppressed == taken
            &&& final(pass)@.stage == Stage::Judge
        },
{
}

/// The report of a pass lists its issues, but for those that the baseline knows
/// and filters, and the run counts what the report counts.
pub proof fn law_a_pass_is_reported(
    pass: &mut FilePass,
    verdicts: &Vec<Verdict>,
    plan: &LintPlan,
    totals: &mut LintTotals,
    r: FileReport,
)
    requires
        call_ensures(FilePass::judged, (pass, verdicts, plan, totals), r),
        old(totals).room(verdicts@.len()),
        verdicts@.len() == old(pass)@.findings.issues.len(),
    ensures
        !(plan@.baseline_path is Some && !plan@.update_baseline) ==> r@.issues
            == old(pass)@.findings.issues,
        r@.error_count == r@.issues.filter(|i: IssueView| i.severity == Severity::Error).len(),
        r@.warning_count == r@.issues.filter(|i: IssueView| i.severity == Severity::Warning).len(),
        final(totals).errors == old(totals).errors + r@.error_count,
        final(totals).warnings == old(totals).warnings + r@.warning_count,
        r@.file_arg == old(pass)@.file,
        final(pass)@.stage == Stage::Done,
{
    let judged = judged_by(old(pass)@.findings.issues, verdicts@);
    let filters = baseline_filters(plan@);
    let kept = unfiltered(judged, filters);
    crate::batch::lemma_counts_fit(judged, filters);
    crate::batch::law_a_report_counts_what_it_lists(
        old(pass)@.file,
        old(pass)@.scanned,
        old(pass)@.fix,
        old(pass)@.emitted->Some_0,
        old(pass)@.findings,
        kept,
        old(pass)@.tm_suppressed,
        old(pass)@.multi,
    );
    if !filters {
        crate::batch::law_nothing_is_hidden_without_a_baseline(judged);
        assert(r@.issues =~= old(pass)@.findings.issues);
    }
}

/// A scan that was made is handed on, and kept in the cache where there is one:
/// under its file and parameters, with the digest of what was scanned.
pub proof fn law_a_scan_is_kept(
    f: &FileScan,
    text: String,
    input_was_sc: bool,
    meta: FileMeta,
    output: ScanOutput,
    cache: &mut Option<ScanCache>,
    now: u64,
    plan: &LintPlan,
    r: ScannedFile,
)
    requires
        call_ensures(
            FileScan::scanned,
            (f, text, input_was_sc, meta, output, cache, now, plan),
            r,
        ),
    ensures
        r@.output == output@,
        r@.input_was_sc == input_was_sc,
        r@.content_type == f@.content_type,
        *old(cache) is None ==> *final(cache) is None,
        *old(cache) is Some ==> *final(cache) is Some && ({
            let after = (*final(cache))->Some_0;
            let own = key_text(f@.file, f@.params);
            &&& after.unsaved()
            &&& after@.contains_key(own)
            &&& after@[own].content_hash == crate::cache::blake3_text(encode_utf8(text@))
            &&& after@[own].file_meta == meta
            &&& after@[own].output == output@
            &&& after@[own].timestamp_secs == now
        }),
{
}

/// The document goes where its pass was asked to put it, and a text that was
/// rewritten is scanned again.
pub proof fn law_a_pass_emits_its_document(
    pass: &mut FilePass,
    plan: &LintPlan,
    c: &Colors,
    r: &FixEmission,
)
    requires
        call_ensures(FilePass::emit, (pass, plan, c), r),
    ensures
        ({
            let before = old(pass)@;
            let changed = before.scanned.input_was_sc || (before.fix is Some
                && before.fix->Some_0.applied > 0);
            &&& before.fix is Some ==> r@.text == before.fix->Some_0.text
            &&& before.fix is None ==> r@.text == before.scanned.text
            &&& r@.wrote_changes <==> changed && !plan@.dry_run
            &&& final(pass)@.emitted == Some(r@)
            &&& final(pass)@.stage == Stage::Rescan <==> changed && !plan@.dry_run
            &&& final(pass)@.findings == before.findings
        }),
{
}

} // verus!
