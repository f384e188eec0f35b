//! What `lint` decides about one file: what the cache's answer is good for,
//! what is handed to the fixer, and where a rewritten document goes.
//!
//! Reading, writing and the scanner itself are the caller's part.

use crate::cache::{opt_hit, CacheHit, HitView};
use crate::lint_args::{FixMode, LintFormat};
use crate::plan::{no_glossary, LintPlan, LintPlanView};
use crate::rules::ruleset::{issues_view, Issue, IssueView};
use crate::scan::{ContentType, ScanOutput, ScanOutputView};
use crate::text::{
    contains_text, dec, decimal, decimal_u64, fail, opt_text, same, string_from, texts, CliError,
};
use vstd::prelude::*;

verus! {

/// The largest input accepted, in bytes (16 MiB).
pub const MAX_CLI_FILE_BYTES: u64 = 16777216;

// Colors.

/// The escape sequences of human output; all empty where it is not colored.
#[derive(Clone, Copy, Debug)]
pub struct Colors {
    pub red: &'static str,
    pub yellow: &'static str,
    pub cyan: &'static str,
    pub dim: &'static str,
    pub bold: &'static str,
    pub reset: &'static str,
}

/// Output is colored on a terminal, unless the environment forbids it.
pub fn use_color(no_color_set: bool, stderr_is_terminal: bool) -> (r: bool)
    ensures
        r == (!no_color_set && stderr_is_terminal),
{
    if no_color_set {
        false
    } else {
        stderr_is_terminal
    }
}

/// The escape sequences, or none.
pub fn colors(on: bool) -> (r: Colors)
    ensures
        on ==> {
            &&& r.red@ == "\x1b[31m"@
            &&& r.yellow@ == "\x1b[33m"@
            &&& r.cyan@ == "\x1b[36m"@
            &&& r.dim@ == "\x1b[2m"@
            &&& r.bold@ == "\x1b[1m"@
            &&& r.reset@ == "\x1b[0m"@
        },
        !on ==> {
            &&& r.red@ == ""@
            &&& r.yellow@ == ""@
            &&& r.cyan@ == ""@
            &&& r.dim@ == ""@
            &&& r.bold@ == ""@
            &&& r.reset@ == ""@
        },
{
    if on {
        Colors {
            red: "\x1b[31m",
            yellow: "\x1b[33m",
            cyan: "\x1b[36m",
            dim: "\x1b[2m",
            bold: "\x1b[1m",
            reset: "\x1b[0m",
        }
    } else {
        Colors { red: "", yellow: "", cyan: "", dim: "", bold: "", reset: "" }
    }
}

// Scanning one file.

/// What is said of a file that is too large.
pub open spec fn too_large(file: Seq<char>, len: u64) -> Seq<char> {
    file + ": file too large ("@ + dec(len as nat) + " bytes, limit 16777216)"@
}

/// Refuses a file beyond the limit.
pub fn check_file_size(file_arg: &str, len: u64) -> (r: Result<(), CliError>)
    ensures
        match r {
            Ok(_) => len <= MAX_CLI_FILE_BYTES,
            Err(e) => len > MAX_CLI_FILE_BYTES && e.message@ == too_large(file_arg@, len),
        },
{
    if len <= MAX_CLI_FILE_BYTES {
        return Ok(());
    }
    let mut s = file_arg.to_owned();
    s.append(": file too large (");
    s.append(decimal_u64(len).as_str());
    s.append(" bytes, limit 16777216)");
    Err(CliError { message: s })
}

/// Refuses standard input beyond the limit.
pub fn check_stdin_size(len: u64) -> (r: Result<(), CliError>)
    ensures
        match r {
            Ok(_) => len <= MAX_CLI_FILE_BYTES,
            Err(e) => len > MAX_CLI_FILE_BYTES && e.message@
                == "stdin input exceeds 16777216 byte limit"@,
        },
{
    if len <= MAX_CLI_FILE_BYTES {
        Ok(())
    } else {
        Err(fail("stdin input exceeds 16777216 byte limit"))
    }
}

/// One file after it was scanned.
#[derive(Debug)]
pub struct ScannedFile {
    /// The text, or nothing where no later phase needs it.
    pub text: String,
    /// Whether the input was Simplified Chinese, converted since.
    pub input_was_sc: bool,
    pub text_char_count: usize,
    pub output: ScanOutput,
    pub content_type: ContentType,
}

/// What a `ScannedFile` holds.
pub ghost struct ScannedView {
    pub text: Seq<char>,
    pub input_was_sc: bool,
    pub text_char_count: usize,
    pub output: ScanOutputView,
    pub content_type: ContentType,
}

impl View for ScannedFile {
    type V = ScannedView;

    open spec fn view(&self) -> ScannedView {
        ScannedView {
            text: self.text@,
            input_was_sc: self.input_was_sc,
            text_char_count: self.text_char_count,
            output: self.output@,
            content_type: self.content_type,
        }
    }
}

/// What an optional scanned file holds.
pub open spec fn opt_scanned(o: Option<ScannedFile>) -> Option<ScannedView> {
    match o {
        Some(s) => Some(s@),
        None => None,
    }
}

/// Some phase after the scan reads the text: fixing, the glossary, the
/// consistency report, or verification.
pub open spec fn text_needed(plan: LintPlanView) -> bool {
    plan.fix_mode != FixMode::Off || plan.glossary != no_glossary() || plan.consistency
        || plan.verify
}

/// Whether some phase after the scan reads the text.
pub fn need_text_post_scan(plan: &LintPlan) -> (r: bool)
    ensures
        r == text_needed(plan@),
{
    plan.fix_mode != FixMode::Off || !plan.glossary.is_empty() || plan.consistency || plan.verify
}

/// What a hit on the fast path is good for: the whole scan, without reading
/// the file, unless something later needs the text. A file that was converted
/// needs it for being written back.
pub open spec fn fast_scan(hit: Option<HitView>, plan: LintPlanView, content_type: ContentType)
    -> Option<ScannedView> {
    match hit {
        Some(h) => if !h.input_was_sc && !text_needed(plan) {
            Some(
                ScannedView {
                    text: seq![],
                    input_was_sc: false,
                    text_char_count: h.text_char_count,
                    output: h.output,
                    content_type,
                },
            )
        } else {
            None
        },
        None => None,
    }
}

/// The scan that a hit on the fast path stands for, or nothing where the file
/// has to be read.
pub fn fast_outcome(hit: Option<CacheHit>, plan: &LintPlan, content_type: ContentType) -> (r:
    Option<ScannedFile>)
    ensures
        opt_scanned(r) == fast_scan(opt_hit(hit), plan@, content_type),
{
    match hit {
        Some(h) => {
            if !h.input_was_sc && !need_text_post_scan(plan) {
                let text = String::new();
                assert(text@ =~= seq![]);
                Some(
                    ScannedFile {
                        text,
                        input_was_sc: false,
                        text_char_count: h.text_char_count,
                        output: h.output,
                        content_type,
                    },
                )
            } else {
                None
            }
        },
        None => None,
    }
}

/// The scan of a text that was read. The text is dropped where nothing needs
/// it, so that a parallel batch does not hold every file.
pub open spec fn read_scan(
    text: Seq<char>,
    input_was_sc: bool,
    output: ScanOutputView,
    plan: LintPlanView,
    content_type: ContentType,
) -> ScannedView {
    ScannedView {
        text: if input_was_sc || text_needed(plan) {
            text
        } else {
            seq![]
        },
        input_was_sc,
        text_char_count: text.len() as usize,
        output,
        content_type,
    }
}

/// The scan of a file that was read.
pub fn slow_outcome(
    text: String,
    input_was_sc: bool,
    output: ScanOutput,
    plan: &LintPlan,
    content_type: ContentType,
) -> (r: ScannedFile)
    ensures
        r@ == read_scan(text@, input_was_sc, output@, plan@, content_type),
{
    let text_char_count = text.as_str().unicode_len();
    let kept = if input_was_sc || need_text_post_scan(plan) {
        text
    } else {
        let nothing = String::new();
        assert(nothing@ =~= seq![]);
        nothing
    };
    ScannedFile { text: kept, input_was_sc, text_char_count, output, content_type }
}

/// The scan of standard input, which always keeps its text.
pub fn stdin_outcome(
    text: String,
    input_was_sc: bool,
    output: ScanOutput,
    content_type: ContentType,
) -> (r: ScannedFile)
    ensures
        r@ == (ScannedView {
            text: text@,
            input_was_sc,
            text_char_count: text@.len() as usize,
            output: output@,
            content_type,
        }),
{
    let text_char_count = text.as_str().unicode_len();
    ScannedFile { text, input_was_sc, text_char_count, output, content_type }
}

/// Files are scanned in parallel where there are several and none of them is
/// standard input.
pub fn scan_in_parallel(resolved: &Vec<String>) -> (r: bool)
    ensures
        r == (resolved.len() > 1 && !texts(resolved@).contains("--"@)),
{
    resolved.len() > 1 && !contains_text(resolved, "--")
}

// Fixing.

/// What the fixer did to a text.
#[derive(Debug)]
pub struct FixResult {
    pub text: String,
    pub applied: usize,
    /// Issues left alone, for whatever reason.
    pub skipped: usize,
    /// Issues looked at and turned down on their own merits.
    pub declined: usize,
}

/// What a `FixResult` holds.
pub ghost struct FixView {
    pub text: Seq<char>,
    pub applied: usize,
    pub skipped: usize,
    pub declined: usize,
}

impl View for FixResult {
    type V = FixView;

    open spec fn view(&self) -> FixView {
        FixView {
            text: self.text@,
            applied: self.applied,
            skipped: self.skipped,
            declined: self.declined,
        }
    }
}

/// What an optional fix result holds.
pub open spec fn opt_fix(o: Option<FixResult>) -> Option<FixView> {
    match o {
        Some(f) => Some(f@),
        None => None,
    }
}

/// How many fixes were applied.
pub open spec fn applied(fix: Option<FixView>) -> usize {
    match fix {
        Some(f) => f.applied,
        None => 0,
    }
}

/// How many fixes were turned down.
pub open spec fn declined(fix: Option<FixView>) -> usize {
    match fix {
        Some(f) => f.declined,
        None => 0,
    }
}

/// An issue, and whether the translation memory keeps it from being fixed.
#[derive(Debug)]
pub struct FixCandidate {
    pub issue: Issue,
    pub suppressed: bool,
}

/// The issues of the candidates that are not suppressed, in order.
pub open spec fn fixable(list: Seq<FixCandidate>) -> Seq<IssueView>
    decreases list.len(),
{
    if list.len() == 0 {
        seq![]
    } else if list.last().suppressed {
        fixable(list.drop_last())
    } else {
        fixable(list.drop_last()).push(list.last().issue@)
    }
}

/// The issues handed to the fixer, so that it does not correct a term that the
/// user deliberately kept.
pub fn fix_issues(candidates: &Vec<FixCandidate>) -> (r: Vec<Issue>)
    ensures
        issues_view(r@) == fixable(candidates@),
{
    let ghost all = candidates@;
    let mut out: Vec<Issue> = Vec::new();
    let mut i: usize = 0;
    assert(all.take(0) =~= seq![]);
    assert(issues_view(out@) =~= seq![]);
    while i < candidates.len()
        invariant
            i <= candidates.len(),
            all == candidates@,
            issues_view(out@) == fixable(all.take(i as int)),
        decreases candidates.len() - i,
    {
        let ghost before = issues_view(out@);
        assert(all.take(i + 1).drop_last() =~= all.take(i as int));
        assert(all.take(i + 1).last() == all[i as int]);
        if !candidates[i].suppressed {
            out.push(candidates[i].issue.clone());
            assert(issues_view(out@) =~= before.push(all[i as int].issue@));
        }
        i += 1;
    }
    assert(all.take(i as int) =~= all);
    out
}

/// Where a document and the lines about it go.
#[derive(Debug)]
pub struct FixEmission {
    /// The document on standard output.
    pub stdout: Option<String>,
    /// What is said of a document that is not emitted.
    pub note: Option<String>,
    /// The document that replaces the file.
    pub write: Option<String>,
    /// What is said on standard error once the file was written.
    pub status: Option<String>,
    /// The text that every later phase reads.
    pub text: String,
    /// The document, on disk or on standard output, now differs from the
    /// input.
    pub wrote_changes: bool,
}

/// What a `FixEmission` holds.
pub ghost struct EmissionView {
    pub stdout: Option<Seq<char>>,
    pub note: Option<Seq<char>>,
    pub write: Option<Seq<char>>,
    pub status: Option<Seq<char>>,
    pub text: Seq<char>,
    pub wrote_changes: bool,
}

impl View for FixEmission {
    type V = EmissionView;

    open spec fn view(&self) -> EmissionView {
        EmissionView {
            stdout: opt_text(self.stdout),
            note: opt_text(self.note),
            write: opt_text(self.write),
            status: opt_text(self.status),
            text: self.text@,
            wrote_changes: self.wrote_changes,
        }
    }
}

/// The part of a status line that tells of fixes turned down.
pub open spec fn declined_part(n: usize, c: Colors) -> Seq<char> {
    if n > 0 {
        ", "@ + c.dim@ + dec(n as nat) + " declined"@ + c.reset@
    } else {
        ""@
    }
}

/// The part of a status line that tells of a conversion without fixes.
pub open spec fn s2t_part(input_was_sc: bool, applied: usize) -> Seq<char> {
    if input_was_sc && applied == 0 {
        " (S2T only)"@
    } else {
        ""@
    }
}

/// The part of a status line that tells of a dry run.
pub open spec fn dry_part(dry_run: bool, c: Colors) -> Seq<char> {
    if dry_run {
        " "@ + c.dim@ + "(dry run)"@ + c.reset@
    } else {
        ""@
    }
}

/// What is said of one file's fixes, if anything is.
pub open spec fn fix_status(
    file: Seq<char>,
    fix: Option<FixView>,
    input_was_sc: bool,
    dry_run: bool,
    c: Colors,
) -> Option<Seq<char>> {
    if input_was_sc || applied(fix) > 0 {
        Some(
            c.bold@ + file + c.reset@ + ": "@ + dec(applied(fix) as nat) + (if dry_run {
                " fix(es) would be applied"@
            } else {
                " fix(es) applied"@
            }) + s2t_part(input_was_sc, applied(fix)) + declined_part(declined(fix), c)
                + dry_part(dry_run, c),
        )
    } else if declined(fix) > 0 {
        Some(
            c.bold@ + file + c.reset@ + ": no fixes applied"@ + declined_part(declined(fix), c)
                + dry_part(dry_run, c),
        )
    } else {
        None
    }
}

/// What is said where a rewritten document could not be emitted.
pub open spec fn not_emitted(c: Colors) -> Seq<char> {
    c.bold@ + "--"@ + c.reset@
        + ": rewritten text not emitted: --format owns stdout; rerun without --format, or process a file"@
}

/// Where the document and the lines about it go.
///
/// Standard input with fixes or a conversion is a filter: its document goes to
/// standard output whether or not anything changed, unless a report owns that
/// stream. A file is replaced where it changed. A dry run leaves everything
/// alone.
pub open spec fn emission(
    file: Seq<char>,
    text: Seq<char>,
    fix: Option<FixView>,
    input_was_sc: bool,
    plan: LintPlanView,
    c: Colors,
) -> EmissionView {
    let current = match fix {
        Some(f) => f.text,
        None => text,
    };
    let changed = input_was_sc || applied(fix) > 0;
    let filters = file == "--"@ && (fix is Some || input_was_sc) && !plan.dry_run;
    EmissionView {
        stdout: if filters && plan.format == LintFormat::Human {
            Some(current)
        } else {
            None
        },
        note: if filters && plan.format != LintFormat::Human {
            Some(not_emitted(c))
        } else {
            None
        },
        write: if changed && !plan.dry_run && file != "--"@ {
            Some(current)
        } else {
            None
        },
        status: fix_status(file, fix, input_was_sc, plan.dry_run, c),
        text: current,
        wrote_changes: changed && !plan.dry_run,
    }
}

fn declined_text(n: usize, c: &Colors) -> (r: String)
    ensures
        r@ == declined_part(n, *c),
{
    if n > 0 {
        let mut s = ", ".to_owned();
        s.append(c.dim);
        s.append(decimal(n).as_str());
        s.append(" declined");
        s.append(c.reset);
        s
    } else {
        string_from("")
    }
}

fn dry_text(dry_run: bool, c: &Colors) -> (r: String)
    ensures
        r@ == dry_part(dry_run, *c),
{
    if dry_run {
        let mut s = " ".to_owned();
        s.append(c.dim);
        s.append("(dry run)");
        s.append(c.reset);
        s
    } else {
        string_from("")
    }
}

fn status_line(
    file_arg: &str,
    fix_applied: usize,
    fix_declined: usize,
    input_was_sc: bool,
    dry_run: bool,
    c: &Colors,
) -> (r: Option<String>)
    ensures
        opt_text(r) == fix_status(
            file_arg@,
            Some(
                FixView { text: seq![], applied: fix_applied, skipped: 0, declined: fix_declined },
            ),
            input_was_sc,
            dry_run,
            *c,
        ),
{
    if input_was_sc || fix_applied > 0 {
        let mut s = c.bold.to_owned();
        s.append(file_arg);
        s.append(c.reset);
        s.append(": ");
        s.append(decimal(fix_applied).as_str());
        s.append(
            if dry_run {
                " fix(es) would be applied"
            } else {
                " fix(es) applied"
            },
        );
        s.append(
            if input_was_sc && fix_applied == 0 {
                " (S2T only)"
            } else {
                ""
            },
        );
        s.append(declined_text(fix_declined, c).as_str());
        s.append(dry_text(dry_run, c).as_str());
        Some(s)
    } else if fix_declined > 0 {
        let mut s = c.bold.to_owned();
        s.append(file_arg);
        s.append(c.reset);
        s.append(": no fixes applied");
        s.append(declined_text(fix_declined, c).as_str());
        s.append(dry_text(dry_run, c).as_str());
        Some(s)
    } else {
        None
    }
}

/// Decides where a document and the lines about it go.
pub fn emit_fix_result(
    file_arg: &str,
    text: &str,
    fix_result: &Option<FixResult>,
    input_was_sc: bool,
    plan: &LintPlan,
    c: &Colors,
) -> (r: FixEmission)
    ensures
        r@ == emission(file_arg@, text@, opt_fix(*fix_result), input_was_sc, plan@, *c),
{
    let (fix_applied, fix_declined): (usize, usize) = match fix_result {
        Some(f) => (f.applied, f.declined),
        None => (0, 0),
    };
    let current = match fix_result {
        Some(f) => f.text.clone(),
        None => string_from(text),
    };
    let has_text_changes = input_was_sc || fix_applied > 0;
    let is_stdin = same(file_arg, "--");
    let stdin_emits_document = is_stdin && (fix_result.is_some() || input_was_sc) && !plan.dry_run;
    let mut stdout = None;
    let mut note = None;
    if stdin_emits_document {
        if plan.format.report_owns_stdout() {
            let mut s = c.bold.to_owned();
            s.append("--");
            s.append(c.reset);
            s.append(
                ": rewritten text not emitted: --format owns stdout; rerun without --format, or process a file",
            );
            note = Some(s);
        } else {
            stdout = Some(current.clone());
        }
    }
    let write = if has_text_changes && !plan.dry_run && !is_stdin {
        Some(current.clone())
    } else {
        None
    };
    let status = status_line(
        file_arg,
        fix_applied,
        fix_declined,
        input_was_sc,
        plan.dry_run,
        c,
    );
    FixEmission {
        stdout,
        note,
        write,
        status,
        text: current,
        wrote_changes: has_text_changes && !plan.dry_run,
    }
}

/// A dry run emits nothing and writes nothing.
pub proof fn law_a_dry_run_touches_nothing(
    file: Seq<char>,
    text: Seq<char>,
    fix: Option<FixView>,
    input_was_sc: bool,
    plan: LintPlanView,
    c: Colors,
)
    requires
        plan.dry_run,
    ensures
        ({
            let e = emission(file, text, fix, input_was_sc, plan, c);
            e.stdout is None && e.note is None && e.write is None && !e.wrote_changes
        }),
{
}

/// Standard output carries one product: the document in human format, and the
/// report in every other, with a note where a document was withheld.
pub proof fn law_one_product_on_stdout(
    file: Seq<char>,
    text: Seq<char>,
    fix: Option<FixView>,
    input_was_sc: bool,
    plan: LintPlanView,
    c: Colors,
)
    ensures
        ({
            let e = emission(file, text, fix, input_was_sc, plan, c);
            &&& plan.format != LintFormat::Human ==> e.stdout is None
            &&& !(e.stdout is Some && e.note is Some)
            &&& !(e.stdout is Some && e.write is Some)
        }),
{
}

/// Standard input that is being fixed or was converted is never lost: its
/// document comes out even where nothing changed, or the user is told.
pub proof fn law_stdin_is_never_lost(
    text: Seq<char>,
    fix: Option<FixView>,
    input_was_sc: bool,
    plan: LintPlanView,
    c: Colors,
)
    requires
        fix is Some || input_was_sc,
        !plan.dry_run,
    ensures
        ({
            let e = emission("--"@, text, fix, input_was_sc, plan, c);
            &&& plan.format == LintFormat::Human ==> e.stdout == Some(e.text)
            &&& plan.format != LintFormat::Human ==> e.note is Some
            &&& e.write is None
        }),
{
}

/// A file is written exactly where its text changed.
pub proof fn law_a_file_is_written_where_it_changed(
    file: Seq<char>,
    text: Seq<char>,
    fix: Option<FixView>,
    input_was_sc: bool,
    plan: LintPlanView,
    c: Colors,
)
    requires
        file != "--"@,
    ensures
        ({
            let e = emission(file, text, fix, input_was_sc, plan, c);
            &&& e.write is Some <==> e.wrote_changes
            &&& e.write is Some ==> e.write == Some(e.text)
            &&& e.stdout is None
        }),
{
}

/// The text is kept after the scan exactly where something later reads it: the
/// fixer, the glossary, the consistency report or the verification.
pub proof fn law_when_the_text_is_kept(plan: LintPlanView)
    ensures
        text_needed(plan) <==> {
            ||| plan.fix_mode != FixMode::Off
            ||| plan.glossary.banned.len() + plan.glossary.preferred.len()
                + plan.glossary.proper_nouns.len() > 0
            ||| plan.consistency
            ||| plan.verify
        },
{
    let g = plan.glossary;
    if g.banned.len() + g.preferred.len() + g.proper_nouns.len() == 0 {
        assert(g.banned =~= seq![] && g.preferred =~= seq![] && g.proper_nouns =~= seq![]);
        assert(g == no_glossary());
    }
}

/// A file is not even read where the cache knows it, its input was Traditional
/// and nothing later needs its text; its scan is then the one that is known.
pub proof fn law_a_known_file_is_not_read(
    hit: Option<HitView>,
    plan: LintPlanView,
    content_type: ContentType,
)
    ensures
        ({
            let s = fast_scan(hit, plan, content_type);
            &&& s is Some <==> hit is Some && !hit->Some_0.input_was_sc && !text_needed(plan)
            &&& s is Some ==> {
                &&& s->Some_0.output == hit->Some_0.output
                &&& s->Some_0.text_char_count == hit->Some_0.text_char_count
                &&& !s->Some_0.input_was_sc
                &&& s->Some_0.content_type == content_type
                &&& s->Some_0.text.len() == 0
            }
        }),
{
}

/// What is known of a file that was read: what its scan yielded, how long it is,
/// and its text, where that was converted or is needed later.
pub proof fn law_what_is_known_of_a_file(
    text: Seq<char>,
    input_was_sc: bool,
    output: ScanOutputView,
    plan: LintPlanView,
    content_type: ContentType,
)
    requires
        text.len() <= usize::MAX,
    ensures
        ({
            let s = read_scan(text, input_was_sc, output, plan, content_type);
            &&& s.output == output
            &&& s.input_was_sc == input_was_sc
            &&& s.content_type == content_type
            &&& s.text_char_count == text.len()
            &&& input_was_sc || text_needed(plan) ==> s.text == text
            &&& !input_was_sc && !text_needed(plan) ==> s.text.len() == 0
        }),
{
}

/// The fixer is given every issue that is not suppressed, in order.
pub proof fn law_what_the_fixer_is_given(list: Seq<FixCandidate>)
    ensures
        fixable(list) == list.filter(|c: FixCandidate| !c.suppressed).map_values(
            |c: FixCandidate| c.issue@,
        ),
    decreases list.len(),
{
    reveal(Seq::filter);
    if list.len() > 0 {
        law_what_the_fixer_is_given(list.drop_last());
        let kept = list.drop_last().filter(|c: FixCandidate| !c.suppressed);
        assert(kept.push(list.last()).map_values(|c: FixCandidate| c.issue@) =~= kept.map_values(
            |c: FixCandidate| c.issue@,
        ).push(list.last().issue@));
    } else {
        assert(fixable(list) =~= list.filter(|c: FixCandidate| !c.suppressed).map_values(
            |c: FixCandidate| c.issue@,
        ));
    }
}

/// The text from here on is the fixer's where the fixer ran, and the one that
/// was read where it did not. A file is rewritten with it exactly where the
/// input was converted or a fix was applied, and not in a dry run.
pub proof fn law_where_a_document_goes(
    file: Seq<char>,
    text: Seq<char>,
    fix: Option<FixView>,
    input_was_sc: bool,
    plan: LintPlanView,
    c: Colors,
)
    ensures
        ({
            let e = emission(file, text, fix, input_was_sc, plan, c);
            let changed = input_was_sc || (fix is Some && fix->Some_0.applied > 0);
            &&& fix is Some ==> e.text == fix->Some_0.text
            &&& fix is None ==> e.text == text
            &&& e.wrote_changes <==> changed && !plan.dry_run
            &&& e.write is Some <==> changed && !plan.dry_run && file != "--"@
            &&& e.write is Some ==> e.write->Some_0 == e.text
            &&& e.stdout is Some <==> file == "--"@ && (fix is Some || input_was_sc)
                && !plan.dry_run && plan.format == LintFormat::Human
            &&& e.stdout is Some ==> e.stdout->Some_0 == e.text
            &&& e.note is Some <==> file == "--"@ && (fix is Some || input_was_sc) && !plan.dry_run
                && plan.format != LintFormat::Human
            &&& e.note is Some ==> e.note->Some_0 == c.bold@ + "--"@ + c.reset@
                + ": rewritten text not emitted: --format owns stdout; rerun without --format, or process a file"@
        }),
{
}

/// Something is said of the fixes exactly where the input was converted, a fix
/// was applied or one was declined; it names the file and how many were applied,
/// and in a dry run that they would be.
pub proof fn law_what_is_said_of_fixes(
    file: Seq<char>,
    text: Seq<char>,
    fix: Option<FixView>,
    input_was_sc: bool,
    plan: LintPlanView,
    c: Colors,
)
    ensures
        ({
            let e = emission(file, text, fix, input_was_sc, plan, c);
            let done = if fix is Some { fix->Some_0.applied } else { 0 };
            let turned_down = if fix is Some { fix->Some_0.declined } else { 0 };
            let opening = c.bold@ + file + c.reset@ + ": "@;
            let only_converted = if input_was_sc && done == 0 { " (S2T only)"@ } else { ""@ };
            let declines = if turned_down > 0 {
                ", "@ + c.dim@ + dec(turned_down as nat) + " declined"@ + c.reset@
            } else {
                ""@
            };
            let dry = if plan.dry_run {
                " "@ + c.dim@ + "(dry run)"@ + c.reset@
            } else {
                ""@
            };
            &&& e.status is Some <==> input_was_sc || done > 0 || turned_down > 0
            &&& (input_was_sc || done > 0) && !plan.dry_run ==> e.status == Some(
                opening + dec(done as nat) + " fix(es) applied"@ + only_converted + declines + dry,
            )
            &&& (input_was_sc || done > 0) && plan.dry_run ==> e.status == Some(
                opening + dec(done as nat) + " fix(es) would be applied"@ + only_converted
                    + declines + dry,
            )
            &&& !input_was_sc && done == 0 && turned_down > 0 ==> e.status == Some(
                c.bold@ + file + c.reset@ + ": no fixes applied"@ + declines + dry,
            )
        }),
{
}

/// Input of up to sixteen mebibytes is accepted, and more is refused.
pub proof fn law_the_largest_input(
    file: &str,
    len: u64,
    by_file: Result<(), CliError>,
    by_stdin: Result<(), CliError>,
)
    requires
        call_ensures(check_file_size, (file, len), by_file),
        call_ensures(check_stdin_size, (len,), by_stdin),
    ensures
        by_file is Ok <==> len <= 16777216,
        by_stdin is Ok <==> len <= 16777216,
        by_file is Err ==> by_file->Err_0.message@ == file@ + ": file too large ("@ + dec(
            len as nat,
        ) + " bytes, limit 16777216)"@,
        by_stdin is Err ==> by_stdin->Err_0.message@ == "stdin input exceeds 16777216 byte limit"@,
{
}

/// Colors are used on a terminal, unless they were asked not to be; without them
/// nothing is put around a text.
pub proof fn law_when_colors_are_used(no_color: bool, terminal: bool, on: bool, c: Colors)
    ensures
        call_ensures(use_color, (no_color, terminal), on) ==> (on <==> terminal && !no_color),
        call_ensures(colors, (false,), c) ==> c.red@ == ""@ && c.yellow@ == ""@ && c.cyan@ == ""@
            && c.dim@ == ""@ && c.bold@ == ""@ && c.reset@ == ""@,
        call_ensures(colors, (true,), c) ==> c.red@ == "\x1b[31m"@ && c.yellow@ == "\x1b[33m"@
            && c.cyan@ == "\x1b[36m"@ && c.dim@ == "\x1b[2m"@ && c.bold@ == "\x1b[1m"@ && c.reset@
            == "\x1b[0m"@,
{
}

/// Several files are scanned side by side, unless standard input is among them.
pub proof fn law_when_files_are_scanned_side_by_side(resolved: &Vec<String>, r: bool)
    requires
        call_ensures(scan_in_parallel, (resolved,), r),
    ensures
        r <==> resolved@.len() > 1 && !texts(resolved@).contains("--"@),
{
}

/// What is known of standard input is its text and its scan.
pub proof fn law_what_is_known_of_stdin(
    text: String,
    input_was_sc: bool,
    output: ScanOutput,
    content_type: ContentType,
    r: ScannedFile,
)
    requires
        call_ensures(stdin_outcome, (text, input_was_sc, output, content_type), r),
    ensures
        r@.text == text@,
        r@.input_was_sc == input_was_sc,
        r@.output == output@,
        r@.content_type == content_type,
        r@.text_char_count == text@.len() as usize,
{
}

/// Where the document goes after the fixer: `emit_fix_result` writes the fixer's
/// text, and only where something changed and the run is no dry one.
pub proof fn law_what_is_emitted(
    file: &str,
    text: &str,
    fix: &Option<FixResult>,
    input_was_sc: bool,
    plan: &LintPlan,
    c: &Colors,
    r: FixEmission,
)
    requires
        call_ensures(emit_fix_result, (file, text, fix, input_was_sc, plan, c), r),
    ensures
        ({
            let current = if *fix is Some { (*fix)->Some_0.text@ } else { text@ };
            let changed = input_was_sc || (*fix is Some && (*fix)->Some_0.applied > 0);
            let filters = file@ == "--"@ && (*fix is Some || input_was_sc) && !plan@.dry_run;
            &&& r@.text == current
            &&& r@.wrote_changes <==> changed && !plan@.dry_run
            &&& changed && !plan@.dry_run && file@ != "--"@ ==> r@.write == Some(current)
            &&& !changed || plan@.dry_run || file@ == "--"@ ==> r@.write is None
            &&& filters && plan@.format == LintFormat::Human ==> r@.stdout == Some(current)
            &&& !filters || plan@.format != LintFormat::Human ==> r@.stdout is None
            &&& r@.note is Some <==> filters && plan@.format != LintFormat::Human
        }),
{
}

/// The fixer is given exactly the issues that are not suppressed, in order.
pub proof fn law_suppressed_issues_are_not_fixed(candidates: &Vec<FixCandidate>, r: Vec<Issue>)
    requires
        call_ensures(fix_issues, (candidates,), r),
    ensures
        issues_view(r@) == candidates@.filter(|c: FixCandidate| !c.suppressed).map_values(
            |c: FixCandidate| c.issue@,
        ),
{
    law_what_the_fixer_is_given(candidates@);
}

/// The text is needed after the scan exactly where a later phase reads it.
pub proof fn law_who_needs_the_text(plan: &LintPlan, r: bool)
    requires
        call_ensures(need_text_post_scan, (plan,), r),
    ensures
        r <==> plan@.fix_mode != FixMode::Off || plan@.glossary != no_glossary()
            || plan@.consistency || plan@.verify,
{
}

} // verus!
