//! The arguments after `lint`: what each flag means and what the whole asks for.

use crate::text::{
    arg_at, arg_of, fail, fail_with, opt_text, outcome, parse_usize, pushed, same, starts_with,
    string_from, texts, usize_of_text, CliError,
};
use vstd::prelude::*;

verus! {

/// How `lint` reports what it found.
#[derive(Clone, Copy, Debug, PartialEq, Eq, Structural)]
pub enum LintFormat {
    Human,
    Json,
    Sarif,
    Compact,
    Tabular,
}

/// How far `--fix` may go.
#[derive(Clone, Copy, Debug, PartialEq, Eq, Structural)]
pub enum FixMode {
    Off,
    Orthographic,
    LexicalSafe,
    LexicalContextual,
}

/// The kind of prose the translationese score is calibrated for.
#[derive(Clone, Copy, Debug, PartialEq, Eq, Structural)]
pub enum TranslationeseDomain {
    General,
    Technical,
    Literary,
    News,
}

impl LintFormat {
    /// True when the report claims stdout, so a fixed document cannot also go
    /// there. Human output goes to stderr; every other renderer prints.
    pub fn report_owns_stdout(self) -> (r: bool)
        ensures
            r == (self != LintFormat::Human),
    {
        match self {
            LintFormat::Human => false,
            LintFormat::Json | LintFormat::Sarif | LintFormat::Compact | LintFormat::Tabular => {
                true
            },
        }
    }
}

/// Flags accepted after the `lint` subcommand.
#[derive(Debug)]
pub struct LintArgs {
    pub files: Vec<String>,
    pub format: LintFormat,
    pub max_errors: Option<usize>,
    pub max_warnings: Option<usize>,
    pub profile: Option<String>,
    pub content_type: Option<String>,
    pub exclude_patterns: Vec<String>,
    pub fix_mode: Option<FixMode>,
    pub dry_run: bool,
    pub explain: bool,
    pub relaxed: bool,
    pub exempt_blockquotes: bool,
    pub consistency: bool,
    pub detect_ai: bool,
    pub detect_translationese: bool,
    /// Emit the composite three-axis scorecard. Set only by `--detect-style`,
    /// which also sets the two flags above.
    pub detect_style: bool,
    pub translationese_domain: TranslationeseDomain,
    /// The AI threshold multiplier, in tenths.
    pub ai_threshold_tenths: u32,
    pub baseline_path: Option<String>,
    pub update_baseline: bool,
    pub diff_from: Option<String>,
    pub verify: bool,
    pub telemetry: bool,
}

/// What a `LintArgs` holds.
pub ghost struct LintView {
    pub files: Seq<Seq<char>>,
    pub format: LintFormat,
    pub max_errors: Option<usize>,
    pub max_warnings: Option<usize>,
    pub profile: Option<Seq<char>>,
    pub content_type: Option<Seq<char>>,
    pub exclude_patterns: Seq<Seq<char>>,
    pub fix_mode: Option<FixMode>,
    pub dry_run: bool,
    pub explain: bool,
    pub relaxed: bool,
    pub exempt_blockquotes: bool,
    pub consistency: bool,
    pub detect_ai: bool,
    pub detect_translationese: bool,
    pub detect_style: bool,
    pub translationese_domain: TranslationeseDomain,
    pub ai_threshold_tenths: u32,
    pub baseline_path: Option<Seq<char>>,
    pub update_baseline: bool,
    pub diff_from: Option<Seq<char>>,
    pub verify: bool,
    pub telemetry: bool,
}

impl View for LintArgs {
    type V = LintView;

    open spec fn view(&self) -> LintView {
        LintView {
            files: texts(self.files@),
            format: self.format,
            max_errors: self.max_errors,
            max_warnings: self.max_warnings,
            profile: opt_text(self.profile),
            content_type: opt_text(self.content_type),
            exclude_patterns: texts(self.exclude_patterns@),
            fix_mode: self.fix_mode,
            dry_run: self.dry_run,
            explain: self.explain,
            relaxed: self.relaxed,
            exempt_blockquotes: self.exempt_blockquotes,
            consistency: self.consistency,
            detect_ai: self.detect_ai,
            detect_translationese: self.detect_translationese,
            detect_style: self.detect_style,
            translationese_domain: self.translationese_domain,
            ai_threshold_tenths: self.ai_threshold_tenths,
            baseline_path: opt_text(self.baseline_path),
            update_baseline: self.update_baseline,
            diff_from: opt_text(self.diff_from),
            verify: self.verify,
            telemetry: self.telemetry,
        }
    }
}

/// What `lint` starts from: no files, human output, everything else off.
pub open spec fn lint_defaults() -> LintView {
    LintView {
        files: seq![],
        format: LintFormat::Human,
        max_errors: None,
        max_warnings: None,
        profile: None,
        content_type: None,
        exclude_patterns: seq![],
        fix_mode: None,
        dry_run: false,
        explain: false,
        relaxed: false,
        exempt_blockquotes: false,
        consistency: false,
        detect_ai: false,
        detect_translationese: false,
        detect_style: false,
        translationese_domain: TranslationeseDomain::General,
        ai_threshold_tenths: 10,
        baseline_path: None,
        update_baseline: false,
        diff_from: None,
        verify: false,
        telemetry: false,
    }
}

impl Default for LintArgs {
    fn default() -> (r: Self)
        ensures
            r@ == lint_defaults(),
    {
        let r = LintArgs {
            files: Vec::new(),
            format: LintFormat::Human,
            max_errors: None,
            max_warnings: None,
            profile: None,
            content_type: None,
            exclude_patterns: Vec::new(),
            fix_mode: None,
            dry_run: false,
            explain: false,
            relaxed: false,
            exempt_blockquotes: false,
            consistency: false,
            detect_ai: false,
            detect_translationese: false,
            detect_style: false,
            translationese_domain: TranslationeseDomain::General,
            ai_threshold_tenths: 10,
            baseline_path: None,
            update_baseline: false,
            diff_from: None,
            verify: false,
            telemetry: false,
        };
        assert(r@.files =~= lint_defaults().files);
        assert(r@.exclude_patterns =~= lint_defaults().exclude_patterns);
        r
    }
}

/// A flag that stands alone and turns something on.
#[derive(Clone, Copy, Debug, PartialEq, Eq, Structural)]
pub enum Switch {
    Relaxed,
    ExemptBlockquotes,
    Consistency,
    DryRun,
    Explain,
    UpdateBaseline,
    DetectTranslationese,
    Verify,
    Telemetry,
}

/// A flag that takes a text.
#[derive(Clone, Copy, Debug, PartialEq, Eq, Structural)]
pub enum TextFlag {
    Profile,
    ContentType,
    Exclude,
    Baseline,
    DiffFrom,
}

/// One thing that `lint` was told, as read off the command line.
pub enum LintItem<T> {
    Switch(Switch),
    Text(TextFlag, T),
    Format(LintFormat),
    MaxErrors(usize),
    MaxWarnings(usize),
    Fix(FixMode),
    DetectAi(Option<u32>),
    /// Both detectors and the scorecard.
    DetectStyle(Option<u32>),
    Domain(TranslationeseDomain),
    /// `--verbose` and `--debug`, which the log set-up reads on its own.
    LogLevel,
    File(T),
}

impl View for LintItem<String> {
    type V = LintItem<Seq<char>>;

    open spec fn view(&self) -> LintItem<Seq<char>> {
        match *self {
            LintItem::Switch(s) => LintItem::Switch(s),
            LintItem::Text(f, s) => LintItem::Text(f, s@),
            LintItem::Format(f) => LintItem::Format(f),
            LintItem::MaxErrors(n) => LintItem::MaxErrors(n),
            LintItem::MaxWarnings(n) => LintItem::MaxWarnings(n),
            LintItem::Fix(m) => LintItem::Fix(m),
            LintItem::DetectAi(l) => LintItem::DetectAi(l),
            LintItem::DetectStyle(l) => LintItem::DetectStyle(l),
            LintItem::Domain(d) => LintItem::Domain(d),
            LintItem::LogLevel => LintItem::LogLevel,
            LintItem::File(s) => LintItem::File(s@),
        }
    }
}

/// How many arguments an item takes up on the command line.
pub open spec fn item_width<T>(item: LintItem<T>) -> nat {
    match item {
        LintItem::Text(_, _)
        | LintItem::Format(_)
        | LintItem::MaxErrors(_)
        | LintItem::MaxWarnings(_)
        | LintItem::Domain(_) => 2,
        LintItem::DetectAi(level) | LintItem::DetectStyle(level) => if level is Some {
            2
        } else {
            1
        },
        _ => 1,
    }
}

/// What a switch does to the flags collected so far: its own flag is on.
pub open spec fn with_switch(a: LintView, switch: Switch) -> LintView {
    LintView {
        relaxed: a.relaxed || switch == Switch::Relaxed,
        exempt_blockquotes: a.exempt_blockquotes || switch == Switch::ExemptBlockquotes,
        consistency: a.consistency || switch == Switch::Consistency,
        dry_run: a.dry_run || switch == Switch::DryRun,
        explain: a.explain || switch == Switch::Explain,
        update_baseline: a.update_baseline || switch == Switch::UpdateBaseline,
        detect_translationese: a.detect_translationese || switch == Switch::DetectTranslationese,
        verify: a.verify || switch == Switch::Verify,
        telemetry: a.telemetry || switch == Switch::Telemetry,
        ..a
    }
}

/// What a flag with a text does to the flags collected so far.
pub open spec fn with_text(a: LintView, flag: TextFlag, s: Seq<char>) -> LintView {
    match flag {
        TextFlag::Profile => LintView { profile: Some(s), ..a },
        TextFlag::ContentType => LintView { content_type: Some(s), ..a },
        TextFlag::Exclude => LintView { exclude_patterns: a.exclude_patterns.push(s), ..a },
        TextFlag::Baseline => LintView { baseline_path: Some(s), ..a },
        TextFlag::DiffFrom => LintView { diff_from: Some(s), ..a },
    }
}

/// The threshold after a flag with an optional level: a flag without one
/// leaves it alone.
pub open spec fn leveled(level: Option<u32>, current: u32) -> u32 {
    match level {
        Some(t) => t,
        None => current,
    }
}

/// What an item does to the flags collected so far.
pub open spec fn with_item(a: LintView, item: LintItem<Seq<char>>) -> LintView {
    match item {
        LintItem::Switch(switch) => with_switch(a, switch),
        LintItem::Text(flag, s) => with_text(a, flag, s),
        LintItem::Format(f) => LintView { format: f, ..a },
        LintItem::MaxErrors(n) => LintView { max_errors: Some(n), ..a },
        LintItem::MaxWarnings(n) => LintView { max_warnings: Some(n), ..a },
        LintItem::Fix(m) => LintView { fix_mode: Some(m), ..a },
        LintItem::DetectAi(level) => LintView {
            detect_ai: true,
            ai_threshold_tenths: leveled(level, a.ai_threshold_tenths),
            ..a
        },
        LintItem::DetectStyle(level) => LintView {
            detect_ai: true,
            detect_translationese: true,
            detect_style: true,
            ai_threshold_tenths: leveled(level, a.ai_threshold_tenths),
            ..a
        },
        LintItem::Domain(d) => LintView { translationese_domain: d, ..a },
        LintItem::LogLevel => a,
        LintItem::File(s) => LintView { files: a.files.push(s), ..a },
    }
}

/// A `--content-type` value: the four content types by name, and two
/// abbreviations, which stand for the long form.
pub open spec fn content_type_value(value: Option<Seq<char>>) -> Result<Seq<char>, Seq<char>> {
    match value {
        None => Err("--content-type requires a value"@),
        Some(ct) => if ct == "md"@ {
            Ok("markdown"@)
        } else if ct == "yml"@ {
            Ok("yaml"@)
        } else if ct == "plain"@ || ct == "markdown"@ || ct == "markdown-scan-code"@ || ct
            == "yaml"@ {
            Ok(ct)
        } else {
            Err(
                "unknown content-type: "@ + ct
                    + " (expected 'plain', 'markdown', 'markdown-scan-code', or 'yaml')"@,
            )
        },
    }
}

/// Reads a required path value, with the flag's own message where it is missing.
pub fn path_value(value: Option<&String>, missing: &'static str) -> (r: Result<String, CliError>)
    ensures
        outcome(r) == match value {
            Some(s) => Ok::<Seq<char>, Seq<char>>(s@),
            None => Err(missing@),
        },
{
    match value {
        Some(s) => Ok(s.clone()),
        None => Err(fail(missing)),
    }
}

/// Validates a `--content-type` value. `lint` and `convert` share it, so a
/// typo is an error in both.
pub fn validated_content_type(value: Option<&String>) -> (r: Result<String, CliError>)
    ensures
        outcome(r) == content_type_value(
            match value {
                Some(s) => Some(s@),
                None => None,
            },
        ),
{
    match value {
        None => Err(fail("--content-type requires a value")),
        Some(ct) => {
            let s = ct.as_str();
            if same(s, "md") {
                Ok(string_from("markdown"))
            } else if same(s, "yml") {
                Ok(string_from("yaml"))
            } else if same(s, "plain") || same(s, "markdown") || same(s, "markdown-scan-code") || same(
                s,
                "yaml",
            ) {
                Ok(ct.clone())
            } else {
                Err(
                    fail_with(
                        "unknown content-type: ",
                        s,
                        " (expected 'plain', 'markdown', 'markdown-scan-code', or 'yaml')",
                    ),
                )
            }
        },
    }
}

/// The optional level after `--detect-ai` and `--detect-style`, in tenths.
pub open spec fn level_of(next: Option<Seq<char>>) -> Option<u32> {
    match next {
        Some(s) => if s == "low"@ {
            Some(5u32)
        } else if s == "medium"@ {
            Some(10u32)
        } else if s == "high"@ {
            Some(15u32)
        } else {
            None
        },
        None => None,
    }
}

/// Reads the optional `low|medium|high` level that may follow `--detect-ai`
/// and `--detect-style`. `None` means that the next argument is not a level,
/// and the threshold then stays as it is.
pub fn detect_threshold(next: Option<&String>) -> (r: Option<u32>)
    ensures
        r == level_of(
            match next {
                Some(s) => Some(s@),
                None => None,
            },
        ),
{
    match next {
        Some(s) => {
            if same(s.as_str(), "low") {
                Some(5)
            } else if same(s.as_str(), "medium") {
                Some(10)
            } else if same(s.as_str(), "high") {
                Some(15)
            } else {
                None
            }
        },
        None => None,
    }
}

/// The domains by name.
pub open spec fn domain_named(s: Seq<char>) -> Option<TranslationeseDomain> {
    if s == "general"@ {
        Some(TranslationeseDomain::General)
    } else if s == "technical"@ {
        Some(TranslationeseDomain::Technical)
    } else if s == "literary"@ {
        Some(TranslationeseDomain::Literary)
    } else if s == "news"@ {
        Some(TranslationeseDomain::News)
    } else {
        None
    }
}

impl TranslationeseDomain {
    /// The domain's name.
    pub open spec fn name_text(self) -> Seq<char> {
        match self {
            TranslationeseDomain::General => "general"@,
            TranslationeseDomain::Technical => "technical"@,
            TranslationeseDomain::Literary => "literary"@,
            TranslationeseDomain::News => "news"@,
        }
    }

    /// The domain's name.
    pub fn name(self) -> (r: &'static str)
        ensures
            r@ == self.name_text(),
    {
        match self {
            TranslationeseDomain::General => "general",
            TranslationeseDomain::Technical => "technical",
            TranslationeseDomain::Literary => "literary",
            TranslationeseDomain::News => "news",
        }
    }

    /// The domain of that name, and none for any other text.
    pub fn from_str_strict(s: &str) -> (r: Option<TranslationeseDomain>)
        ensures
            r == domain_named(s@),
    {
        if same(s, "general") {
            Some(TranslationeseDomain::General)
        } else if same(s, "technical") {
            Some(TranslationeseDomain::Technical)
        } else if same(s, "literary") {
            Some(TranslationeseDomain::Literary)
        } else if same(s, "news") {
            Some(TranslationeseDomain::News)
        } else {
            None
        }
    }
}

/// The report formats by name.
pub open spec fn format_value(value: Option<Seq<char>>) -> Result<LintFormat, Seq<char>> {
    match value {
        None => Err("--format requires a value"@),
        Some(s) => if s == "json"@ {
            Ok(LintFormat::Json)
        } else if s == "human"@ {
            Ok(LintFormat::Human)
        } else if s == "sarif"@ {
            Ok(LintFormat::Sarif)
        } else if s == "compact"@ {
            Ok(LintFormat::Compact)
        } else if s == "tabular"@ {
            Ok(LintFormat::Tabular)
        } else {
            Err(
                "unknown format: "@ + s
                    + " (expected 'json', 'human', 'sarif', 'compact', or 'tabular')"@,
            )
        },
    }
}

fn read_format(value: Option<&String>) -> (r: Result<LintFormat, CliError>)
    ensures
        match r {
            Ok(f) => format_value(opt_ref_text(value)) == Ok::<LintFormat, Seq<char>>(f),
            Err(e) => format_value(opt_ref_text(value)) == Err::<LintFormat, Seq<char>>(e.message@),
        },
{
    match value {
        None => Err(fail("--format requires a value")),
        Some(v) => {
            let s = v.as_str();
            if same(s, "json") {
                Ok(LintFormat::Json)
            } else if same(s, "human") {
                Ok(LintFormat::Human)
            } else if same(s, "sarif") {
                Ok(LintFormat::Sarif)
            } else if same(s, "compact") {
                Ok(LintFormat::Compact)
            } else if same(s, "tabular") {
                Ok(LintFormat::Tabular)
            } else {
                Err(
                    fail_with(
                        "unknown format: ",
                        s,
                        " (expected 'json', 'human', 'sarif', 'compact', or 'tabular')",
                    ),
                )
            }
        },
    }
}

/// The characters of an optional borrowed string.
pub open spec fn opt_ref_text(o: Option<&String>) -> Option<Seq<char>> {
    match o {
        Some(s) => Some(s@),
        None => None,
    }
}

/// A flag's number, or its message where there is none or it is not a number.
pub open spec fn number_value(
    value: Option<Seq<char>>,
    missing: Seq<char>,
    malformed: Seq<char>,
) -> Result<usize, Seq<char>> {
    match value {
        None => Err(missing),
        Some(s) => match usize_of_text(s) {
            Some(n) => Ok(n),
            None => Err(malformed),
        },
    }
}

fn read_number(value: Option<&String>, missing: &str, malformed: &str) -> (r: Result<
    usize,
    CliError,
>)
    ensures
        match r {
            Ok(n) => number_value(opt_ref_text(value), missing@, malformed@) == Ok::<
                usize,
                Seq<char>,
            >(n),
            Err(e) => number_value(opt_ref_text(value), missing@, malformed@) == Err::<
                usize,
                Seq<char>,
            >(e.message@),
        },
{
    match value {
        None => Err(fail(missing)),
        Some(s) => match parse_usize(s.as_str()) {
            Some(n) => Ok(n),
            None => Err(fail(malformed)),
        },
    }
}

/// The value of a flag that takes one, or the flag's message.
pub open spec fn required(value: Option<Seq<char>>, missing: Seq<char>) -> Result<
    Seq<char>,
    Seq<char>,
> {
    match value {
        Some(s) => Ok(s),
        None => Err(missing),
    }
}

/// A `--translationese-domain` value.
pub open spec fn domain_value(value: Option<Seq<char>>) -> Result<TranslationeseDomain, Seq<char>> {
    match value {
        None => Err(
            "--translationese-domain requires a value (general|technical|literary|news)"@,
        ),
        Some(s) => match domain_named(s) {
            Some(d) => Ok(d),
            None => Err(
                "unknown --translationese-domain value '"@ + s
                    + "' (expected: general|technical|literary|news)"@,
            ),
        },
    }
}

/// The item that begins at position `i` of the arguments after `lint`.
///
/// Anything that is not a known flag is a file path. `--verify` is known only
/// where the program was built with translation support.
#[verifier::opaque]
pub open spec fn lint_item(rest: Seq<Seq<char>>, i: int, translate: bool) -> Result<
    LintItem<Seq<char>>,
    Seq<char>,
> {
    let arg = rest[i];
    let next = arg_at(rest, i + 1);
    if arg == "--format"@ {
        match format_value(next) {
            Ok(f) => Ok(LintItem::Format(f)),
            Err(e) => Err(e),
        }
    } else if arg == "--max-errors"@ {
        match number_value(
            next,
            "--max-errors requires a number"@,
            "--max-errors must be a non-negative integer"@,
        ) {
            Ok(n) => Ok(LintItem::MaxErrors(n)),
            Err(e) => Err(e),
        }
    } else if arg == "--max-warnings"@ {
        match number_value(
            next,
            "--max-warnings requires a number"@,
            "--max-warnings must be a non-negative integer"@,
        ) {
            Ok(n) => Ok(LintItem::MaxWarnings(n)),
            Err(e) => Err(e),
        }
    } else if arg == "--profile"@ {
        match required(next, "--profile requires a value"@) {
            Ok(s) => Ok(LintItem::Text(TextFlag::Profile, s)),
            Err(e) => Err(e),
        }
    } else if arg == "--relaxed"@ {
        Ok(LintItem::Switch(Switch::Relaxed))
    } else if arg == "--exempt-blockquotes"@ {
        Ok(LintItem::Switch(Switch::ExemptBlockquotes))
    } else if arg == "--consistency"@ {
        Ok(LintItem::Switch(Switch::Consistency))
    } else if arg == "--content-type"@ {
        match content_type_value(next) {
            Ok(s) => Ok(LintItem::Text(TextFlag::ContentType, s)),
            Err(e) => Err(e),
        }
    } else if arg == "--exclude"@ {
        match required(next, "--exclude requires a pattern"@) {
            Ok(s) => Ok(LintItem::Text(TextFlag::Exclude, s)),
            Err(e) => Err(e),
        }
    } else if arg == "--fix"@ || arg == "--fix=lexical_safe"@ {
        Ok(LintItem::Fix(FixMode::LexicalSafe))
    } else if arg == "--fix=orthographic"@ {
        Ok(LintItem::Fix(FixMode::Orthographic))
    } else if arg == "--fix=lexical_contextual"@ {
        Ok(LintItem::Fix(FixMode::LexicalContextual))
    } else if "--fix="@.is_prefix_of(arg) {
        Err(
            "unknown fix mode: "@ + arg.skip(6)
                + " (expected 'orthographic', 'lexical_safe', or 'lexical_contextual')"@,
        )
    } else if arg == "--dry-run"@ {
        Ok(LintItem::Switch(Switch::DryRun))
    } else if arg == "--explain"@ {
        Ok(LintItem::Switch(Switch::Explain))
    } else if arg == "--baseline"@ {
        match required(next, "--baseline requires a file path"@) {
            Ok(s) => Ok(LintItem::Text(TextFlag::Baseline, s)),
            Err(e) => Err(e),
        }
    } else if arg == "--update-baseline"@ {
        Ok(LintItem::Switch(Switch::UpdateBaseline))
    } else if arg == "--diff-from"@ {
        match required(next, "--diff-from requires a git ref"@) {
            Ok(s) => Ok(LintItem::Text(TextFlag::DiffFrom, s)),
            Err(e) => Err(e),
        }
    } else if arg == "--detect-ai"@ {
        Ok(LintItem::DetectAi(level_of(next)))
    } else if arg == "--detect-translationese"@ {
        Ok(LintItem::Switch(Switch::DetectTranslationese))
    } else if arg == "--translationese-domain"@ {
        match domain_value(next) {
            Ok(d) => Ok(LintItem::Domain(d)),
            Err(e) => Err(e),
        }
    } else if arg == "--detect-style"@ {
        Ok(LintItem::DetectStyle(level_of(next)))
    } else if arg == "--verify"@ {
        if translate {
            Ok(LintItem::Switch(Switch::Verify))
        } else {
            Err(verify_needs_feature())
        }
    } else if arg == "--telemetry"@ {
        Ok(LintItem::Switch(Switch::Telemetry))
    } else if arg == "--verbose"@ || arg == "--debug"@ {
        Ok(LintItem::LogLevel)
    } else {
        Ok(LintItem::File(arg))
    }
}

/// What `--verify` is answered where the program has no translation support.
pub open spec fn verify_needs_feature() -> Seq<char> {
    "--verify requires the 'translate' feature; rebuild with --features translate"@
}

pub(crate) fn needs_feature() -> (e: CliError)
    ensures
        e.message@ == verify_needs_feature(),
{
    fail("--verify requires the 'translate' feature; rebuild with --features translate")
}

/// A flag's value as given.
pub(crate) fn read_value(value: Option<&String>, missing: &'static str) -> (r: Result<String, CliError>)
    ensures
        outcome(r) == required(opt_ref_text(value), missing@),
{
    path_value(value, missing)
}

fn read_domain(value: Option<&String>) -> (r: Result<TranslationeseDomain, CliError>)
    ensures
        match r {
            Ok(d) => domain_value(opt_ref_text(value)) == Ok::<TranslationeseDomain, Seq<char>>(d),
            Err(e) => domain_value(opt_ref_text(value)) == Err::<TranslationeseDomain, Seq<char>>(
                e.message@,
            ),
        },
{
    match value {
        None => Err(
            fail("--translationese-domain requires a value (general|technical|literary|news)"),
        ),
        Some(s) => match TranslationeseDomain::from_str_strict(s.as_str()) {
            Some(d) => Ok(d),
            None => Err(
                fail_with(
                    "unknown --translationese-domain value '",
                    s.as_str(),
                    "' (expected: general|technical|literary|news)",
                ),
            ),
        },
    }
}

fn unknown_fix_mode(arg: &str) -> (e: CliError)
    requires
        arg@.len() >= 6,
    ensures
        e.message@ == "unknown fix mode: "@ + arg@.skip(6)
            + " (expected 'orthographic', 'lexical_safe', or 'lexical_contextual')"@,
{
    let n = arg.unicode_len();
    let mode = arg.substring_char(6, n);
    assert(mode@ =~= arg@.skip(6));
    fail_with(
        "unknown fix mode: ",
        mode,
        " (expected 'orthographic', 'lexical_safe', or 'lexical_contextual')",
    )
}

/// Reads the item that begins at `i`.
fn read_lint_item(rest: &[String], i: usize, translate: bool) -> (r: Result<
    LintItem<String>,
    CliError,
>)
    requires
        i < rest.len(),
    ensures
        outcome(r) == lint_item(texts(rest@), i as int, translate),
{
    reveal(lint_item);
    let arg = rest[i].as_str();
    let next = arg_of(rest, i + 1);
    assert(arg@ == texts(rest@)[i as int]);
    assert(opt_ref_text(next) == arg_at(texts(rest@), i + 1));
    if same(arg, "--format") {
        match read_format(next) {
            Ok(f) => Ok(LintItem::Format(f)),
            Err(e) => Err(e),
        }
    } else if same(arg, "--max-errors") {
        match read_number(
            next,
            "--max-errors requires a number",
            "--max-errors must be a non-negative integer",
        ) {
            Ok(n) => Ok(LintItem::MaxErrors(n)),
            Err(e) => Err(e),
        }
    } else if same(arg, "--max-warnings") {
        match read_number(
            next,
            "--max-warnings requires a number",
            "--max-warnings must be a non-negative integer",
        ) {
            Ok(n) => Ok(LintItem::MaxWarnings(n)),
            Err(e) => Err(e),
        }
    } else if same(arg, "--profile") {
        match read_value(next, "--profile requires a value") {
            Ok(s) => Ok(LintItem::Text(TextFlag::Profile, s)),
            Err(e) => Err(e),
        }
    } else if same(arg, "--relaxed") {
        Ok(LintItem::Switch(Switch::Relaxed))
    } else if same(arg, "--exempt-blockquotes") {
        Ok(LintItem::Switch(Switch::ExemptBlockquotes))
    } else if same(arg, "--consistency") {
        Ok(LintItem::Switch(Switch::Consistency))
    } else if same(arg, "--content-type") {
        match validated_content_type(next) {
            Ok(s) => Ok(LintItem::Text(TextFlag::ContentType, s)),
            Err(e) => Err(e),
        }
    } else if same(arg, "--exclude") {
        match read_value(next, "--exclude requires a pattern") {
            Ok(s) => Ok(LintItem::Text(TextFlag::Exclude, s)),
            Err(e) => Err(e),
        }
    } else if same(arg, "--fix") || same(arg, "--fix=lexical_safe") {
        Ok(LintItem::Fix(FixMode::LexicalSafe))
    } else if same(arg, "--fix=orthographic") {
        Ok(LintItem::Fix(FixMode::Orthographic))
    } else if same(arg, "--fix=lexical_contextual") {
        Ok(LintItem::Fix(FixMode::LexicalContextual))
    } else if starts_with(arg, "--fix=") {
        proof {
            reveal_strlit("--fix=");
        }
        Err(unknown_fix_mode(arg))
    } else if same(arg, "--dry-run") {
        Ok(LintItem::Switch(Switch::DryRun))
    } else if same(arg, "--explain") {
        Ok(LintItem::Switch(Switch::Explain))
    } else if same(arg, "--baseline") {
        match read_value(next, "--baseline requires a file path") {
            Ok(s) => Ok(LintItem::Text(TextFlag::Baseline, s)),
            Err(e) => Err(e),
        }
    } else if same(arg, "--update-baseline") {
        Ok(LintItem::Switch(Switch::UpdateBaseline))
    } else if same(arg, "--diff-from") {
        match read_value(next, "--diff-from requires a git ref") {
            Ok(s) => Ok(LintItem::Text(TextFlag::DiffFrom, s)),
            Err(e) => Err(e),
        }
    } else if same(arg, "--detect-ai") {
        Ok(LintItem::DetectAi(detect_threshold(next)))
    } else if same(arg, "--detect-translationese") {
        Ok(LintItem::Switch(Switch::DetectTranslationese))
    } else if same(arg, "--translationese-domain") {
        match read_domain(next) {
            Ok(d) => Ok(LintItem::Domain(d)),
            Err(e) => Err(e),
        }
    } else if same(arg, "--detect-style") {
        Ok(LintItem::DetectStyle(detect_threshold(next)))
    } else if same(arg, "--verify") {
        if translate {
            Ok(LintItem::Switch(Switch::Verify))
        } else {
            Err(needs_feature())
        }
    } else if same(arg, "--telemetry") {
        Ok(LintItem::Switch(Switch::Telemetry))
    } else if same(arg, "--verbose") || same(arg, "--debug") {
        Ok(LintItem::LogLevel)
    } else {
        Ok(LintItem::File(rest[i].clone()))
    }
}

/// How many arguments an item takes up.
fn width_of(item: &LintItem<String>) -> (width: usize)
    ensures
        width == item_width(item@),
        1 <= width <= 2,
{
    match item {
        LintItem::Text(_, _)
        | LintItem::Format(_)
        | LintItem::MaxErrors(_)
        | LintItem::MaxWarnings(_)
        | LintItem::Domain(_) => 2,
        LintItem::DetectAi(level) | LintItem::DetectStyle(level) => if level.is_some() {
            2
        } else {
            1
        },
        _ => 1,
    }
}

fn apply_switch(lint: LintArgs, switch: Switch) -> (r: LintArgs)
    ensures
        r@ == with_switch(lint@, switch),
{
    LintArgs {
        relaxed: lint.relaxed || switch == Switch::Relaxed,
        exempt_blockquotes: lint.exempt_blockquotes || switch == Switch::ExemptBlockquotes,
        consistency: lint.consistency || switch == Switch::Consistency,
        dry_run: lint.dry_run || switch == Switch::DryRun,
        explain: lint.explain || switch == Switch::Explain,
        update_baseline: lint.update_baseline || switch == Switch::UpdateBaseline,
        detect_translationese: lint.detect_translationese || switch == Switch::DetectTranslationese,
        verify: lint.verify || switch == Switch::Verify,
        telemetry: lint.telemetry || switch == Switch::Telemetry,
        ..lint
    }
}

fn apply_text(lint: LintArgs, flag: TextFlag, s: String) -> (r: LintArgs)
    ensures
        r@ == with_text(lint@, flag, s@),
{
    match flag {
        TextFlag::Profile => LintArgs { profile: Some(s), ..lint },
        TextFlag::ContentType => LintArgs { content_type: Some(s), ..lint },
        TextFlag::Exclude => {
            let exclude_patterns = pushed(lint.exclude_patterns, s);
            LintArgs { exclude_patterns, ..lint }
        },
        TextFlag::Baseline => LintArgs { baseline_path: Some(s), ..lint },
        TextFlag::DiffFrom => LintArgs { diff_from: Some(s), ..lint },
    }
}

fn with_format(lint: LintArgs, f: LintFormat) -> (r: LintArgs)
    ensures
        r@ == (LintView { format: f, ..lint@ }),
{
    LintArgs { format: f, ..lint }
}

fn with_max_errors(lint: LintArgs, n: usize) -> (r: LintArgs)
    ensures
        r@ == (LintView { max_errors: Some(n), ..lint@ }),
{
    LintArgs { max_errors: Some(n), ..lint }
}

fn with_max_warnings(lint: LintArgs, n: usize) -> (r: LintArgs)
    ensures
        r@ == (LintView { max_warnings: Some(n), ..lint@ }),
{
    LintArgs { max_warnings: Some(n), ..lint }
}

fn with_fix(lint: LintArgs, m: FixMode) -> (r: LintArgs)
    ensures
        r@ == (LintView { fix_mode: Some(m), ..lint@ }),
{
    LintArgs { fix_mode: Some(m), ..lint }
}

fn with_detect_ai(lint: LintArgs, level: Option<u32>) -> (r: LintArgs)
    ensures
        r@ == with_item(lint@, LintItem::DetectAi(level)),
{
    let ai_threshold_tenths: u32 = level.unwrap_or(lint.ai_threshold_tenths);
    LintArgs { detect_ai: true, ai_threshold_tenths, ..lint }
}

fn with_detect_style(lint: LintArgs, level: Option<u32>) -> (r: LintArgs)
    ensures
        r@ == with_item(lint@, LintItem::DetectStyle(level)),
{
    let ai_threshold_tenths: u32 = level.unwrap_or(lint.ai_threshold_tenths);
    LintArgs {
        detect_ai: true,
        detect_translationese: true,
        detect_style: true,
        ai_threshold_tenths,
        ..lint
    }
}

fn with_domain(lint: LintArgs, d: TranslationeseDomain) -> (r: LintArgs)
    ensures
        r@ == (LintView { translationese_domain: d, ..lint@ }),
{
    LintArgs { translationese_domain: d, ..lint }
}

fn with_file(lint: LintArgs, s: String) -> (r: LintArgs)
    ensures
        r@ == (LintView { files: lint@.files.push(s@), ..lint@ }),
{
    let files = pushed(lint.files, s);
    LintArgs { files, ..lint }
}

/// The flags with one more item.
fn apply_lint_item(lint: LintArgs, item: LintItem<String>) -> (r: LintArgs)
    ensures
        r@ == with_item(lint@, item@),
{
    match item {
        LintItem::Switch(switch) => apply_switch(lint, switch),
        LintItem::Text(flag, s) => apply_text(lint, flag, s),
        LintItem::Format(f) => with_format(lint, f),
        LintItem::MaxErrors(n) => with_max_errors(lint, n),
        LintItem::MaxWarnings(n) => with_max_warnings(lint, n),
        LintItem::Fix(m) => with_fix(lint, m),
        LintItem::DetectAi(level) => with_detect_ai(lint, level),
        LintItem::DetectStyle(level) => with_detect_style(lint, level),
        LintItem::Domain(d) => with_domain(lint, d),
        LintItem::LogLevel => lint,
        LintItem::File(s) => with_file(lint, s),
    }
}

/// The flags after reading the items from position `i` on, in order.
pub open spec fn lint_from(rest: Seq<Seq<char>>, i: int, a: LintView, translate: bool) -> Result<
    LintView,
    Seq<char>,
>
    decreases (if i < rest.len() { rest.len() - i } else { 0 }),
{
    if i < 0 || i >= rest.len() {
        Ok(a)
    } else {
        match lint_item(rest, i, translate) {
            Err(e) => Err(e),
            Ok(item) => lint_from(rest, i + item_width(item), with_item(a, item), translate),
        }
    }
}

/// The flags that the arguments after `lint` ask for. There must be a file, and
/// the style scorecard exists in JSON only.
pub open spec fn lint_args(rest: Seq<Seq<char>>, translate: bool) -> Result<LintView, Seq<char>> {
    match lint_from(rest, 0, lint_defaults(), translate) {
        Err(e) => Err(e),
        Ok(a) => if a.files.len() == 0 {
            Err("lint requires at least one file path or '--' for stdin"@)
        } else if a.detect_style && a.format != LintFormat::Json {
            Err("--detect-style is only supported with --format json"@)
        } else {
            Ok(a)
        },
    }
}

/// Parses the arguments after `lint`, which takes the rest of the command
/// line, and says how many it used.
pub fn parse_lint(rest: &[String], translate: bool) -> (r: Result<(LintArgs, usize), CliError>)
    ensures
        match r {
            Ok((lint, used)) => {
                &&& lint_args(texts(rest@), translate) == Ok::<LintView, Seq<char>>(lint@)
                &&& used == rest.len()
            },
            Err(e) => lint_args(texts(rest@), translate) == Err::<LintView, Seq<char>>(e.message@),
        },
{
    let mut lint = LintArgs::default();
    let mut i: usize = 0;
    while i < rest.len()
        invariant
            i <= rest.len(),
            lint_from(texts(rest@), 0, lint_defaults(), translate) == lint_from(
                texts(rest@),
                i as int,
                lint@,
                translate,
            ),
        decreases rest.len() - i,
    {
        match read_lint_item(rest, i, translate) {
            Ok(item) => {
                proof {
                    lemma_item_fits(texts(rest@), i as int, translate);
                }
                let width = width_of(&item);
                lint = apply_lint_item(lint, item);
                i += width;
            },
            Err(e) => {
                return Err(e);
            },
        }
    }
    if lint.files.len() == 0 {
        return Err(fail("lint requires at least one file path or '--' for stdin"));
    }
    if lint.detect_style && lint.format != LintFormat::Json {
        return Err(fail("--detect-style is only supported with --format json"));
    }
    Ok((lint, i))
}

/// An item that takes two arguments has both of them on the command line.
proof fn lemma_item_fits(rest: Seq<Seq<char>>, i: int, translate: bool)
    requires
        0 <= i < rest.len(),
        lint_item(rest, i, translate) is Ok,
    ensures
        i + item_width(lint_item(rest, i, translate)->Ok_0) <= rest.len(),
{
    reveal(lint_item);
}

/// The style flag stands for both detectors, in any state of the flags.
pub open spec fn style_implies_detectors(a: LintView) -> bool {
    a.detect_style ==> a.detect_ai && a.detect_translationese
}

proof fn lemma_style_implies_detectors(
    rest: Seq<Seq<char>>,
    i: int,
    a: LintView,
    translate: bool,
)
    requires
        style_implies_detectors(a),
        lint_from(rest, i, a, translate) is Ok,
    ensures
        style_implies_detectors(lint_from(rest, i, a, translate)->Ok_0),
    decreases (if i < rest.len() { rest.len() - i } else { 0 }),
{
    if 0 <= i < rest.len() {
        let item = lint_item(rest, i, translate)->Ok_0;
        lemma_style_implies_detectors(
            rest,
            i + item_width(item),
            with_item(a, item),
            translate,
        );
    }
}

/// Whatever `lint` accepts has a file to read, and the style scorecard comes
/// only with both detectors and in JSON.
pub proof fn law_accepted_lint_is_complete(rest: Seq<Seq<char>>, translate: bool)
    requires
        lint_args(rest, translate) is Ok,
    ensures
        ({
            let a = lint_args(rest, translate)->Ok_0;
            &&& a.files.len() > 0
            &&& a.detect_style ==> a.detect_ai && a.detect_translationese && a.format
                == LintFormat::Json
        }),
{
    lemma_style_implies_detectors(rest, 0, lint_defaults(), translate);
}

/// A detector flag without a level keeps the threshold that an earlier flag
/// set, so the order of the two flags does not matter.
pub proof fn law_detector_flags_commute(a: LintView, level: Option<u32>)
    ensures
        with_item(with_item(a, LintItem::DetectAi(level)), LintItem::DetectStyle(None))
            == with_item(with_item(a, LintItem::DetectStyle(None)), LintItem::DetectAi(level)),
        with_item(a, LintItem::DetectAi(None)).ai_threshold_tenths == a.ai_threshold_tenths,
        with_item(a, LintItem::DetectStyle(None)).ai_threshold_tenths == a.ai_threshold_tenths,
{
}

/// The log flags are accepted anywhere after `lint` and change nothing in what
/// is parsed.
pub proof fn law_log_flags_change_nothing(
    rest: Seq<Seq<char>>,
    i: int,
    a: LintView,
    translate: bool,
)
    requires
        0 <= i < rest.len(),
        rest[i] == "--verbose"@ || rest[i] == "--debug"@,
    ensures
        lint_from(rest, i, a, translate) == lint_from(rest, i + 1, a, translate),
{
    reveal(lint_item);
    reveal_strlit("--format");
    reveal_strlit("--max-errors");
    reveal_strlit("--max-warnings");
    reveal_strlit("--profile");
    reveal_strlit("--relaxed");
    reveal_strlit("--exempt-blockquotes");
    reveal_strlit("--consistency");
    reveal_strlit("--content-type");
    reveal_strlit("--exclude");
    reveal_strlit("--fix");
    reveal_strlit("--fix=lexical_safe");
    reveal_strlit("--fix=orthographic");
    reveal_strlit("--fix=lexical_contextual");
    reveal_strlit("--fix=");
    reveal_strlit("--dry-run");
    reveal_strlit("--explain");
    reveal_strlit("--baseline");
    reveal_strlit("--update-baseline");
    reveal_strlit("--diff-from");
    reveal_strlit("--detect-ai");
    reveal_strlit("--detect-translationese");
    reveal_strlit("--translationese-domain");
    reveal_strlit("--detect-style");
    reveal_strlit("--verify");
    reveal_strlit("--telemetry");
    reveal_strlit("--verbose");
    reveal_strlit("--debug");
    if rest[i] == "--verbose"@ {
        assert(rest[i][2] == 'v' && rest[i][4] == 'r' && rest[i][5] == 'b');
    } else {
        assert(rest[i][2] == 'd' && rest[i][4] == 'b');
    }
    if "--fix="@.is_prefix_of(rest[i]) {
        assert(rest[i].subrange(0, 6)[2] == 'f');
    }
    assert(lint_item(rest, i, translate) == Ok::<LintItem<Seq<char>>, Seq<char>>(
        LintItem::LogLevel,
    ));
}

/// How long each flag is, and the characters that tell flags of one length apart.
proof fn lemma_flags_apart()
    ensures
        "--format"@.len() == 8 && "--format"@[2] == 'f' && "--format"@[3] == 'o' && "--format"@[4] == 'r',
        "--max-errors"@.len() == 12 && "--max-errors"@[2] == 'm' && "--max-errors"@[3] == 'a' && "--max-errors"@[4] == 'x',
        "--max-warnings"@.len() == 14 && "--max-warnings"@[2] == 'm' && "--max-warnings"@[3] == 'a' && "--max-warnings"@[4] == 'x',
        "--profile"@.len() == 9 && "--profile"@[2] == 'p' && "--profile"@[3] == 'r' && "--profile"@[4] == 'o',
        "--relaxed"@.len() == 9 && "--relaxed"@[2] == 'r' && "--relaxed"@[3] == 'e' && "--relaxed"@[4] == 'l',
        "--exempt-blockquotes"@.len() == 20 && "--exempt-blockquotes"@[2] == 'e' && "--exempt-blockquotes"@[3] == 'x' && "--exempt-blockquotes"@[4] == 'e',
        "--consistency"@.len() == 13 && "--consistency"@[2] == 'c' && "--consistency"@[3] == 'o' && "--consistency"@[4] == 'n',
        "--content-type"@.len() == 14 && "--content-type"@[2] == 'c' && "--content-type"@[3] == 'o' && "--content-type"@[4] == 'n',
        "--exclude"@.len() == 9 && "--exclude"@[2] == 'e' && "--exclude"@[3] == 'x' && "--exclude"@[4] == 'c',
        "--fix"@.len() == 5 && "--fix"@[2] == 'f' && "--fix"@[3] == 'i' && "--fix"@[4] == 'x',
        "--fix=lexical_safe"@.len() == 18 && "--fix=lexical_safe"@[2] == 'f' && "--fix=lexical_safe"@[3] == 'i' && "--fix=lexical_safe"@[4] == 'x' && "--fix=lexical_safe"@[6] == 'l',
        "--fix=orthographic"@.len() == 18 && "--fix=orthographic"@[2] == 'f' && "--fix=orthographic"@[3] == 'i' && "--fix=orthographic"@[4] == 'x' && "--fix=orthographic"@[6] == 'o',
        "--fix=lexical_contextual"@.len() == 24 && "--fix=lexical_contextual"@[2] == 'f' && "--fix=lexical_contextual"@[3] == 'i' && "--fix=lexical_contextual"@[4] == 'x',
        "--dry-run"@.len() == 9 && "--dry-run"@[2] == 'd' && "--dry-run"@[3] == 'r' && "--dry-run"@[4] == 'y',
        "--explain"@.len() == 9 && "--explain"@[2] == 'e' && "--explain"@[3] == 'x' && "--explain"@[4] == 'p',
        "--baseline"@.len() == 10 && "--baseline"@[2] == 'b' && "--baseline"@[3] == 'a' && "--baseline"@[4] == 's',
        "--update-baseline"@.len() == 17 && "--update-baseline"@[2] == 'u' && "--update-baseline"@[3] == 'p' && "--update-baseline"@[4] == 'd',
        "--diff-from"@.len() == 11 && "--diff-from"@[2] == 'd' && "--diff-from"@[3] == 'i' && "--diff-from"@[4] == 'f',
        "--detect-ai"@.len() == 11 && "--detect-ai"@[2] == 'd' && "--detect-ai"@[3] == 'e' && "--detect-ai"@[4] == 't',
        "--detect-translationese"@.len() == 23 && "--detect-translationese"@[2] == 'd' && "--detect-translationese"@[3] == 'e' && "--detect-translationese"@[4] == 't',
        "--translationese-domain"@.len() == 23 && "--translationese-domain"@[2] == 't' && "--translationese-domain"@[3] == 'r' && "--translationese-domain"@[4] == 'a',
        "--detect-style"@.len() == 14 && "--detect-style"@[2] == 'd' && "--detect-style"@[3] == 'e' && "--detect-style"@[4] == 't',
        "--verify"@.len() == 8 && "--verify"@[2] == 'v' && "--verify"@[3] == 'e' && "--verify"@[4] == 'r',
        "--telemetry"@.len() == 11 && "--telemetry"@[2] == 't' && "--telemetry"@[3] == 'e' && "--telemetry"@[4] == 'l',
        "--verbose"@.len() == 9 && "--verbose"@[2] == 'v' && "--verbose"@[3] == 'e' && "--verbose"@[4] == 'r',
        "--debug"@.len() == 7 && "--debug"@[2] == 'd' && "--debug"@[3] == 'e' && "--debug"@[4] == 'b',
        forall|arg: Seq<char>| #[trigger] "--fix="@.is_prefix_of(arg) ==> arg.len() >= 6 && arg[2]
            == 'f' && arg[3] == 'i',
{
    reveal_strlit("--format");
    reveal_strlit("--max-errors");
    reveal_strlit("--max-warnings");
    reveal_strlit("--profile");
    reveal_strlit("--relaxed");
    reveal_strlit("--exempt-blockquotes");
    reveal_strlit("--consistency");
    reveal_strlit("--content-type");
    reveal_strlit("--exclude");
    reveal_strlit("--fix");
    reveal_strlit("--fix=lexical_safe");
    reveal_strlit("--fix=orthographic");
    reveal_strlit("--fix=lexical_contextual");
    reveal_strlit("--dry-run");
    reveal_strlit("--explain");
    reveal_strlit("--baseline");
    reveal_strlit("--update-baseline");
    reveal_strlit("--diff-from");
    reveal_strlit("--detect-ai");
    reveal_strlit("--detect-translationese");
    reveal_strlit("--translationese-domain");
    reveal_strlit("--detect-style");
    reveal_strlit("--verify");
    reveal_strlit("--telemetry");
    reveal_strlit("--verbose");
    reveal_strlit("--debug");
    reveal_strlit("--fix=");
    assert forall|arg: Seq<char>| #[trigger] "--fix="@.is_prefix_of(arg) implies arg.len() >= 6
        && arg[2] == 'f' && arg[3] == 'i' by {
        assert(arg.subrange(0, 6)[2] == 'f' && arg.subrange(0, 6)[3] == 'i');
    }
}

/// A flag that takes no value is read as what it is named for, wherever it
/// stands; verification needs a build that can translate.
pub proof fn law_switches(rest: Seq<Seq<char>>, i: int, translate: bool)
    requires
        0 <= i < rest.len(),
    ensures
        ({
            let is = |flag: Seq<char>, switch: Switch|
                rest[i] == flag ==> lint_item(rest, i, translate) == Ok::<
                    LintItem<Seq<char>>,
                    Seq<char>,
                >(LintItem::Switch(switch));
            &&& is("--relaxed"@, Switch::Relaxed)
            &&& is("--exempt-blockquotes"@, Switch::ExemptBlockquotes)
            &&& is("--consistency"@, Switch::Consistency)
            &&& is("--dry-run"@, Switch::DryRun)
            &&& is("--explain"@, Switch::Explain)
            &&& is("--update-baseline"@, Switch::UpdateBaseline)
            &&& is("--detect-translationese"@, Switch::DetectTranslationese)
            &&& is("--telemetry"@, Switch::Telemetry)
            &&& translate ==> is("--verify"@, Switch::Verify)
            &&& !translate && rest[i] == "--verify"@ ==> lint_item(rest, i, translate) == Err::<
                LintItem<Seq<char>>,
                Seq<char>,
            >("--verify requires the 'translate' feature; rebuild with --features translate"@)
        }),
{
    reveal(lint_item);
    lemma_flags_apart();
}

/// A flag that takes a value is read with the argument after it, whatever that
/// looks like, and refused where there is none.
pub proof fn law_flags_with_a_value(rest: Seq<Seq<char>>, i: int, translate: bool)
    requires
        0 <= i < rest.len(),
    ensures
        ({
            let takes = |flag: Seq<char>, text: TextFlag, missing: Seq<char>|
                rest[i] == flag ==> lint_item(rest, i, translate) == if i + 1 < rest.len() {
                    Ok::<LintItem<Seq<char>>, Seq<char>>(LintItem::Text(text, rest[i + 1]))
                } else {
                    Err(missing)
                };
            &&& takes("--profile"@, TextFlag::Profile, "--profile requires a value"@)
            &&& takes("--exclude"@, TextFlag::Exclude, "--exclude requires a pattern"@)
            &&& takes("--baseline"@, TextFlag::Baseline, "--baseline requires a file path"@)
            &&& takes("--diff-from"@, TextFlag::DiffFrom, "--diff-from requires a git ref"@)
        }),
{
    reveal(lint_item);
    lemma_flags_apart();
}

/// A limit is read as the number after its flag, and refused where there is none
/// or where it is no number.
pub proof fn law_limits(rest: Seq<Seq<char>>, i: int, translate: bool)
    requires
        0 <= i < rest.len(),
        rest[i] == "--max-errors"@ || rest[i] == "--max-warnings"@,
    ensures
        ({
            let item = lint_item(rest, i, translate);
            let errors = rest[i] == "--max-errors"@;
            let n = usize_of_text(rest[i + 1]);
            &&& i + 1 < rest.len() && n is Some && errors ==> item == Ok::<
                LintItem<Seq<char>>,
                Seq<char>,
            >(LintItem::MaxErrors(n->Some_0))
            &&& i + 1 < rest.len() && n is Some && !errors ==> item == Ok::<
                LintItem<Seq<char>>,
                Seq<char>,
            >(LintItem::MaxWarnings(n->Some_0))
            &&& i + 1 < rest.len() && n is None ==> item == Err::<LintItem<Seq<char>>, Seq<char>>(
                rest[i] + " must be a non-negative integer"@,
            )
            &&& i + 1 == rest.len() ==> item == Err::<LintItem<Seq<char>>, Seq<char>>(
                rest[i] + " requires a number"@,
            )
        }),
{
    reveal(lint_item);
    lemma_flags_apart();
    reveal_strlit("--max-errors");
    reveal_strlit("--max-warnings");
    reveal_strlit(" must be a non-negative integer");
    reveal_strlit(" requires a number");
    reveal_strlit("--max-errors must be a non-negative integer");
    reveal_strlit("--max-warnings must be a non-negative integer");
    reveal_strlit("--max-errors requires a number");
    reveal_strlit("--max-warnings requires a number");
    assert("--max-errors"@ + " must be a non-negative integer"@
        =~= "--max-errors must be a non-negative integer"@);
    assert("--max-warnings"@ + " must be a non-negative integer"@
        =~= "--max-warnings must be a non-negative integer"@);
    assert("--max-errors"@ + " requires a number"@ =~= "--max-errors requires a number"@);
    assert("--max-warnings"@ + " requires a number"@ =~= "--max-warnings requires a number"@);
}

/// The format, the content type and the domain are read from the argument after
/// their flags.
pub proof fn law_named_values(rest: Seq<Seq<char>>, i: int, translate: bool)
    requires
        0 <= i < rest.len(),
    ensures
        ({
            let item = lint_item(rest, i, translate);
            let next = arg_at(rest, i + 1);
            &&& rest[i] == "--format"@ ==> match format_value(next) {
                Ok(f) => item == Ok::<LintItem<Seq<char>>, Seq<char>>(LintItem::Format(f)),
                Err(e) => item == Err::<LintItem<Seq<char>>, Seq<char>>(e),
            }
            &&& rest[i] == "--content-type"@ ==> match content_type_value(next) {
                Ok(s) => item == Ok::<LintItem<Seq<char>>, Seq<char>>(
                    LintItem::Text(TextFlag::ContentType, s),
                ),
                Err(e) => item == Err::<LintItem<Seq<char>>, Seq<char>>(e),
            }
            &&& rest[i] == "--translationese-domain"@ ==> match domain_value(next) {
                Ok(d) => item == Ok::<LintItem<Seq<char>>, Seq<char>>(LintItem::Domain(d)),
                Err(e) => item == Err::<LintItem<Seq<char>>, Seq<char>>(e),
            }
        }),
{
    reveal(lint_item);
    lemma_flags_apart();
}

/// The fix modes by their names, with the safe one where none is named.
pub proof fn law_fix_modes(rest: Seq<Seq<char>>, i: int, translate: bool)
    requires
        0 <= i < rest.len(),
    ensures
        ({
            let item = lint_item(rest, i, translate);
            let arg = rest[i];
            let known = arg == "--fix=lexical_safe"@ || arg == "--fix=orthographic"@ || arg
                == "--fix=lexical_contextual"@;
            &&& arg == "--fix"@ || arg == "--fix=lexical_safe"@ ==> item == Ok::<
                LintItem<Seq<char>>,
                Seq<char>,
            >(LintItem::Fix(FixMode::LexicalSafe))
            &&& arg == "--fix=orthographic"@ ==> item == Ok::<LintItem<Seq<char>>, Seq<char>>(
                LintItem::Fix(FixMode::Orthographic),
            )
            &&& arg == "--fix=lexical_contextual"@ ==> item == Ok::<LintItem<Seq<char>>, Seq<char>>(
                LintItem::Fix(FixMode::LexicalContextual),
            )
            &&& "--fix="@.is_prefix_of(arg) && !known ==> item == Err::<
                LintItem<Seq<char>>,
                Seq<char>,
            >(
                "unknown fix mode: "@ + arg.skip(6)
                    + " (expected 'orthographic', 'lexical_safe', or 'lexical_contextual')"@,
            )
        }),
{
    reveal(lint_item);
    lemma_flags_apart();
}

/// A detector's flag takes the argument after it as its level exactly where that
/// names one, and leaves it alone otherwise.
pub proof fn law_detector_levels(rest: Seq<Seq<char>>, i: int, translate: bool)
    requires
        0 <= i < rest.len(),
    ensures
        ({
            let item = lint_item(rest, i, translate);
            let next = arg_at(rest, i + 1);
            let level = if next == Some("low"@) {
                Some(5u32)
            } else if next == Some("medium"@) {
                Some(10u32)
            } else if next == Some("high"@) {
                Some(15u32)
            } else {
                None
            };
            &&& rest[i] == "--detect-ai"@ ==> item == Ok::<LintItem<Seq<char>>, Seq<char>>(
                LintItem::DetectAi(level),
            )
            &&& rest[i] == "--detect-style"@ ==> item == Ok::<LintItem<Seq<char>>, Seq<char>>(
                LintItem::DetectStyle(level),
            )
        }),
{
    reveal(lint_item);
    lemma_flags_apart();
}

/// The flags of `lint`.
pub open spec fn lint_flags() -> Seq<Seq<char>> {
    seq![
        "--format"@,
        "--max-errors"@,
        "--max-warnings"@,
        "--profile"@,
        "--relaxed"@,
        "--exempt-blockquotes"@,
        "--consistency"@,
        "--content-type"@,
        "--exclude"@,
        "--fix"@,
        "--fix=lexical_safe"@,
        "--fix=orthographic"@,
        "--fix=lexical_contextual"@,
        "--dry-run"@,
        "--explain"@,
        "--baseline"@,
        "--update-baseline"@,
        "--diff-from"@,
        "--detect-ai"@,
        "--detect-translationese"@,
        "--translationese-domain"@,
        "--detect-style"@,
        "--verify"@,
        "--telemetry"@,
        "--verbose"@,
        "--debug"@,
    ]
}

/// Whatever is no flag of `lint` is a file to be linted, whatever it looks like;
/// only what begins as a fix mode is taken for one.
pub proof fn law_what_is_no_flag_is_a_file(rest: Seq<Seq<char>>, i: int, translate: bool)
    requires
        0 <= i < rest.len(),
        !"--fix="@.is_prefix_of(rest[i]),
        !lint_flags().contains(rest[i]),
    ensures
        lint_item(rest, i, translate) == Ok::<LintItem<Seq<char>>, Seq<char>>(
            LintItem::File(rest[i]),
        ),
{
    reveal(lint_item);
    let flags = lint_flags();
    assert(flags[0] == "--format"@);
    assert(flags[1] == "--max-errors"@);
    assert(flags[2] == "--max-warnings"@);
    assert(flags[3] == "--profile"@);
    assert(flags[4] == "--relaxed"@);
    assert(flags[5] == "--exempt-blockquotes"@);
    assert(flags[6] == "--consistency"@);
    assert(flags[7] == "--content-type"@);
    assert(flags[8] == "--exclude"@);
    assert(flags[9] == "--fix"@);
    assert(flags[10] == "--fix=lexical_safe"@);
    assert(flags[11] == "--fix=orthographic"@);
    assert(flags[12] == "--fix=lexical_contextual"@);
    assert(flags[13] == "--dry-run"@);
    assert(flags[14] == "--explain"@);
    assert(flags[15] == "--baseline"@);
    assert(flags[16] == "--update-baseline"@);
    assert(flags[17] == "--diff-from"@);
    assert(flags[18] == "--detect-ai"@);
    assert(flags[19] == "--detect-translationese"@);
    assert(flags[20] == "--translationese-domain"@);
    assert(flags[21] == "--detect-style"@);
    assert(flags[22] == "--verify"@);
    assert(flags[23] == "--telemetry"@);
    assert(flags[24] == "--verbose"@);
    assert(flags[25] == "--debug"@);
}

/// Arguments are read from left to right, each with the value that belongs to
/// it, and the first that is refused ends the reading.
pub proof fn law_arguments_are_read_in_order(
    rest: Seq<Seq<char>>,
    i: int,
    a: LintView,
    translate: bool,
)
    requires
        0 <= i < rest.len(),
    ensures
        ({
            let item = lint_item(rest, i, translate);
            &&& item is Err ==> lint_from(rest, i, a, translate) == Err::<LintView, Seq<char>>(
                item->Err_0,
            )
            &&& item is Ok ==> ({
                let it = item->Ok_0;
                let valued = it is Text || it is Format || it is MaxErrors || it is MaxWarnings
                    || it is Domain || (it is DetectAi && it->DetectAi_0 is Some) || (it
                    is DetectStyle && it->DetectStyle_0 is Some);
                lint_from(rest, i, a, translate) == lint_from(
                    rest,
                    if valued {
                        i + 2
                    } else {
                        i + 1
                    },
                    with_item(a, it),
                    translate,
                )
            })
        }),
        lint_from(rest, rest.len() as int, a, translate) == Ok::<LintView, Seq<char>>(a),
{
}

/// A switch turns on what it is named for, and changes nothing else.
pub proof fn law_a_switch_turns_on_one_thing(a: LintView, switch: Switch)
    ensures
        ({
            let b = with_switch(a, switch);
            &&& b.relaxed <==> a.relaxed || switch == Switch::Relaxed
            &&& b.exempt_blockquotes <==> a.exempt_blockquotes || switch
                == Switch::ExemptBlockquotes
            &&& b.consistency <==> a.consistency || switch == Switch::Consistency
            &&& b.dry_run <==> a.dry_run || switch == Switch::DryRun
            &&& b.explain <==> a.explain || switch == Switch::Explain
            &&& b.update_baseline <==> a.update_baseline || switch == Switch::UpdateBaseline
            &&& b.detect_translationese <==> a.detect_translationese || switch
                == Switch::DetectTranslationese
            &&& b.verify <==> a.verify || switch == Switch::Verify
            &&& b.telemetry <==> a.telemetry || switch == Switch::Telemetry
            &&& b == (LintView {
                relaxed: b.relaxed,
                exempt_blockquotes: b.exempt_blockquotes,
                consistency: b.consistency,
                dry_run: b.dry_run,
                explain: b.explain,
                update_baseline: b.update_baseline,
                detect_translationese: b.detect_translationese,
                verify: b.verify,
                telemetry: b.telemetry,
                ..a
            })
        }),
{
}

/// A value goes where its flag says: patterns and files add up, and of the
/// others the last one stands. Nothing else changes.
pub proof fn law_a_value_goes_where_its_flag_says(
    a: LintView,
    s: Seq<char>,
    n: usize,
    f: LintFormat,
    m: FixMode,
    d: TranslationeseDomain,
    switch: Switch,
)
    ensures
        with_item(a, LintItem::Switch(switch)) == with_switch(a, switch),
        with_item(a, LintItem::Text(TextFlag::Profile, s)) == (LintView { profile: Some(s), ..a }),
        with_item(a, LintItem::Text(TextFlag::ContentType, s)) == (LintView {
            content_type: Some(s),
            ..a
        }),
        with_item(a, LintItem::Text(TextFlag::Exclude, s)) == (LintView {
            exclude_patterns: a.exclude_patterns.push(s),
            ..a
        }),
        with_item(a, LintItem::Text(TextFlag::Baseline, s)) == (LintView {
            baseline_path: Some(s),
            ..a
        }),
        with_item(a, LintItem::Text(TextFlag::DiffFrom, s)) == (LintView {
            diff_from: Some(s),
            ..a
        }),
        with_item(a, LintItem::Format(f)) == (LintView { format: f, ..a }),
        with_item(a, LintItem::MaxErrors(n)) == (LintView { max_errors: Some(n), ..a }),
        with_item(a, LintItem::MaxWarnings(n)) == (LintView { max_warnings: Some(n), ..a }),
        with_item(a, LintItem::Fix(m)) == (LintView { fix_mode: Some(m), ..a }),
        with_item(a, LintItem::Domain(d)) == (LintView { translationese_domain: d, ..a }),
        with_item(a, LintItem::File(s)) == (LintView { files: a.files.push(s), ..a }),
        with_item(a, LintItem::LogLevel) == a,
{
}

/// A detector is turned on with the level that was given, and with the current
/// one where none was; the composite one turns on both detectors.
pub proof fn law_a_detector_is_turned_on(a: LintView, level: Option<u32>)
    ensures
        ({
            let ai = with_item(a, LintItem::DetectAi(level));
            let style = with_item(a, LintItem::DetectStyle(level));
            let tenths = if level is Some { level->Some_0 } else { a.ai_threshold_tenths };
            &&& ai.detect_ai && ai.ai_threshold_tenths == tenths
            &&& ai == (LintView { detect_ai: true, ai_threshold_tenths: tenths, ..a })
            &&& style.detect_ai && style.detect_translationese && style.detect_style
            &&& style == (LintView {
                detect_ai: true,
                detect_translationese: true,
                detect_style: true,
                ai_threshold_tenths: tenths,
                ..a
            })
        }),
{
}

/// Without arguments nothing is asked for: the human format, no limit, no fix,
/// and no detector.
pub proof fn law_what_holds_by_default()
    ensures
        ({
            let a = lint_defaults();
            &&& a.files.len() == 0 && a.exclude_patterns.len() == 0
            &&& a.format == LintFormat::Human
            &&& a.max_errors is None && a.max_warnings is None
            &&& a.profile is None && a.content_type is None && a.fix_mode is None
            &&& a.baseline_path is None && a.diff_from is None
            &&& !a.dry_run && !a.explain && !a.relaxed && !a.exempt_blockquotes && !a.consistency
            &&& !a.detect_ai && !a.detect_translationese && !a.detect_style
            &&& !a.update_baseline && !a.verify && !a.telemetry
            &&& a.translationese_domain == TranslationeseDomain::General
            &&& a.ai_threshold_tenths == 10
        }),
{
}

/// `lint` accepts what its arguments say exactly where they name a file and ask
/// for the scorecard, if at all, in the format that carries it.
pub proof fn law_when_lint_accepts(rest: Seq<Seq<char>>, translate: bool)
    ensures
        ({
            let read = lint_from(rest, 0, lint_defaults(), translate);
            let r = lint_args(rest, translate);
            &&& read is Err ==> r == read
            &&& read is Ok ==> ({
                let a = read->Ok_0;
                &&& a.files.len() == 0 ==> r == Err::<LintView, Seq<char>>(
                    "lint requires at least one file path or '--' for stdin"@,
                )
                &&& a.files.len() > 0 && a.detect_style && a.format != LintFormat::Json ==> r
                    == Err::<LintView, Seq<char>>(
                    "--detect-style is only supported with --format json"@,
                )
                &&& a.files.len() > 0 && (!a.detect_style || a.format == LintFormat::Json) ==> r
                    == read
            })
        }),
{
}

/// The formats and the domains by their names, and what is said of other names.
pub proof fn law_names_of_values(s: Seq<char>, d: TranslationeseDomain)
    ensures
        format_value(Some("human"@)) == Ok::<LintFormat, Seq<char>>(LintFormat::Human),
        format_value(Some("json"@)) == Ok::<LintFormat, Seq<char>>(LintFormat::Json),
        format_value(Some("sarif"@)) == Ok::<LintFormat, Seq<char>>(LintFormat::Sarif),
        format_value(Some("compact"@)) == Ok::<LintFormat, Seq<char>>(LintFormat::Compact),
        format_value(Some("tabular"@)) == Ok::<LintFormat, Seq<char>>(LintFormat::Tabular),
        format_value(None) == Err::<LintFormat, Seq<char>>("--format requires a value"@),
        s != "human"@ && s != "json"@ && s != "sarif"@ && s != "compact"@ && s != "tabular"@
            ==> format_value(Some(s)) == Err::<LintFormat, Seq<char>>(
            "unknown format: "@ + s
                + " (expected 'json', 'human', 'sarif', 'compact', or 'tabular')"@,
        ),
        domain_named(d.name_text()) == Some(d),
        domain_named(s) is Some ==> domain_named(s)->Some_0.name_text() == s,
        domain_value(None) == Err::<TranslationeseDomain, Seq<char>>(
            "--translationese-domain requires a value (general|technical|literary|news)"@,
        ),
        domain_named(s) is Some ==> domain_value(Some(s)) == Ok::<
            TranslationeseDomain,
            Seq<char>,
        >(domain_named(s)->Some_0),
        domain_named(s) is None ==> domain_value(Some(s)) == Err::<
            TranslationeseDomain,
            Seq<char>,
        >(
            "unknown --translationese-domain value '"@ + s
                + "' (expected: general|technical|literary|news)"@,
        ),
        TranslationeseDomain::General.name_text() == "general"@,
        TranslationeseDomain::Technical.name_text() == "technical"@,
        TranslationeseDomain::Literary.name_text() == "literary"@,
        TranslationeseDomain::News.name_text() == "news"@,
{
    reveal_strlit("human");
    reveal_strlit("json");
    reveal_strlit("sarif");
    reveal_strlit("compact");
    reveal_strlit("tabular");
    reveal_strlit("general");
    reveal_strlit("technical");
    reveal_strlit("literary");
    reveal_strlit("news");
    assert("human"@[0] == 'h' && "json"@[0] == 'j' && "sarif"@[0] == 's' && "compact"@[0] == 'c'
        && "tabular"@[0] == 't');
    assert("general"@[0] == 'g' && "technical"@[0] == 't' && "literary"@[0] == 'l' && "news"@[0]
        == 'n');
}

/// A content type is accepted by its name, and two of them by an abbreviation,
/// which stands for the name.
pub proof fn law_content_types_accepted(s: Seq<char>)
    ensures
        content_type_value(Some("md"@)) == Ok::<Seq<char>, Seq<char>>("markdown"@),
        content_type_value(Some("yml"@)) == Ok::<Seq<char>, Seq<char>>("yaml"@),
        s == "plain"@ || s == "markdown"@ || s == "markdown-scan-code"@ || s == "yaml"@
            ==> content_type_value(Some(s)) == Ok::<Seq<char>, Seq<char>>(s),
        s != "md"@ && s != "yml"@ && s != "plain"@ && s != "markdown"@ && s
            != "markdown-scan-code"@ && s != "yaml"@ ==> content_type_value(Some(s)) == Err::<
            Seq<char>,
            Seq<char>,
        >(
            "unknown content-type: "@ + s
                + " (expected 'plain', 'markdown', 'markdown-scan-code', or 'yaml')"@,
        ),
        content_type_value(None) == Err::<Seq<char>, Seq<char>>("--content-type requires a value"@),
{
    reveal_strlit("md");
    reveal_strlit("yml");
    reveal_strlit("plain");
    reveal_strlit("markdown");
    reveal_strlit("markdown-scan-code");
    reveal_strlit("yaml");
    assert("md"@.len() == 2 && "yml"@.len() == 3 && "plain"@.len() == 5 && "markdown"@.len() == 8
        && "markdown-scan-code"@.len() == 18 && "yaml"@.len() == 4);
}

/// Every report but the human one has standard output to itself.
pub proof fn law_who_owns_stdout(format: LintFormat, r: bool)
    requires
        call_ensures(LintFormat::report_owns_stdout, (format,), r),
    ensures
        r <==> format == LintFormat::Json || format == LintFormat::Sarif || format
            == LintFormat::Compact || format == LintFormat::Tabular,
{
}

} // verus!
