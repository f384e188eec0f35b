//! What a command line and a project configuration together ask for.
//!
//! Flags win over configuration, and configuration wins over defaults. Defaults
//! that need the environment or the file system are left to whoever runs the
//! plan.

use crate::cli::{Cli, CliView, Command, CommandView, ConvertArgs, ConvertView, TmArgs, TmView};
use crate::lint_args::{FixMode, LintArgs, LintFormat, LintView, TranslationeseDomain};
use crate::text::{clone_texts, contains_text, opt_text, pushed, same, texts};
use vstd::prelude::*;

verus! {

/// The `[glossary]` section of a project configuration, as written.
#[derive(Debug)]
pub struct GlossaryConfig {
    pub banned: Option<Vec<String>>,
    pub preferred: Option<Vec<String>>,
    pub proper_nouns: Option<Vec<String>>,
}

/// What a project configuration says. Anything may be left out.
#[derive(Debug)]
pub struct ProjectConfig {
    pub overrides: Option<String>,
    pub suppressions: Option<String>,
    pub translation_memory: Option<String>,
    pub profile: Option<String>,
    pub relaxed: Option<bool>,
    /// `exempt_blockquotes` of the `[markdown]` section.
    pub exempt_blockquotes: Option<bool>,
    pub content_type: Option<String>,
    pub max_errors: Option<usize>,
    pub max_warnings: Option<usize>,
    pub exclude: Option<Vec<String>>,
    pub packs: Option<Vec<String>>,
    pub glossary: Option<GlossaryConfig>,
    pub ignore_terms: Option<Vec<String>>,
}

/// The texts of an optional list; none where there is no list.
pub open spec fn opt_texts(o: Option<Vec<String>>) -> Seq<Seq<char>> {
    match o {
        Some(list) => texts(list@),
        None => seq![],
    }
}

/// What a `ProjectConfig` holds. A list that is left out holds nothing.
pub ghost struct ConfigView {
    pub overrides: Option<Seq<char>>,
    pub suppressions: Option<Seq<char>>,
    pub translation_memory: Option<Seq<char>>,
    pub profile: Option<Seq<char>>,
    pub relaxed: Option<bool>,
    pub exempt_blockquotes: Option<bool>,
    pub content_type: Option<Seq<char>>,
    pub max_errors: Option<usize>,
    pub max_warnings: Option<usize>,
    pub exclude: Seq<Seq<char>>,
    pub packs: Seq<Seq<char>>,
    pub glossary: GlossaryView,
    pub ignore_terms: Seq<Seq<char>>,
}

impl View for ProjectConfig {
    type V = ConfigView;

    open spec fn view(&self) -> ConfigView {
        ConfigView {
            overrides: opt_text(self.overrides),
            suppressions: opt_text(self.suppressions),
            translation_memory: opt_text(self.translation_memory),
            profile: opt_text(self.profile),
            relaxed: self.relaxed,
            exempt_blockquotes: self.exempt_blockquotes,
            content_type: opt_text(self.content_type),
            max_errors: self.max_errors,
            max_warnings: self.max_warnings,
            exclude: opt_texts(self.exclude),
            packs: opt_texts(self.packs),
            glossary: match self.glossary {
                Some(g) => GlossaryView {
                    banned: opt_texts(g.banned),
                    preferred: opt_texts(g.preferred),
                    proper_nouns: opt_texts(g.proper_nouns),
                },
                None => no_glossary(),
            },
            ignore_terms: opt_texts(self.ignore_terms),
        }
    }
}

/// A configuration that says nothing: what a project without one has.
pub open spec fn no_config() -> ConfigView {
    ConfigView {
        overrides: None,
        suppressions: None,
        translation_memory: None,
        profile: None,
        relaxed: None,
        exempt_blockquotes: None,
        content_type: None,
        max_errors: None,
        max_warnings: None,
        exclude: seq![],
        packs: seq![],
        glossary: no_glossary(),
        ignore_terms: seq![],
    }
}

impl Default for ProjectConfig {
    fn default() -> (r: Self)
        ensures
            r@ == no_config(),
    {
        ProjectConfig {
            overrides: None,
            suppressions: None,
            translation_memory: None,
            profile: None,
            relaxed: None,
            exempt_blockquotes: None,
            content_type: None,
            max_errors: None,
            max_warnings: None,
            exclude: None,
            packs: None,
            glossary: None,
            ignore_terms: None,
        }
    }
}

/// The glossary of a project.
#[derive(Debug)]
pub struct ProjectGlossary {
    pub banned: Vec<String>,
    pub preferred: Vec<String>,
    pub proper_nouns: Vec<String>,
}

/// What a `ProjectGlossary` holds.
pub ghost struct GlossaryView {
    pub banned: Seq<Seq<char>>,
    pub preferred: Seq<Seq<char>>,
    pub proper_nouns: Seq<Seq<char>>,
}

impl View for ProjectGlossary {
    type V = GlossaryView;

    open spec fn view(&self) -> GlossaryView {
        GlossaryView {
            banned: texts(self.banned@),
            preferred: texts(self.preferred@),
            proper_nouns: texts(self.proper_nouns@),
        }
    }
}

/// A glossary without terms.
pub open spec fn no_glossary() -> GlossaryView {
    GlossaryView { banned: seq![], preferred: seq![], proper_nouns: seq![] }
}

impl ProjectGlossary {
    /// Whether the glossary has no terms.
    pub fn is_empty(&self) -> (r: bool)
        ensures
            r == (self@ == no_glossary()),
    {
        let r = self.banned.len() == 0 && self.preferred.len() == 0 && self.proper_nouns.len() == 0;
        proof {
            if r {
                assert(self@.banned =~= seq![]);
                assert(self@.preferred =~= seq![]);
                assert(self@.proper_nouns =~= seq![]);
            } else {
                assert(self@.banned.len() == self.banned.len());
                assert(self@.preferred.len() == self.preferred.len());
                assert(self@.proper_nouns.len() == self.proper_nouns.len());
            }
        }
        r
    }
}

/// Where a store lies: where somebody said, or where it lies by default.
#[derive(Debug)]
pub enum PathChoice {
    Given(String),
    Default,
}

impl View for PathChoice {
    type V = Option<Seq<char>>;

    open spec fn view(&self) -> Option<Seq<char>> {
        match *self {
            PathChoice::Given(path) => Some(path@),
            PathChoice::Default => None,
        }
    }
}

/// The first of two optional texts that is there.
pub open spec fn first_of(a: Option<Seq<char>>, b: Option<Seq<char>>) -> Option<Seq<char>> {
    if a is Some {
        a
    } else {
        b
    }
}

fn choose_path(flag: Option<String>, configured: &Option<String>) -> (r: PathChoice)
    ensures
        r@ == first_of(opt_text(flag), opt_text(*configured)),
{
    match flag {
        Some(path) => PathChoice::Given(path),
        None => match configured {
            Some(path) => PathChoice::Given(path.clone()),
            None => PathChoice::Default,
        },
    }
}

fn choose_text(flag: Option<String>, configured: &Option<String>) -> (r: Option<String>)
    ensures
        opt_text(r) == first_of(opt_text(flag), opt_text(*configured)),
{
    match flag {
        Some(s) => Some(s),
        None => configured.clone(),
    }
}

fn list_or_empty(o: &Option<Vec<String>>) -> (r: Vec<String>)
    ensures
        texts(r@) == opt_texts(*o),
{
    match o {
        Some(list) => clone_texts(list),
        None => {
            let r: Vec<String> = Vec::new();
            assert(texts(r@) =~= seq![]);
            r
        },
    }
}

/// Two lists as one: the first, and then what the second adds to it.
pub open spec fn merged(first: Seq<Seq<char>>, second: Seq<Seq<char>>) -> Seq<Seq<char>>
    decreases second.len(),
{
    if second.len() == 0 {
        first
    } else {
        let before = merged(first, second.drop_last());
        if before.contains(second.last()) {
            before
        } else {
            before.push(second.last())
        }
    }
}

fn merge(first: Vec<String>, second: &Option<Vec<String>>) -> (r: Vec<String>)
    ensures
        texts(r@) == merged(texts(first@), opt_texts(*second)),
{
    let mut out = first;
    let ghost base = texts(first@);
    if let Some(list) = second {
        let ghost all = texts(list@);
        let mut i: usize = 0;
        assert(all.take(0) =~= seq![]);
        while i < list.len()
            invariant
                i <= list.len(),
                all == texts(list@),
                texts(out@) == merged(base, all.take(i as int)),
            decreases list.len() - i,
        {
            assert(all.take(i + 1).drop_last() =~= all.take(i as int));
            assert(all.take(i + 1).last() == list@[i as int]@);
            if !contains_text(&out, list[i].as_str()) {
                out = pushed(out, list[i].clone());
            }
            i += 1;
        }
        assert(all.take(i as int) =~= all);
    }
    out
}

/// Everything that one lint batch runs with.
#[derive(Debug)]
pub struct LintPlan {
    pub file_args: Vec<String>,
    pub format: LintFormat,
    pub max_errors: usize,
    pub max_warnings: Option<usize>,
    pub profile_name: Option<String>,
    pub content_type_override: Option<String>,
    pub overrides_path: PathChoice,
    pub packs_dir: PathChoice,
    pub active_packs: Vec<String>,
    pub exclude_patterns: Vec<String>,
    pub fix_mode: FixMode,
    pub dry_run: bool,
    pub explain: bool,
    pub baseline_path: Option<String>,
    pub update_baseline: bool,
    pub diff_from: Option<String>,
    pub verify: bool,
    pub relaxed: bool,
    pub exempt_blockquotes: bool,
    pub detect_ai: bool,
    pub detect_translationese: bool,
    pub detect_style: bool,
    pub translationese_domain: TranslationeseDomain,
    pub ai_threshold_tenths: u32,
    pub tm_path: PathChoice,
    pub glossary: ProjectGlossary,
    pub ignore_terms: Vec<String>,
    pub consistency: bool,
    pub telemetry: bool,
}

/// What a `LintPlan` holds.
pub ghost struct LintPlanView {
    pub file_args: Seq<Seq<char>>,
    pub format: LintFormat,
    pub max_errors: usize,
    pub max_warnings: Option<usize>,
    pub profile_name: Option<Seq<char>>,
    pub content_type_override: Option<Seq<char>>,
    pub overrides_path: Option<Seq<char>>,
    pub packs_dir: Option<Seq<char>>,
    pub active_packs: Seq<Seq<char>>,
    pub exclude_patterns: Seq<Seq<char>>,
    pub fix_mode: FixMode,
    pub dry_run: bool,
    pub explain: bool,
    pub baseline_path: Option<Seq<char>>,
    pub update_baseline: bool,
    pub diff_from: Option<Seq<char>>,
    pub verify: bool,
    pub relaxed: bool,
    pub exempt_blockquotes: bool,
    pub detect_ai: bool,
    pub detect_translationese: bool,
    pub detect_style: bool,
    pub translationese_domain: TranslationeseDomain,
    pub ai_threshold_tenths: u32,
    pub tm_path: Option<Seq<char>>,
    pub glossary: GlossaryView,
    pub ignore_terms: Seq<Seq<char>>,
    pub consistency: bool,
    pub telemetry: bool,
}

impl View for LintPlan {
    type V = LintPlanView;

    open spec fn view(&self) -> LintPlanView {
        LintPlanView {
            file_args: texts(self.file_args@),
            format: self.format,
            max_errors: self.max_errors,
            max_warnings: self.max_warnings,
            profile_name: opt_text(self.profile_name),
            content_type_override: opt_text(self.content_type_override),
            overrides_path: self.overrides_path@,
            packs_dir: self.packs_dir@,
            active_packs: texts(self.active_packs@),
            exclude_patterns: texts(self.exclude_patterns@),
            fix_mode: self.fix_mode,
            dry_run: self.dry_run,
            explain: self.explain,
            baseline_path: opt_text(self.baseline_path),
            update_baseline: self.update_baseline,
            diff_from: opt_text(self.diff_from),
            verify: self.verify,
            relaxed: self.relaxed,
            exempt_blockquotes: self.exempt_blockquotes,
            detect_ai: self.detect_ai,
            detect_translationese: self.detect_translationese,
            detect_style: self.detect_style,
            translationese_domain: self.translationese_domain,
            ai_threshold_tenths: self.ai_threshold_tenths,
            tm_path: self.tm_path@,
            glossary: self.glossary@,
            ignore_terms: texts(self.ignore_terms@),
            consistency: self.consistency,
            telemetry: self.telemetry,
        }
    }
}

/// What `lint` runs with: a flag where it was given, else the configuration,
/// else the default. Switches are on where either says so; excluded patterns
/// and packs are those of both.
pub open spec fn lint_plan(
    lint: LintView,
    overrides_path: Option<Seq<char>>,
    packs_dir: Option<Seq<char>>,
    active_packs: Seq<Seq<char>>,
    config: ConfigView,
) -> LintPlanView {
    LintPlanView {
        file_args: lint.files,
        format: lint.format,
        max_errors: match lint.max_errors {
            Some(n) => n,
            None => match config.max_errors {
                Some(n) => n,
                None => 0,
            },
        },
        max_warnings: if lint.max_warnings is Some {
            lint.max_warnings
        } else {
            config.max_warnings
        },
        profile_name: first_of(lint.profile, config.profile),
        content_type_override: first_of(lint.content_type, config.content_type),
        overrides_path: first_of(overrides_path, config.overrides),
        packs_dir,
        active_packs: merged(active_packs, config.packs),
        exclude_patterns: merged(lint.exclude_patterns, config.exclude),
        fix_mode: match lint.fix_mode {
            Some(mode) => mode,
            None => FixMode::Off,
        },
        dry_run: lint.dry_run,
        explain: lint.explain,
        baseline_path: lint.baseline_path,
        update_baseline: lint.update_baseline,
        diff_from: lint.diff_from,
        verify: lint.verify,
        relaxed: lint.relaxed || config.relaxed == Some(true),
        exempt_blockquotes: lint.exempt_blockquotes || config.exempt_blockquotes == Some(true),
        detect_ai: lint.detect_ai,
        detect_translationese: lint.detect_translationese,
        detect_style: lint.detect_style,
        translationese_domain: lint.translationese_domain,
        ai_threshold_tenths: lint.ai_threshold_tenths,
        tm_path: config.translation_memory,
        glossary: config.glossary,
        ignore_terms: config.ignore_terms,
        consistency: lint.consistency,
        telemetry: lint.telemetry,
    }
}

fn build_glossary(section: &Option<GlossaryConfig>) -> (r: ProjectGlossary)
    ensures
        r@ == match *section {
            Some(g) => GlossaryView {
                banned: opt_texts(g.banned),
                preferred: opt_texts(g.preferred),
                proper_nouns: opt_texts(g.proper_nouns),
            },
            None => no_glossary(),
        },
{
    match section {
        Some(g) => ProjectGlossary {
            banned: list_or_empty(&g.banned),
            preferred: list_or_empty(&g.preferred),
            proper_nouns: list_or_empty(&g.proper_nouns),
        },
        None => {
            let r = ProjectGlossary {
                banned: Vec::new(),
                preferred: Vec::new(),
                proper_nouns: Vec::new(),
            };
            assert(r@.banned =~= seq![]);
            assert(r@.preferred =~= seq![]);
            assert(r@.proper_nouns =~= seq![]);
            r
        },
    }
}

fn on(o: Option<bool>) -> (r: bool)
    ensures
        r == (o == Some(true)),
{
    match o {
        Some(b) => b,
        None => false,
    }
}

/// Merges the flags of `lint` with the configuration.
pub fn plan_lint(
    lint: LintArgs,
    overrides_path: Option<String>,
    packs_dir: Option<String>,
    active_packs: Vec<String>,
    config: &ProjectConfig,
) -> (r: LintPlan)
    ensures
        r@ == lint_plan(
            lint@,
            opt_text(overrides_path),
            opt_text(packs_dir),
            texts(active_packs@),
            config@,
        ),
{
    let max_errors: usize = match lint.max_errors {
        Some(n) => n,
        None => match config.max_errors {
            Some(n) => n,
            None => 0,
        },
    };
    let max_warnings = if lint.max_warnings.is_some() {
        lint.max_warnings
    } else {
        config.max_warnings
    };
    let fix_mode = match lint.fix_mode {
        Some(mode) => mode,
        None => FixMode::Off,
    };
    LintPlan {
        file_args: lint.files,
        format: lint.format,
        max_errors,
        max_warnings,
        profile_name: choose_text(lint.profile, &config.profile),
        content_type_override: choose_text(lint.content_type, &config.content_type),
        overrides_path: choose_path(overrides_path, &config.overrides),
        packs_dir: choose_path(packs_dir, &None),
        active_packs: merge(active_packs, &config.packs),
        exclude_patterns: merge(lint.exclude_patterns, &config.exclude),
        fix_mode,
        dry_run: lint.dry_run,
        explain: lint.explain,
        baseline_path: lint.baseline_path,
        update_baseline: lint.update_baseline,
        diff_from: lint.diff_from,
        verify: lint.verify,
        relaxed: lint.relaxed || on(config.relaxed),
        exempt_blockquotes: lint.exempt_blockquotes || on(config.exempt_blockquotes),
        detect_ai: lint.detect_ai,
        detect_translationese: lint.detect_translationese,
        detect_style: lint.detect_style,
        translationese_domain: lint.translationese_domain,
        ai_threshold_tenths: lint.ai_threshold_tenths,
        tm_path: choose_path(None, &config.translation_memory),
        glossary: build_glossary(&config.glossary),
        ignore_terms: list_or_empty(&config.ignore_terms),
        consistency: lint.consistency,
        telemetry: lint.telemetry,
    }
}

/// Where a command's project configuration comes from.
#[derive(Debug)]
pub enum ConfigSource {
    /// The command reads none.
    Unused,
    /// The file named on the command line, which must be readable.
    File(String),
    /// The one found from the current directory upwards, if there is one.
    Discovered,
}

/// What a `ConfigSource` holds.
pub ghost enum ConfigSourceView {
    Unused,
    File(Seq<char>),
    Discovered,
}

impl View for ConfigSource {
    type V = ConfigSourceView;

    open spec fn view(&self) -> ConfigSourceView {
        match *self {
            ConfigSource::Unused => ConfigSourceView::Unused,
            ConfigSource::File(path) => ConfigSourceView::File(path@),
            ConfigSource::Discovered => ConfigSourceView::Discovered,
        }
    }
}

/// Where the project configuration of a command line comes from. Linting, the
/// server and the translation memory read one.
pub open spec fn config_source_of(cli: CliView) -> ConfigSourceView {
    match cli.command {
        CommandView::Lint(_) | CommandView::Tm(_) | CommandView::Server => match cli.config_path {
            Some(path) => ConfigSourceView::File(path),
            None => ConfigSourceView::Discovered,
        },
        _ => ConfigSourceView::Unused,
    }
}

/// Where the project configuration of a command line comes from.
pub fn config_source(cli: &Cli) -> (r: ConfigSource)
    ensures
        r@ == config_source_of(cli@),
{
    let reads = match cli.command {
        Command::Lint(_) | Command::Tm(_) | Command::Server => true,
        _ => false,
    };
    if !reads {
        return ConfigSource::Unused;
    }
    match &cli.config_path {
        Some(path) => ConfigSource::File(path.clone()),
        None => ConfigSource::Discovered,
    }
}

/// What to run, with everything resolved that needs no environment.
#[derive(Debug)]
pub enum Run {
    TranslationGuide,
    Setup(String),
    CacheClear,
    Convert { convert: ConvertArgs, overrides_path: PathChoice },
    Tm { tm: TmArgs, tm_path: PathChoice },
    Pack { cmd: String, arg: Option<String>, packs_dir: PathChoice },
    Lint(Box<LintPlan>),
    Server {
        overrides_path: PathChoice,
        suppressions_path: PathChoice,
        tm_path: PathChoice,
        packs_dir: PathChoice,
        active_packs: Vec<String>,
    },
}

/// What a `Run` holds.
pub ghost enum RunView {
    TranslationGuide,
    Setup(Seq<char>),
    CacheClear,
    Convert { convert: ConvertView, overrides_path: Option<Seq<char>> },
    Tm { tm: TmView, tm_path: Option<Seq<char>> },
    Pack { cmd: Seq<char>, arg: Option<Seq<char>>, packs_dir: Option<Seq<char>> },
    Lint(LintPlanView),
    Server {
        overrides_path: Option<Seq<char>>,
        suppressions_path: Option<Seq<char>>,
        tm_path: Option<Seq<char>>,
        packs_dir: Option<Seq<char>>,
        active_packs: Seq<Seq<char>>,
    },
}

impl View for Run {
    type V = RunView;

    open spec fn view(&self) -> RunView {
        match *self {
            Run::TranslationGuide => RunView::TranslationGuide,
            Run::Setup(host) => RunView::Setup(host@),
            Run::CacheClear => RunView::CacheClear,
            Run::Convert { convert, overrides_path } => RunView::Convert {
                convert: convert@,
                overrides_path: overrides_path@,
            },
            Run::Tm { tm, tm_path } => RunView::Tm { tm: tm@, tm_path: tm_path@ },
            Run::Pack { cmd, arg, packs_dir } => RunView::Pack {
                cmd: cmd@,
                arg: opt_text(arg),
                packs_dir: packs_dir@,
            },
            Run::Lint(plan) => RunView::Lint((*plan)@),
            Run::Server {
                overrides_path,
                suppressions_path,
                tm_path,
                packs_dir,
                active_packs,
            } => RunView::Server {
                overrides_path: overrides_path@,
                suppressions_path: suppressions_path@,
                tm_path: tm_path@,
                packs_dir: packs_dir@,
                active_packs: texts(active_packs@),
            },
        }
    }
}

/// What a command line asks to run under a configuration.
///
/// The server takes all three store paths from the configuration where the
/// flags are absent, so that it reads and records where linting does.
pub open spec fn run_of(cli: CliView, config: ConfigView) -> RunView {
    match cli.command {
        CommandView::Setup(host) => if host == "translation-guide"@ || host
            == "translation_guide"@ {
            RunView::TranslationGuide
        } else {
            RunView::Setup(host)
        },
        CommandView::CacheClear => RunView::CacheClear,
        CommandView::Convert(convert) => RunView::Convert {
            convert,
            overrides_path: cli.overrides_path,
        },
        CommandView::Tm(tm) => RunView::Tm { tm, tm_path: config.translation_memory },
        CommandView::Pack { cmd, arg } => RunView::Pack { cmd, arg, packs_dir: cli.packs_dir },
        CommandView::Lint(lint) => RunView::Lint(
            lint_plan(lint, cli.overrides_path, cli.packs_dir, cli.active_packs, config),
        ),
        CommandView::Server => RunView::Server {
            overrides_path: first_of(cli.overrides_path, config.overrides),
            suppressions_path: first_of(cli.suppressions_path, config.suppressions),
            tm_path: config.translation_memory,
            packs_dir: cli.packs_dir,
            active_packs: cli.active_packs,
        },
    }
}

/// Decides what to run. `config` is what `config_source` led to; a project
/// without a configuration has the default one.
pub fn run(cli: Cli, config: &ProjectConfig) -> (r: Run)
    ensures
        r@ == run_of(cli@, config@),
{
    match cli.command {
        Command::Setup(host) => {
            if same(host.as_str(), "translation-guide") || same(host.as_str(), "translation_guide") {
                Run::TranslationGuide
            } else {
                Run::Setup(host)
            }
        },
        Command::CacheClear => Run::CacheClear,
        Command::Convert(convert) => Run::Convert {
            convert,
            overrides_path: choose_path(cli.overrides_path, &None),
        },
        Command::Tm(tm) => Run::Tm {
            tm,
            tm_path: choose_path(None, &config.translation_memory),
        },
        Command::Pack { cmd, arg } => Run::Pack {
            cmd,
            arg,
            packs_dir: choose_path(cli.packs_dir, &None),
        },
        Command::Lint(lint) => Run::Lint(
            Box::new(
                plan_lint(*lint, cli.overrides_path, cli.packs_dir, cli.active_packs, config),
            ),
        ),
        Command::Server => Run::Server {
            overrides_path: choose_path(cli.overrides_path, &config.overrides),
            suppressions_path: choose_path(cli.suppressions_path, &config.suppressions),
            tm_path: choose_path(None, &config.translation_memory),
            packs_dir: choose_path(cli.packs_dir, &None),
            active_packs: cli.active_packs,
        },
    }
}

/// A merged list holds what either list holds, begins with the first list, and
/// gains no duplicate.
pub proof fn law_merging_loses_nothing(first: Seq<Seq<char>>, second: Seq<Seq<char>>)
    ensures
        first.is_prefix_of(merged(first, second)),
        forall|s: Seq<char>| #[trigger]
            merged(first, second).contains(s) <==> first.contains(s) || second.contains(s),
        first.no_duplicates() ==> merged(first, second).no_duplicates(),
    decreases second.len(),
{
    if second.len() > 0 {
        let front = second.drop_last();
        law_merging_loses_nothing(first, front);
        let before = merged(first, front);
        let after = merged(first, second);
        assert(after.take(first.len() as int) =~= before.take(first.len() as int));
        assert forall|s: Seq<char>| #[trigger] after.contains(s) <==> first.contains(s)
            || second.contains(s) by {
            if after.contains(s) {
                let i = choose|i: int| 0 <= i < after.len() && after[i] == s;
                if i < before.len() {
                    assert(before[i] == s);
                    assert(before.contains(s));
                    if front.contains(s) {
                        let k = choose|k: int| 0 <= k < front.len() && front[k] == s;
                        assert(second[k] == s);
                    }
                } else {
                    assert(second[second.len() - 1] == s);
                }
            }
            if first.contains(s) || second.contains(s) {
                if !before.contains(s) {
                    let k = choose|k: int| 0 <= k < second.len() && second[k] == s;
                    if k < front.len() {
                        assert(front[k] == s);
                    }
                    assert(s == second.last());
                    assert(after[before.len() as int] == s);
                } else {
                    let i = choose|i: int| 0 <= i < before.len() && before[i] == s;
                    assert(after[i] == s);
                }
            }
        }
    } else {
        assert(first.take(first.len() as int) =~= first);
    }
}

/// Without a configuration the plan is what the flags and the defaults say.
pub proof fn law_flags_stand_alone(
    lint: LintView,
    overrides_path: Option<Seq<char>>,
    packs_dir: Option<Seq<char>>,
    active_packs: Seq<Seq<char>>,
)
    ensures
        ({
            let plan = lint_plan(lint, overrides_path, packs_dir, active_packs, no_config());
            &&& plan.profile_name == lint.profile
            &&& plan.content_type_override == lint.content_type
            &&& plan.max_warnings == lint.max_warnings
            &&& plan.relaxed == lint.relaxed
            &&& plan.exempt_blockquotes == lint.exempt_blockquotes
            &&& plan.overrides_path == overrides_path
            &&& plan.active_packs == active_packs
            &&& plan.exclude_patterns == lint.exclude_patterns
            &&& plan.glossary == no_glossary()
        }),
{
}

/// A flag wins over the configuration: what was given on the command line is
/// what runs, whatever the configuration says.
pub proof fn law_flags_win(
    lint: LintView,
    overrides_path: Option<Seq<char>>,
    packs_dir: Option<Seq<char>>,
    active_packs: Seq<Seq<char>>,
    config: ConfigView,
)
    ensures
        ({
            let plan = lint_plan(lint, overrides_path, packs_dir, active_packs, config);
            &&& lint.profile is Some ==> plan.profile_name == lint.profile
            &&& lint.content_type is Some ==> plan.content_type_override == lint.content_type
            &&& lint.max_errors is Some ==> Some(plan.max_errors) == lint.max_errors
            &&& lint.max_warnings is Some ==> plan.max_warnings == lint.max_warnings
            &&& overrides_path is Some ==> plan.overrides_path == overrides_path
            &&& lint.relaxed ==> plan.relaxed
            &&& lint.exempt_blockquotes ==> plan.exempt_blockquotes
        }),
{
}

/// The server, linting and the translation-memory command use the same
/// translation memory under one configuration.
pub proof fn law_one_translation_memory(
    server: CliView,
    linter: CliView,
    memory: CliView,
    config: ConfigView,
)
    requires
        server.command is Server,
        linter.command is Lint,
        memory.command is Tm,
    ensures
        run_of(server, config)->Server_tm_path == config.translation_memory,
        run_of(linter, config)->Lint_0.tm_path == config.translation_memory,
        run_of(memory, config)->Tm_tm_path == config.translation_memory,
{
}

/// What a flag does not settle, the project's configuration does: its profile,
/// content type, limits and overrides. Without either there is no limit on
/// warnings and none of the others is set, and no error is allowed.
pub proof fn law_the_configuration_fills_in(
    lint: LintView,
    overrides_path: Option<Seq<char>>,
    packs_dir: Option<Seq<char>>,
    active_packs: Seq<Seq<char>>,
    config: ConfigView,
)
    ensures
        ({
            let plan = lint_plan(lint, overrides_path, packs_dir, active_packs, config);
            &&& lint.profile is None ==> plan.profile_name == config.profile
            &&& lint.content_type is None ==> plan.content_type_override == config.content_type
            &&& lint.max_warnings is None ==> plan.max_warnings == config.max_warnings
            &&& overrides_path is None ==> plan.overrides_path == config.overrides
            &&& lint.max_errors is None && config.max_errors is Some ==> Some(plan.max_errors)
                == config.max_errors
            &&& lint.max_errors is None && config.max_errors is None ==> plan.max_errors == 0
            &&& plan.relaxed <==> lint.relaxed || config.relaxed == Some(true)
            &&& plan.exempt_blockquotes <==> lint.exempt_blockquotes || config.exempt_blockquotes
                == Some(true)
            &&& plan.tm_path == config.translation_memory
            &&& plan.glossary == config.glossary
            &&& plan.ignore_terms == config.ignore_terms
        }),
{
}

/// What only the command line decides is as it says there; fixing is off where
/// it was not asked for.
pub proof fn law_what_only_flags_decide(
    lint: LintView,
    overrides_path: Option<Seq<char>>,
    packs_dir: Option<Seq<char>>,
    active_packs: Seq<Seq<char>>,
    config: ConfigView,
)
    ensures
        ({
            let plan = lint_plan(lint, overrides_path, packs_dir, active_packs, config);
            &&& plan.file_args == lint.files
            &&& plan.format == lint.format
            &&& lint.fix_mode is Some ==> plan.fix_mode == lint.fix_mode->Some_0
            &&& lint.fix_mode is None ==> plan.fix_mode == FixMode::Off
            &&& plan.dry_run == lint.dry_run && plan.explain == lint.explain
            &&& plan.baseline_path == lint.baseline_path && plan.update_baseline
                == lint.update_baseline
            &&& plan.diff_from == lint.diff_from && plan.verify == lint.verify
            &&& plan.detect_ai == lint.detect_ai && plan.detect_translationese
                == lint.detect_translationese && plan.detect_style == lint.detect_style
            &&& plan.translationese_domain == lint.translationese_domain
                && plan.ai_threshold_tenths == lint.ai_threshold_tenths
            &&& plan.consistency == lint.consistency && plan.telemetry == lint.telemetry
            &&& plan.packs_dir == packs_dir
        }),
{
}

/// A pack or an exclude pattern is in force where the command line or the
/// configuration names it, those of the command line first.
pub proof fn law_both_sources_of_lists_count(
    lint: LintView,
    overrides_path: Option<Seq<char>>,
    packs_dir: Option<Seq<char>>,
    active_packs: Seq<Seq<char>>,
    config: ConfigView,
    name: Seq<char>,
)
    ensures
        ({
            let plan = lint_plan(lint, overrides_path, packs_dir, active_packs, config);
            &&& plan.active_packs.contains(name) <==> active_packs.contains(name)
                || config.packs.contains(name)
            &&& active_packs.is_prefix_of(plan.active_packs)
            &&& plan.exclude_patterns.contains(name) <==> lint.exclude_patterns.contains(name)
                || config.exclude.contains(name)
            &&& lint.exclude_patterns.is_prefix_of(plan.exclude_patterns)
        }),
{
    law_merging_loses_nothing(active_packs, config.packs);
    law_merging_loses_nothing(lint.exclude_patterns, config.exclude);
}

/// What merging adds keeps its order: names that are new come in the order in
/// which they were given.
pub proof fn law_merging_adds_in_order(
    first: Seq<Seq<char>>,
    second: Seq<Seq<char>>,
    name: Seq<char>,
)
    ensures
        merged(first, seq![]) == first,
        merged(first, second).contains(name) ==> merged(first, second.push(name)) == merged(
            first,
            second,
        ),
        !merged(first, second).contains(name) ==> merged(first, second.push(name)) == merged(
            first,
            second,
        ).push(name),
{
    assert(second.push(name).drop_last() =~= second);
}

/// A configuration is read for a lint, for the translation memory and for the
/// server: the one that was named, else the one that is found.
pub proof fn law_when_a_configuration_is_read(cli: CliView)
    ensures
        ({
            let source = config_source_of(cli);
            let reads = cli.command is Lint || cli.command is Tm || cli.command is Server;
            &&& source is Unused <==> !reads
            &&& reads && cli.config_path is Some ==> source == ConfigSourceView::File(
                cli.config_path->Some_0,
            )
            &&& reads && cli.config_path is None ==> source is Discovered
        }),
{
}

/// Each command runs as what it is, with the arguments that it was given.
pub proof fn law_each_command_runs(cli: CliView, config: ConfigView)
    ensures
        ({
            let r = run_of(cli, config);
            &&& match cli.command {
                CommandView::Lint(lint) => r == RunView::Lint(
                    lint_plan(lint, cli.overrides_path, cli.packs_dir, cli.active_packs, config),
                ),
                CommandView::Convert(convert) => r == RunView::Convert {
                    convert,
                    overrides_path: cli.overrides_path,
                },
                CommandView::Tm(tm) => r == RunView::Tm { tm, tm_path: config.translation_memory },
                CommandView::Pack { cmd, arg } => r == RunView::Pack {
                    cmd,
                    arg,
                    packs_dir: cli.packs_dir,
                },
                CommandView::CacheClear => r is CacheClear,
                CommandView::Setup(host) => {
                    let guide = host == "translation-guide"@ || host == "translation_guide"@;
                    &&& guide ==> r is TranslationGuide
                    &&& !guide ==> r == RunView::Setup(host)
                },
                CommandView::Server => {
                    &&& r is Server
                    &&& r->Server_packs_dir == cli.packs_dir
                    &&& r->Server_active_packs == cli.active_packs
                    &&& r->Server_tm_path == config.translation_memory
                    &&& cli.overrides_path is Some ==> r->Server_overrides_path
                        == cli.overrides_path
                    &&& cli.overrides_path is None ==> r->Server_overrides_path == config.overrides
                    &&& cli.suppressions_path is Some ==> r->Server_suppressions_path
                        == cli.suppressions_path
                    &&& cli.suppressions_path is None ==> r->Server_suppressions_path
                        == config.suppressions
                },
            }
        }),
{
}

/// A run's plan is that of its command line and its configuration, flag by flag.
pub proof fn law_a_lint_runs_as_planned(cli: Cli, config: &ProjectConfig, r: Run)
    requires
        call_ensures(run, (cli, config), r),
    ensures
        r@ is Lint <==> cli@.command is Lint,
        r@ is Server <==> cli@.command is Server,
        r@ is Convert <==> cli@.command is Convert,
        cli@.command is Lint ==> ({
            let lint = cli@.command->Lint_0;
            let plan = r@->Lint_0;
            &&& plan.file_args == lint.files && plan.format == lint.format
            &&& plan.dry_run == lint.dry_run && plan.verify == lint.verify
            &&& lint.max_errors is Some ==> plan.max_errors == lint.max_errors->Some_0
            &&& lint.max_warnings is Some ==> plan.max_warnings == lint.max_warnings
            &&& lint.fix_mode is Some ==> plan.fix_mode == lint.fix_mode->Some_0
            &&& lint.fix_mode is None ==> plan.fix_mode == FixMode::Off
        }),
{
}

/// A glossary is empty exactly where it names nothing.
pub proof fn law_an_empty_glossary(glossary: &ProjectGlossary, r: bool)
    requires
        call_ensures(ProjectGlossary::is_empty, (glossary,), r),
    ensures
        r <==> glossary.banned@.len() == 0 && glossary.preferred@.len() == 0
            && glossary.proper_nouns@.len() == 0,
{
    let g = glossary@;
    if g.banned.len() == 0 && g.preferred.len() == 0 && g.proper_nouns.len() == 0 {
        assert(g.banned =~= seq![] && g.preferred =~= seq![] && g.proper_nouns =~= seq![]);
        assert(g == no_glossary());
    }
}

} // verus!
