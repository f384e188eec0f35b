//! What a scan yields, and how a file is read for it.

use crate::cache::{ParamsView, ScanParams};
use crate::json::{
    bool_text, json_bool, json_quoted, json_text, lemma_bool_field, lemma_strip, lemma_text_field,
};
use crate::lint_args::{FixMode, TranslationeseDomain};
use crate::plan::{LintPlan, LintPlanView};
use crate::rules::ruleset::{clone_issues, issues_view, Issue, IssueView};
use crate::text::{
    append3, clone_texts, dec, decimal_u64, digit, ends_with, fail_with, lowered, opt_text, same,
    string_from, texts, to_lower, CliError,
};
use vstd::prelude::*;

verus! {

/// What one scan of one text yields.
///
/// The scanner's own reports are carried in their serialized form: nothing
/// here reads inside them.
#[derive(Debug)]
pub struct ScanOutput {
    pub issues: Vec<Issue>,
    /// The name of the script the text is written in.
    pub detected_script: String,
    pub ai_signature: Option<String>,
    pub translationese_signature: Option<String>,
    pub coverage: Option<String>,
    pub oral_density: Option<String>,
    pub quality_flags: Vec<String>,
}

/// What a `ScanOutput` holds.
pub ghost struct ScanOutputView {
    pub issues: Seq<IssueView>,
    pub detected_script: Seq<char>,
    pub ai_signature: Option<Seq<char>>,
    pub translationese_signature: Option<Seq<char>>,
    pub coverage: Option<Seq<char>>,
    pub oral_density: Option<Seq<char>>,
    pub quality_flags: Seq<Seq<char>>,
}

impl View for ScanOutput {
    type V = ScanOutputView;

    open spec fn view(&self) -> ScanOutputView {
        ScanOutputView {
            issues: issues_view(self.issues@),
            detected_script: self.detected_script@,
            ai_signature: opt_text(self.ai_signature),
            translationese_signature: opt_text(self.translationese_signature),
            coverage: opt_text(self.coverage),
            oral_density: opt_text(self.oral_density),
            quality_flags: texts(self.quality_flags@),
        }
    }
}

impl Clone for ScanOutput {
    fn clone(&self) -> (r: Self)
        ensures
            r@ == self@,
    {
        ScanOutput {
            issues: clone_issues(&self.issues),
            detected_script: self.detected_script.clone(),
            ai_signature: self.ai_signature.clone(),
            translationese_signature: self.translationese_signature.clone(),
            coverage: self.coverage.clone(),
            oral_density: self.oral_density.clone(),
            quality_flags: clone_texts(&self.quality_flags),
        }
    }
}

/// How strict the rules are.
#[derive(Clone, Copy, Debug, PartialEq, Eq, Structural)]
pub enum Profile {
    Base,
    Strict,
}

/// The profiles by name.
pub open spec fn profile_named(s: Seq<char>) -> Option<Profile> {
    if s == "base"@ {
        Some(Profile::Base)
    } else if s == "strict"@ {
        Some(Profile::Strict)
    } else {
        None
    }
}

impl Profile {
    /// The profile's name.
    pub open spec fn name_text(self) -> Seq<char> {
        match self {
            Profile::Base => "base"@,
            Profile::Strict => "strict"@,
        }
    }

    /// The profile's name.
    pub fn name(self) -> (r: &'static str)
        ensures
            r@ == self.name_text(),
    {
        match self {
            Profile::Base => "base",
            Profile::Strict => "strict",
        }
    }

    /// The profile of that name, and none for any other text.
    pub fn from_str_strict(s: &str) -> (r: Option<Profile>)
        ensures
            r == profile_named(s@),
    {
        if same(s, "base") {
            Some(Profile::Base)
        } else if same(s, "strict") {
            Some(Profile::Strict)
        } else {
            None
        }
    }
}

/// The profile that a batch asks for: the base one unless it names another.
pub fn profile_of(name: &Option<String>) -> (r: Result<Profile, CliError>)
    ensures
        match r {
            Ok(p) => match opt_text(*name) {
                None => p == Profile::Base,
                Some(s) => profile_named(s) == Some(p),
            },
            Err(e) => {
                &&& opt_text(*name) is Some
                &&& profile_named(opt_text(*name)->Some_0) is None
                &&& e.message@ == "unknown profile: "@ + opt_text(*name)->Some_0
                    + " (expected 'base' or 'strict')"@
            },
        },
{
    match name {
        None => Ok(Profile::Base),
        Some(s) => match Profile::from_str_strict(s.as_str()) {
            Some(p) => Ok(p),
            None => Err(
                fail_with("unknown profile: ", s.as_str(), " (expected 'base' or 'strict')"),
            ),
        },
    }
}

/// How a text is read: what of it is prose.
#[derive(Clone, Copy, Debug, PartialEq, Eq, Structural)]
pub enum ContentType {
    Plain,
    Markdown,
    MarkdownScanCode,
    Yaml,
}

impl ContentType {
    /// The content type's name in cache keys.
    pub open spec fn key_text(self) -> Seq<char> {
        match self {
            ContentType::Plain => "Plain"@,
            ContentType::Markdown => "Markdown"@,
            ContentType::MarkdownScanCode => "MarkdownScanCode"@,
            ContentType::Yaml => "Yaml"@,
        }
    }

    fn key(self) -> (r: &'static str)
        ensures
            r@ == self.key_text(),
    {
        match self {
            ContentType::Plain => "Plain",
            ContentType::Markdown => "Markdown",
            ContentType::MarkdownScanCode => "MarkdownScanCode",
            ContentType::Yaml => "Yaml",
        }
    }
}

/// The content types by name.
pub open spec fn type_named(s: Seq<char>) -> Option<ContentType> {
    if s == "markdown"@ {
        Some(ContentType::Markdown)
    } else if s == "markdown-scan-code"@ {
        Some(ContentType::MarkdownScanCode)
    } else if s == "yaml"@ {
        Some(ContentType::Yaml)
    } else if s == "plain"@ {
        Some(ContentType::Plain)
    } else {
        None
    }
}

/// The content type that a file's name stands for, whatever the case of its
/// letters.
pub open spec fn type_of_file(file: Seq<char>) -> ContentType {
    let lower = lowered(file);
    if ".md"@.is_suffix_of(lower) || ".markdown"@.is_suffix_of(lower) {
        ContentType::Markdown
    } else if ".yml"@.is_suffix_of(lower) || ".yaml"@.is_suffix_of(lower) {
        ContentType::Yaml
    } else {
        ContentType::Plain
    }
}

/// The content type of a file: the one asked for by name, or else the one its
/// name stands for.
pub open spec fn content_type_of(asked: Option<Seq<char>>, file: Seq<char>) -> ContentType {
    match asked {
        Some(s) => match type_named(s) {
            Some(t) => t,
            None => type_of_file(file),
        },
        None => type_of_file(file),
    }
}

/// The content type of that name.
pub fn named_type(s: &str) -> (r: Option<ContentType>)
    ensures
        r == type_named(s@),
{
    if same(s, "markdown") {
        Some(ContentType::Markdown)
    } else if same(s, "markdown-scan-code") {
        Some(ContentType::MarkdownScanCode)
    } else if same(s, "yaml") {
        Some(ContentType::Yaml)
    } else if same(s, "plain") {
        Some(ContentType::Plain)
    } else {
        None
    }
}

/// The content type that a file's name stands for.
pub fn file_type(file: &str) -> (r: ContentType)
    ensures
        r == type_of_file(file@),
{
    let lower = to_lower(file);
    let s = lower.as_str();
    if ends_with(s, ".md") || ends_with(s, ".markdown") {
        ContentType::Markdown
    } else if ends_with(s, ".yml") || ends_with(s, ".yaml") {
        ContentType::Yaml
    } else {
        ContentType::Plain
    }
}

/// The content type of a file.
pub fn content_type_for(asked: &Option<String>, file: &str) -> (r: ContentType)
    ensures
        r == content_type_of(opt_text(*asked), file@),
{
    match asked {
        Some(s) => match named_type(s.as_str()) {
            Some(t) => t,
            None => file_type(file),
        },
        None => file_type(file),
    }
}

/// What the scanner is built from: a profile and the capabilities switched on
/// over it.
#[derive(Clone, Copy, Debug, PartialEq, Eq, Structural)]
pub struct ProfileConfig {
    pub profile: Profile,
    pub relaxed: bool,
    pub exempt_blockquotes: bool,
    pub ai_filler_detection: bool,
    pub ai_semantic_safety: bool,
    pub ai_density_detection: bool,
    pub ai_structural_patterns: bool,
    /// The AI threshold multiplier, in tenths.
    pub ai_threshold_tenths: u32,
    pub translationese_detection: bool,
    pub translationese_domain: TranslationeseDomain,
}

impl ProfileConfig {
    /// The same configuration, relaxed.
    pub fn with_relaxed(self) -> (r: Self)
        ensures
            r == (ProfileConfig { relaxed: true, ..self }),
    {
        ProfileConfig { relaxed: true, ..self }
    }

    /// Some AI detector is on.
    pub open spec fn ai_on(self) -> bool {
        self.ai_filler_detection || self.ai_semantic_safety || self.ai_density_detection
            || self.ai_structural_patterns
    }

    /// Whether some AI detector is on.
    pub fn ai_active(&self) -> (r: bool)
        ensures
            r == self.ai_on(),
    {
        self.ai_filler_detection || self.ai_semantic_safety || self.ai_density_detection
            || self.ai_structural_patterns
    }
}

/// A profile's configuration with the capabilities of a plan switched on. The
/// translationese domain is always the plan's.
pub open spec fn effective_config(base: ProfileConfig, plan: LintPlanView) -> ProfileConfig {
    ProfileConfig {
        profile: base.profile,
        relaxed: base.relaxed || plan.relaxed,
        exempt_blockquotes: base.exempt_blockquotes || plan.exempt_blockquotes,
        ai_filler_detection: base.ai_filler_detection || plan.detect_ai,
        ai_semantic_safety: base.ai_semantic_safety || plan.detect_ai,
        ai_density_detection: base.ai_density_detection || plan.detect_ai,
        ai_structural_patterns: base.ai_structural_patterns || plan.detect_ai,
        ai_threshold_tenths: if plan.detect_ai {
            plan.ai_threshold_tenths
        } else {
            base.ai_threshold_tenths
        },
        translationese_detection: base.translationese_detection || plan.detect_translationese,
        translationese_domain: plan.translationese_domain,
    }
}

/// Resolves a plan's capability flags over a profile's configuration.
pub fn build_config(base: ProfileConfig, plan: &LintPlan) -> (r: ProfileConfig)
    ensures
        r == effective_config(base, plan@),
{
    let mut cfg = base;
    if plan.relaxed {
        cfg = cfg.with_relaxed();
    }
    if plan.exempt_blockquotes {
        cfg.exempt_blockquotes = true;
    }
    if plan.detect_ai {
        cfg.ai_filler_detection = true;
        cfg.ai_semantic_safety = true;
        cfg.ai_density_detection = true;
        cfg.ai_structural_patterns = true;
        cfg.ai_threshold_tenths = plan.ai_threshold_tenths;
    }
    if plan.detect_translationese {
        cfg.translationese_detection = true;
    }
    cfg.translationese_domain = plan.translationese_domain;
    cfg
}

/// Scans may be answered from the cache: not while fixing, and not while
/// verifying, which needs the text.
pub open spec fn cache_applies(plan: LintPlanView) -> bool {
    plan.fix_mode == FixMode::Off && !plan.verify
}

/// Whether scans may be answered from the cache.
pub fn use_cache(plan: &LintPlan) -> (r: bool)
    ensures
        r == cache_applies(plan@),
{
    plan.fix_mode == FixMode::Off && !plan.verify
}

// Cache parameters.

/// A configuration as text, with every field by name.
pub open spec fn config_text(cfg: ProfileConfig) -> Seq<char> {
    "ProfileConfig { profile: "@ + json_quoted(cfg.profile.name_text()) + (", relaxed: "@
        + json_bool(cfg.relaxed) + (", exempt_blockquotes: "@ + json_bool(cfg.exempt_blockquotes)
        + config_text_detectors(cfg)))
}

/// The part from the detectors on.
pub open spec fn config_text_detectors(cfg: ProfileConfig) -> Seq<char> {
    ", ai_filler_detection: "@ + json_bool(cfg.ai_filler_detection) + (", ai_semantic_safety: "@
        + json_bool(cfg.ai_semantic_safety) + (", ai_density_detection: "@ + json_bool(
        cfg.ai_density_detection,
    ) + (", ai_structural_patterns: "@ + json_bool(cfg.ai_structural_patterns) + (
    ", translationese_detection: "@ + json_bool(cfg.translationese_detection) + (
    ", translationese_domain: "@ + json_quoted(cfg.translationese_domain.name_text()) + (
    ", ai_threshold_tenths: "@ + dec(cfg.ai_threshold_tenths as nat) + " }"@))))))
}

fn config_key(cfg: &ProfileConfig) -> (r: String)
    ensures
        r@ == config_text(*cfg),
{
    let t = append3(
        ", ai_threshold_tenths: ",
        decimal_u64(cfg.ai_threshold_tenths as u64).as_str(),
        " }",
    );
    let t = append3(
        ", translationese_domain: ",
        json_text(cfg.translationese_domain.name()).as_str(),
        t.as_str(),
    );
    let t = append3(
        ", translationese_detection: ",
        bool_text(cfg.translationese_detection),
        t.as_str(),
    );
    let t = append3(
        ", ai_structural_patterns: ",
        bool_text(cfg.ai_structural_patterns),
        t.as_str(),
    );
    let t = append3(", ai_density_detection: ", bool_text(cfg.ai_density_detection), t.as_str());
    let t = append3(", ai_semantic_safety: ", bool_text(cfg.ai_semantic_safety), t.as_str());
    let t = append3(", ai_filler_detection: ", bool_text(cfg.ai_filler_detection), t.as_str());
    assert(t@ == config_text_detectors(*cfg));
    let t = append3(", exempt_blockquotes: ", bool_text(cfg.exempt_blockquotes), t.as_str());
    let t = append3(", relaxed: ", bool_text(cfg.relaxed), t.as_str());
    append3("ProfileConfig { profile: ", json_text(cfg.profile.name()).as_str(), t.as_str())
}

/// A number of tenths with one decimal.
pub open spec fn tenths_text(tenths: u32) -> Seq<char> {
    dec((tenths / 10) as nat) + "."@ + dec((tenths % 10) as nat)
}

fn tenths(n: u32) -> (r: String)
    ensures
        r@ == tenths_text(n),
{
    append3(
        decimal_u64((n / 10) as u64).as_str(),
        ".",
        decimal_u64((n % 10) as u64).as_str(),
    )
}

/// The fix mode's name in cache keys.
pub open spec fn fix_mode_text(mode: FixMode) -> Seq<char> {
    match mode {
        FixMode::Off => "None"@,
        FixMode::Orthographic => "Orthographic"@,
        FixMode::LexicalSafe => "LexicalSafe"@,
        FixMode::LexicalContextual => "LexicalContextual"@,
    }
}

fn fix_mode_key(mode: FixMode) -> (r: &'static str)
    ensures
        r@ == fix_mode_text(mode),
{
    match mode {
        FixMode::Off => "None",
        FixMode::Orthographic => "Orthographic",
        FixMode::LexicalSafe => "LexicalSafe",
        FixMode::LexicalContextual => "LexicalContextual",
    }
}

/// What a scan depends on besides the content: the rules, the whole effective
/// configuration, how the text is read, and the scanner's build identity.
pub open spec fn params_of(
    ruleset_hash: Seq<char>,
    cfg: ProfileConfig,
    content_type: ContentType,
    plan: LintPlanView,
    version: Seq<char>,
    fingerprint: Seq<char>,
) -> ParamsView {
    ParamsView {
        ruleset_hash,
        profile: config_text(cfg),
        content_type: content_type.key_text(),
        fix_mode: fix_mode_text(plan.fix_mode),
        detect_ai: plan.detect_ai,
        detect_translationese: cfg.translationese_detection,
        translationese_domain: cfg.translationese_domain.name_text(),
        ai_threshold: tenths_text(plan.ai_threshold_tenths),
        exempt_blockquotes: cfg.exempt_blockquotes,
        engine_version: version + "+"@ + fingerprint,
    }
}

/// What a scan depends on besides the content.
pub fn scan_params(
    ruleset_hash: &str,
    cfg: &ProfileConfig,
    content_type: ContentType,
    plan: &LintPlan,
    version: &str,
    fingerprint: &str,
) -> (r: ScanParams)
    ensures
        r@ == params_of(ruleset_hash@, *cfg, content_type, plan@, version@, fingerprint@),
{
    ScanParams {
        ruleset_hash: string_from(ruleset_hash),
        profile: config_key(cfg),
        content_type: string_from(content_type.key()),
        fix_mode: string_from(fix_mode_key(plan.fix_mode)),
        detect_ai: plan.detect_ai,
        detect_translationese: cfg.translationese_detection,
        translationese_domain: string_from(cfg.translationese_domain.name()),
        ai_threshold: tenths(plan.ai_threshold_tenths),
        exempt_blockquotes: cfg.exempt_blockquotes,
        engine_version: append3(version, "+", fingerprint),
    }
}

proof fn lemma_dec_injective(a: nat, b: nat)
    requires
        dec(a) == dec(b),
    ensures
        a == b,
    decreases a,
{
    lemma_dec_len(a);
    lemma_dec_len(b);
    assert(dec(a).last() == digit(a % 10));
    assert(dec(b).last() == digit(b % 10));
    assert(a % 10 == b % 10);
    if a >= 10 && b >= 10 {
        assert(dec(a).drop_last() =~= dec(a / 10));
        assert(dec(b).drop_last() =~= dec(b / 10));
        lemma_dec_injective(a / 10, b / 10);
    }
}

proof fn lemma_dec_len(a: nat)
    ensures
        dec(a).len() >= 1,
        a >= 10 ==> dec(a).len() >= 2,
        a < 10 ==> dec(a).len() == 1,
    decreases a,
{
    if a >= 10 {
        lemma_dec_len(a / 10);
    }
}

proof fn lemma_names_distinct(p: Profile, q: Profile, d: TranslationeseDomain, e: TranslationeseDomain)
    ensures
        p.name_text() == q.name_text() ==> p == q,
        d.name_text() == e.name_text() ==> d == e,
{
    reveal_strlit("base");
    reveal_strlit("strict");
    reveal_strlit("general");
    reveal_strlit("technical");
    reveal_strlit("literary");
    reveal_strlit("news");
    assert(p.name_text()[0] == q.name_text()[0] ==> p == q);
    assert(d.name_text()[0] == e.name_text()[0] ==> d == e);
}

/// Two configurations have the same text only if they are the same, so a
/// relaxed run never answers from the cache for a strict one.
pub proof fn law_config_text_tells_configurations_apart(p: ProfileConfig, q: ProfileConfig)
    requires
        config_text(p) == config_text(q),
    ensures
        p == q,
{
    lemma_names_distinct(
        p.profile,
        q.profile,
        p.translationese_domain,
        q.translationese_domain,
    );
    let t3 = |v: ProfileConfig|
        ", exempt_blockquotes: "@ + json_bool(v.exempt_blockquotes) + config_text_detectors(v);
    let t2 = |v: ProfileConfig| ", relaxed: "@ + json_bool(v.relaxed) + t3(v);
    lemma_text_field(
        "ProfileConfig { profile: "@,
        p.profile.name_text(),
        q.profile.name_text(),
        t2(p),
        t2(q),
    );
    lemma_bool_field(", relaxed: "@, p.relaxed, q.relaxed, t3(p), t3(q));
    lemma_bool_field(
        ", exempt_blockquotes: "@,
        p.exempt_blockquotes,
        q.exempt_blockquotes,
        config_text_detectors(p),
        config_text_detectors(q),
    );
    lemma_detectors_distinct(p, q);
}

proof fn lemma_detectors_distinct(p: ProfileConfig, q: ProfileConfig)
    requires
        config_text_detectors(p) == config_text_detectors(q),
    ensures
        p.ai_filler_detection == q.ai_filler_detection,
        p.ai_semantic_safety == q.ai_semantic_safety,
        p.ai_density_detection == q.ai_density_detection,
        p.ai_structural_patterns == q.ai_structural_patterns,
        p.translationese_detection == q.translationese_detection,
        p.translationese_domain.name_text() == q.translationese_domain.name_text(),
        p.ai_threshold_tenths == q.ai_threshold_tenths,
{
    let t7 = |v: ProfileConfig|
        ", ai_threshold_tenths: "@ + dec(v.ai_threshold_tenths as nat) + " }"@;
    let t6 = |v: ProfileConfig|
        ", translationese_domain: "@ + json_quoted(v.translationese_domain.name_text()) + t7(v);
    let t5 = |v: ProfileConfig|
        ", translationese_detection: "@ + json_bool(v.translationese_detection) + t6(v);
    let t4 = |v: ProfileConfig|
        ", ai_structural_patterns: "@ + json_bool(v.ai_structural_patterns) + t5(v);
    let t3 = |v: ProfileConfig|
        ", ai_density_detection: "@ + json_bool(v.ai_density_detection) + t4(v);
    let t2 = |v: ProfileConfig| ", ai_semantic_safety: "@ + json_bool(v.ai_semantic_safety) + t3(v);
    lemma_bool_field(
        ", ai_filler_detection: "@,
        p.ai_filler_detection,
        q.ai_filler_detection,
        t2(p),
        t2(q),
    );
    lemma_bool_field(
        ", ai_semantic_safety: "@,
        p.ai_semantic_safety,
        q.ai_semantic_safety,
        t3(p),
        t3(q),
    );
    lemma_bool_field(
        ", ai_density_detection: "@,
        p.ai_density_detection,
        q.ai_density_detection,
        t4(p),
        t4(q),
    );
    lemma_bool_field(
        ", ai_structural_patterns: "@,
        p.ai_structural_patterns,
        q.ai_structural_patterns,
        t5(p),
        t5(q),
    );
    lemma_bool_field(
        ", translationese_detection: "@,
        p.translationese_detection,
        q.translationese_detection,
        t6(p),
        t6(q),
    );
    lemma_text_field(
        ", translationese_domain: "@,
        p.translationese_domain.name_text(),
        q.translationese_domain.name_text(),
        t7(p),
        t7(q),
    );
    let a = dec(p.ai_threshold_tenths as nat);
    let b = dec(q.ai_threshold_tenths as nat);
    assert(t7(p) =~= ", ai_threshold_tenths: "@ + (a + " }"@));
    assert(t7(q) =~= ", ai_threshold_tenths: "@ + (b + " }"@));
    lemma_strip(", ai_threshold_tenths: "@, a + " }"@, b + " }"@);
    assert(a.len() == b.len());
    assert((a + " }"@).take(a.len() as int) =~= a);
    assert((b + " }"@).take(a.len() as int) =~= b);
    lemma_dec_injective(p.ai_threshold_tenths as nat, q.ai_threshold_tenths as nat);
}

/// A profile has one name, and no other name stands for one.
pub proof fn law_profiles_by_name(p: Profile, s: Seq<char>)
    ensures
        profile_named(p.name_text()) == Some(p),
        profile_named(s) is Some ==> profile_named(s)->Some_0.name_text() == s,
        Profile::Base.name_text() == "base"@,
        Profile::Strict.name_text() == "strict"@,
{
    reveal_strlit("base");
    reveal_strlit("strict");
    assert("base"@.len() == 4 && "strict"@.len() == 6);
}

/// A content type that is asked for by its name is used, whatever the file is
/// called. Otherwise the end of the file's name decides, in any case of letters.
pub proof fn law_what_a_file_is_read_as(asked: Option<Seq<char>>, file: Seq<char>)
    ensures
        content_type_of(Some("markdown"@), file) == ContentType::Markdown,
        content_type_of(Some("markdown-scan-code"@), file) == ContentType::MarkdownScanCode,
        content_type_of(Some("yaml"@), file) == ContentType::Yaml,
        content_type_of(Some("plain"@), file) == ContentType::Plain,
        ({
            let known = asked == Some("markdown"@) || asked == Some("markdown-scan-code"@) || asked
                == Some("yaml"@) || asked == Some("plain"@);
            let lower = lowered(file);
            let t = content_type_of(asked, file);
            !known ==> {
                &&& t == ContentType::Markdown <==> ".md"@.is_suffix_of(lower)
                    || ".markdown"@.is_suffix_of(lower)
                &&& t == ContentType::Yaml <==> ".yml"@.is_suffix_of(lower) || ".yaml"@.is_suffix_of(
                    lower,
                )
                &&& t != ContentType::MarkdownScanCode
            }
        }),
{
    reveal_strlit("markdown");
    reveal_strlit("markdown-scan-code");
    reveal_strlit("yaml");
    reveal_strlit("plain");
    assert("yaml"@.len() == 4 && "plain"@.len() == 5 && "markdown"@.len() == 8
        && "markdown-scan-code"@.len() == 18);
    reveal_strlit(".md");
    reveal_strlit(".markdown");
    reveal_strlit(".yml");
    reveal_strlit(".yaml");
    let name = lowered(file);
    let n = name.len() as int;
    if ".yml"@.is_suffix_of(name) {
        assert(name[n - 1] == ".yml"@[3]);
    }
    if ".yaml"@.is_suffix_of(name) {
        assert(name[n - 1] == ".yaml"@[4]);
    }
    if ".md"@.is_suffix_of(name) {
        assert(name[n - 1] == ".md"@[2]);
    }
    if ".markdown"@.is_suffix_of(name) {
        assert(name[n - 1] == ".markdown"@[8]);
    }
}

/// A flag turns on what it asks for and turns nothing off: the profile's own
/// settings stand, and a threshold counts only with the detectors that it is
/// for.
pub proof fn law_flags_add_to_the_profile(base: ProfileConfig, plan: LintPlanView)
    ensures
        ({
            let cfg = effective_config(base, plan);
            &&& cfg.profile == base.profile
            &&& cfg.relaxed <==> base.relaxed || plan.relaxed
            &&& cfg.exempt_blockquotes <==> base.exempt_blockquotes || plan.exempt_blockquotes
            &&& plan.detect_ai ==> cfg.ai_filler_detection && cfg.ai_semantic_safety
                && cfg.ai_density_detection && cfg.ai_structural_patterns && cfg.ai_threshold_tenths
                == plan.ai_threshold_tenths
            &&& !plan.detect_ai ==> cfg.ai_filler_detection == base.ai_filler_detection
                && cfg.ai_semantic_safety == base.ai_semantic_safety && cfg.ai_density_detection
                == base.ai_density_detection && cfg.ai_structural_patterns
                == base.ai_structural_patterns && cfg.ai_threshold_tenths
                == base.ai_threshold_tenths
            &&& cfg.translationese_detection <==> base.translationese_detection
                || plan.detect_translationese
            &&& cfg.translationese_domain == plan.translationese_domain
        }),
{
}

/// The cache serves a run that neither fixes nor verifies.
pub proof fn law_when_the_cache_serves(plan: LintPlanView)
    ensures
        cache_applies(plan) <==> plan.fix_mode == FixMode::Off && !plan.verify,
{
}

proof fn lemma_keys_distinct(t: ContentType, u: ContentType, m: FixMode, n: FixMode)
    ensures
        t.key_text() == u.key_text() ==> t == u,
        fix_mode_text(m) == fix_mode_text(n) ==> m == n,
{
    reveal_strlit("Plain");
    reveal_strlit("Markdown");
    reveal_strlit("MarkdownScanCode");
    reveal_strlit("Yaml");
    reveal_strlit("None");
    reveal_strlit("Orthographic");
    reveal_strlit("LexicalSafe");
    reveal_strlit("LexicalContextual");
    assert("Plain"@.len() == 5 && "Markdown"@.len() == 8 && "MarkdownScanCode"@.len() == 16
        && "Yaml"@.len() == 4);
    assert("None"@.len() == 4 && "Orthographic"@.len() == 12 && "LexicalSafe"@.len() == 11
        && "LexicalContextual"@.len() == 17);
    assert(t.key_text().len() == u.key_text().len() ==> t == u);
    assert(fix_mode_text(m).len() == fix_mode_text(n).len() ==> m == n);
}

/// Two scans have the same parameters only where everything that a scan depends
/// on is the same: the rules, the configuration, how the file is read, the fix
/// mode, the detectors with their threshold, and the program itself.
pub proof fn law_parameters_tell_scans_apart(
    hash: Seq<char>,
    cfg: ProfileConfig,
    t: ContentType,
    plan: LintPlanView,
    other_hash: Seq<char>,
    other_cfg: ProfileConfig,
    other_t: ContentType,
    other_plan: LintPlanView,
    version: Seq<char>,
    fingerprint: Seq<char>,
    other_fingerprint: Seq<char>,
)
    requires
        params_of(hash, cfg, t, plan, version, fingerprint) == params_of(
            other_hash,
            other_cfg,
            other_t,
            other_plan,
            version,
            other_fingerprint,
        ),
    ensures
        hash == other_hash,
        cfg == other_cfg,
        t == other_t,
        plan.fix_mode == other_plan.fix_mode,
        plan.detect_ai == other_plan.detect_ai,
        plan.ai_threshold_tenths == other_plan.ai_threshold_tenths,
        fingerprint == other_fingerprint,
{
    law_config_text_tells_configurations_apart(cfg, other_cfg);
    lemma_keys_distinct(t, other_t, plan.fix_mode, other_plan.fix_mode);
    let a = version + "+"@ + fingerprint;
    let b = version + "+"@ + other_fingerprint;
    let n = (version + "+"@).len() as int;
    assert(a.skip(n) =~= fingerprint);
    assert(b.skip(n) =~= other_fingerprint);
    lemma_tenths_distinct(plan.ai_threshold_tenths, other_plan.ai_threshold_tenths);
}

proof fn lemma_tenths_distinct(a: u32, b: u32)
    ensures
        tenths_text(a) == tenths_text(b) ==> a == b,
{
    if tenths_text(a) == tenths_text(b) {
        reveal_strlit(".");
        lemma_dec_len((a % 10) as nat);
        lemma_dec_len((b % 10) as nat);
        let s = tenths_text(a);
        let whole = dec((a / 10) as nat);
        let other = dec((b / 10) as nat);
        assert(s.last() == dec((a % 10) as nat)[0]);
        assert(s.last() == dec((b % 10) as nat)[0]);
        assert(digit((a % 10) as nat) == digit((b % 10) as nat));
        assert(a % 10 == b % 10);
        assert(s.len() == whole.len() + 2);
        assert(s.len() == other.len() + 2);
        assert(s.take(s.len() - 2) =~= whole);
        assert(tenths_text(b).take(s.len() - 2) =~= other);
        lemma_dec_injective((a / 10) as nat, (b / 10) as nat);
    }
}

/// A scan's parameters as the cache compares them: each says what it is named
/// for.
pub proof fn law_what_the_parameters_say(
    hash: Seq<char>,
    cfg: ProfileConfig,
    t: ContentType,
    plan: LintPlanView,
    version: Seq<char>,
    fingerprint: Seq<char>,
)
    ensures
        ({
            let p = params_of(hash, cfg, t, plan, version, fingerprint);
            &&& p.ruleset_hash == hash
            &&& p.detect_ai == plan.detect_ai
            &&& p.detect_translationese == cfg.translationese_detection
            &&& p.exempt_blockquotes == cfg.exempt_blockquotes
            &&& version.is_prefix_of(p.engine_version)
            &&& fingerprint.is_suffix_of(p.engine_version)
            &&& p.engine_version.len() == version.len() + 1 + fingerprint.len()
        }),
{
    reveal_strlit("+");
    let e = version + "+"@ + fingerprint;
    assert(e.subrange(0, version.len() as int) =~= version);
    assert(e.subrange(e.len() - fingerprint.len(), e.len() as int) =~= fingerprint);
}

/// A profile that is not named is the base one; a name that stands for none is
/// refused.
pub proof fn law_which_profile_is_used(name: &Option<String>, r: Result<Profile, CliError>)
    requires
        call_ensures(profile_of, (name,), r),
    ensures
        *name is None ==> r == Ok::<Profile, CliError>(Profile::Base),
        *name is Some && (*name)->Some_0@ == "base"@ ==> r == Ok::<Profile, CliError>(
            Profile::Base,
        ),
        *name is Some && (*name)->Some_0@ == "strict"@ ==> r == Ok::<Profile, CliError>(
            Profile::Strict,
        ),
        *name is Some && (*name)->Some_0@ != "base"@ && (*name)->Some_0@ != "strict"@ ==> r is Err
            && r->Err_0.message@ == "unknown profile: "@ + (*name)->Some_0@
            + " (expected 'base' or 'strict')"@,
{
    reveal_strlit("base");
    reveal_strlit("strict");
    assert("base"@.len() == 4 && "strict"@.len() == 6);
}

/// Relaxing a configuration changes nothing else in it, and the AI detectors are
/// on where any of them is.
pub proof fn law_relaxing_changes_one_thing(cfg: ProfileConfig, r: ProfileConfig, on: bool)
    ensures
        call_ensures(ProfileConfig::with_relaxed, (cfg,), r) ==> r.relaxed && r == (ProfileConfig {
            relaxed: true,
            ..cfg
        }),
        call_ensures(ProfileConfig::ai_active, (&cfg,), on) ==> (on <==> cfg.ai_filler_detection
            || cfg.ai_semantic_safety || cfg.ai_density_detection || cfg.ai_structural_patterns),
{
}

/// What the run's configuration, its use of the cache, its parameters and its
/// reading of a file come to.
pub proof fn law_what_a_run_is_set_up_with(
    base: ProfileConfig,
    plan: &LintPlan,
    cfg: ProfileConfig,
    cached: bool,
    asked: &Option<String>,
    file: &str,
    t: ContentType,
)
    ensures
        call_ensures(build_config, (base, plan), cfg) ==> {
            &&& cfg.profile == base.profile
            &&& cfg.relaxed <==> base.relaxed || plan@.relaxed
            &&& plan@.detect_ai ==> cfg.ai_filler_detection && cfg.ai_semantic_safety
                && cfg.ai_density_detection && cfg.ai_structural_patterns
            &&& plan@.detect_translationese ==> cfg.translationese_detection
        },
        call_ensures(use_cache, (plan,), cached) ==> (cached <==> plan@.fix_mode == FixMode::Off
            && !plan@.verify),
        call_ensures(content_type_for, (asked, file), t) ==> t == content_type_of(
            opt_text(*asked),
            file@,
        ),
{
}

} // verus!
