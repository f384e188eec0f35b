//! One file's way through a lint batch.

use zhtw_mcp::batch::{LintTotals, Rescan, ResolutionTier};
use zhtw_mcp::cache::{FileMeta, ScanCache};
use zhtw_mcp::cli::parse_args;
use zhtw_mcp::lint::{colors, FixResult, ScannedFile, MAX_CLI_FILE_BYTES};
use zhtw_mcp::lint_args::TranslationeseDomain;
use zhtw_mcp::pipeline::{AfterRead, FilePass, FileScan, Stage, Verdict};
use zhtw_mcp::plan::{run, LintPlan, ProjectConfig, Run};
use zhtw_mcp::rules::ruleset::{Issue, Severity};
use zhtw_mcp::scan::{ContentType, Profile, ProfileConfig, ScanOutput};

fn plan_with(argv: &[&str], config: &ProjectConfig) -> LintPlan {
    let mut args = vec!["zhtw-mcp".to_string(), "lint".to_string(), "f.md".to_string()];
    args.extend(argv.iter().map(|s| s.to_string()));
    match run(parse_args(&args, true).unwrap(), config) {
        Run::Lint(plan) => *plan,
        _ => panic!("expected lint"),
    }
}

fn plan(argv: &[&str]) -> LintPlan {
    plan_with(argv, &ProjectConfig::default())
}

fn config() -> ProfileConfig {
    ProfileConfig {
        profile: Profile::Base,
        relaxed: false,
        exempt_blockquotes: false,
        ai_filler_detection: false,
        ai_semantic_safety: false,
        ai_density_detection: false,
        ai_structural_patterns: false,
        ai_threshold_tenths: 10,
        translationese_detection: true,
        translationese_domain: TranslationeseDomain::General,
    }
}

fn issue(found: &str, severity: Severity) -> Issue {
    Issue::new(0, found.len(), found, vec![], "cross_strait", severity)
}

fn output(found: &[&str]) -> ScanOutput {
    ScanOutput {
        issues: found.iter().map(|f| issue(f, Severity::Error)).collect(),
        detected_script: "traditional".into(),
        ai_signature: Some("ai-1".into()),
        translationese_signature: Some("tr-1".into()),
        coverage: None,
        oral_density: None,
        quality_flags: vec![],
    }
}

fn file_scan(p: &LintPlan) -> FileScan {
    FileScan::new("f.md", p, &config(), "hash", "1.0", "ff")
}

fn found(list: &[Issue]) -> Vec<&str> {
    list.iter().map(|i| i.found.as_str()).collect()
}

fn loaded_cache() -> ScanCache {
    let mut cache = ScanCache::open("unused".into());
    cache.ensure_loaded(Vec::new());
    cache
}

const META: FileMeta = FileMeta { mtime_secs: 5, size: 6 };

#[test]
fn a_scan_fills_the_cache_and_the_cache_answers() {
    let p = plan(&[]);
    let f = file_scan(&p);
    assert_eq!(f.content_type(), ContentType::Markdown);
    let mut cache = Some(loaded_cache());
    assert!(f.opened(META, &cache, 100, &p).unwrap().is_none());
    let AfterRead::Scan(text) = f.read("軟件".into(), false, &cache, 100, &p) else {
        panic!("nothing is known yet");
    };
    let done = f.scanned(text, false, META, output(&["軟件"]), &mut cache, 100, &p);
    assert_eq!((done.text.as_str(), done.text_char_count), ("", 2));

    // The same time and size: not even read.
    let again = f.opened(META, &cache, 101, &p).unwrap().expect("a hit");
    assert_eq!(found(&again.output.issues), ["軟件"]);
    assert_eq!(again.text_char_count, 2);
    // Touched: read, but not scanned.
    let touched = FileMeta { mtime_secs: 9, size: 6 };
    assert!(f.opened(touched, &cache, 101, &p).unwrap().is_none());
    assert!(matches!(
        f.read("軟件".into(), false, &cache, 101, &p),
        AfterRead::Done(s) if found(&s.output.issues) == ["軟件"]
    ));
    // Changed, or expired: scanned.
    assert!(matches!(f.read("軟體".into(), false, &cache, 101, &p), AfterRead::Scan(t) if t == "軟體"));
    assert!(f.opened(META, &cache, 100 + 86401, &p).unwrap().is_none());
    // Another configuration does not share the entry.
    let strict = FileScan::new(
        "f.md", &p, &ProfileConfig { profile: Profile::Strict, ..config() }, "hash", "1.0", "ff",
    );
    assert!(strict.opened(META, &cache, 101, &p).unwrap().is_none());
}

#[test]
fn a_batch_that_needs_the_text_reads_it() {
    let p = plan(&["--consistency"]);
    let f = file_scan(&p);
    let mut cache = Some(loaded_cache());
    let done = f.scanned("軟件".into(), false, META, output(&[]), &mut cache, 1, &p);
    assert_eq!(done.text, "軟件");
    assert!(f.opened(META, &cache, 1, &p).unwrap().is_none());
    assert!(matches!(f.read("軟件".into(), false, &cache, 1, &p), AfterRead::Done(s) if s.text == "軟件"));
}

#[test]
fn without_a_cache_everything_is_scanned() {
    let p = plan(&["--fix"]);
    let f = file_scan(&p);
    let mut cache = None;
    assert!(f.opened(META, &cache, 1, &p).unwrap().is_none());
    assert!(matches!(f.read("x".into(), true, &cache, 1, &p), AfterRead::Scan(_)));
    let done = f.scanned("x".into(), true, META, output(&[]), &mut cache, 1, &p);
    assert!(done.input_was_sc && cache.is_none());
}

#[test]
fn a_file_beyond_the_limit_is_not_even_looked_up() {
    let p = plan(&[]);
    let meta = FileMeta { mtime_secs: 0, size: MAX_CLI_FILE_BYTES + 1 };
    assert_eq!(
        file_scan(&p).opened(meta, &None, 1, &p).unwrap_err().message,
        "f.md: file too large (16777217 bytes, limit 16777216)"
    );
}

fn scanned(text: &str, found: &[&str]) -> ScannedFile {
    ScannedFile {
        text: text.into(),
        input_was_sc: false,
        text_char_count: text.chars().count(),
        output: output(found),
        content_type: ContentType::Plain,
    }
}

fn verdicts(n: usize) -> Vec<Verdict> {
    vec![Verdict { known: false, tier: ResolutionTier::Deterministic }; n]
}

#[test]
fn a_plain_lint_goes_straight_to_the_report() {
    let p = plan(&[]);
    let mut pass = FilePass::new("f.md", scanned("", &["甲", "乙"]), false);
    assert_eq!(pass.stage(), Stage::Prepare);
    assert_eq!(found(pass.issues()), ["甲", "乙"]);
    pass.prepared(vec![issue("甲", Severity::Warning)], &p);
    assert_eq!(pass.stage(), Stage::Emit);
    let e = pass.emit(&p, &colors(false));
    assert!(e.stdout.is_none() && e.write.is_none() && e.status.is_none());
    assert_eq!(pass.stage(), Stage::Suppress);
    pass.suppressed(vec![issue("甲", Severity::Warning)], 3, &p);
    assert_eq!(pass.stage(), Stage::Judge);
    let mut totals = LintTotals::default();
    let r = pass.judged(&verdicts(1), &p, &mut totals);
    assert_eq!(pass.stage(), Stage::Done);
    assert_eq!(found(&r.issues), ["甲"]);
    assert_eq!((r.error_count, r.warning_count, r.tm_suppressed), (0, 1, 3));
    assert_eq!(r.fixes_applied, None);
    assert_eq!((totals.warnings, totals.deterministic), (1, 1));
}

#[test]
fn a_fixed_file_is_scanned_again() {
    let p = plan(&["--fix", "--verify"]);
    let mut pass = FilePass::new("f.md", scanned("old", &["甲"]), true);
    pass.prepared(vec![issue("甲", Severity::Error)], &p);
    assert_eq!(pass.stage(), Stage::Fix);
    assert_eq!(pass.text(), "old");
    assert!(!pass.was_fixed());
    pass.fixed(FixResult { text: "newer".into(), applied: 1, skipped: 0, declined: 0 });
    assert!(pass.was_fixed());
    assert_eq!(pass.emit(&p, &colors(false)).write.as_deref(), Some("newer"));
    assert_eq!(pass.stage(), Stage::Rescan);
    assert_eq!(pass.reported_text(), "newer");
    let rescan = Rescan {
        issues: vec![issue("乙", Severity::Error)],
        ai_signature: Some("ai-2".into()),
        translationese_signature: Some("tr-2".into()),
    };
    pass.rescanned(rescan, &config(), &p);
    assert_eq!(pass.stage(), Stage::Verify);
    assert_eq!(found(pass.issues()), ["乙"]);
    pass.verified(vec![issue("丙", Severity::Error)]);
    pass.suppressed(vec![issue("丙", Severity::Error)], 0, &p);
    let r = pass.judged(&verdicts(1), &p, &mut LintTotals::default());
    assert_eq!(found(&r.issues), ["丙"]);
    assert_eq!((r.consistency_text.as_str(), r.text_char_count), ("newer", 5));
    // Only the detector that is on has its signature refreshed.
    assert_eq!(r.ai_signature.as_deref(), Some("ai-1"));
    assert_eq!(r.translationese_signature.as_deref(), Some("tr-2"));
    assert_eq!(r.fixes_applied, Some(1));
}

#[test]
fn a_dry_run_reports_the_text_the_user_has() {
    let p = plan(&["--fix", "--dry-run", "--verify"]);
    let mut pass = FilePass::new("f.md", scanned("old", &["甲"]), false);
    pass.prepared(vec![issue("甲", Severity::Error)], &p);
    pass.fixed(FixResult { text: "newer".into(), applied: 1, skipped: 0, declined: 0 });
    assert!(pass.emit(&p, &colors(false)).write.is_none());
    assert_eq!(pass.stage(), Stage::Verify);
    assert_eq!(pass.reported_text(), "old");
    assert_eq!(found(pass.issues()), ["甲"]);
}

#[test]
fn ignored_terms_are_reported_and_fail_nothing() {
    let config = ProjectConfig {
        ignore_terms: Some(vec!["甲".into(), "乙".into()]),
        ..ProjectConfig::default()
    };
    let p = plan_with(&[], &config);
    let mut pass = FilePass::new("f.md", scanned("", &[]), false);
    pass.prepared(vec![], &p);
    pass.emit(&p, &colors(false));
    pass.suppressed(
        vec![issue("甲", Severity::Error), issue("乙", Severity::Warning), issue("丙", Severity::Error)],
        0,
        &p,
    );
    let mut totals = LintTotals::default();
    let r = pass.judged(&verdicts(3), &p, &mut totals);
    assert_eq!(found(&r.issues), ["甲", "乙", "丙"]);
    assert_eq!((totals.errors, totals.warnings, totals.deterministic), (1, 0, 3));
}

#[test]
fn only_a_rewritten_baseline_gains_issues() {
    let pass = FilePass::new("f.md", scanned("", &["甲", "乙"]), false);
    let rewritten = plan(&["--baseline", "b.json", "--update-baseline"]);
    assert_eq!(found(&pass.baseline_gains(&rewritten)), ["甲", "乙"]);
    assert!(pass.baseline_gains(&plan(&["--baseline", "b.json"])).is_empty());
}
