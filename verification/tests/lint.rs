//! A lint batch.

use zhtw_mcp::batch::{
    baseline_saved, baseline_to_save, count_failed, count_file, finish_batch, process_scanned_file,
    settle, sink, Findings, JudgedIssue, LintTotals, Rescan, ResolutionTier, Sink,
};
use zhtw_mcp::cache::CacheHit;
use zhtw_mcp::cli::{parse_args, EXIT_FAILURE, EXIT_GATE};
use zhtw_mcp::lint::{
    check_file_size, check_stdin_size, colors, emit_fix_result, fast_outcome, fix_issues,
    need_text_post_scan, scan_in_parallel, slow_outcome, stdin_outcome, use_color, FixCandidate,
    FixEmission, FixResult, ScannedFile, MAX_CLI_FILE_BYTES,
};
use zhtw_mcp::lint_args::{LintFormat, TranslationeseDomain};
use zhtw_mcp::plan::{run, GlossaryConfig, LintPlan, ProjectConfig, Run};
use zhtw_mcp::rules::ruleset::{Issue, Severity};
use zhtw_mcp::scan::{
    build_config, content_type_for, profile_of, scan_params, use_cache, ContentType, Profile,
    ProfileConfig, ScanOutput,
};

fn plan_with(argv: &[&str], config: &ProjectConfig) -> LintPlan {
    let mut args = vec!["zhtw-mcp".to_string(), "lint".to_string(), "f.md".to_string()];
    args.extend(argv.iter().map(|s| s.to_string()));
    match run(parse_args(&args, true).unwrap(), config) {
        Run::Lint(plan) => *plan,
        _ => panic!("expected lint"),
    }
}

fn plan(argv: &[&str]) -> LintPlan {
    plan_with(argv, &ProjectConfig::default())
}

fn base_config() -> ProfileConfig {
    ProfileConfig {
        profile: Profile::Base,
        relaxed: false,
        exempt_blockquotes: false,
        ai_filler_detection: false,
        ai_semantic_safety: false,
        ai_density_detection: false,
        ai_structural_patterns: false,
        ai_threshold_tenths: 10,
        translationese_detection: false,
        translationese_domain: TranslationeseDomain::General,
    }
}

fn issue(found: &str, severity: Severity) -> Issue {
    Issue::new(0, found.len(), found, vec!["x".into()], "cross_strait", severity)
}

fn output() -> ScanOutput {
    ScanOutput {
        issues: vec![issue("軟件", Severity::Error)],
        detected_script: "traditional".into(),
        ai_signature: Some("ai-1".into()),
        translationese_signature: Some("tr-1".into()),
        coverage: None,
        oral_density: None,
        quality_flags: vec![],
    }
}

fn fix(text: &str, applied: usize, skipped: usize, declined: usize) -> Option<FixResult> {
    Some(FixResult {
        text: text.into(),
        applied,
        skipped,
        declined,
    })
}

// Setting up.

#[test]
fn profiles_are_named() {
    assert_eq!(profile_of(&None).unwrap(), Profile::Base);
    assert_eq!(profile_of(&Some("base".into())).unwrap(), Profile::Base);
    assert_eq!(profile_of(&Some("strict".into())).unwrap(), Profile::Strict);
    assert_eq!(
        profile_of(&Some("loose".into())).unwrap_err().message,
        "unknown profile: loose (expected 'base' or 'strict')"
    );
    assert_eq!(Profile::Strict.name(), "strict");
}

#[test]
fn content_types_follow_the_flag_and_then_the_name() {
    let asked = |s: &str| content_type_for(&Some(s.into()), "f.yml");
    assert_eq!(asked("markdown"), ContentType::Markdown);
    assert_eq!(asked("markdown-scan-code"), ContentType::MarkdownScanCode);
    assert_eq!(asked("plain"), ContentType::Plain);
    assert_eq!(asked("yaml"), ContentType::Yaml);
    assert_eq!(asked("rst"), ContentType::Yaml);
    for (file, want) in [
        ("a.md", ContentType::Markdown),
        ("README.MD", ContentType::Markdown),
        ("a.markdown", ContentType::Markdown),
        ("a.Yml", ContentType::Yaml),
        ("a.YAML", ContentType::Yaml),
        ("a.txt", ContentType::Plain),
        ("md", ContentType::Plain),
        ("--", ContentType::Plain),
        (".md", ContentType::Markdown),
    ] {
        assert_eq!(content_type_for(&None, file), want, "{file}");
    }
}

#[test]
fn capability_flags_are_switched_on_over_the_profile() {
    let cfg = build_config(
        base_config(),
        &plan(&[
            "--relaxed", "--exempt-blockquotes", "--detect-ai", "high",
            "--detect-translationese", "--translationese-domain", "news",
        ]),
    );
    assert!(cfg.relaxed && cfg.exempt_blockquotes && cfg.translationese_detection);
    assert!(cfg.ai_filler_detection && cfg.ai_semantic_safety);
    assert!(cfg.ai_density_detection && cfg.ai_structural_patterns && cfg.ai_active());
    assert_eq!(cfg.ai_threshold_tenths, 15);
    assert_eq!(cfg.translationese_domain, TranslationeseDomain::News);
    let cfg = build_config(ProfileConfig { ai_threshold_tenths: 7, ..base_config() }, &plan(&[]));
    assert_eq!(cfg, ProfileConfig { ai_threshold_tenths: 7, ..base_config() });
}

#[test]
fn the_cache_is_off_while_fixing_or_verifying() {
    assert!(use_cache(&plan(&[])));
    assert!(!use_cache(&plan(&["--fix"])));
    assert!(!use_cache(&plan(&["--verify"])));
}

#[test]
fn scan_parameters_carry_the_whole_configuration() {
    let p = plan(&["--detect-ai", "low"]);
    let cfg = build_config(base_config(), &p);
    let params = scan_params("rh", &cfg, ContentType::MarkdownScanCode, &p, "1.2.3", "00ff");
    assert_eq!(params.ruleset_hash, "rh");
    assert_eq!(params.content_type, "MarkdownScanCode");
    assert_eq!(params.fix_mode, "None");
    assert!(params.detect_ai && !params.detect_translationese && !params.exempt_blockquotes);
    assert_eq!(params.translationese_domain, "general");
    assert_eq!(params.ai_threshold, "0.5");
    assert_eq!(params.engine_version, "1.2.3+00ff");
    assert_eq!(
        params.profile,
        "ProfileConfig { profile: \"base\", relaxed: false, exempt_blockquotes: false, \
         ai_filler_detection: true, ai_semantic_safety: true, ai_density_detection: true, \
         ai_structural_patterns: true, translationese_detection: false, \
         translationese_domain: \"general\", ai_threshold_tenths: 5 }"
    );
    let relaxed = scan_params("rh", &cfg.with_relaxed(), ContentType::Plain, &p, "1", "2");
    assert_ne!(relaxed.profile, params.profile);
    let p = plan(&["--fix=lexical_contextual"]);
    assert_eq!(
        scan_params("", &cfg, ContentType::Yaml, &p, "", "").fix_mode,
        "LexicalContextual"
    );
}

#[test]
fn color_needs_a_terminal_and_leave() {
    assert!(use_color(false, true));
    assert!(!use_color(true, true));
    assert!(!use_color(false, false));
    let on = colors(true);
    assert_eq!((on.red, on.yellow, on.cyan), ("\x1b[31m", "\x1b[33m", "\x1b[36m"));
    assert_eq!((on.dim, on.bold, on.reset), ("\x1b[2m", "\x1b[1m", "\x1b[0m"));
    let off = colors(false);
    assert_eq!(format!("{}{}{}{}{}{}", off.red, off.yellow, off.cyan, off.dim, off.bold, off.reset), "");
}

// Scanning.

#[test]
fn inputs_are_bounded() {
    assert!(check_file_size("a.md", MAX_CLI_FILE_BYTES).is_ok());
    assert_eq!(
        check_file_size("a.md", MAX_CLI_FILE_BYTES + 1).unwrap_err().message,
        "a.md: file too large (16777217 bytes, limit 16777216)"
    );
    assert!(check_stdin_size(MAX_CLI_FILE_BYTES).is_ok());
    assert_eq!(
        check_stdin_size(MAX_CLI_FILE_BYTES + 1).unwrap_err().message,
        "stdin input exceeds 16777216 byte limit"
    );
}

fn hit(input_was_sc: bool) -> Option<CacheHit> {
    Some(CacheHit {
        output: output(),
        input_was_sc,
        text_char_count: 7,
    })
}

#[test]
fn a_fast_hit_is_enough_only_where_nobody_needs_the_text() {
    let scanned = fast_outcome(hit(false), &plan(&[]), ContentType::Yaml).unwrap();
    assert_eq!(scanned.text, "");
    assert_eq!(scanned.text_char_count, 7);
    assert!(!scanned.input_was_sc);
    assert_eq!(scanned.content_type, ContentType::Yaml);
    assert!(fast_outcome(hit(true), &plan(&[]), ContentType::Yaml).is_none());
    assert!(fast_outcome(None, &plan(&[]), ContentType::Yaml).is_none());
    for argv in [["--fix"], ["--consistency"], ["--verify"]] {
        assert!(need_text_post_scan(&plan(&argv)));
        assert!(fast_outcome(hit(false), &plan(&argv), ContentType::Yaml).is_none());
    }
    let glossary = ProjectConfig {
        glossary: Some(GlossaryConfig {
            banned: Some(vec!["x".into()]),
            preferred: None,
            proper_nouns: None,
        }),
        ..ProjectConfig::default()
    };
    assert!(need_text_post_scan(&plan_with(&[], &glossary)));
}

#[test]
fn a_read_text_is_kept_only_where_needed() {
    let s = slow_outcome("甲乙丙".into(), false, output(), &plan(&[]), ContentType::Plain);
    assert_eq!((s.text.as_str(), s.text_char_count), ("", 3));
    let s = slow_outcome("甲乙丙".into(), true, output(), &plan(&[]), ContentType::Plain);
    assert_eq!((s.text.as_str(), s.text_char_count), ("甲乙丙", 3));
    let s = slow_outcome("甲乙丙".into(), false, output(), &plan(&["--fix"]), ContentType::Plain);
    assert_eq!(s.text, "甲乙丙");
    let s = stdin_outcome("甲乙丙".into(), false, output(), ContentType::Plain);
    assert_eq!((s.text.as_str(), s.text_char_count), ("甲乙丙", 3));
}

#[test]
fn several_files_are_scanned_in_parallel() {
    let files = |list: &[&str]| list.iter().map(|s| s.to_string()).collect::<Vec<String>>();
    assert!(scan_in_parallel(&files(&["a", "b"])));
    assert!(!scan_in_parallel(&files(&["a"])));
    assert!(!scan_in_parallel(&files(&["--", "a"])));
}

// Fixing.

#[test]
fn suppressed_issues_are_not_fixed() {
    let candidates = vec![
        FixCandidate { issue: issue("甲", Severity::Error), suppressed: false },
        FixCandidate { issue: issue("乙", Severity::Error), suppressed: true },
        FixCandidate { issue: issue("丙", Severity::Info), suppressed: false },
    ];
    let found: Vec<String> = fix_issues(&candidates).into_iter().map(|i| i.found).collect();
    assert_eq!(found, ["甲", "丙"]);
}

fn emit(file: &str, fix: Option<FixResult>, sc: bool, argv: &[&str]) -> FixEmission {
    emit_fix_result(file, "old", &fix, sc, &plan(argv), &colors(false))
}

#[test]
fn a_fixed_file_is_written_and_reported() {
    let e = emit("f.md", fix("new", 2, 3, 0), false, &["--fix"]);
    assert_eq!(e.write.as_deref(), Some("new"));
    assert_eq!(e.status.as_deref(), Some("f.md: 2 fix(es) applied"));
    assert!(e.stdout.is_none() && e.note.is_none() && e.wrote_changes);
    assert_eq!(e.text, "new");

    let e = emit("f.md", fix("new", 2, 3, 1), false, &["--fix"]);
    assert_eq!(e.status.as_deref(), Some("f.md: 2 fix(es) applied, 1 declined"));

    let e = emit("f.md", None, true, &[]);
    assert_eq!(e.write.as_deref(), Some("old"));
    assert_eq!(e.status.as_deref(), Some("f.md: 0 fix(es) applied (S2T only)"));
}

#[test]
fn nothing_to_fix_is_nothing_to_say() {
    let e = emit("f.md", fix("old", 0, 0, 0), false, &["--fix"]);
    assert!(e.write.is_none() && e.status.is_none() && !e.wrote_changes);
    let e = emit("f.md", fix("old", 0, 4, 4), false, &["--fix"]);
    assert_eq!(e.status.as_deref(), Some("f.md: no fixes applied, 4 declined"));
    let e = emit("f.md", fix("old", 0, 4, 4), false, &["--fix", "--dry-run"]);
    assert_eq!(e.status.as_deref(), Some("f.md: no fixes applied, 4 declined (dry run)"));
    let e = emit("f.md", None, false, &[]);
    assert!(e.status.is_none());
    assert_eq!(e.text, "old");
}

#[test]
fn a_dry_run_only_talks() {
    let e = emit("f.md", fix("new", 1, 0, 0), false, &["--fix", "--dry-run"]);
    assert!(e.write.is_none() && !e.wrote_changes);
    assert_eq!(e.status.as_deref(), Some("f.md: 1 fix(es) would be applied (dry run)"));
    let e = emit("--", fix("new", 1, 0, 0), false, &["--fix", "--dry-run"]);
    assert!(e.stdout.is_none() && e.note.is_none());
}

#[test]
fn stdin_is_a_filter() {
    // Even a document without changes comes out.
    let e = emit("--", fix("old", 0, 0, 0), false, &["--fix"]);
    assert_eq!(e.stdout.as_deref(), Some("old"));
    assert!(e.write.is_none() && e.status.is_none());
    let e = emit("--", fix("new", 1, 0, 0), false, &["--fix"]);
    assert_eq!(e.stdout.as_deref(), Some("new"));
    assert_eq!(e.status.as_deref(), Some("--: 1 fix(es) applied"));
    let e = emit("--", None, true, &[]);
    assert_eq!(e.stdout.as_deref(), Some("old"));
    let e = emit("--", None, false, &[]);
    assert!(e.stdout.is_none());
    // A report owns standard output.
    let e = emit("--", fix("new", 1, 0, 0), false, &["--fix", "--format", "json"]);
    assert!(e.stdout.is_none());
    assert_eq!(
        e.note.as_deref(),
        Some("--: rewritten text not emitted: --format owns stdout; rerun without --format, or process a file")
    );
    assert!(LintFormat::Sarif.report_owns_stdout());
    assert!(!LintFormat::Human.report_owns_stdout());
}

#[test]
fn status_lines_are_colored() {
    let e = emit_fix_result("f", "old", &fix("n", 1, 0, 2), false, &plan(&["--fix", "--dry-run"]), &colors(true));
    assert_eq!(
        e.status.as_deref(),
        Some("\x1b[1mf\x1b[0m: 1 fix(es) would be applied, \x1b[2m2 declined\x1b[0m \x1b[2m(dry run)\x1b[0m")
    );
}

// Reporting one file.

fn judged(found: &str, severity: Severity, known: bool, tier: ResolutionTier) -> JudgedIssue {
    JudgedIssue { issue: issue(found, severity), known, tier }
}

fn some_judged() -> Vec<JudgedIssue> {
    vec![
        judged("甲", Severity::Error, false, ResolutionTier::Deterministic),
        judged("乙", Severity::Warning, true, ResolutionTier::Heuristic),
        judged("丙", Severity::Warning, false, ResolutionTier::LlmJudged),
        judged("丁", Severity::Info, false, ResolutionTier::Unresolved),
    ]
}

#[test]
fn files_are_counted() {
    let mut totals = LintTotals::default();
    assert!(totals.has_room(4));
    let counted = count_file(&some_judged(), &plan(&[]), &mut totals);
    assert_eq!((counted.errors, counted.warnings, counted.issues.len()), (1, 2, 4));
    assert_eq!((totals.errors, totals.warnings, totals.baseline_count), (1, 2, 0));
    assert_eq!(
        (totals.deterministic, totals.heuristic, totals.llm_judged, totals.unresolved),
        (1, 1, 1, 1)
    );

    let counted = count_file(&some_judged(), &plan(&["--baseline", "b.json"]), &mut totals);
    assert_eq!((counted.errors, counted.warnings), (1, 1));
    let found: Vec<&str> = counted.issues.iter().map(|i| i.found.as_str()).collect();
    assert_eq!(found, ["甲", "丙", "丁"]);
    assert_eq!((totals.errors, totals.warnings, totals.baseline_count), (2, 3, 1));

    // A baseline that is being rewritten filters nothing.
    let argv = ["--baseline", "b.json", "--update-baseline"];
    let counted = count_file(&some_judged(), &plan(&argv), &mut totals);
    assert_eq!(counted.issues.len(), 4);
    totals.errors = usize::MAX - 3;
    assert!(!totals.has_room(4));
}

#[test]
fn a_rewritten_text_is_reported_from_its_second_scan() {
    let first = || Findings {
        issues: vec![issue("甲", Severity::Error)],
        ai_signature: Some("ai-1".into()),
        translationese_signature: Some("tr-1".into()),
    };
    let second = || Rescan {
        issues: vec![],
        ai_signature: Some("ai-2".into()),
        translationese_signature: Some("tr-2".into()),
    };
    let f = settle(first(), None, &base_config());
    assert_eq!(f.issues.len(), 1);
    let f = settle(first(), Some(second()), &base_config());
    assert!(f.issues.is_empty());
    assert_eq!(f.ai_signature.as_deref(), Some("ai-1"));
    assert_eq!(f.translationese_signature.as_deref(), Some("tr-1"));
    let cfg = ProfileConfig {
        ai_density_detection: true,
        translationese_detection: true,
        ..base_config()
    };
    let f = settle(first(), Some(second()), &cfg);
    assert_eq!(f.ai_signature.as_deref(), Some("ai-2"));
    assert_eq!(f.translationese_signature.as_deref(), Some("tr-2"));
}

#[test]
fn a_file_report_puts_it_together() {
    let scanned = ScannedFile {
        text: "甲乙".into(),
        input_was_sc: true,
        text_char_count: 2,
        output: output(),
        content_type: ContentType::Plain,
    };
    let p = plan(&["--fix"]);
    let fixed = fix("甲乙丙丁", 1, 2, 3);
    let emitted = emit_fix_result("f.md", "甲乙", &fixed, true, &p, &colors(false));
    let findings = Findings {
        issues: vec![],
        ai_signature: Some("ai".into()),
        translationese_signature: None,
    };
    let mut totals = LintTotals::default();
    let r = process_scanned_file(
        "f.md", &scanned, &fixed, &emitted, &findings, &some_judged(), 9, true, &p, &mut totals,
    );
    assert_eq!(r.file_arg, "f.md");
    assert_eq!(r.detected_script, "simplified");
    assert_eq!((r.error_count, r.warning_count, r.tm_suppressed), (1, 2, 9));
    assert_eq!((r.fixes_applied, r.fixes_skipped, r.fixes_declined), (Some(1), Some(2), Some(3)));
    assert_eq!(r.consistency_text, "甲乙丙丁");
    assert_eq!(r.text_char_count, 4);
    assert_eq!(r.ai_signature.as_deref(), Some("ai"));
    assert!(r.multi);
    assert_eq!(totals.errors, 1);

    // A dry run reports the text that the user still has.
    let p = plan(&["--fix", "--dry-run"]);
    let emitted = emit_fix_result("f.md", "甲乙", &fixed, false, &p, &colors(false));
    let scanned = ScannedFile { input_was_sc: false, ..scanned };
    let r = process_scanned_file(
        "f.md", &scanned, &fixed, &emitted, &findings, &vec![], 0, false, &p, &mut totals,
    );
    assert_eq!(r.detected_script, "traditional");
    assert_eq!(r.consistency_text, "甲乙");
    assert_eq!(r.text_char_count, 2);
}

#[test]
fn reports_go_where_the_format_says() {
    assert_eq!(sink(LintFormat::Json, false), Sink::JsonNow);
    assert_eq!(sink(LintFormat::Json, true), Sink::JsonLater);
    assert_eq!(sink(LintFormat::Human, true), Sink::Human);
    assert_eq!(sink(LintFormat::Compact, true), Sink::Compact);
    assert_eq!(sink(LintFormat::Tabular, true), Sink::Tabular);
    assert_eq!(sink(LintFormat::Sarif, false), Sink::Sarif);
}

// The end of a batch.

#[test]
fn a_baseline_to_rewrite_must_be_named() {
    assert_eq!(baseline_to_save(&plan(&["--baseline", "b"])).unwrap(), None);
    assert_eq!(
        baseline_to_save(&plan(&["--baseline", "b", "--update-baseline"])).unwrap().as_deref(),
        Some("b")
    );
    assert_eq!(
        baseline_to_save(&plan(&["--update-baseline"])).unwrap_err().message,
        "--update-baseline requires --baseline <file>"
    );
    assert_eq!(
        baseline_saved(3, "b.json", &colors(false)),
        "Baseline updated: 3 fingerprint(s) in b.json"
    );
}

#[test]
fn exit_codes_are_a_contract() {
    let end = |t: &LintTotals, argv: &[&str]| finish_batch(t, &plan(argv), 1, &colors(false)).status;
    let mut t = LintTotals::default();
    assert_eq!(end(&t, &[]), 0);
    t.warnings = 5;
    assert_eq!(end(&t, &[]), 0, "warnings are free without a limit");
    assert_eq!(end(&t, &["--max-warnings", "5"]), 0);
    assert_eq!(end(&t, &["--max-warnings", "4"]), EXIT_GATE);
    t.errors = 1;
    assert_eq!(end(&t, &[]), EXIT_GATE);
    assert_eq!(end(&t, &["--max-errors", "1"]), 0);
    count_failed(&mut t);
    assert_eq!(end(&t, &["--max-errors", "1"]), EXIT_FAILURE);
    assert_eq!((EXIT_GATE, EXIT_FAILURE), (1, 2));
}

#[test]
fn a_batch_ends_with_its_lines() {
    let t = LintTotals {
        errors: 1,
        warnings: 2,
        deterministic: 3,
        heuristic: 4,
        llm_judged: 5,
        unresolved: 6,
        baseline_count: 7,
        failed_files: 8,
    };
    let p = plan(&["--baseline", "b", "--telemetry", "--format", "json"]);
    let end = finish_batch(&t, &p, 9, &colors(false));
    assert_eq!(
        end.lines,
        [
            "7 baseline issue(s) suppressed.",
            "[telemetry] files=9 total_issues=3 errors=1 warnings=2",
            "[telemetry] resolution: deterministic=3 heuristic=4 llm_judged=5 unresolved=6",
            "8 file(s) could not be processed",
        ]
    );
    assert!(end.json_array && !end.sarif_document);
    let end = finish_batch(&LintTotals::default(), &plan(&["--format", "sarif"]), 1, &colors(false));
    assert!(end.lines.is_empty());
    assert!(!end.json_array && end.sarif_document);
    assert!(!finish_batch(&t, &p, 1, &colors(false)).json_array);
}
