//! The command line.

use zhtw_mcp::cli::{default_log, parse_args, Cli, Command, ConvertArgs, TmArgs};
use zhtw_mcp::lint_args::{FixMode, LintArgs, LintFormat, TranslationeseDomain};

fn argv_of(argv: &[&str]) -> Vec<String> {
    let mut args = vec!["zhtw-mcp".to_string()];
    args.extend(argv.iter().map(|s| s.to_string()));
    args
}

/// Parse a command line written without the program name.
fn parse_with(argv: &[&str], translate: bool) -> Result<Cli, String> {
    parse_args(&argv_of(argv), translate).map_err(|e| e.message)
}

fn parse(argv: &[&str]) -> Result<Cli, String> {
    parse_with(argv, false)
}

fn lint_of(argv: &[&str]) -> LintArgs {
    match parse(argv).expect("parse should succeed").command {
        Command::Lint(l) => *l,
        _ => panic!("expected a lint command from {argv:?}"),
    }
}

fn convert_of(argv: &[&str]) -> ConvertArgs {
    match parse(argv).expect("parse should succeed").command {
        Command::Convert(c) => c,
        _ => panic!("expected a convert command from {argv:?}"),
    }
}

fn tm_of(argv: &[&str]) -> TmArgs {
    match parse(argv).expect("parse should succeed").command {
        Command::Tm(t) => t,
        _ => panic!("expected a tm command from {argv:?}"),
    }
}

fn err_of(argv: &[&str]) -> String {
    parse(argv)
        .err()
        .unwrap_or_else(|| panic!("expected {argv:?} to fail"))
}

fn multiplier(lint: &LintArgs) -> f32 {
    lint.ai_threshold_tenths as f32 / 10.0
}

#[test]
fn no_args_runs_the_server() {
    let cli = parse(&[]).unwrap();
    assert!(matches!(cli.command, Command::Server));
    assert!(cli.overrides_path.is_none());
    assert!(cli.active_packs.is_empty());
}

#[test]
fn global_flags_precede_the_subcommand() {
    let cli = parse(&[
        "--pack",
        "medical",
        "--pack",
        "legal",
        "--overrides",
        "/tmp/o.json",
        "--suppressions",
        "/tmp/s.json",
        "--packs-dir",
        "/tmp/packs",
        "--config",
        "/tmp/c.toml",
        "lint",
        "a.md",
    ])
    .unwrap();
    assert_eq!(cli.active_packs, ["medical", "legal"]);
    assert_eq!(cli.overrides_path.as_deref(), Some("/tmp/o.json"));
    assert_eq!(cli.suppressions_path.as_deref(), Some("/tmp/s.json"));
    assert_eq!(cli.packs_dir.as_deref(), Some("/tmp/packs"));
    assert_eq!(cli.config_path.as_deref(), Some("/tmp/c.toml"));
}

#[test]
fn global_flags_require_their_value() {
    for flag in [
        "--overrides",
        "--pack",
        "--packs-dir",
        "--suppressions",
        "--config",
    ] {
        assert!(parse(&[flag]).is_err(), "{flag} without a value must fail");
    }
}

#[test]
fn lint_collects_files_and_defaults() {
    let lint = lint_of(&["lint", "a.md", "b.md"]);
    assert_eq!(lint.files, ["a.md", "b.md"]);
    assert!(matches!(lint.format, LintFormat::Human));
    assert_eq!(lint.max_errors, None);
    assert!(lint.fix_mode.is_none());
    assert!(!lint.detect_ai);
}

#[test]
fn lint_without_files_fails() {
    assert!(err_of(&["lint"]).contains("at least one file"));
    assert!(err_of(&["lint", "--relaxed"]).contains("at least one file"));
}

#[test]
fn lint_formats() {
    for (name, want) in [
        ("json", LintFormat::Json),
        ("human", LintFormat::Human),
        ("sarif", LintFormat::Sarif),
        ("compact", LintFormat::Compact),
        ("tabular", LintFormat::Tabular),
    ] {
        let lint = lint_of(&["lint", "a.md", "--format", name]);
        assert_eq!(
            std::mem::discriminant(&lint.format),
            std::mem::discriminant(&want),
            "--format {name}"
        );
    }
    assert!(err_of(&["lint", "a.md", "--format", "xml"]).contains("unknown format"));
    assert!(err_of(&["lint", "a.md", "--format"]).contains("requires a value"));
}

#[test]
fn lint_numeric_flags() {
    let lint = lint_of(&["lint", "a.md", "--max-errors", "3", "--max-warnings", "7"]);
    assert_eq!(lint.max_errors, Some(3));
    assert_eq!(lint.max_warnings, Some(7));
    assert!(err_of(&["lint", "a.md", "--max-errors", "x"]).contains("--max-errors"));
    assert!(err_of(&["lint", "a.md", "--max-warnings", "-1"]).contains("--max-warnings"));
}

#[test]
fn lint_fix_modes() {
    for (arg, want) in [
        ("--fix", FixMode::LexicalSafe),
        ("--fix=lexical_safe", FixMode::LexicalSafe),
        ("--fix=orthographic", FixMode::Orthographic),
        ("--fix=lexical_contextual", FixMode::LexicalContextual),
    ] {
        let lint = lint_of(&["lint", "a.md", arg]);
        assert_eq!(lint.fix_mode, Some(want), "{arg}");
    }
    assert!(err_of(&["lint", "a.md", "--fix=wild"]).contains("unknown fix mode"));
}

#[test]
fn lint_content_type_is_validated() {
    for ct in ["plain", "markdown", "markdown-scan-code", "yaml"] {
        let lint = lint_of(&["lint", "a.md", "--content-type", ct]);
        assert_eq!(lint.content_type.as_deref(), Some(ct));
    }
    assert!(err_of(&["lint", "a.md", "--content-type", "rst"]).contains("unknown content-type"));
}

#[test]
fn detect_ai_level_is_optional() {
    // No level: the next token stays a file path.
    let lint = lint_of(&["lint", "--detect-ai", "a.md"]);
    assert!(lint.detect_ai);
    assert_eq!(lint.files, ["a.md"]);
    assert_eq!(multiplier(&lint), 1.0);

    for (level, mult) in [("low", 0.5), ("medium", 1.0), ("high", 1.5)] {
        let lint = lint_of(&["lint", "--detect-ai", level, "a.md"]);
        assert_eq!(multiplier(&lint), mult, "--detect-ai {level}");
        assert_eq!(lint.files, ["a.md"], "--detect-ai {level} ate the file");
    }
}

#[test]
fn a_later_flag_without_a_level_keeps_the_earlier_one() {
    let a = lint_of(&[
        "lint",
        "a.md",
        "--detect-ai",
        "low",
        "--detect-style",
        "--format",
        "json",
    ]);
    let b = lint_of(&[
        "lint",
        "a.md",
        "--detect-style",
        "--detect-ai",
        "low",
        "--format",
        "json",
    ]);
    assert_eq!(multiplier(&a), 0.5);
    assert_eq!(multiplier(&b), 0.5);

    // An explicit level still wins, whichever flag carries it.
    let c = lint_of(&[
        "lint",
        "a.md",
        "--detect-ai",
        "low",
        "--detect-style",
        "high",
        "--format",
        "json",
    ]);
    assert_eq!(multiplier(&c), 1.5);
}

#[test]
fn detect_style_implies_both_axes_and_needs_json() {
    let lint = lint_of(&["lint", "a.md", "--detect-style", "--format", "json"]);
    assert!(lint.detect_style && lint.detect_ai && lint.detect_translationese);
    assert!(err_of(&["lint", "a.md", "--detect-style"]).contains("--format json"));
}

#[test]
fn translationese_domain_is_validated() {
    let lint = lint_of(&["lint", "a.md", "--translationese-domain", "technical"]);
    assert!(matches!(
        lint.translationese_domain,
        TranslationeseDomain::Technical
    ));
    assert!(
        err_of(&["lint", "a.md", "--translationese-domain", "poetic"])
            .contains("unknown --translationese-domain")
    );
    assert!(err_of(&["lint", "--translationese-domain"]).contains("requires a value"));
}

#[test]
fn lint_boolean_flags() {
    let lint = lint_of(&[
        "lint",
        "a.md",
        "--relaxed",
        "--exempt-blockquotes",
        "--consistency",
        "--dry-run",
        "--explain",
        "--update-baseline",
        "--telemetry",
        "--detect-translationese",
    ]);
    assert!(lint.relaxed);
    assert!(lint.exempt_blockquotes);
    assert!(lint.consistency);
    assert!(lint.dry_run);
    assert!(lint.explain);
    assert!(lint.update_baseline);
    assert!(lint.telemetry);
    assert!(lint.detect_translationese);
}

#[test]
fn lint_path_flags() {
    let lint = lint_of(&[
        "lint",
        "a.md",
        "--baseline",
        "base.json",
        "--diff-from",
        "origin/main",
        "--exclude",
        "vendor/**",
        "--exclude",
        "*.tmp",
        "--profile",
        "strict",
    ]);
    assert_eq!(lint.baseline_path.as_deref(), Some("base.json"));
    assert_eq!(lint.diff_from.as_deref(), Some("origin/main"));
    assert_eq!(lint.exclude_patterns, ["vendor/**", "*.tmp"]);
    assert_eq!(lint.profile.as_deref(), Some("strict"));
}

#[test]
fn lint_treats_unknown_flags_as_file_paths() {
    let lint = lint_of(&["lint", "--pack", "medical"]);
    assert_eq!(lint.files, ["--pack", "medical"]);
}

#[test]
fn lint_accepts_stdin_and_log_flags() {
    let lint = lint_of(&["lint", "--", "--verbose", "--debug"]);
    assert_eq!(lint.files, ["--"]);
}

#[test]
fn verify_flag_is_recognized_when_the_feature_is_on() {
    match parse_with(&["lint", "a.md", "--verify"], true).unwrap().command {
        Command::Lint(lint) => assert!(lint.verify),
        _ => panic!("expected lint"),
    }
    match parse_with(&["convert", "--verify"], true).unwrap().command {
        Command::Convert(convert) => assert!(convert.verify),
        _ => panic!("expected convert"),
    }
}

#[test]
fn verify_flag_explains_the_missing_feature() {
    assert!(err_of(&["lint", "a.md", "--verify"]).contains("translate"));
    assert!(err_of(&["convert", "--verify"]).contains("translate"));
}

#[test]
fn convert_defaults_to_stdin() {
    assert_eq!(convert_of(&["convert"]).files, ["--"]);
}

#[test]
fn convert_validates_content_type_like_lint() {
    assert_eq!(
        convert_of(&["convert", "a.md", "--content-type", "yaml"])
            .content_type
            .as_deref(),
        Some("yaml")
    );

    for (given, want) in [("md", "markdown"), ("yml", "yaml")] {
        assert_eq!(
            convert_of(&["convert", "a.md", "--content-type", given])
                .content_type
                .as_deref(),
            Some(want)
        );
        assert_eq!(
            lint_of(&["lint", "a.md", "--content-type", given])
                .content_type
                .as_deref(),
            Some(want)
        );
    }
    assert!(err_of(&["convert", "a.md", "--content-type", "markdwon"])
        .contains("unknown content-type"));
    assert!(err_of(&["convert", "a.md", "--content-type"]).contains("requires a value"));
}

#[test]
fn convert_collects_files_and_rejects_unknown_flags() {
    let convert = convert_of(&["convert", "a.md", "--content-type", "markdown"]);
    assert_eq!(convert.files, ["a.md"]);
    assert_eq!(convert.content_type.as_deref(), Some("markdown"));
    assert!(err_of(&["convert", "--nope"]).contains("unknown convert flag"));
}

#[test]
fn tm_record_collects_key_values() {
    let tm = tm_of(&[
        "tm",
        "record",
        "--found",
        "軟件",
        "--suggested",
        "軟體",
        "--chose",
        "軟體",
        "--context",
        "句子",
    ]);
    assert_eq!(tm.cmd, "record");
    assert_eq!(tm.found.as_deref(), Some("軟件"));
    assert_eq!(tm.suggested.as_deref(), Some("軟體"));
    assert_eq!(tm.chose.as_deref(), Some("軟體"));
    assert_eq!(tm.context.as_deref(), Some("句子"));
    assert!(err_of(&["tm", "record", "--bogus", "x"]).contains("unknown tm record flag"));
    assert!(err_of(&["tm", "record", "--found"]).contains("--found requires a value"));
}

#[test]
fn tm_argument_consumption_is_per_subcommand() {
    for sub in ["export", "import"] {
        assert_eq!(tm_of(&["tm", sub, "f.json"]).arg.as_deref(), Some("f.json"));
        assert!(err_of(&["tm", sub]).contains("requires a file path"));
    }
    for sub in ["list", "clear"] {
        assert!(tm_of(&["tm", sub]).arg.is_none());
    }
    assert!(err_of(&["tm"]).contains("tm requires a subcommand"));
}

#[test]
fn pack_argument_consumption_is_per_subcommand() {
    for sub in ["import", "export", "validate"] {
        match parse(&["pack", sub, "x"]).unwrap().command {
            Command::Pack { cmd, arg } => {
                assert_eq!(cmd, sub);
                assert_eq!(arg.as_deref(), Some("x"));
            }
            _ => panic!("expected pack"),
        }
        assert!(err_of(&["pack", sub]).contains("requires an argument"));
    }
    match parse(&["pack", "list"]).unwrap().command {
        Command::Pack { cmd, arg } => {
            assert_eq!(cmd, "list");
            assert!(arg.is_none());
        }
        _ => panic!("expected pack"),
    }
    assert!(err_of(&["pack"]).contains("pack requires a subcommand"));
}

#[test]
fn cache_clear_takes_no_extra_arguments() {
    assert!(matches!(
        parse(&["cache", "clear"]).unwrap().command,
        Command::CacheClear
    ));
    assert!(err_of(&["cache", "clear", "all"]).contains("does not accept additional"));
    assert!(err_of(&["cache", "purge"]).contains("unknown cache subcommand"));
    assert!(err_of(&["cache"]).contains("cache requires a subcommand"));
}

#[test]
fn setup_requires_a_host() {
    match parse(&["setup", "cursor"]).unwrap().command {
        Command::Setup(h) => assert_eq!(h, "cursor"),
        _ => panic!("expected setup"),
    }
    assert!(err_of(&["setup"]).contains("requires a host name"));
}

#[test]
fn a_second_subcommand_is_rejected() {
    assert!(err_of(&["setup", "cursor", "pack", "list"]).contains("only one subcommand"));
    assert!(err_of(&["pack", "list", "cache", "clear"]).contains("only one subcommand"));
}

#[test]
fn unknown_top_level_argument_is_rejected() {
    assert!(err_of(&["--nope"]).contains("unknown argument"));
    assert!(err_of(&["frobnicate"]).contains("unknown argument"));
    // --content-type is lint-only, so it is unknown at the top level.
    assert!(err_of(&["--content-type", "markdown"]).contains("unknown argument"));
}

#[test]
fn log_level_flags_are_accepted_anywhere() {
    assert!(matches!(
        parse(&["--verbose", "--debug"]).unwrap().command,
        Command::Server
    ));
}

#[test]
fn error_messages_are_exact() {
    assert_eq!(
        err_of(&["lint", "a.md", "--format", "xml"]),
        "unknown format: xml (expected 'json', 'human', 'sarif', 'compact', or 'tabular')"
    );
    assert_eq!(
        err_of(&["lint", "a.md", "--fix=軟"]),
        "unknown fix mode: 軟 (expected 'orthographic', 'lexical_safe', or 'lexical_contextual')"
    );
    assert_eq!(
        err_of(&["lint", "a.md", "--content-type", "rst"]),
        "unknown content-type: rst (expected 'plain', 'markdown', 'markdown-scan-code', or 'yaml')"
    );
    assert_eq!(
        err_of(&["lint", "a.md", "--translationese-domain", "poetic"]),
        "unknown --translationese-domain value 'poetic' (expected: general|technical|literary|news)"
    );
    assert_eq!(
        err_of(&["lint", "--verify"]),
        "--verify requires the 'translate' feature; rebuild with --features translate"
    );
    assert_eq!(err_of(&["tm", "export"]), "tm export requires a file path");
    assert_eq!(err_of(&["pack", "import"]), "pack import requires an argument");
    assert_eq!(
        err_of(&["cache", "purge"]),
        "unknown cache subcommand: purge (expected 'clear')"
    );
    assert_eq!(
        err_of(&["setup", "cursor", "lint", "a.md"]),
        "only one subcommand is allowed, found a second: lint"
    );
    assert_eq!(err_of(&["--db"]), "--overrides requires a path");
}

#[test]
fn numbers_are_read_the_way_the_standard_library_reads_them() {
    for text in ["0", "007", "+5", "18446744073709551615", "18446744073709551616", "", "+", "1_0", "٣"] {
        let got = parse(&["lint", "a.md", "--max-errors", text])
            .ok()
            .map(|cli| match cli.command {
                Command::Lint(lint) => lint.max_errors.unwrap(),
                _ => panic!("expected lint"),
            });
        assert_eq!(got, text.parse::<usize>().ok(), "{text:?}");
    }
}

#[test]
fn subcommands_leave_what_they_do_not_use() {
    let cli = parse(&["tm", "list", "--config", "c.toml"]).unwrap();
    assert_eq!(cli.config_path.as_deref(), Some("c.toml"));
    let cli = parse(&["tm", "record", "--found", "a", "--pack"]).err().unwrap();
    assert_eq!(cli, "unknown tm record flag: --pack");
    let cli = parse(&["pack", "list", "--pack", "legal"]).unwrap();
    assert_eq!(cli.active_packs, ["legal"]);
}

#[test]
fn the_log_level_is_read_anywhere() {
    assert_eq!(default_log(&argv_of(&["lint", "a.md"])), "warn");
    assert_eq!(default_log(&argv_of(&["lint", "a.md", "--verbose"])), "info");
    assert_eq!(default_log(&argv_of(&["--verbose", "lint", "--debug"])), "debug");
}
