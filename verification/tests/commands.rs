//! The convert and management commands, and the text primitives below them.

use zhtw_mcp::cli::{parse_args, Cli, Command, TmArgs};
use zhtw_mcp::convert::{
    convert_content_type, convert_verify_line, lint_verify_line, residual_line, verify_step,
    Calibration, Rounds, VerifyStep,
};
use zhtw_mcp::lint::{colors, FixResult};
use zhtw_mcp::manage::{
    cache_cleared, check_host, pack_action, pack_list, pack_moved, pack_validated, run_pack_cmd,
    run_tm_cmd, tm_exported, tm_imported, tm_recorded, PackAction, PackInfo, TmAction,
};
use zhtw_mcp::rules::ruleset::{Issue, Severity};
use zhtw_mcp::scan::ContentType;
use zhtw_mcp::text::{
    contains, decimal, ends_with, is_white_space, join, lines, parse_usize, precedes, replace_char,
    split, starts_with, text_after_last, to_lower, trim,
};

fn strings(list: &[&str]) -> Vec<String> {
    list.iter().map(|s| s.to_string()).collect()
}

fn convert_cli(argv: &[&str], translate: bool) -> Result<Cli, String> {
    let mut args = strings(&["zhtw-mcp", "convert"]);
    args.extend(strings(argv));
    args.push("--".into());
    parse_args(&args, translate).map_err(|e| e.message)
}

// Convert.

#[test]
fn convert_default_does_not_verify() {
    match convert_cli(&[], true).unwrap().command {
        Command::Convert(c) => assert!(!c.verify),
        _ => panic!("expected convert"),
    }
}

#[test]
fn convert_accepts_verify_flag() {
    match convert_cli(&["--verify"], true).unwrap().command {
        Command::Convert(c) => assert!(c.verify),
        _ => panic!("expected convert"),
    }
}

#[test]
fn convert_verify_flag_explains_missing_feature() {
    assert!(convert_cli(&["--verify"], false)
        .unwrap_err()
        .contains("requires the 'translate' feature"));
}

#[test]
fn convert_rejects_unknown_flag() {
    assert!(convert_cli(&["--verifyy"], false)
        .unwrap_err()
        .contains("unknown convert flag"));
}

#[test]
fn convert_reads_markdown_file_names_the_way_lint_does() {
    for name in ["t.md", "t.markdown", "T.MD"] {
        assert_eq!(
            convert_content_type(&None, &strings(&[name])),
            ContentType::Markdown,
            "{name}"
        );
    }
    assert_eq!(convert_content_type(&None, &strings(&["--", "a.yml", "b.md"])), ContentType::Yaml);
    assert_eq!(convert_content_type(&None, &strings(&["--"])), ContentType::Plain);
    assert_eq!(convert_content_type(&None, &strings(&["a.txt", "b.md"])), ContentType::Plain);
    let asked = |s: &str| convert_content_type(&Some(s.into()), &strings(&["a.txt"]));
    assert_eq!(asked("md"), ContentType::Markdown);
    assert_eq!(asked("yml"), ContentType::Yaml);
    assert_eq!(asked("markdown-scan-code"), ContentType::MarkdownScanCode);
    assert_eq!(asked("plain"), ContentType::Plain);
    assert_eq!(asked("other"), ContentType::Plain);
}

fn fixed(text: &str, applied: usize) -> FixResult {
    FixResult { text: text.into(), applied, skipped: 0, declined: 0 }
}

#[test]
fn fixing_ends_after_three_rounds_or_when_nothing_changes() {
    let mut rounds = Rounds::new("a".into());
    for (n, text) in [(1, "b"), (2, "c"), (3, "d")] {
        assert!(rounds.wants_scan());
        assert!(rounds.scanned(4));
        assert_eq!(
            rounds.fixed(4, fixed(text, 2)),
            Some(format!("convert: round {n} \u{2014} 4 issues, 2 fixes applied"))
        );
    }
    assert!(!rounds.wants_scan());
    assert_eq!(rounds.text(), "d");

    let mut rounds = Rounds::new("a".into());
    assert!(rounds.scanned(1));
    assert_eq!(rounds.fixed(1, fixed("ignored", 0)), None);
    assert!(!rounds.wants_scan());
    assert_eq!(rounds.text(), "a");

    let mut rounds = Rounds::new("a".into());
    assert!(!rounds.scanned(0));
    assert!(!rounds.wants_scan());
}

#[test]
fn calibrations_are_reported() {
    let cal = Calibration { matched: 1, unmatched: 2, no_english: 3, api_ok: true };
    assert_eq!(
        lint_verify_line(&cal, &colors(false)),
        "  verify: 1 matched, 2 unmatched, 3 no_english, api_ok=true"
    );
    assert_eq!(
        convert_verify_line(&Calibration { api_ok: false, ..cal }),
        "convert: verify \u{2014} 1 matched, 2 unmatched, 3 no_english, api_ok=false"
    );
    let issue = |anchor: Option<bool>, english: Option<&str>| {
        let mut i = Issue::new(0, 1, "x", vec![], "t", Severity::Error);
        i.anchor_match = anchor;
        i.english = english.map(str::to_string);
        i
    };
    assert_eq!(residual_line(&vec![issue(Some(true), None), issue(None, None)]), None);
    assert_eq!(
        residual_line(&vec![
            issue(Some(false), None),
            issue(None, Some("e")),
            issue(Some(false), Some("e")),
            issue(Some(true), Some("e")),
        ]),
        Some("convert: 3 residual issues (2 unconfirmed, 1 no signal)".to_string())
    );
}

// Managing.

fn tm(cmd: &str) -> TmArgs {
    TmArgs {
        cmd: cmd.into(),
        arg: None,
        found: None,
        suggested: None,
        chose: None,
        context: None,
    }
}

#[test]
fn tm_commands_are_checked() {
    assert!(matches!(run_tm_cmd(tm("list")), Ok(TmAction::List)));
    assert!(matches!(run_tm_cmd(tm("clear")), Ok(TmAction::Clear)));
    let with = |cmd: &str| TmArgs { arg: Some("f".into()), ..tm(cmd) };
    assert!(matches!(run_tm_cmd(with("export")), Ok(TmAction::Export(p)) if p == "f"));
    assert!(matches!(run_tm_cmd(with("import")), Ok(TmAction::Import(p)) if p == "f"));
    let err = |args: TmArgs| run_tm_cmd(args).unwrap_err().message;
    assert_eq!(err(tm("export")), "tm export requires a file path");
    assert_eq!(err(tm("import")), "tm import requires a file path");
    assert_eq!(
        err(tm("frob")),
        "unknown tm subcommand: 'frob' (expected list|export|import|clear|record)"
    );
    let mut args = tm("record");
    assert_eq!(err(tm("record")), "tm record requires --found");
    args.found = Some("a".into());
    assert_eq!(
        err(TmArgs { found: Some("a".into()), ..tm("record") }),
        "tm record requires --suggested"
    );
    args.suggested = Some("b".into());
    assert_eq!(
        err(TmArgs { found: Some("a".into()), suggested: Some("b".into()), ..tm("record") }),
        "tm record requires --chose"
    );
    args.chose = Some("c".into());
    args.context = Some("d".into());
    let Ok(TmAction::Record { found, suggested, chose, context }) = run_tm_cmd(args) else {
        panic!("a complete record");
    };
    assert_eq!((found.as_str(), suggested.as_str(), chose.as_str()), ("a", "b", "c"));
    assert_eq!(context.as_deref(), Some("d"));
    assert_eq!(tm_exported(3, "f.json"), "Exported TM (3 entries) to f.json");
    assert_eq!(tm_imported(1, 2, 3), "Imported 1 new, 2 updated (3 total)");
    assert_eq!(tm_recorded("a", "c"), "Recorded: 'a' -> chose 'c'");
}

#[test]
fn pack_commands_are_checked() {
    let arg = |s: &str| Some(s.to_string());
    assert!(matches!(run_pack_cmd("list", None), Ok(PackAction::List)));
    assert!(matches!(
        run_pack_cmd("import", arg("dir/medical.v2.json")),
        Ok(PackAction::Import { name, source }) if name == "medical.v2" && source == "dir/medical.v2.json"
    ));
    assert!(matches!(
        run_pack_cmd("export", arg("legal")),
        Ok(PackAction::Export { name, dest }) if name == "legal" && dest == "legal.json"
    ));
    assert!(matches!(run_pack_cmd("validate", arg("f")), Ok(PackAction::Validate(f)) if f == "f"));
    let err = |cmd: &str, arg: Option<String>| run_pack_cmd(cmd, arg).unwrap_err().message;
    assert_eq!(err("import", arg("..")), "cannot determine pack name from file path");
    assert_eq!(err("import", None), "pack import requires a file path");
    assert_eq!(err("export", None), "pack export requires a pack name");
    assert_eq!(err("validate", None), "pack validate requires a file path");
    assert_eq!(
        err("frob", None),
        "unknown pack subcommand: 'frob' (expected import|export|validate|list)"
    );
    assert!(pack_action("import", arg("x"), None).is_err());
}

#[test]
fn outcomes_are_put_into_words() {
    let pack = |description: &str| PackInfo {
        name: "legal".into(),
        spelling_count: 3,
        case_count: 0,
        description: description.into(),
    };
    assert_eq!(
        pack_list(&vec![pack(""), pack("law")], "dir"),
        ["  legal (3 spelling, 0 case)", "  legal (3 spelling, 0 case) \u{2014} law"]
    );
    assert_eq!(pack_list(&vec![], "dir"), ["No packs installed in dir"]);
    assert_eq!(pack_moved("Installed", "legal", "dir"), "Installed pack 'legal' to dir");
    assert_eq!(pack_validated(&vec![]), ["Pack is valid."]);
    assert_eq!(
        pack_validated(&strings(&["a", "b"])),
        ["  warning: a", "  warning: b", "2 warning(s)."]
    );
    assert_eq!(cache_cleared(12), "judgment cache cleared (12 entries removed)");
    assert!(check_host("x", true, &vec![]).is_ok());
    assert_eq!(
        check_host("x", false, &strings(&["a", "b"])).unwrap_err().message,
        "unknown host: 'x'. Available: a, b"
    );
}

// Text.

#[test]
fn text_primitives_agree_with_the_standard_library() {
    let samples = ["", "a", "a.b", "甲乙.md", "a|b||c", "|", "x\r\ny\n\nz", "\r\n", "--fix=", "ÀÉ\u{130}aZ"];
    for s in samples {
        assert_eq!(to_lower(s), s.to_ascii_lowercase());
        assert_eq!(trim(s), s.trim());
        assert_eq!(lines(s), s.lines().collect::<Vec<_>>());
        assert_eq!(split(s, '|'), s.split('|').collect::<Vec<_>>());
        assert_eq!(text_after_last(s, '.').as_deref(), s.rsplit_once('.').map(|(_, e)| e));
        assert_eq!(replace_char(s, '\n', ' '), s.replace('\n', " "));
        assert_eq!(parse_usize(s), s.parse().ok());
        for t in samples {
            assert_eq!(starts_with(s, t), s.starts_with(t));
            assert_eq!(ends_with(s, t), s.ends_with(t));
            assert_eq!(contains(s, t), s.contains(t));
            assert_eq!(precedes(s, t), s < t, "{s:?} {t:?}");
        }
    }
    assert_eq!(join(&strings(&["a", "b", "c"]), ", "), "a, b, c");
    for n in [0, 9, 10, 4096, usize::MAX] {
        assert_eq!(decimal(n), n.to_string());
    }
}

#[test]
fn white_space_is_that_of_unicode() {
    for n in 0..=0x10ffff_u32 {
        if let Some(c) = char::from_u32(n) {
            assert_eq!(is_white_space(c), c.is_whitespace(), "{n:x}");
        }
    }
}

#[test]
fn only_remaining_issues_are_calibrated() {
    assert_eq!(verify_step(true, None), VerifyStep::Scan);
    assert_eq!(verify_step(true, Some(0)), VerifyStep::Done);
    assert_eq!(verify_step(true, Some(2)), VerifyStep::Calibrate);
    assert_eq!(verify_step(false, None), VerifyStep::Done);
    assert_eq!(verify_step(false, Some(2)), VerifyStep::Done);
}
