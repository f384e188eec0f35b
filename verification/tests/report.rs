//! The reports.

use zhtw_mcp::cli::parse_args;
use zhtw_mcp::lint::colors;
use zhtw_mcp::plan::{run, LintPlan, ProjectConfig, Run};
use zhtw_mcp::report::{
    display_path_prefix, format_suggestions, location_cell, prefix_of, render_compact, render_human,
    render_json, render_tabular, CompactIssue, ConsistencyReport, FileReport, SarifLog, TabularRow,
};
use zhtw_mcp::rules::ruleset::{Issue, Severity};

fn plan(argv: &[&str]) -> LintPlan {
    let mut args = vec!["zhtw-mcp".to_string(), "lint".to_string(), "f.md".to_string()];
    args.extend(argv.iter().map(|s| s.to_string()));
    match run(parse_args(&args, true).unwrap(), &ProjectConfig::default()) {
        Run::Lint(plan) => *plan,
        _ => panic!("expected lint"),
    }
}

fn issue(found: &str, severity: Severity) -> Issue {
    let mut i = Issue::new(4, 6, found, vec!["軟體".into(), "程式".into()], "cross_strait", severity);
    i.line = 3;
    i.col = 7;
    i
}

fn report(issues: Vec<Issue>, multi: bool) -> FileReport {
    FileReport {
        file_arg: "f.md".into(),
        detected_script: "traditional".into(),
        issues,
        error_count: 1,
        warning_count: 2,
        tm_suppressed: 0,
        fixes_applied: None,
        fixes_skipped: Some(0),
        fixes_declined: None,
        ai_signature: Some("ai".into()),
        translationese_signature: None,
        consistency_text: "text".into(),
        text_char_count: 4,
        multi,
    }
}

#[test]
fn suggestions_are_joined() {
    let mut i = issue("軟件", Severity::Error);
    assert_eq!(format_suggestions(&i), "軟體, 程式");
    i.deletes = true;
    assert_eq!(format_suggestions(&i), "(delete)");
    i.deletes = false;
    i.suggestions = vec![];
    assert_eq!(format_suggestions(&i), "");
}

#[test]
fn paths_are_shown_relative_to_the_current_directory() {
    let cwd = Some("/home/u".to_string());
    assert_eq!(display_path_prefix("--", &cwd), "");
    assert_eq!(display_path_prefix("/home/u/doc/a.md", &cwd), "doc/a.md:");
    assert_eq!(display_path_prefix("/home/user/a.md", &cwd), "/home/user/a.md:");
    assert_eq!(display_path_prefix("a.md", &cwd), "a.md:");
    assert_eq!(display_path_prefix("/home/u/a.md", &None), "/home/u/a.md:");
    assert_eq!(prefix_of("x", Some("y".into())), "y:");
}

#[test]
fn json_results_hold_what_was_asked_for() {
    let r = report(vec![issue("軟件", Severity::Error)], false);
    let consistency = |empty: bool| Some(ConsistencyReport { text: "con".into(), empty });
    let out = render_json(&r, &plan(&[]), Some("card".into()), consistency(false));
    assert_eq!((out.file.as_str(), out.detected_script.as_str()), ("f.md", "traditional"));
    assert_eq!((out.total, out.errors, out.warnings), (1, 1, 2));
    assert_eq!(out.issues[0].found, "軟件");
    assert_eq!(out.tm_suppressed, None);
    assert_eq!((out.fixes_applied, out.fixes_skipped, out.fixes_declined), (None, Some(0), None));
    assert_eq!(out.ai_signature.as_deref(), Some("ai"));
    assert_eq!((out.style_scorecard, out.consistency), (None, None));

    let p = plan(&["--detect-style", "--format", "json", "--consistency"]);
    let mut r = report(vec![], false);
    r.tm_suppressed = 2;
    let out = render_json(&r, &p, Some("card".into()), consistency(false));
    assert_eq!(out.tm_suppressed, Some(2));
    assert_eq!(out.style_scorecard.as_deref(), Some("card"));
    assert_eq!(out.consistency.as_deref(), Some("con"));
    assert_eq!(render_json(&r, &p, None, consistency(true)).consistency, None);
}

#[test]
fn human_lines_say_where_what_and_why() {
    let off = colors(false);
    assert_eq!(render_human(&report(vec![], false), true, &off), ["No issues found."]);
    assert_eq!(render_human(&report(vec![], true), true, &off), ["f.md:No issues found."]);

    let mut a = issue("軟件", Severity::Error);
    a.anchor_match = Some(true);
    a.context = Some("ctx".into());
    a.english = Some("software".into());
    let mut b = issue("內存", Severity::Info);
    b.anchor_match = Some(false);
    let lines = render_human(&report(vec![a.clone(), b.clone()], false), true, &off);
    assert_eq!(
        lines,
        [
            "3:7: error [cross_strait] '軟件' -> 軟體, 程式 [verified]",
            "  context: ctx",
            "  english: software",
            "3:7: info [cross_strait] '內存' -> 軟體, 程式 [unverified]",
            "\n2 issue(s) found.",
        ]
    );
    let lines = render_human(&report(vec![a], true), false, &colors(true));
    assert_eq!(
        lines,
        [
            "\x1b[1mf.md\x1b[0m:3:7: \x1b[31merror\x1b[0m \x1b[2m[cross_strait]\x1b[0m '\x1b[1m軟件\x1b[0m' -> 軟體, 程式 [verified]",
            "\n\x1b[1mf.md\x1b[0m:\x1b[1m1 issue(s) found.\x1b[0m",
        ]
    );
}

fn compact(found: &str, suggestions: &str, line: usize, col: usize) -> CompactIssue {
    CompactIssue {
        found: found.into(),
        rule: "cs".into(),
        suggestions: suggestions.into(),
        severity: "E".into(),
        line,
        col,
        context: None,
        english: None,
    }
}

#[test]
fn compact_lines_are_grouped_and_in_source_order() {
    let mut first = compact("軟件", "軟體|程式|軟", 5, 2);
    first.context = Some("two\nlines".into());
    first.english = Some("software".into());
    let list = vec![
        first,
        compact("內存", "記憶體", 1, 9),
        compact("軟件", "軟體|程式|軟", 5, 1),
        compact("內存", "記憶體", 7, 1),
        compact("軟件", "軟體", 1, 9),
    ];
    assert_eq!(
        render_compact("f.md:", &list, false),
        [
            "f.md:1:9:E:cs:內存\u{2192}記憶體 (\u{d7}2 also at 7:1)",
            "f.md:1:9:E:cs:軟件\u{2192}軟體",
            "f.md:5:2:E:cs:軟件\u{2192}軟體+2 (\u{d7}2 also at 5:1)",
        ]
    );
    assert_eq!(
        render_compact("", &list, true)[2],
        "5:2:E:cs:軟件\u{2192}軟體+2 (\u{d7}2 also at 5:1) [two lines] (software)"
    );
    assert!(render_compact("f.md:", &vec![], true).is_empty());
    assert_eq!(
        render_compact("", &vec![compact("x", "", 1, 1)], false),
        ["1:1:E:cs:x\u{2192}"]
    );
}

fn row(explanation: Option<&str>) -> TabularRow {
    TabularRow {
        found: "軟件".into(),
        suggestions: vec!["軟體".into(), "程式".into()],
        deletes: false,
        rule: "cs".into(),
        severity: "E".into(),
        count: 2,
        locations: "1:2,3:4".into(),
        explanation: explanation.map(str::to_string),
    }
}

#[test]
fn the_table_has_one_header_per_run() {
    let mut printed = false;
    assert!(render_tabular(&vec![], false, &mut printed).is_empty());
    assert!(!printed);
    assert_eq!(
        render_tabular(&vec![row(Some("e"))], false, &mut printed),
        [
            "found\tsug\ttype\tsev\tn\tloc",
            "軟件\t軟體,程式\tcs\tE\t2\t1:2,3:4",
        ]
    );
    assert!(printed);
    let mut gone = row(None);
    gone.deletes = true;
    assert_eq!(
        render_tabular(&vec![row(Some("e")), gone], true, &mut printed),
        [
            "軟件\t軟體,程式\tcs\tE\t2\t1:2,3:4\te",
            "軟件\t(delete)\tcs\tE\t2\t1:2,3:4\t",
        ]
    );
    let mut printed = false;
    assert_eq!(
        render_tabular(&vec![row(None)], true, &mut printed)[0],
        "found\tsug\ttype\tsev\tn\tloc\texpl"
    );
}

#[test]
fn locations_carry_their_file() {
    let locs = vec![(1, 2), (3, 4)];
    assert_eq!(location_cell("", &locs, "1:2 3:4".into()), "1:2 3:4");
    assert_eq!(location_cell("f.md:", &locs, "1:2 3:4".into()), "f.md:1:2,f.md:3:4");
}

#[test]
fn sarif_collects_results_and_rules() {
    let mut log = SarifLog::new();
    let mut variant = issue("裏", Severity::Info);
    variant.rule_type = "a_variant".into();
    log.collect_sarif(&report(
        vec![issue("軟件", Severity::Error), variant, issue("內存", Severity::Warning)],
        false,
    ));
    let rules: Vec<(String, String)> = log
        .rules()
        .into_iter()
        .map(|r| (r.id, r.short_description))
        .collect();
    assert_eq!(
        rules,
        [
            ("zhtw-mcp/a_variant".to_string(), "a_variant check".to_string()),
            ("zhtw-mcp/cross_strait".to_string(), "cross_strait check".to_string()),
        ]
    );
    let results = log.results();
    assert_eq!(results.len(), 3);
    assert_eq!(results[0].rule_id, "zhtw-mcp/cross_strait");
    assert_eq!(results[0].message, "'軟件' -> 軟體, 程式");
    assert_eq!(results[0].uri, "f.md");
    assert_eq!((results[0].start_line, results[0].start_column), (3, 7));
    assert_eq!((results[0].byte_offset, results[0].byte_length), (4, 6));
    let levels: Vec<&str> = results.iter().map(|r| r.level).collect();
    assert_eq!(levels, ["error", "note", "warning"]);
}
