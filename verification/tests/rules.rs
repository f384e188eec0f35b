//! Issues and ignore terms.

use zhtw_mcp::rules::ignore::apply_ignore_set;
use zhtw_mcp::rules::ruleset::{Issue, Severity};

fn issue(found: &str, severity: Severity) -> Issue {
    Issue::new(
        0,
        found.len(),
        found,
        vec!["x".to_string()],
        "cross_strait",
        severity,
    )
}

#[test]
fn ignored_term_drops_to_info() {
    let mut issues = vec![
        issue("軟件", Severity::Warning),
        issue("內存", Severity::Warning),
    ];
    let set = vec!["軟件".to_string()];
    apply_ignore_set(&mut issues, &set);
    assert_eq!(issues[0].severity, Severity::Info);
    assert_eq!(issues[1].severity, Severity::Warning);
}

#[test]
fn empty_set_changes_nothing() {
    let mut issues = vec![issue("軟件", Severity::Error)];
    apply_ignore_set(&mut issues, &Vec::new());
    assert_eq!(issues[0].severity, Severity::Error);
}

#[test]
fn ignoring_changes_nothing_but_the_severity() {
    let mut issues = vec![issue("軟件", Severity::Error)];
    issues[0].line = 3;
    issues[0].context = Some("c".into());
    apply_ignore_set(&mut issues, &vec!["軟件".to_string()]);
    apply_ignore_set(&mut issues, &vec!["軟件".to_string()]);
    assert_eq!(issues[0].severity, Severity::Info);
    assert_eq!(issues[0].found, "軟件");
    assert_eq!(issues[0].line, 3);
    assert_eq!(issues[0].context.as_deref(), Some("c"));
    assert_eq!(issues[0].suggestions, ["x"]);
    assert_eq!(Severity::Info.name(), "info");
}
