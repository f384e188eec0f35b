//! Merging flags with a project configuration.

use zhtw_mcp::cli::{parse_args, Cli};
use zhtw_mcp::lint_args::FixMode;
use zhtw_mcp::plan::{
    config_source, run, ConfigSource, GlossaryConfig, LintPlan, PathChoice, ProjectConfig, Run,
};

fn cli(argv: &[&str]) -> Cli {
    let mut args = vec!["zhtw-mcp".to_string()];
    args.extend(argv.iter().map(|s| s.to_string()));
    parse_args(&args, true).expect("parse should succeed")
}

fn plan(argv: &[&str], config: &ProjectConfig) -> LintPlan {
    match run(cli(argv), config) {
        Run::Lint(plan) => *plan,
        other => panic!("expected lint, got {other:?}"),
    }
}

fn given(choice: &PathChoice) -> Option<&str> {
    match choice {
        PathChoice::Given(path) => Some(path),
        PathChoice::Default => None,
    }
}

fn strings(list: &[&str]) -> Vec<String> {
    list.iter().map(|s| s.to_string()).collect()
}

fn full_config() -> ProjectConfig {
    ProjectConfig {
        overrides: Some("cfg-o.json".into()),
        suppressions: Some("cfg-s.json".into()),
        translation_memory: Some("cfg-tm.json".into()),
        profile: Some("strict".into()),
        relaxed: Some(true),
        exempt_blockquotes: Some(true),
        content_type: Some("yaml".into()),
        max_errors: Some(4),
        max_warnings: Some(5),
        exclude: Some(strings(&["a", "b"])),
        packs: Some(strings(&["medical", "legal"])),
        glossary: Some(GlossaryConfig {
            banned: Some(strings(&["x"])),
            preferred: None,
            proper_nouns: Some(strings(&["y"])),
        }),
        ignore_terms: Some(strings(&["軟件"])),
    }
}

#[test]
fn flags_win_over_configuration() {
    let plan = plan(
        &[
            "--overrides", "o.json", "--pack", "legal", "--packs-dir", "packs", "lint", "f.md",
            "--profile", "base", "--content-type", "plain", "--max-errors", "1",
            "--max-warnings", "2", "--exclude", "b", "--fix",
        ],
        &full_config(),
    );
    assert_eq!(given(&plan.overrides_path), Some("o.json"));
    assert_eq!(given(&plan.packs_dir), Some("packs"));
    assert_eq!(plan.profile_name.as_deref(), Some("base"));
    assert_eq!(plan.content_type_override.as_deref(), Some("plain"));
    assert_eq!(plan.max_errors, 1);
    assert_eq!(plan.max_warnings, Some(2));
    // Lists are merged, flags first, without duplicates.
    assert_eq!(plan.exclude_patterns, ["b", "a"]);
    assert_eq!(plan.active_packs, ["legal", "medical"]);
    assert_eq!(plan.fix_mode, FixMode::LexicalSafe);
}

#[test]
fn configuration_wins_over_defaults() {
    let plan = plan(&["lint", "f.md"], &full_config());
    assert_eq!(given(&plan.overrides_path), Some("cfg-o.json"));
    assert_eq!(given(&plan.tm_path), Some("cfg-tm.json"));
    assert_eq!(plan.profile_name.as_deref(), Some("strict"));
    assert_eq!(plan.content_type_override.as_deref(), Some("yaml"));
    assert!(plan.relaxed && plan.exempt_blockquotes);
    assert_eq!((plan.max_errors, plan.max_warnings), (4, Some(5)));
    assert_eq!(plan.exclude_patterns, ["a", "b"]);
    assert_eq!(plan.glossary.banned, ["x"]);
    assert!(plan.glossary.preferred.is_empty());
    assert_eq!(plan.glossary.proper_nouns, ["y"]);
    assert!(!plan.glossary.is_empty());
    assert_eq!(plan.ignore_terms, ["軟件"]);
}

#[test]
fn defaults_stand_without_either() {
    let plan = plan(&["lint", "f.md"], &ProjectConfig::default());
    assert_eq!(given(&plan.overrides_path), None);
    assert_eq!(given(&plan.tm_path), None);
    assert_eq!(plan.profile_name, None);
    assert_eq!((plan.max_errors, plan.max_warnings), (0, None));
    assert!(!plan.relaxed && !plan.exempt_blockquotes);
    assert_eq!(plan.fix_mode, FixMode::Off);
    assert!(plan.glossary.is_empty());
    assert!(plan.ignore_terms.is_empty());
}

#[test]
fn the_server_takes_all_three_store_paths_from_the_configuration() {
    let Run::Server {
        overrides_path,
        suppressions_path,
        tm_path,
        packs_dir,
        active_packs,
    } = run(cli(&["--pack", "p"]), &full_config())
    else {
        panic!("expected the server");
    };
    assert_eq!(given(&overrides_path), Some("cfg-o.json"));
    assert_eq!(given(&suppressions_path), Some("cfg-s.json"));
    assert_eq!(given(&tm_path), Some("cfg-tm.json"));
    assert_eq!(given(&packs_dir), None);
    // The server activates only the packs named on the command line.
    assert_eq!(active_packs, ["p"]);

    let Run::Server { suppressions_path, .. } =
        run(cli(&["--suppressions", "s.json"]), &full_config())
    else {
        panic!("expected the server");
    };
    assert_eq!(given(&suppressions_path), Some("s.json"));
}

#[test]
fn the_other_commands_are_dispatched() {
    let none = ProjectConfig::default();
    assert!(matches!(run(cli(&["setup", "translation-guide"]), &none), Run::TranslationGuide));
    assert!(matches!(run(cli(&["setup", "translation_guide"]), &none), Run::TranslationGuide));
    assert!(matches!(run(cli(&["setup", "cursor"]), &none), Run::Setup(h) if h == "cursor"));
    assert!(matches!(run(cli(&["cache", "clear"]), &none), Run::CacheClear));
    // `convert` reads its overrides from the flag alone.
    assert!(matches!(
        run(cli(&["convert"]), &full_config()),
        Run::Convert { overrides_path: PathChoice::Default, .. }
    ));
    assert!(matches!(
        run(cli(&["tm", "list"]), &full_config()),
        Run::Tm { tm_path: PathChoice::Given(p), .. } if p == "cfg-tm.json"
    ));
    assert!(matches!(
        run(cli(&["--packs-dir", "d", "pack", "list"]), &none),
        Run::Pack { cmd, packs_dir: PathChoice::Given(d), .. } if cmd == "list" && d == "d"
    ));
}

#[test]
fn only_some_commands_read_a_configuration() {
    for argv in [vec![], vec!["tm", "list"], vec!["lint", "a.md"]] {
        assert!(matches!(config_source(&cli(&argv)), ConfigSource::Discovered));
        let mut with = vec!["--config", "c.toml"];
        with.extend(argv);
        assert!(matches!(config_source(&cli(&with)), ConfigSource::File(p) if p == "c.toml"));
    }
    for argv in [vec!["cache", "clear"], vec!["convert"], vec!["setup", "x"], vec!["pack", "list"]] {
        let mut with = vec!["--config", "c.toml"];
        with.extend(argv);
        assert!(matches!(config_source(&cli(&with)), ConfigSource::Unused));
    }
}
