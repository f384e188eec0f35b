//! The scan cache.

use zhtw_mcp::cache::{
    cache_path_in, default_translationese_domain, fast_key, mtime_secs, CacheResult, LockState,
    ScanCache, ScanParams, DEFAULT_TTL_SECS, MAX_ENTRIES,
};
use zhtw_mcp::cli::parse_args;
use zhtw_mcp::lint_args::TranslationeseDomain;
use zhtw_mcp::plan::{run, ProjectConfig, Run};
use zhtw_mcp::rules::ruleset::{Issue, Severity};
use zhtw_mcp::scan::{scan_params, ContentType, Profile, ProfileConfig, ScanOutput};

fn empty_output() -> ScanOutput {
    ScanOutput {
        issues: vec![],
        detected_script: "traditional".into(),
        ai_signature: None,
        translationese_signature: None,
        coverage: None,
        oral_density: None,
        quality_flags: Vec::new(),
    }
}

fn test_params() -> ScanParams {
    ScanParams {
        ruleset_hash: "rh".into(),
        profile: "base".into(),
        content_type: "md".into(),
        fix_mode: "none".into(),
        detect_ai: false,
        detect_translationese: false,
        translationese_domain: "general".into(),
        ai_threshold: "1.0".into(),
        exempt_blockquotes: false,
        engine_version: "test".into(),
    }
}

fn test_params_plain() -> ScanParams {
    ScanParams {
        content_type: "plain".into(),
        ..test_params()
    }
}

fn open() -> ScanCache {
    let mut cache = ScanCache::open("c.bin".into());
    cache.ensure_loaded(Vec::new());
    cache
}

/// Put `base` into a fresh cache, confirm it hits, then confirm `variant`
/// misses on both the fast and the content path.
fn assert_variant_misses(base: &ScanParams, variant: &ScanParams) {
    let mut cache = open();
    cache.put("a.md", b"hello", 1000, 5, base, empty_output(), false, 5);
    assert!(matches!(
        cache.check_fast("a.md", 1000, 5, base),
        CacheResult::Hit(_)
    ));
    assert!(matches!(
        cache.check_fast("a.md", 1000, 5, variant),
        CacheResult::Miss
    ));
    assert!(cache.check_content("a.md", b"hello", variant).is_none());
}

#[test]
fn fast_path_hit() {
    let mut cache = open();
    let p = test_params();

    cache.put("a.md", b"hello", 1000, 5, &p, empty_output(), false, 5);

    // Same mtime+size = fast hit.
    assert!(matches!(
        cache.check_fast("a.md", 1000, 5, &p),
        CacheResult::Hit(_)
    ));

    // Different mtime = miss.
    assert!(matches!(
        cache.check_fast("a.md", 2000, 5, &p),
        CacheResult::Miss
    ));

    // Different size = miss.
    assert!(matches!(
        cache.check_fast("a.md", 1000, 99, &p),
        CacheResult::Miss
    ));

    // Different profile = miss (different entry entirely).
    let strict = ScanParams {
        profile: "strict".into(),
        ..p.clone()
    };
    assert!(matches!(
        cache.check_fast("a.md", 1000, 5, &strict),
        CacheResult::Miss
    ));
}

#[test]
fn detect_ai_changes_cache_key() {
    let p = test_params();
    assert_variant_misses(
        &p,
        &ScanParams {
            detect_ai: true,
            ..p.clone()
        },
    );
}

#[test]
fn legacy_entries_without_engine_version_miss() {
    // An entry written before both fields existed reads back with their
    // defaults, answers for parameters of that shape, and misses for current
    // ones.
    let p = test_params();
    let mut cache = open();
    cache.put("a.md", b"hello", 1000, 5, &p, empty_output(), false, 5);
    assert!(cache.begin_flush());
    let mut stored = cache.stored_entries();
    assert_eq!(stored.len(), 1);
    for entry in stored.iter_mut() {
        entry.params.engine_version = String::new();
        entry.params.exempt_blockquotes = false;
    }

    let mut cache = ScanCache::open("legacy.json".into());
    cache.ensure_loaded(stored);

    let legacy_shaped = ScanParams {
        engine_version: String::new(),
        exempt_blockquotes: false,
        ..p.clone()
    };
    assert!(matches!(
        cache.check_fast("a.md", 1000, 5, &legacy_shaped),
        CacheResult::Hit(_)
    ));
    assert!(matches!(
        cache.check_fast("a.md", 1000, 5, &p),
        CacheResult::Miss
    ));
    assert!(cache.check_content("a.md", b"hello", &p).is_none());
}

#[test]
fn exempt_blockquotes_changes_cache_key() {
    let p = test_params();
    assert_variant_misses(
        &p,
        &ScanParams {
            exempt_blockquotes: true,
            ..p.clone()
        },
    );
}

#[test]
fn profile_config_changes_cache_key() {
    let strict = ProfileConfig {
        profile: Profile::Strict,
        relaxed: false,
        exempt_blockquotes: false,
        ai_filler_detection: false,
        ai_semantic_safety: false,
        ai_density_detection: false,
        ai_structural_patterns: false,
        ai_threshold_tenths: 10,
        translationese_detection: false,
        translationese_domain: TranslationeseDomain::General,
    };
    let relaxed = strict.with_relaxed();
    let args: Vec<String> = ["zhtw-mcp", "lint", "a.md"].iter().map(|s| s.to_string()).collect();
    let plan = match run(parse_args(&args, true).unwrap(), &ProjectConfig::default()) {
        Run::Lint(plan) => *plan,
        _ => panic!("expected lint"),
    };
    let key = |cfg: &ProfileConfig| {
        scan_params("rh", cfg, ContentType::Markdown, &plan, "1.0", "ff").profile
    };
    assert_ne!(
        key(&strict),
        key(&relaxed),
        "with_relaxed must change the config it is keyed on"
    );

    let p = ScanParams {
        profile: key(&strict),
        ..test_params()
    };
    assert_variant_misses(
        &p,
        &ScanParams {
            profile: key(&relaxed),
            ..p.clone()
        },
    );
}

#[test]
fn engine_version_changes_cache_key() {
    let p = test_params();
    assert_variant_misses(
        &p,
        &ScanParams {
            engine_version: "0.2.0".into(),
            ..p.clone()
        },
    );
}

#[test]
fn ai_threshold_changes_cache_key() {
    let p = ScanParams {
        detect_ai: true,
        ai_threshold: "1.0".into(),
        ..test_params()
    };
    for threshold in ["0.5", "1.5"] {
        assert_variant_misses(
            &p,
            &ScanParams {
                ai_threshold: threshold.into(),
                ..p.clone()
            },
        );
    }
}

#[test]
fn translationese_domain_changes_cache_key() {
    let p = ScanParams {
        detect_translationese: true,
        translationese_domain: "general".into(),
        ..test_params()
    };
    assert_variant_misses(
        &p,
        &ScanParams {
            translationese_domain: "technical".into(),
            ..p.clone()
        },
    );
}

#[test]
fn slow_path_content_check() {
    let mut cache = open();
    let p = test_params_plain();

    cache.put("b.md", b"data", 1000, 4, &p, empty_output(), false, 4);

    // Same content despite mtime miss: slow-path hit.
    assert!(cache.check_content("b.md", b"data", &p).is_some());

    // Different content: slow-path miss.
    assert!(cache.check_content("b.md", b"changed", &p).is_none());
}

#[test]
fn cache_persists_to_disk() {
    let p = test_params_plain();
    let written = {
        let mut cache = open();
        cache.put("f.md", b"x", 100, 1, &p, empty_output(), false, 1);
        assert!(cache.begin_flush());
        let written = cache.stored_entries();
        cache.end_flush(LockState::Acquired, true);
        assert!(!cache.is_dirty());
        written
    };

    let mut cache = ScanCache::open("c.bin".into());
    cache.ensure_loaded(written);
    assert!(matches!(
        cache.check_fast("f.md", 100, 1, &p),
        CacheResult::Hit(_)
    ));
}

#[test]
fn expired_entries_pruned() {
    let mut cache = open();
    let p = test_params_plain();
    cache.put_at(0, "e.md", b"x", 100, 1, &p, empty_output(), false, 1);
    assert!(matches!(
        cache.check_fast("e.md", 100, 1, &p),
        CacheResult::Miss
    ));
}

#[test]
fn overflow_evicts_oldest() {
    let mut cache = open();
    let p = test_params_plain();

    for i in 0..MAX_ENTRIES + 10 {
        let name = format!("file_{i}.md");
        let at = i as u64 + 1_700_000_000;
        cache.put_at(at, &name, b"x", 100, 1, &p, empty_output(), false, 1);
    }

    assert!(cache.len() > MAX_ENTRIES);
    let now = 1_700_000_000 + MAX_ENTRIES as u64 + 10;
    assert!(cache.begin_flush_at(now));
    assert_eq!(cache.len(), MAX_ENTRIES);

    // The ten oldest went, and only those.
    for i in [0, 9] {
        let name = format!("file_{i}.md");
        assert!(cache.check_fast_at(now, &name, 100, 1, &p).into_hit().is_none());
    }
    for i in [10, MAX_ENTRIES + 9] {
        let name = format!("file_{i}.md");
        assert!(cache.check_fast_at(now, &name, 100, 1, &p).into_hit().is_some());
    }

    assert!(cache.begin_flush());
    assert!(cache.len() <= MAX_ENTRIES);
}

#[test]
fn char_count_survives_cache_hits() {
    let mut cache = open();
    let p = test_params_plain();

    cache.put(
        "chars.md",
        "甲乙丙".as_bytes(),
        1000,
        9,
        &p,
        empty_output(),
        false,
        3,
    );

    let fast_hit = cache
        .check_fast("chars.md", 1000, 9, &p)
        .into_hit()
        .unwrap();
    assert_eq!(fast_hit.text_char_count, 3);

    let content_hit = cache
        .check_content("chars.md", "甲乙丙".as_bytes(), &p)
        .unwrap();
    assert_eq!(content_hit.text_char_count, 3);
}

#[test]
fn legacy_entries_without_char_count_miss_until_refreshed() {
    let mut cache = open();
    let p = test_params_plain();

    cache.put("legacy.md", b"abc", 1000, 3, &p, empty_output(), false, 0);

    assert!(matches!(
        cache.check_fast("legacy.md", 1000, 3, &p),
        CacheResult::Miss
    ));
    assert!(cache.check_content("legacy.md", b"abc", &p).is_none());
}

#[test]
fn the_key_is_the_digest_of_path_and_parameters_in_json() {
    let p = ScanParams {
        profile: "a\"b\\c\n\t\r\u{8}\u{c}\u{1f}甲".into(),
        detect_ai: true,
        ..test_params()
    };
    let json = format!(
        "[{},{{\"ruleset_hash\":\"rh\",\"profile\":{},\"content_type\":\"md\",\"fix_mode\":\"none\",\
         \"detect_ai\":true,\"detect_translationese\":false,\"translationese_domain\":\"general\",\
         \"ai_threshold\":\"1.0\",\"exempt_blockquotes\":false,\"engine_version\":\"test\"}}]",
        "\"dir/\\u0001\\\"x\\\".md\"",
        "\"a\\\"b\\\\c\\n\\t\\r\\b\\f\\u001f甲\"",
    );
    // The document reads back as the pair it was made from.
    let doc: serde_json::Value = serde_json::from_str(&json).unwrap();
    assert_eq!(doc[0], "dir/\u{1}\"x\".md");
    assert_eq!(doc[1]["profile"], p.profile.as_str());
    let digest = blake3::hash(json.as_bytes()).to_hex().to_string();
    assert_eq!(fast_key("dir/\u{1}\"x\".md", &p), digest[..32]);
}

#[test]
fn the_time_to_live_is_inclusive() {
    let mut cache = open();
    let p = test_params();
    cache.put_at(5000, "a.md", b"hello", 1, 5, &p, empty_output(), true, 5);
    let last = 5000 + DEFAULT_TTL_SECS;
    assert_eq!(DEFAULT_TTL_SECS, 24 * 60 * 60);
    assert!(cache.check_fast_at(last, "a.md", 1, 5, &p).into_hit().is_some());
    assert!(cache.check_fast_at(last + 1, "a.md", 1, 5, &p).into_hit().is_none());
    assert!(cache.check_content_at(last, "a.md", b"hello", &p).is_some());
    assert!(cache.check_content_at(last + 1, "a.md", b"hello", &p).is_none());
    // A clock that went back does not expire anything.
    assert!(cache.check_fast_at(0, "a.md", 1, 5, &p).into_hit().is_some());
    // The hit carries what was stored.
    let hit = cache.check_content_at(last, "a.md", b"hello", &p).unwrap();
    assert!(hit.input_was_sc);
    assert_eq!(hit.output.detected_script, "traditional");
}

#[test]
fn empty_files_may_have_no_characters() {
    let mut cache = open();
    let p = test_params();
    cache.put_at(10, "a.md", b"", 1, 0, &p, empty_output(), false, 0);
    assert!(cache.check_fast_at(10, "a.md", 1, 0, &p).into_hit().is_some());
    assert!(cache.check_content_at(10, "a.md", b"", &p).is_some());
}

#[test]
fn stored_entries_expire_on_the_way_in() {
    let p = test_params();
    let mut cache = open();
    let mut output = empty_output();
    output.issues.push(Issue::new(0, 6, "軟件", vec!["軟體".into()], "cross_strait", Severity::Error));
    cache.put_at(100, "old.md", b"x", 1, 1, &p, empty_output(), false, 1);
    cache.put_at(100_000, "new.md", b"x", 1, 1, &p, output, false, 1);
    let stored = cache.stored_entries();
    assert_eq!(stored.len(), 2);

    let mut cache = ScanCache::open("c.bin".into());
    assert!(!cache.is_loaded());
    cache.ensure_loaded_at(100 + DEFAULT_TTL_SECS + 1, stored);
    assert!(cache.is_loaded());
    assert_eq!(cache.len(), 1);
    let hit = cache
        .check_fast_at(100_000, "new.md", 1, 1, &p)
        .into_hit()
        .unwrap();
    assert_eq!(hit.output.issues[0].found, "軟件");

    // Loading a second time changes nothing.
    cache.ensure_loaded_at(0, Vec::new());
    assert_eq!(cache.len(), 1);
}

#[test]
fn loading_late_keeps_what_was_put() {
    let p = test_params();
    let mut old = open();
    old.put_at(100, "a.md", b"old", 1, 3, &p, empty_output(), false, 3);
    old.put_at(100, "b.md", b"old", 1, 3, &p, empty_output(), false, 3);
    let stored = old.stored_entries();

    let mut cache = ScanCache::open("c.bin".into());
    cache.put_at(200, "a.md", b"new", 2, 3, &p, empty_output(), false, 3);
    cache.ensure_loaded_at(200, stored);
    assert_eq!(cache.len(), 2);
    assert!(cache.check_content_at(200, "a.md", b"new", &p).is_some());
    assert!(cache.check_content_at(200, "a.md", b"old", &p).is_none());
    assert!(cache.check_content_at(200, "b.md", b"old", &p).is_some());
}

#[test]
fn a_flush_that_did_not_happen_is_tried_again() {
    let mut cache = open();
    assert!(!cache.begin_flush(), "a clean cache has nothing to write");
    cache.put("a.md", b"x", 1, 1, &test_params(), empty_output(), false, 1);
    assert!(cache.begin_flush());
    assert!(!LockState::Held.may_write());
    cache.end_flush(LockState::Held, false);
    assert!(cache.is_dirty());
    assert!(LockState::Unavailable.may_write());
    cache.end_flush(LockState::Unavailable, false);
    assert!(cache.is_dirty());
    cache.end_flush(LockState::Unavailable, true);
    assert!(!cache.is_dirty());
}

#[test]
fn the_cache_file_lies_below_the_cache_directory() {
    assert_eq!(
        cache_path_in(Some("/home/u/.cache".into())),
        b"/home/u/.cache/zhtw-mcp/scan-cache.json"
    );
    assert_eq!(cache_path_in(None), b"/tmp/zhtw-mcp/scan-cache.json");
    // A directory's name need not be text.
    assert_eq!(
        cache_path_in(Some(vec![b'/', 0xff])),
        b"/\xff/zhtw-mcp/scan-cache.json"
    );
    assert_eq!(cache_path_in(Some(Vec::new())), b"zhtw-mcp/scan-cache.json");
    assert_eq!(cache_path_in(Some("/".into())), b"/zhtw-mcp/scan-cache.json");
    let cache = ScanCache::open_default();
    let expected = dirs::cache_dir()
        .unwrap_or_else(|| std::path::PathBuf::from("/tmp"))
        .join("zhtw-mcp")
        .join("scan-cache.json");
    assert_eq!(cache.path(), expected.as_os_str().as_encoded_bytes());
    assert_eq!(ScanCache::open("x/y".into()).path(), b"x/y");
}

#[test]
fn small_defaults() {
    assert_eq!(default_translationese_domain(), "general");
    assert_eq!(mtime_secs(Some(7)), 7);
    assert_eq!(mtime_secs(None), 0);
}
