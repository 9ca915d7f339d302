use ctxpack::dependencies::{
    admit_precision_edges, precision_rejected_diagnostic, PrecisionEdgeRecord,
};
use ctxpack::feedback::{
    feedback_path, policy_profiles_path, rollback_policy_profile, summarize_feedback_events, update_policy_profile_status,
    validate_feedback_event, FeedbackOutcome, PolicyProfileStatus, SessionFeedbackEvent,
};
use ctxpack::freshness::compare_inventory_metadata;
use ctxpack::inventory::{
    ctxpack_home, inventory_path, normalize_relative_path, options_fingerprint, repo_id_for_path, task_hash,
    InventoryManifestEntry, InventoryMetadata, InventoryOptions, RepoInventory,
    INVENTORY_SCHEMA_VERSION,
};
use ctxpack::mcp::{
    bounded_limit, context_anchor_paths, file_range_fits, parse_file_uri, related_anchor_paths,
    read_pack_resource, render_line_slice, semantic_provider_config, symbol_resource_name,
    CachedResource,
    PackResourceCache, MAX_PACK_RESOURCE_CACHE_ENTRIES,
};
use ctxpack::model::FileRole;
use ctxpack::paths::same_path;
use ctxpack::inventory::FileInventoryEntry;
use ctxpack::related_tests::{
    detect_js_package_manager, javascript_test_command, package_dir, rank_related_tests,
    related_test_candidates, rust_test_command, test_command_for, test_map_paths,
    JsPackageManager, LockFiles, ScoredTest,
};
use ctxpack::search::{
    count_occurrences, file_evidence, is_archive_context_artifact, lexical_search_cache_path,
    query_term_weight, query_terms, symbol_evidence, NameMatch, TermWeight,
};
use ctxpack::storage::{
    as_i64, as_u64, missing_store_report, required_table_names, schema_report,
    store_paths_for_repo_id, StorageCompatibility, StorageMetadata, StoragePrivacyMode,
    StoreConfig,
};
use ctxpack::strs::{sort_strings, uniq_strings};
use ctxpack::text::decimal_string;
use ctxpack::workspace::{default_workspace_manifest_path, fallback_repo_id, has_unsafe_string};

fn strings(items: &[&str]) -> Vec<String> {
    items.iter().map(|item| item.to_string()).collect()
}

// ---------------------------------------------------------------------
// Feedback
// ---------------------------------------------------------------------
fn event(outcome: FeedbackOutcome, read: &[&str]) -> SessionFeedbackEvent {
    SessionFeedbackEvent {
        schema_version: 1,
        outcome,
        budget: None,
        recommended_files: Vec::new(),
        recommended_tests: Vec::new(),
        recommended_commands: Vec::new(),
        read_files: strings(read),
        edited_files: Vec::new(),
        tested_files: Vec::new(),
        tested_commands: Vec::new(),
        user_corrected_files: Vec::new(),
        tags: Vec::new(),
        source_text_logged: false,
    }
}

#[test]
fn feedback_events_are_validated() {
    assert!(validate_feedback_event(&event(FeedbackOutcome::Passed, &["src/a.ts"])).is_ok());

    let mut logged = event(FeedbackOutcome::Passed, &[]);
    logged.source_text_logged = true;
    assert_eq!(
        validate_feedback_event(&logged).unwrap_err(),
        "feedback events must not log source text"
    );

    let mut version = event(FeedbackOutcome::Passed, &[]);
    version.schema_version = 2;
    assert_eq!(
        validate_feedback_event(&version).unwrap_err(),
        "unsupported feedback event schema version 2; expected 1"
    );

    assert_eq!(
        validate_feedback_event(&event(FeedbackOutcome::Failed, &["/etc/passwd"])).unwrap_err(),
        "feedback path must be a safe repository-relative label: /etc/passwd"
    );
    assert_eq!(
        validate_feedback_event(&event(FeedbackOutcome::Failed, &["../up"])).unwrap_err(),
        "feedback path must be a safe repository-relative label: ../up"
    );

    let mut tagged = event(FeedbackOutcome::Passed, &[]);
    tagged.tags = strings(&["two\nlines"]);
    assert_eq!(
        validate_feedback_event(&tagged).unwrap_err(),
        "feedback labels must be short source-free single-line values"
    );
}

#[test]
fn feedback_summary_partitions_outcomes_and_counts_distinct_files() {
    let events = vec![
        event(FeedbackOutcome::Passed, &["src/a.ts", "src/b.ts"]),
        event(FeedbackOutcome::Failed, &["src/a.ts"]),
        event(FeedbackOutcome::Passed, &["src/c.ts"]),
        event(FeedbackOutcome::Unknown, &[]),
    ];
    let summary = summarize_feedback_events("repo-1", &events);
    assert_eq!(summary.repo_id, "repo-1");
    assert_eq!(summary.event_count, 4);
    assert_eq!(summary.passed_count, 2);
    assert_eq!(summary.failed_count, 1);
    assert_eq!(summary.blocked_count, 0);
    assert_eq!(summary.unknown_count, 1);
    assert_eq!(
        summary.passed_count + summary.failed_count + summary.blocked_count + summary.unknown_count,
        summary.event_count
    );
    assert_eq!(summary.read_file_count, 3);
    assert_eq!(summary.edited_file_count, 0);
    assert!(!summary.source_text_logged);
}

#[test]
fn policy_profiles_update_and_roll_back() {
    let ids = strings(&["p1", "p2"]);
    let mut statuses = vec![PolicyProfileStatus::Active, PolicyProfileStatus::Candidate];
    let first = update_policy_profile_status(&ids, &mut statuses, "p2", PolicyProfileStatus::Active);
    assert_eq!(first, Ok(Some(1)));
    assert_eq!(
        statuses,
        vec![PolicyProfileStatus::Disabled, PolicyProfileStatus::Active]
    );
    let missing =
        update_policy_profile_status(&ids, &mut statuses, "p9", PolicyProfileStatus::Active);
    assert_eq!(missing, Err("policy profile not found: p9".to_string()));
    assert_eq!(rollback_policy_profile(&mut statuses), Ok(1));
    assert_eq!(
        statuses,
        vec![PolicyProfileStatus::Disabled, PolicyProfileStatus::RolledBack]
    );
    assert_eq!(
        rollback_policy_profile(&mut statuses),
        Err("no active policy profile to roll back".to_string())
    );
}

// ---------------------------------------------------------------------
// Inventory, hashing and freshness
// ---------------------------------------------------------------------
#[test]
fn task_hash_is_the_digest_of_the_trimmed_task() {
    let hash = task_hash("  fix bug \n");
    assert_eq!(hash, blake3::hash(b"fix bug").to_hex().to_string());
    assert_eq!(hash.len(), 64);
    assert_ne!(hash, "fix bug");
}

#[test]
fn repo_id_is_the_url_uuid_of_the_root() {
    let expected = uuid::Uuid::new_v5(&uuid::Uuid::NAMESPACE_URL, b"/work/repo").to_string();
    assert_eq!(repo_id_for_path("/work/repo"), expected);
    assert_ne!(repo_id_for_path("/work/repo"), "/work/repo");
}

#[test]
fn repository_state_lives_under_the_home() {
    assert_eq!(inventory_path("/home/me/.ctxpack", "r1"), "/home/me/.ctxpack/repos/r1/inventory.json");
    let paths = store_paths_for_repo_id("/h", "r1", &StoreConfig::default());
    assert_eq!(paths.repo_id, "r1");
    assert_eq!(paths.database_path, "/h/repos/r1/ctxpack.sqlite3");
    let custom = store_paths_for_repo_id(
        "/h",
        "r1",
        &StoreConfig {
            path_override: Some("/tmp/x.sqlite3".to_string()),
        },
    );
    assert_eq!(custom.database_path, "/tmp/x.sqlite3");
    assert_eq!(normalize_relative_path("/r", "/r/src/./a.ts"), "src/a.ts");
}

fn manifest_entry(path: &str, hash: &str) -> InventoryManifestEntry {
    InventoryManifestEntry {
        path: path.to_string(),
        hash: hash.to_string(),
        size_bytes: 10,
        modified_unix_nanos: 5,
        role: FileRole::Source,
        generated: false,
        ignored: false,
    }
}

fn metadata(manifest: Vec<InventoryManifestEntry>, options: &InventoryOptions) -> InventoryMetadata {
    InventoryMetadata {
        schema_version: INVENTORY_SCHEMA_VERSION,
        policy_version: "policy-1".to_string(),
        options_fingerprint: options_fingerprint(options),
        repo_root: "/r".to_string(),
        built_at_unix_seconds: 1,
        ignore_fingerprints: Vec::new(),
        manifest,
    }
}

#[test]
fn unchanged_inventory_is_fresh_and_changes_are_reported() {
    let options = InventoryOptions::default();
    let cached = RepoInventory {
        repo_id: "r".to_string(),
        repo_root: "/r".to_string(),
        metadata: metadata(vec![manifest_entry("src/a.ts", "h1")], &options),
        files: Vec::new(),
        ignored_count: 0,
        generated_count: 0,
        sensitive_count: 0,
    };
    let same = metadata(vec![manifest_entry("src/a.ts", "h1")], &options);
    let fresh = compare_inventory_metadata("/r", &cached, &same, &options, "policy-1");
    assert!(fresh.fresh);
    assert!(fresh.reasons.is_empty());
    assert!(fresh.diagnostics.is_empty());

    let grown = metadata(
        vec![manifest_entry("src/a.ts", "h1"), manifest_entry("src/b.ts", "h2")],
        &options,
    );
    let stale = compare_inventory_metadata("/r", &cached, &grown, &options, "policy-2");
    assert!(!stale.fresh);
    assert_eq!(stale.diagnostics[0].code, "inventory_stale_policy_changed");
    assert!(stale
        .diagnostics
        .iter()
        .any(|d| d.code == "inventory_stale_file_created" && d.paths == strings(&["src/b.ts"])));
}

// ---------------------------------------------------------------------
// Storage
// ---------------------------------------------------------------------
fn store_metadata(version: u32) -> StorageMetadata {
    StorageMetadata {
        schema_version: version,
        ctxpack_version: "0.1.0".to_string(),
        ranking_version: 1,
        compiler_version: 1,
        privacy_mode: StoragePrivacyMode::SourceFree,
        created_at_unix_seconds: 1,
        updated_at_unix_seconds: 2,
    }
}

fn all_tables() -> Vec<String> {
    required_table_names().iter().map(|t| t.to_string()).collect()
}

#[test]
fn storage_schema_reports_compatibility() {
    assert_eq!(required_table_names().len(), 16);
    let ok = schema_report("/db", all_tables(), Some(store_metadata(1)));
    assert_eq!(ok.compatibility, StorageCompatibility::Compatible);
    assert!(ok.diagnostics.is_empty());
    assert!(ok.missing_tables.is_empty());

    let partial = schema_report("/db", strings(&["storage_metadata"]), Some(store_metadata(1)));
    assert_eq!(partial.compatibility, StorageCompatibility::MissingTables);
    assert_eq!(partial.missing_tables.len(), 15);
    assert_eq!(partial.missing_tables[0], "schema_migrations");
    assert_eq!(
        partial.diagnostics[0].message,
        "Storage database /db is missing 15 required table(s)"
    );

    let old = schema_report("/db", all_tables(), Some(store_metadata(7)));
    assert_eq!(old.compatibility, StorageCompatibility::IncompatibleSchema);
    assert_eq!(
        old.diagnostics[0].message,
        "Storage database /db uses schema version 7, expected 1"
    );

    let bare = schema_report("/db", all_tables(), None);
    assert_eq!(bare.compatibility, StorageCompatibility::MissingMetadata);
    assert_eq!(bare.diagnostics[0].code, "storage_missing_metadata");

    let none = missing_store_report("/db");
    assert_eq!(none.compatibility, StorageCompatibility::MissingTables);
    assert_eq!(none.missing_tables.len(), 16);
    assert_eq!(
        none.diagnostics[0].message,
        "Storage database does not exist: /db"
    );
}

#[test]
fn storage_integers_saturate() {
    assert_eq!(as_i64(u64::MAX), i64::MAX);
    assert_eq!(as_i64(5), 5);
    assert_eq!(as_u64(-1), 0);
    assert_eq!(as_u64(7), 7);
}

// ---------------------------------------------------------------------
// Related tests
// ---------------------------------------------------------------------
#[test]
fn test_commands_follow_the_language() {
    assert_eq!(rust_test_command("tests/cli.rs"), "cargo test --test cli");
    assert_eq!(rust_test_command("tests/nested/cli.rs"), "cargo test");
    assert_eq!(rust_test_command("src/lib.rs"), "cargo test");
    assert_eq!(package_dir("pkg/auth/a_test.go"), "pkg/auth");
    assert_eq!(package_dir("a_test.go"), ".");
    assert_eq!(
        test_command_for("pkg/auth/a_test.go", JsPackageManager::Npm, None, false),
        Some("go test ./pkg/auth".to_string())
    );
    assert_eq!(
        test_command_for("tests/test_a.py", JsPackageManager::Npm, None, false),
        Some("pytest tests/test_a.py".to_string())
    );
    assert_eq!(test_command_for("docs/a.md", JsPackageManager::Npm, None, false), None);
}

#[test]
fn related_tests_uses_gradle_java_test_class_command() {
    assert_eq!(
        test_command_for(
            "src/test/java/org/example/auth/SessionServiceTest.java",
            JsPackageManager::Npm,
            None,
            true
        )
        .as_deref(),
        Some("./gradlew test --tests org.example.auth.SessionServiceTest")
    );
    assert_eq!(
        test_command_for(
            "src/test/java/org/example/auth/SessionServiceTest.java",
            JsPackageManager::Npm,
            None,
            false
        ),
        None
    );
    assert_eq!(test_command_for("lib/Other.java", JsPackageManager::Npm, None, true), None);
}

#[test]
fn javascript_commands_follow_the_package() {
    let none = LockFiles {
        pnpm_lock: false,
        yarn_lock: false,
        package_lock: false,
        npm_shrinkwrap: false,
        bun_lock: false,
        bun_lockb: false,
    };
    assert_eq!(detect_js_package_manager(none), JsPackageManager::Pnpm);
    assert_eq!(
        detect_js_package_manager(LockFiles {
            yarn_lock: true,
            ..none
        }),
        JsPackageManager::Yarn
    );
    assert_eq!(
        detect_js_package_manager(LockFiles {
            bun_lockb: true,
            ..none
        }),
        JsPackageManager::Bun
    );
    assert_eq!(
        javascript_test_command(
            JsPackageManager::Pnpm,
            Some("vitest run".to_string()),
            "tests/auth/session.test.ts"
        ),
        "pnpm vitest run tests/auth/session.test.ts"
    );
    assert_eq!(
        javascript_test_command(JsPackageManager::Yarn, Some("jest --ci".to_string()), "a.test.js"),
        "yarn jest a.test.js"
    );
    assert_eq!(
        javascript_test_command(
            JsPackageManager::Npm,
            Some("echo \"Error: no test specified\" && exit 1".to_string()),
            "a.test.js"
        ),
        "npm test a.test.js"
    );
    assert_eq!(
        javascript_test_command(JsPackageManager::Npm, Some("mocha".to_string()), "a.test.js"),
        "npm test -- a.test.js"
    );
    assert_eq!(
        javascript_test_command(JsPackageManager::Bun, None, "a.test.ts"),
        "bun test a.test.ts"
    );
}

// ---------------------------------------------------------------------
// Search
// ---------------------------------------------------------------------
#[test]
fn query_terms_are_lowercased_word_runs() {
    assert_eq!(
        query_terms("Fix the AuthRedirect, node_modules!"),
        strings(&["fix", "the", "authredirect", "node_modules"])
    );
    assert!(query_terms("  ,;  ").is_empty());
    assert_eq!(query_term_weight("the"), TermWeight::Ignored);
    assert_eq!(query_term_weight("rust"), TermWeight::Language);
    assert_eq!(query_term_weight("nodes"), TermWeight::Node);
    assert_eq!(query_term_weight("session"), TermWeight::Full);
    assert_eq!(count_occurrences("aaaa", "aa"), 2);
    assert_eq!(count_occurrences("abc", ""), 0);
    assert!(is_archive_context_artifact(".planning/milestones/v1.md"));
    assert!(is_archive_context_artifact(".planning/e2e/run.json"));
    assert!(!is_archive_context_artifact(".planning/e2e/run.md"));
}

// ---------------------------------------------------------------------
// MCP helpers
// ---------------------------------------------------------------------
#[test]
fn limits_and_provider_arguments_have_defaults() {
    assert_eq!(bounded_limit(None, 10), 10);
    assert_eq!(bounded_limit(Some(0), 10), 1);
    assert_eq!(bounded_limit(Some(99), 10), 50);
    let provider = semantic_provider_config(&Some(" local_fastembed ".to_string()), &None, None);
    assert_eq!(provider.provider, "local_fastembed");
    assert_eq!(provider.model, "ctxpack-local-hash-v1");
    assert_eq!(provider.dimensions, 64);
    assert!(provider.local_only);
    assert!(provider.available);
}

#[test]
fn anchors_are_trimmed_and_deduplicated() {
    assert_eq!(
        context_anchor_paths(&strings(&[" src/a.ts ", "", "src/a.ts"]), &strings(&["src/b.ts"])),
        strings(&["src/a.ts", "src/b.ts"])
    );
    assert_eq!(
        related_anchor_paths(
            &Some(" src/a.ts ".to_string()),
            &strings(&["src/b.ts", "src/a.ts"]),
            &Vec::new()
        ),
        Ok(strings(&["src/a.ts", "src/b.ts"]))
    );
    assert_eq!(
        related_anchor_paths(&Some("  ".to_string()), &Vec::new(), &Vec::new()),
        Err("related requires a non-empty path, symbol, or current diff anchor".to_string())
    );
}

#[test]
fn file_addresses_parse_with_bounded_ranges() {
    assert_eq!(
        parse_file_uri("ctxpack://file/src/a.ts?lines=0-3"),
        Ok(("src/a.ts".to_string(), Some((1, 3))))
    );
    assert_eq!(
        parse_file_uri("ctxpack://file/src/a.ts?lines=10-2"),
        Ok(("src/a.ts".to_string(), Some((10, 10))))
    );
    assert_eq!(
        parse_file_uri("ctxpack://file/src/a.ts?lines=1-9999"),
        Ok(("src/a.ts".to_string(), Some((1, 501))))
    );
    assert_eq!(
        parse_file_uri("ctxpack://file/src/a.ts"),
        Ok(("src/a.ts".to_string(), None))
    );
    assert_eq!(
        parse_file_uri("ctxpack://file/?lines=1-2"),
        Err("file resource requires a path".to_string())
    );
    let huge = format!("ctxpack://file/?lines={}-1", usize::MAX);
    assert!(file_range_fits(&huge));
    assert_eq!(parse_file_uri(&huge), Err("file resource requires a path".to_string()));
    assert!(!file_range_fits(&format!("ctxpack://file/a.ts?lines={}-1", usize::MAX)));
    assert_eq!(
        symbol_resource_name("ctxpack://symbol/ requireSession "),
        Ok("requireSession".to_string())
    );
    assert_eq!(
        symbol_resource_name("ctxpack://symbol/"),
        Err("symbol resource requires a symbol".to_string())
    );
}

#[test]
fn line_slices_are_numbered() {
    let text = render_line_slice("import a;\nexport b;\nreturn c;\n}\n", 1, 2);
    assert_eq!(text, "   1: import a;\n   2: export b;");
    assert!(!text.contains("4: }"));
}

fn resource(text: &str) -> CachedResource {
    CachedResource {
        mime_type: "text/markdown".to_string(),
        text: text.to_string(),
    }
}

#[test]
fn pack_cache_reads_back_writes_and_stays_bounded() {
    let mut cache = PackResourceCache::new();
    assert_eq!(PackResourceCache::limit(), MAX_PACK_RESOURCE_CACHE_ENTRIES);
    cache.insert("ctxpack://pack/a".to_string(), resource("one"));
    cache.insert("ctxpack://pack/a".to_string(), resource("two"));
    assert_eq!(cache.len(), 1);
    assert_eq!(
        cache.get(&"ctxpack://pack/a".to_string()).unwrap().text,
        "two"
    );
    for i in 0..30 {
        cache.insert(format!("ctxpack://pack/n{i}"), resource("n"));
    }
    assert_eq!(cache.len(), MAX_PACK_RESOURCE_CACHE_ENTRIES);
    assert!(cache.get(&"ctxpack://pack/a".to_string()).is_none());
    assert!(cache.get(&"ctxpack://pack/n29".to_string()).is_some());
    cache.clear();
    assert_eq!(cache.len(), 0);
}

#[test]
fn pack_resources_are_session_scoped() {
    let mut cache = PackResourceCache::new();
    let missing = read_pack_resource(&cache, "ctxpack://pack/not-yet-created/brief").unwrap_err();
    assert!(missing.contains("session-scoped"));
    assert!(missing.contains("same MCP server process"));
    assert!(missing.contains("call prepare_task first"));
    assert!(missing.ends_with("ctxpack://pack/not-yet-created/brief"));
    cache.insert("ctxpack://pack/p1".to_string(), resource("body"));
    let found = read_pack_resource(&cache, "ctxpack://pack/p1").unwrap();
    assert_eq!(found.mime_type, "text/markdown");
    assert_eq!(found.text, "body");
    assert_eq!(cache.len(), 1);
}

#[test]
fn full_cache_evicts_exactly_the_oldest_entry() {
    let mut cache = PackResourceCache::new();
    for i in 0..MAX_PACK_RESOURCE_CACHE_ENTRIES {
        cache.insert(format!("ctxpack://pack/n{i}"), resource("n"));
    }
    cache.insert("ctxpack://pack/n5".to_string(), resource("again"));
    assert_eq!(cache.len(), MAX_PACK_RESOURCE_CACHE_ENTRIES);
    assert!(cache.get(&"ctxpack://pack/n0".to_string()).is_some());
    cache.insert("ctxpack://pack/new".to_string(), resource("new"));
    assert_eq!(cache.len(), MAX_PACK_RESOURCE_CACHE_ENTRIES);
    assert!(cache.get(&"ctxpack://pack/n0".to_string()).is_none());
    assert!(cache.get(&"ctxpack://pack/n1".to_string()).is_some());
    assert_eq!(cache.get(&"ctxpack://pack/n5".to_string()).unwrap().text, "again");
}

#[test]
fn ctxpack_home_prefers_the_explicit_home() {
    assert_eq!(ctxpack_home(Some("/h".to_string()), Some("/u".to_string())), "/h");
    assert_eq!(ctxpack_home(None, Some("/u".to_string())), "/u/.ctxpack");
    assert_eq!(ctxpack_home(None, None), ".ctxpack");
    assert_eq!(inventory_path(&ctxpack_home(Some("/h".to_string()), None), "r1"), "/h/repos/r1/inventory.json");
    assert_eq!(feedback_path("/h", "r1"), "/h/repos/r1/feedback.jsonl");
    assert_eq!(policy_profiles_path("/h", "r1"), "/h/repos/r1/policy-profiles.json");
}

// ---------------------------------------------------------------------
// Workspace, paths and text
// ---------------------------------------------------------------------
#[test]
fn workspace_helpers() {
    assert_eq!(
        default_workspace_manifest_path("/w"),
        "/w/.ctxpack/workspace.json"
    );
    let expected = format!(
        "unresolved-{}",
        &blake3::hash(b"../api:api").to_hex().to_string()[..12]
    );
    assert_eq!(fallback_repo_id("../api", "api"), expected);
    assert!(has_unsafe_string("tab\there"));
    assert!(has_unsafe_string(&"x".repeat(161)));
    assert!(!has_unsafe_string("primary"));
}

#[test]
fn strings_sort_deduplicate_and_print() {
    assert_eq!(sort_strings(strings(&["b", "a", "c"])), strings(&["a", "b", "c"]));
    assert_eq!(uniq_strings(&strings(&["b", "a", "b"])), strings(&["b", "a"]));
    assert_eq!(decimal_string(1234), "1234");
    assert_eq!(decimal_string(0), "0");
    assert!(same_path("a/./b", "a/b"));
    assert!(!same_path("a/b", "a/c"));
}

#[test]
fn search_evidence_lists_sorted_reasons() {
    let terms = query_terms("the session");
    let file = file_evidence("src/auth/Session.ts", "session()\nsession", &terms);
    assert_eq!(file.terms.len(), 1);
    assert_eq!(file.terms[0].term, "session");
    assert!(file.terms[0].path_match && file.terms[0].name_match);
    assert_eq!(file.terms[0].occurrences, 2);
    assert!(!file.archive);
    assert_eq!(
        file.reasons,
        "content matched `session` 2 time(s); file name matched `session`; path matched `session`"
    );

    let symbol = symbol_evidence(
        "requireSession",
        "src/auth/session.ts",
        "export function requireSession()",
        &query_terms("require session"),
    );
    assert_eq!(symbol.terms[0].name_match, NameMatch::Prefix);
    assert_eq!(symbol.terms[1].name_match, NameMatch::Contains);
    assert!(!symbol.terms[0].path_match);
    assert!(symbol.terms[1].path_match);
    assert_eq!(
        symbol.reasons,
        "path contains `session`; signature contains `require`; signature contains `session`; symbol name contains `session`; symbol name starts with `require`"
    );
    let exact = symbol_evidence("Session", "a.ts", "", &query_terms("session"));
    assert_eq!(exact.terms[0].name_match, NameMatch::Exact);
}

fn inventory_file(path: &str, role: FileRole, generated: bool) -> FileInventoryEntry {
    FileInventoryEntry {
        path: path.to_string(),
        language: None,
        role,
        hash: "h".to_string(),
        size_bytes: 1,
        generated,
        ignored: false,
    }
}

#[test]
fn related_tests_rank_by_capped_confidence_then_path() {
    let scored = vec![
        ScoredTest { path: "tests/b.test.ts".to_string(), half_points: 10 },
        ScoredTest { path: "tests/a.test.ts".to_string(), half_points: 10 },
        ScoredTest { path: "tests/d.test.ts".to_string(), half_points: 40 },
        ScoredTest { path: "tests/c.test.ts".to_string(), half_points: 90 },
    ];
    let ranked: Vec<String> = rank_related_tests(scored)
        .into_iter()
        .map(|t| t.path)
        .collect();
    assert_eq!(
        ranked,
        strings(&["tests/c.test.ts", "tests/d.test.ts", "tests/a.test.ts", "tests/b.test.ts"])
    );

    let files = vec![
        inventory_file("tests/z.test.ts", FileRole::Test, false),
        inventory_file("src/a.ts", FileRole::Source, false),
        inventory_file("tests/gen.test.ts", FileRole::Test, true),
        inventory_file("tests/a.test.ts", FileRole::Test, false),
    ];
    assert_eq!(
        related_test_candidates(&files),
        strings(&["tests/z.test.ts", "tests/a.test.ts"])
    );
    assert_eq!(
        test_map_paths(&files),
        strings(&["tests/a.test.ts", "tests/z.test.ts"])
    );
}

fn edge(source: &str, target: &str, symbol: Option<&str>) -> PrecisionEdgeRecord {
    PrecisionEdgeRecord {
        source_path: source.to_string(),
        target_path: target.to_string(),
        edge_type: " Calls Into ".to_string(),
        symbol: symbol.map(|s| s.to_string()),
        confidence_bits: Some(0.5_f32.to_bits()),
        reason: Some("indexed".to_string()),
    }
}

#[test]
fn precision_edges_are_admitted_only_between_safe_files() {
    let safe = strings(&["src/a.ts", "src/b.ts"]);
    let records = vec![
        edge("/r/src/a.ts", "./src/b.ts", Some("  ")),
        edge("src/a.ts", "src/secret.env", None),
    ];
    let (admitted, rejected) = admit_precision_edges("/r", &safe, records.clone(), true);
    assert_eq!(rejected, 1);
    assert_eq!(admitted.len(), 1);
    assert_eq!(admitted[0].source_path, "src/a.ts");
    assert_eq!(admitted[0].target_path, "src/b.ts");
    assert_eq!(admitted[0].edge_type, "calls_into");
    assert_eq!(admitted[0].symbol, None);
    assert_eq!(admitted[0].reason, Some("indexed".to_string()));
    assert_eq!(admitted[0].confidence_bits, Some(0.5_f32.to_bits()));
    let (overlay, _) = admit_precision_edges("/r", &safe, records, false);
    assert_eq!(overlay[0].symbol, Some("  ".to_string()));
    let warning = precision_rejected_diagnostic(rejected, true);
    assert_eq!(warning.code, "precision_edges_rejected");
    assert_eq!(warning.count, 1);
}

#[test]
fn huge_line_ranges_are_refused_before_parsing() {
    assert!(file_range_fits("ctxpack://file/src/a.ts?lines=1-2"));
    assert!(file_range_fits("ctxpack://file/src/a.ts"));
    let huge = format!("ctxpack://file/src/a.ts?lines={}-1", usize::MAX);
    assert!(!file_range_fits(&huge));
}

#[test]
fn search_cache_key_digests_query_limit_terms_and_files() {
    let files = vec![inventory_file("src/a.ts", FileRole::Source, false)];
    let terms = query_terms(" Auth ");
    let path = lexical_search_cache_path("/h", "r1", &files, " Auth ", 0, &terms);
    let mut key = blake3::Hasher::new();
    key.update(b"lexical-search-cache-v1");
    key.update(b"Auth");
    key.update(&1u64.to_le_bytes());
    key.update(b"auth\0");
    key.update(b"src/a.ts\0h\0Source\0");
    assert_eq!(
        path,
        format!("/h/repos/r1/lexical-search/{}.json", key.finalize().to_hex())
    );
    assert_ne!(
        lexical_search_cache_path("/h", "r1", &files, " Auth ", 5, &terms),
        path
    );
}
