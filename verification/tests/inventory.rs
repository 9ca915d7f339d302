use ctxpack::inventory::{
    ignore_file_fingerprint_of, ignore_file_paths, inventory_of, options_fingerprint, repo_id_for_path, IgnoreFileFingerprint, InventoryOptions,
    WalkedContent, WalkedFile, INVENTORY_SCHEMA_VERSION,
};
use ctxpack::model::FileRole;

fn walked(path: &str, role: FileRole, bytes: Option<&[u8]>) -> WalkedFile {
    WalkedFile {
        path: path.to_string(),
        role,
        language: None,
        content: bytes.map(|b| WalkedContent {
            bytes: b.to_vec(),
            size_bytes: b.len() as u64,
            modified_unix_nanos: 7,
        }),
    }
}

fn repo_walk() -> Vec<WalkedFile> {
    vec![
        walked("src/z.ts", FileRole::Source, Some(b"export const z = 1;\n")),
        walked(".git/config", FileRole::Source, Some(b"[core]\n")),
        walked("dist/app.js", FileRole::Generated, Some(b"bundle")),
        walked(".env", FileRole::Sensitive, Some(b"TOKEN=x")),
        walked("src/a.ts", FileRole::Source, Some(b"export const a = 1;\n")),
        walked("src/locked.ts", FileRole::Source, None),
    ]
}

#[test]
fn inventory_keeps_safe_readable_files_sorted_by_path() {
    let options = InventoryOptions::default();
    let fingerprints = vec![IgnoreFileFingerprint {
        path: ".gitignore".to_string(),
        present: false,
        hash: None,
        size_bytes: 0,
        modified_unix_nanos: 0,
    }];
    let inventory = inventory_of("/repo", repo_walk(), &options, "policy-1", 42, fingerprints);
    let paths: Vec<&str> = inventory.files.iter().map(|f| f.path.as_str()).collect();
    assert_eq!(paths, vec!["src/a.ts", "src/z.ts"]);
    assert_eq!(
        inventory.files[0].hash,
        blake3::hash(b"export const a = 1;\n").to_hex().to_string()
    );
    assert_eq!(inventory.files[0].size_bytes, 20);
    assert_eq!(inventory.generated_count, 1);
    assert_eq!(inventory.sensitive_count, 1);
    assert_eq!(inventory.ignored_count, 1);
    assert_eq!(inventory.repo_id, repo_id_for_path("/repo"));
    assert_eq!(inventory.repo_root, "/repo");
    assert_eq!(inventory.metadata.schema_version, INVENTORY_SCHEMA_VERSION);
    assert_eq!(inventory.metadata.policy_version, "policy-1");
    assert_eq!(inventory.metadata.options_fingerprint, options_fingerprint(&options));
    assert_eq!(inventory.metadata.built_at_unix_seconds, 42);
    assert_eq!(inventory.metadata.ignore_fingerprints.len(), 1);
    let manifest: Vec<&str> = inventory.metadata.manifest.iter().map(|m| m.path.as_str()).collect();
    assert_eq!(manifest, vec!["src/a.ts", "src/z.ts"]);
    assert_eq!(inventory.metadata.manifest[1].modified_unix_nanos, 7);
}

#[test]
fn inventory_options_admit_generated_and_sensitive_files() {
    let options = InventoryOptions {
        include_generated: true,
        include_sensitive: true,
    };
    let inventory = inventory_of("/repo", repo_walk(), &options, "p", 0, Vec::new());
    let paths: Vec<&str> = inventory.files.iter().map(|f| f.path.as_str()).collect();
    assert_eq!(paths, vec![".env", "dist/app.js", "src/a.ts", "src/z.ts"]);
    assert!(inventory.files[1].generated);
    assert_eq!(inventory.generated_count, 1);
    assert_eq!(inventory.sensitive_count, 1);
}

#[test]
fn ignore_files_are_fingerprinted_by_their_bytes() {
    assert_eq!(
        ignore_file_paths(),
        vec![".gitignore", ".git/info/exclude", ".ctxpackignore", ".cursorignore"]
    );
    let present = ignore_file_fingerprint_of(".gitignore", Some((6, 99)), b"dist/\n");
    assert_eq!(present.path, ".gitignore");
    assert!(present.present);
    assert_eq!(present.hash, Some(blake3::hash(b"dist/\n").to_hex().to_string()));
    assert_eq!(present.size_bytes, 6);
    assert_eq!(present.modified_unix_nanos, 99);
    let absent = ignore_file_fingerprint_of(".cursorignore", None, b"");
    assert!(!absent.present);
    assert_eq!(absent.hash, None);
    assert_eq!(absent.size_bytes, 0);
    assert_eq!(absent.modified_unix_nanos, 0);
}
