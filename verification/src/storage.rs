//! The source-free SQLite store: where it lives, which tables it must have,
//! and how compatible an existing database is.
use vstd::prelude::*;

use crate::freshness::{diag_views, diagnostic_of, absent_paths};
use crate::inventory::repo_state_path;
use crate::model::{opt_view, str_views, Diagnostic, DiagnosticSeverity, DiagnosticView};
use crate::text::{chars_of, decimal, decimal_chars, extend_chars, extend_str, str_seq, string_eq, string_of};

verus! {

/// The store's schema version.
pub const STORAGE_SCHEMA_VERSION: u32 = 1;

/// The version of the ranking data the store holds.
pub const RANKING_STORAGE_VERSION: u32 = 1;

/// The version of the compiler data the store holds.
pub const COMPILER_STORAGE_VERSION: u32 = 1;

/// The name recorded for the initial migration.
pub const INITIAL_MIGRATION_NAME: &'static str = "initial_source_free_storage_schema";

/// The checksum recorded for the initial migration.
pub const INITIAL_MIGRATION_CHECKSUM: &'static str = "ctxpack-storage-v1-source-free";

/// The tables a compatible store holds, in schema order.
pub open spec fn required_tables() -> Seq<Seq<char>> {
    seq![
        "storage_metadata"@,
        "schema_migrations"@,
        "repos"@,
        "files"@,
        "symbols"@,
        "chunks"@,
        "edges"@,
        "tests"@,
        "git_history"@,
        "eval_traces"@,
        "context_plans"@,
        "context_packs"@,
        "benchmark_runs"@,
        "benchmark_metrics"@,
        "retrieval_gaps"@,
        "proof_reports"@,
    ]
}

/// The names of the tables a compatible store holds.
pub fn required_table_names() -> (r: Vec<&'static str>)
    ensures
        str_seq(r@) == required_tables(),
{
    let r = vec![
        "storage_metadata",
        "schema_migrations",
        "repos",
        "files",
        "symbols",
        "chunks",
        "edges",
        "tests",
        "git_history",
        "eval_traces",
        "context_plans",
        "context_packs",
        "benchmark_runs",
        "benchmark_metrics",
        "retrieval_gaps",
        "proof_reports",
    ];
    assert(str_seq(r@) =~= required_tables());
    r
}

/// Where the store should live: an explicit path, or the default under the
/// ctxpack home.
#[derive(Debug, Clone)]
pub struct StoreConfig {
    pub path_override: Option<String>,
}

impl Default for StoreConfig {
    fn default() -> (c: StoreConfig)
        ensures
            c.path_override is None,
    {
        StoreConfig { path_override: None }
    }
}

/// The store of one repository.
#[derive(Debug, Clone)]
pub struct StorePaths {
    pub repo_id: String,
    pub database_path: String,
}

/// Where the store of `repo_id` lives: the override when there is one, else
/// `home/repos/<repo_id>/ctxpack.sqlite3`.
pub open spec fn database_path_for(home: Seq<char>, repo_id: Seq<char>, path_override: Option<Seq<char>>) -> Seq<char> {
    match path_override {
        Some(p) => p,
        None => repo_state_path(home, repo_id, "ctxpack.sqlite3"@),
    }
}

/// The store paths of a repository under the ctxpack home `home`.
pub fn store_paths_for_repo_id(home: &str, repo_id: &str, config: &StoreConfig) -> (r: StorePaths)
    ensures
        r.repo_id@ == repo_id@,
        r.database_path@ == database_path_for(home@, repo_id@, opt_view(config.path_override)),
{
    let database_path = match &config.path_override {
        Some(p) => p.clone(),
        None => crate::inventory::repo_state_path_exec(home, repo_id, "ctxpack.sqlite3"),
    };
    StorePaths { repo_id: String::from_str(repo_id), database_path }
}

/// What the store may hold.
#[derive(Debug, Clone, Copy, PartialEq, Eq, Structural)]
pub enum StoragePrivacyMode {
    SourceFree,
}

impl StoragePrivacyMode {
    /// The mode as the store records it.
    pub fn as_str(self) -> (r: &'static str)
        ensures
            r@ == "source_free"@,
    {
        match self {
            StoragePrivacyMode::SourceFree => "source_free",
        }
    }

    /// The mode a recorded value names; every value reads as source-free.
    pub fn from_str(value: &str) -> (r: StoragePrivacyMode)
        ensures
            r == StoragePrivacyMode::SourceFree,
    {
        StoragePrivacyMode::SourceFree
    }
}

/// The metadata row of a store.
#[derive(Debug, Clone)]
pub struct StorageMetadata {
    pub schema_version: u32,
    pub ctxpack_version: String,
    pub ranking_version: u32,
    pub compiler_version: u32,
    pub privacy_mode: StoragePrivacyMode,
    pub created_at_unix_seconds: u64,
    pub updated_at_unix_seconds: u64,
}

/// How usable an existing store is.
#[derive(Debug, Clone, Copy, PartialEq, Eq, Structural)]
pub enum StorageCompatibility {
    Compatible,
    MissingMetadata,
    MissingTables,
    IncompatibleSchema,
}

/// What an inspection of a store's schema found.
#[derive(Debug, Clone)]
pub struct StorageSchemaReport {
    pub database_path: String,
    pub schema_version: Option<u32>,
    pub privacy_mode: Option<StoragePrivacyMode>,
    pub present_tables: Vec<String>,
    pub missing_tables: Vec<String>,
    pub compatibility: StorageCompatibility,
    pub diagnostics: Vec<Diagnostic>,
}

/// A store as opened or initialised.
#[derive(Debug, Clone)]
pub struct StorageReport {
    pub repo_id: String,
    pub repo_root: String,
    pub database_path: String,
    pub schema_version: u32,
    pub ctxpack_version: String,
    pub ranking_version: u32,
    pub compiler_version: u32,
    pub privacy_mode: StoragePrivacyMode,
    pub compatibility: StorageCompatibility,
    pub diagnostics: Vec<Diagnostic>,
}

/// The required tables that `present` lacks, in schema order.
pub open spec fn missing_tables_of(present: Seq<Seq<char>>) -> Seq<Seq<char>> {
    absent_paths(required_tables(), present, required_tables().len())
}

/// A warning about the store at `path`.
pub open spec fn storage_warning(code: Seq<char>, message: Seq<char>, path: Seq<char>) -> DiagnosticView {
    diagnostic_of(code, DiagnosticSeverity::Warning, message, seq![path])
}

fn storage_diagnostic(code: &str, message: String, path: &str) -> (d: Diagnostic)
    ensures
        d@ == storage_warning(code@, message@, path@),
{
    let paths: Vec<String> = vec![String::from_str(path)];
    assert(str_views(paths@) =~= seq![path@]);
    Diagnostic {
        code: String::from_str(code),
        severity: DiagnosticSeverity::Warning,
        message,
        count: 1,
        paths,
    }
}

/// The required tables that `present` lacks, in schema order.
pub fn missing_tables(present: &Vec<String>) -> (r: Vec<String>)
    ensures
        str_views(r@) == missing_tables_of(str_views(present@)),
{
    let required = required_table_names();
    let ghost req = str_seq(required@);
    let ghost pv = str_views(present@);
    let mut out: Vec<String> = Vec::new();
    let mut i: usize = 0;
    while i < required.len()
        invariant
            i <= required@.len(),
            req == str_seq(required@),
            req == required_tables(),
            pv == str_views(present@),
            str_views(out@) == absent_paths(req, pv, i as nat),
        decreases required.len() - i,
    {
        let t = String::from_str(required[i]);
        assert(req[i as int] == t@);
        let mut found = false;
        let mut j: usize = 0;
        while j < present.len()
            invariant
                j <= present@.len(),
                pv == str_views(present@),
                found == pv.take(j as int).contains(t@),
            decreases present.len() - j,
        {
            if string_eq(&present[j], &t) {
                found = true;
            }
            assert(pv.take(j + 1) =~= pv.take(j as int).push(pv[j as int]));
            proof {
                broadcast use vstd::seq_lib::lemma_seq_contains_after_push;
            }
            j += 1;
        }
        assert(pv.take(present@.len() as int) =~= pv);
        if !found {
            let ghost before = str_views(out@);
            out.push(t);
            assert(str_views(out@) =~= before.push(req[i as int]));
        }
        i += 1;
    }
    out
}

/// Whether the metadata row can be read: the metadata table is not missing.
pub fn metadata_table_present(missing: &Vec<String>) -> (b: bool)
    ensures
        b == !str_views(missing@).contains("storage_metadata"@),
{
    let name = String::from_str("storage_metadata");
    let ghost mv = str_views(missing@);
    let mut i: usize = 0;
    while i < missing.len()
        invariant
            i <= missing@.len(),
            mv == str_views(missing@),
            name@ == "storage_metadata"@,
            forall|k: int| 0 <= k < i ==> mv[k] != name@,
        decreases missing.len() - i,
    {
        if string_eq(&missing[i], &name) {
            assert(mv[i as int] == name@);
            return false;
        }
        i += 1;
    }
    true
}

/// How compatible a store is, from what its schema holds.
pub open spec fn compatibility_of(has_metadata: bool, missing_count: nat, schema_version: u32) -> StorageCompatibility {
    if !has_metadata {
        StorageCompatibility::MissingMetadata
    } else if missing_count > 0 {
        StorageCompatibility::MissingTables
    } else if schema_version != STORAGE_SCHEMA_VERSION {
        StorageCompatibility::IncompatibleSchema
    } else {
        StorageCompatibility::Compatible
    }
}

/// The diagnostics that explain a compatibility verdict.
pub open spec fn compatibility_diagnostics(
    path: Seq<char>,
    compatibility: StorageCompatibility,
    missing_count: nat,
    schema_version: u32,
) -> Seq<DiagnosticView> {
    match compatibility {
        StorageCompatibility::MissingMetadata => seq![
            storage_warning(
                "storage_missing_metadata"@,
                "Storage metadata missing in "@ + path,
                path,
            ),
        ],
        StorageCompatibility::MissingTables => seq![
            storage_warning(
                "storage_missing_tables"@,
                "Storage database "@ + path + " is missing "@ + decimal(missing_count)
                    + " required table(s)"@,
                path,
            ),
        ],
        StorageCompatibility::IncompatibleSchema => seq![
            storage_warning(
                "storage_incompatible_schema"@,
                "Storage database "@ + path + " uses schema version "@ + decimal(
                    schema_version as nat,
                ) + ", expected "@ + decimal(STORAGE_SCHEMA_VERSION as nat),
                path,
            ),
        ],
        StorageCompatibility::Compatible => seq![],
    }
}

/// The schema report of the store at `path`, from its present tables and
/// its metadata row. The row is read only when the metadata table is
/// present (`metadata_table_present`); otherwise it is `None`.
pub fn schema_report(path: &str, present_tables: Vec<String>, metadata: Option<StorageMetadata>) -> (r: StorageSchemaReport)
    ensures
        r.database_path@ == path@,
        str_views(r.present_tables@) == str_views(present_tables@),
        str_views(r.missing_tables@) == missing_tables_of(str_views(present_tables@)),
        r.schema_version == (match metadata {
            Some(m) => Some(m.schema_version),
            None => None::<u32>,
        }),
        r.privacy_mode == (match metadata {
            Some(m) => Some(m.privacy_mode),
            None => None::<StoragePrivacyMode>,
        }),
        r.compatibility == compatibility_of(
            metadata is Some,
            missing_tables_of(str_views(present_tables@)).len(),
            match metadata {
                Some(m) => m.schema_version,
                None => 0,
            },
        ),
        diag_views(r.diagnostics@) == compatibility_diagnostics(
            path@,
            r.compatibility,
            missing_tables_of(str_views(present_tables@)).len(),
            match metadata {
                Some(m) => m.schema_version,
                None => 0,
            },
        ),
        (r.compatibility == StorageCompatibility::Compatible) <==> r.diagnostics@.len() == 0,
{
    let missing = missing_tables(&present_tables);
    let version: u32 = match &metadata {
        Some(m) => m.schema_version,
        None => 0,
    };
    let pv = chars_of(path);
    let mut diagnostics: Vec<Diagnostic> = Vec::new();
    let compatibility = if metadata.is_none() {
        let mut text: Vec<char> = Vec::new();
        extend_str(&mut text, "Storage metadata missing in ");
        extend_chars(&mut text, &pv);
        diagnostics.push(storage_diagnostic("storage_missing_metadata", string_of(&text), path));
        StorageCompatibility::MissingMetadata
    } else if missing.len() > 0 {
        let mut text: Vec<char> = Vec::new();
        extend_str(&mut text, "Storage database ");
        extend_chars(&mut text, &pv);
        extend_str(&mut text, " is missing ");
        extend_chars(&mut text, &decimal_chars(missing.len() as u64));
        extend_str(&mut text, " required table(s)");
        diagnostics.push(storage_diagnostic("storage_missing_tables", string_of(&text), path));
        StorageCompatibility::MissingTables
    } else if version != STORAGE_SCHEMA_VERSION {
        let mut text: Vec<char> = Vec::new();
        extend_str(&mut text, "Storage database ");
        extend_chars(&mut text, &pv);
        extend_str(&mut text, " uses schema version ");
        extend_chars(&mut text, &decimal_chars(version as u64));
        extend_str(&mut text, ", expected ");
        extend_chars(&mut text, &decimal_chars(STORAGE_SCHEMA_VERSION as u64));
        diagnostics.push(storage_diagnostic("storage_incompatible_schema", string_of(&text), path));
        StorageCompatibility::IncompatibleSchema
    } else {
        StorageCompatibility::Compatible
    };
    proof {
        if diagnostics@.len() == 1 {
            assert(diag_views(diagnostics@) =~= seq![diagnostics@[0]@]);
        } else {
            assert(diag_views(diagnostics@) =~= Seq::<DiagnosticView>::empty());
        }
    }
    let schema_version = match &metadata {
        Some(m) => Some(m.schema_version),
        None => None,
    };
    let privacy_mode = match &metadata {
        Some(m) => Some(m.privacy_mode),
        None => None,
    };
    StorageSchemaReport {
        database_path: String::from_str(path),
        schema_version,
        privacy_mode,
        present_tables,
        missing_tables: missing,
        compatibility,
        diagnostics,
    }
}

/// The schema report of a store whose database file does not exist: every
/// table is missing.
pub fn missing_store_report(path: &str) -> (r: StorageSchemaReport)
    ensures
        r.database_path@ == path@,
        r.schema_version is None,
        r.privacy_mode is None,
        r.present_tables@.len() == 0,
        str_views(r.missing_tables@) == required_tables(),
        r.compatibility == StorageCompatibility::MissingTables,
        diag_views(r.diagnostics@) == seq![
            storage_warning("storage_missing"@, "Storage database does not exist: "@ + path@, path@),
        ],
{
    let required = required_table_names();
    let mut missing: Vec<String> = Vec::new();
    let mut i: usize = 0;
    while i < required.len()
        invariant
            i <= required@.len(),
            str_seq(required@) == required_tables(),
            str_views(missing@) == required_tables().take(i as int),
        decreases required.len() - i,
    {
        let t = String::from_str(required[i]);
        let ghost before = str_views(missing@);
        missing.push(t);
        assert(str_views(missing@) =~= before.push(t@));
        assert(required_tables().take(i + 1) =~= required_tables().take(i as int).push(t@));
        i += 1;
    }
    assert(required_tables().take(16) =~= required_tables());
    let mut text: Vec<char> = Vec::new();
    extend_str(&mut text, "Storage database does not exist: ");
    extend_str(&mut text, path);
    let d = storage_diagnostic("storage_missing", string_of(&text), path);
    let mut diagnostics: Vec<Diagnostic> = Vec::new();
    diagnostics.push(d);
    assert(diag_views(diagnostics@) =~= seq![d@]);
    StorageSchemaReport {
        database_path: String::from_str(path),
        schema_version: None,
        privacy_mode: None,
        present_tables: Vec::new(),
        missing_tables: missing,
        compatibility: StorageCompatibility::MissingTables,
        diagnostics,
    }
}

/// The report of a store: identity and metadata, with the schema's verdict.
pub fn storage_report(
    repo_id: String,
    repo_root: String,
    database_path: String,
    metadata: StorageMetadata,
    schema: StorageSchemaReport,
) -> (r: StorageReport)
    ensures
        r.repo_id@ == repo_id@,
        r.repo_root@ == repo_root@,
        r.database_path@ == database_path@,
        r.schema_version == metadata.schema_version,
        r.ctxpack_version@ == metadata.ctxpack_version@,
        r.ranking_version == metadata.ranking_version,
        r.compiler_version == metadata.compiler_version,
        r.privacy_mode == metadata.privacy_mode,
        r.compatibility == schema.compatibility,
        diag_views(r.diagnostics@) == diag_views(schema.diagnostics@),
{
    StorageReport {
        repo_id,
        repo_root,
        database_path,
        schema_version: metadata.schema_version,
        ctxpack_version: metadata.ctxpack_version,
        ranking_version: metadata.ranking_version,
        compiler_version: metadata.compiler_version,
        privacy_mode: metadata.privacy_mode,
        compatibility: schema.compatibility,
        diagnostics: schema.diagnostics,
    }
}

/// An unsigned count as a signed SQLite integer, saturating at `i64::MAX`.
pub fn as_i64(value: u64) -> (r: i64)
    ensures
        r == (if value <= i64::MAX {
            value as int
        } else {
            i64::MAX as int
        }),
{
    if value <= i64::MAX as u64 {
        value as i64
    } else {
        i64::MAX
    }
}

/// A signed SQLite integer as an unsigned count; negative values read as 0.
pub fn as_u64(value: i64) -> (r: u64)
    ensures
        r == (if value >= 0 {
            value as int
        } else {
            0
        }),
{
    if value >= 0 {
        value as u64
    } else {
        0
    }
}

/// The label of a compatibility verdict, as reports write it.
pub open spec fn compatibility_label(c: StorageCompatibility) -> Seq<char> {
    match c {
        StorageCompatibility::Compatible => "compatible"@,
        StorageCompatibility::MissingMetadata => "missing_metadata"@,
        StorageCompatibility::MissingTables => "missing_tables"@,
        StorageCompatibility::IncompatibleSchema => "incompatible_schema"@,
    }
}

/// Executable `compatibility_label`.
pub fn storage_compatibility_label(c: StorageCompatibility) -> (r: &'static str)
    ensures
        r@ == compatibility_label(c),
{
    match c {
        StorageCompatibility::Compatible => "compatible",
        StorageCompatibility::MissingMetadata => "missing_metadata",
        StorageCompatibility::MissingTables => "missing_tables",
        StorageCompatibility::IncompatibleSchema => "incompatible_schema",
    }
}

proof fn lemma_absent_paths(from: Seq<Seq<char>>, other: Seq<Seq<char>>, n: nat, t: Seq<char>)
    requires
        n <= from.len(),
    ensures
        crate::freshness::absent_paths(from, other, n).contains(t) <==> (from.take(n as int).contains(t)
            && !other.contains(t)),
    decreases n,
{
    if n > 0 {
        lemma_absent_paths(from, other, (n - 1) as nat, t);
        let r = crate::freshness::absent_paths(from, other, (n - 1) as nat);
        assert(from.take(n as int) =~= from.take(n - 1).push(from[n - 1]));
        if !other.contains(from[n - 1]) {
            let rp = r.push(from[n - 1]);
            assert(rp[r.len() as int] == from[n - 1]);
            if rp.contains(t) && t != from[n - 1] {
                let k = choose|k: int| 0 <= k < rp.len() && #[trigger] rp[k] == t;
                assert(r[k] == t);
            }
            if r.contains(t) {
                let k = choose|k: int| 0 <= k < r.len() && #[trigger] r[k] == t;
                assert(rp[k] == t);
            }
        }
        if from.take(n as int).contains(t) && t != from[n - 1] {
            let ft = from.take(n as int);
            let k = choose|k: int| 0 <= k < ft.len() && #[trigger] ft[k] == t;
            assert(from.take(n - 1)[k] == t);
        }
        if from.take(n - 1).contains(t) {
            let fp = from.take(n - 1);
            let k = choose|k: int| 0 <= k < fp.len() && #[trigger] fp[k] == t;
            assert(from.take(n as int)[k] == t);
        }
        assert(from.take(n as int)[n - 1] == from[n - 1]);
    } else {
        assert(from.take(0) =~= Seq::<Seq<char>>::empty());
    }
}

/// The schema verdict of a store: the missing tables are exactly the
/// required tables that are not present; the store is compatible exactly
/// when it has a metadata row, no required table is missing and its schema
/// version is the current one.
pub proof fn lemma_schema_verdict(present: Seq<Seq<char>>, has_metadata: bool, schema_version: u32)
    ensures
        forall|t: Seq<char>| #[trigger] missing_tables_of(present).contains(t) <==> (
        required_tables().contains(t) && !present.contains(t)),
        compatibility_of(has_metadata, missing_tables_of(present).len(), schema_version)
            == StorageCompatibility::Compatible <==> (has_metadata && (forall|t: Seq<char>|
            #[trigger] required_tables().contains(t) ==> present.contains(t)) && schema_version
            == STORAGE_SCHEMA_VERSION),
{
    let req = required_tables();
    assert(req.take(req.len() as int) =~= req);
    assert forall|t: Seq<char>| #[trigger] missing_tables_of(present).contains(t) <==> (
    req.contains(t) && !present.contains(t)) by {
        lemma_absent_paths(req, present, req.len(), t);
    }
    let m = missing_tables_of(present);
    if m.len() > 0 {
        let t = m[0];
        assert(m.contains(t));
        assert(req.contains(t) && !present.contains(t));
    } else {
        assert forall|t: Seq<char>| #[trigger] req.contains(t) implies present.contains(t) by {
            if !present.contains(t) {
                assert(m.contains(t));
            }
        }
    }
}

} // verus!
