//! Whether a cached inventory still describes the repository, and the
//! diagnostics that explain why not.
use vstd::prelude::*;

use crate::inventory::{
    blake3_hex, options_fingerprint, options_json, IgnoreFileFingerprint, IgnoreFingerprintView,
    InventoryManifestEntry, InventoryMetadata, InventoryOptions, ManifestEntryView, RepoInventory,
    INVENTORY_SCHEMA_VERSION,
};
use crate::model::{opt_view, str_views, Diagnostic, DiagnosticSeverity, DiagnosticView};
use crate::paths::{components, same_path};
use crate::strs::{
    lemma_sorted_distinct, no_dups, sort_strings, sort_strs, sorted_strs, uniq, uniq_strings,
};
use crate::text::string_eq;
use vstd::utf8::encode_utf8;

verus! {

/// Why a cached inventory is stale, in the order reports list them.
#[derive(Debug, Clone, Copy, PartialEq, Eq, Structural, PartialOrd, Ord)]
pub enum InventoryStaleReason {
    MissingMetadata,
    SchemaChanged,
    PolicyChanged,
    OptionsChanged,
    RepoRootChanged,
    IgnoreFileChanged,
    FileCreated,
    FileDeleted,
    FileChanged,
}

/// The position of a reason in the reason order.
pub open spec fn reason_rank(r: InventoryStaleReason) -> int {
    match r {
        InventoryStaleReason::MissingMetadata => 0,
        InventoryStaleReason::SchemaChanged => 1,
        InventoryStaleReason::PolicyChanged => 2,
        InventoryStaleReason::OptionsChanged => 3,
        InventoryStaleReason::RepoRootChanged => 4,
        InventoryStaleReason::IgnoreFileChanged => 5,
        InventoryStaleReason::FileCreated => 6,
        InventoryStaleReason::FileDeleted => 7,
        InventoryStaleReason::FileChanged => 8,
    }
}

/// How a load of the inventory cache went.
#[derive(Debug, Clone, Copy, PartialEq, Eq, Structural)]
pub enum LoadCacheStatus {
    Hit,
    Miss,
    Rebuilt,
    WriteFailed,
}

/// The verdict on a cached inventory.
#[derive(Debug, Clone)]
pub struct InventoryFreshness {
    pub fresh: bool,
    pub reasons: Vec<InventoryStaleReason>,
    pub diagnostics: Vec<Diagnostic>,
}

/// The views of a sequence of diagnostics.
pub open spec fn diag_views(v: Seq<Diagnostic>) -> Seq<DiagnosticView> {
    v.map_values(|d: Diagnostic| d@)
}

/// The views of a manifest.
pub open spec fn manifest_views(m: Seq<InventoryManifestEntry>) -> Seq<ManifestEntryView> {
    m.map_values(|e: InventoryManifestEntry| e@)
}

/// The views of ignore-file fingerprints.
pub open spec fn ignore_views(m: Seq<IgnoreFileFingerprint>) -> Seq<IgnoreFingerprintView> {
    m.map_values(|e: IgnoreFileFingerprint| e@)
}

/// The paths of a manifest, in order.
pub open spec fn manifest_paths(m: Seq<ManifestEntryView>) -> Seq<Seq<char>> {
    m.map_values(|e: ManifestEntryView| e.path)
}

/// One reason with its diagnostic.
pub ghost struct StaleFinding {
    pub reason: InventoryStaleReason,
    pub diagnostic: DiagnosticView,
}

/// A diagnostic with a code, a severity, a message and the paths it counts.
pub open spec fn diagnostic_of(
    code: Seq<char>,
    severity: DiagnosticSeverity,
    message: Seq<char>,
    paths: Seq<Seq<char>>,
) -> DiagnosticView {
    DiagnosticView { code, severity, message, count: paths.len(), paths }
}

/// The finding for `reason` when `cond` holds: a warning over the sorted paths.
pub open spec fn finding_if(
    cond: bool,
    reason: InventoryStaleReason,
    code: Seq<char>,
    message: Seq<char>,
    paths: Seq<Seq<char>>,
) -> Seq<StaleFinding> {
    if cond {
        seq![
            StaleFinding {
                reason,
                diagnostic: diagnostic_of(code, DiagnosticSeverity::Warning, message, sort_strs(paths)),
            },
        ]
    } else {
        seq![]
    }
}

/// The current paths of the ignore files whose fingerprints differ, pairing
/// the first `n` cached and current fingerprints position by position.
pub open spec fn changed_ignores(
    cached: Seq<IgnoreFingerprintView>,
    current: Seq<IgnoreFingerprintView>,
    n: nat,
) -> Seq<Seq<char>>
    decreases n,
{
    if n == 0 {
        seq![]
    } else {
        let r = changed_ignores(cached, current, (n - 1) as nat);
        if cached[n - 1] != current[n - 1] {
            r.push(current[n - 1].path)
        } else {
            r
        }
    }
}

/// The number of positions that a zip of two sequences visits.
pub open spec fn zip_len(a: nat, b: nat) -> nat {
    if a < b {
        a
    } else {
        b
    }
}

/// The first `n` paths of `from` that `other` does not hold.
pub open spec fn absent_paths(from: Seq<Seq<char>>, other: Seq<Seq<char>>, n: nat) -> Seq<
    Seq<char>,
>
    decreases n,
{
    if n == 0 {
        seq![]
    } else {
        let r = absent_paths(from, other, (n - 1) as nat);
        if other.contains(from[n - 1]) {
            r
        } else {
            r.push(from[n - 1])
        }
    }
}

/// The last manifest entry with path `p`: the one a map keyed by path keeps.
pub open spec fn last_with_path(m: Seq<ManifestEntryView>, p: Seq<char>) -> Option<
    ManifestEntryView,
>
    decreases m.len(),
{
    if m.len() == 0 {
        None
    } else if m.last().path == p {
        Some(m.last())
    } else {
        last_with_path(m.drop_last(), p)
    }
}

/// Whether the entry kept for `p` differs between the cached and current
/// manifests, `p` being in both.
pub open spec fn entry_changed(
    cached: Seq<ManifestEntryView>,
    current: Seq<ManifestEntryView>,
    p: Seq<char>,
) -> bool {
    match last_with_path(current, p) {
        Some(x) => last_with_path(cached, p) != Some(x),
        None => false,
    }
}

/// The first `n` cached paths whose entries changed.
pub open spec fn changed_paths(
    cached: Seq<ManifestEntryView>,
    current: Seq<ManifestEntryView>,
    n: nat,
) -> Seq<Seq<char>>
    decreases n,
{
    if n == 0 {
        seq![]
    } else {
        let r = changed_paths(cached, current, (n - 1) as nat);
        if entry_changed(cached, current, cached[n - 1].path) {
            r.push(cached[n - 1].path)
        } else {
            r
        }
    }
}

/// Everything that makes a cached inventory stale, in reason order.
/// `options_fp` is the fingerprint of the options now in force and
/// `policy_version` the policy version now in force.
pub open spec fn stale_findings(
    repo_root: Seq<char>,
    cached: RepoInventory,
    current: InventoryMetadata,
    options_fp: Seq<char>,
    policy_version: Seq<char>,
) -> Seq<StaleFinding> {
    let m = cached.metadata;
    let ci = ignore_views(m.ignore_fingerprints@);
    let ui = ignore_views(current.ignore_fingerprints@);
    let ignores = changed_ignores(ci, ui, zip_len(ci.len(), ui.len()));
    let cm = manifest_views(m.manifest@);
    let um = manifest_views(current.manifest@);
    let created = uniq(absent_paths(manifest_paths(um), manifest_paths(cm), um.len()));
    let deleted = uniq(absent_paths(manifest_paths(cm), manifest_paths(um), cm.len()));
    let changed = uniq(changed_paths(cm, um, cm.len()));
    finding_if(
        m.schema_version == 0,
        InventoryStaleReason::MissingMetadata,
        "inventory_stale_missing_metadata"@,
        "Cached inventory was built before freshness metadata existed."@,
        seq![],
    ) + finding_if(
        m.schema_version != 0 && m.schema_version != INVENTORY_SCHEMA_VERSION,
        InventoryStaleReason::SchemaChanged,
        "inventory_stale_schema_changed"@,
        "Cached inventory schema version changed."@,
        seq![],
    ) + finding_if(
        m.policy_version@ != policy_version,
        InventoryStaleReason::PolicyChanged,
        "inventory_stale_policy_changed"@,
        "Cached inventory policy version changed."@,
        seq![],
    ) + finding_if(
        m.options_fingerprint@ != options_fp,
        InventoryStaleReason::OptionsChanged,
        "inventory_stale_options_changed"@,
        "Cached inventory options changed."@,
        seq![],
    ) + finding_if(
        components(m.repo_root@) != components(repo_root) || components(cached.repo_root@)
            != components(repo_root),
        InventoryStaleReason::RepoRootChanged,
        "inventory_stale_repo_root_changed"@,
        "Cached inventory was built for a different repository root."@,
        seq![m.repo_root@],
    ) + finding_if(
        ignores.len() > 0,
        InventoryStaleReason::IgnoreFileChanged,
        "inventory_stale_ignore_changed"@,
        "Repository ignore configuration changed."@,
        ignores,
    ) + finding_if(
        created.len() > 0,
        InventoryStaleReason::FileCreated,
        "inventory_stale_file_created"@,
        "Repository files were created since cached inventory was built."@,
        created,
    ) + finding_if(
        deleted.len() > 0,
        InventoryStaleReason::FileDeleted,
        "inventory_stale_file_deleted"@,
        "Repository files were deleted or excluded since cached inventory was built."@,
        deleted,
    ) + finding_if(
        changed.len() > 0,
        InventoryStaleReason::FileChanged,
        "inventory_stale_file_changed"@,
        "Repository file metadata changed since cached inventory was built."@,
        changed,
    )
}

/// The reasons of findings.
pub open spec fn finding_reasons(f: Seq<StaleFinding>) -> Seq<InventoryStaleReason> {
    f.map_values(|x: StaleFinding| x.reason)
}

/// The diagnostics of findings.
pub open spec fn finding_diagnostics(f: Seq<StaleFinding>) -> Seq<DiagnosticView> {
    f.map_values(|x: StaleFinding| x.diagnostic)
}

/// Whether a freshness verdict is the one the findings give: fresh exactly
/// when nothing was found, one reason and one diagnostic per finding.
pub open spec fn verdict_of(r: InventoryFreshness, f: Seq<StaleFinding>) -> bool {
    &&& r.fresh == (f.len() == 0)
    &&& r.reasons@ == finding_reasons(f)
    &&& diag_views(r.diagnostics@) == finding_diagnostics(f)
}


/// Compares two optional strings by their views.
fn opt_string_eq(a: &Option<String>, b: &Option<String>) -> (r: bool)
    ensures
        r == (opt_view(*a) == opt_view(*b)),
{
    match (a, b) {
        (Some(x), Some(y)) => string_eq(x, y),
        (None, None) => true,
        _ => false,
    }
}

/// Compares two ignore-file fingerprints field by field.
fn ignore_eq(a: &IgnoreFileFingerprint, b: &IgnoreFileFingerprint) -> (r: bool)
    ensures
        r == (a@ == b@),
{
    string_eq(&a.path, &b.path) && a.present == b.present && opt_string_eq(&a.hash, &b.hash)
        && a.size_bytes == b.size_bytes && a.modified_unix_nanos == b.modified_unix_nanos
}

/// Compares two manifest entries field by field.
fn manifest_entry_eq(a: &InventoryManifestEntry, b: &InventoryManifestEntry) -> (r: bool)
    ensures
        r == (a@ == b@),
{
    string_eq(&a.path, &b.path) && string_eq(&a.hash, &b.hash) && a.size_bytes == b.size_bytes
        && a.modified_unix_nanos == b.modified_unix_nanos && a.role == b.role && a.generated
        == b.generated && a.ignored == b.ignored
}

/// Executable `changed_ignores` over the positions that a zip visits.
fn changed_ignores_exec(cached: &Vec<IgnoreFileFingerprint>, current: &Vec<IgnoreFileFingerprint>) -> (out: Vec<String>)
    ensures
        str_views(out@) == changed_ignores(
            ignore_views(cached@),
            ignore_views(current@),
            zip_len(cached@.len(), current@.len()),
        ),
{
    let ghost cv = ignore_views(cached@);
    let ghost uv = ignore_views(current@);
    let n = if cached.len() < current.len() {
        cached.len()
    } else {
        current.len()
    };
    let mut out: Vec<String> = Vec::new();
    let mut i: usize = 0;
    while i < n
        invariant
            i <= n,
            n <= cached@.len(),
            n <= current@.len(),
            cv == ignore_views(cached@),
            uv == ignore_views(current@),
            str_views(out@) == changed_ignores(cv, uv, i as nat),
        decreases n - i,
    {
        assert(cv[i as int] == cached@[i as int]@);
        assert(uv[i as int] == current@[i as int]@);
        if !ignore_eq(&cached[i], &current[i]) {
            let ghost before = str_views(out@);
            out.push(current[i].path.clone());
            assert(str_views(out@) =~= before.push(uv[i as int].path));
        }
        i += 1;
    }
    out
}

/// Whether a manifest holds an entry with path `p`.
fn manifest_has_path(m: &Vec<InventoryManifestEntry>, p: &String) -> (b: bool)
    ensures
        b == manifest_paths(manifest_views(m@)).contains(p@),
{
    let ghost mp = manifest_paths(manifest_views(m@));
    let mut i: usize = 0;
    while i < m.len()
        invariant
            i <= m@.len(),
            mp == manifest_paths(manifest_views(m@)),
            forall|j: int| 0 <= j < i ==> mp[j] != p@,
        decreases m.len() - i,
    {
        assert(mp[i as int] == m@[i as int].path@);
        if string_eq(&m[i].path, p) {
            return true;
        }
        i += 1;
    }
    false
}

/// Executable `absent_paths` over the whole of `from`.
fn absent_paths_exec(from: &Vec<InventoryManifestEntry>, other: &Vec<InventoryManifestEntry>) -> (out: Vec<String>)
    ensures
        str_views(out@) == absent_paths(
            manifest_paths(manifest_views(from@)),
            manifest_paths(manifest_views(other@)),
            from@.len(),
        ),
{
    let ghost fp = manifest_paths(manifest_views(from@));
    let ghost op = manifest_paths(manifest_views(other@));
    let mut out: Vec<String> = Vec::new();
    let mut i: usize = 0;
    while i < from.len()
        invariant
            i <= from@.len(),
            fp == manifest_paths(manifest_views(from@)),
            op == manifest_paths(manifest_views(other@)),
            str_views(out@) == absent_paths(fp, op, i as nat),
        decreases from.len() - i,
    {
        assert(fp[i as int] == from@[i as int].path@);
        if !manifest_has_path(other, &from[i].path) {
            let ghost before = str_views(out@);
            out.push(from[i].path.clone());
            assert(str_views(out@) =~= before.push(fp[i as int]));
        }
        i += 1;
    }
    out
}

/// The index of the last manifest entry with path `p`.
fn last_with_path_index(m: &Vec<InventoryManifestEntry>, p: &String) -> (r: Option<usize>)
    ensures
        match r {
            Some(k) => k < m@.len() && last_with_path(manifest_views(m@), p@) == Some(
                manifest_views(m@)[k as int],
            ),
            None => last_with_path(manifest_views(m@), p@) is None,
        },
{
    let ghost mv = manifest_views(m@);
    let mut j: usize = m.len();
    assert(mv.take(j as int) =~= mv);
    while j > 0
        invariant
            j <= m@.len(),
            mv == manifest_views(m@),
            last_with_path(mv, p@) == last_with_path(mv.take(j as int), p@),
        decreases j,
    {
        let ghost t = mv.take(j as int);
        assert(t.last() == mv[j - 1]);
        assert(mv[j - 1] == m@[j - 1]@);
        if string_eq(&m[j - 1].path, p) {
            return Some(j - 1);
        }
        assert(t.drop_last() =~= mv.take(j - 1));
        j -= 1;
    }
    None
}

/// Executable `changed_paths` over the whole cached manifest.
fn changed_paths_exec(cached: &Vec<InventoryManifestEntry>, current: &Vec<InventoryManifestEntry>) -> (out: Vec<String>)
    ensures
        str_views(out@) == changed_paths(
            manifest_views(cached@),
            manifest_views(current@),
            cached@.len(),
        ),
{
    let ghost cv = manifest_views(cached@);
    let ghost uv = manifest_views(current@);
    let mut out: Vec<String> = Vec::new();
    let mut i: usize = 0;
    while i < cached.len()
        invariant
            i <= cached@.len(),
            cv == manifest_views(cached@),
            uv == manifest_views(current@),
            str_views(out@) == changed_paths(cv, uv, i as nat),
        decreases cached.len() - i,
    {
        let p = &cached[i].path;
        assert(cv[i as int].path == p@);
        let changed = match last_with_path_index(current, p) {
            Some(k) => match last_with_path_index(cached, p) {
                Some(kc) => !manifest_entry_eq(&cached[kc], &current[k]),
                None => true,
            },
            None => false,
        };
        assert(changed == entry_changed(cv, uv, p@));
        if changed {
            let ghost before = str_views(out@);
            out.push(p.clone());
            assert(str_views(out@) =~= before.push(p@));
        }
        i += 1;
    }
    out
}

/// Appends the finding for `reason` when `cond` holds: the reason, and a
/// warning over the sorted paths.
fn push_finding_if(
    reasons: &mut Vec<InventoryStaleReason>,
    diagnostics: &mut Vec<Diagnostic>,
    cond: bool,
    reason: InventoryStaleReason,
    code: &str,
    message: &str,
    paths: Vec<String>,
    Ghost(acc): Ghost<Seq<StaleFinding>>,
) -> (acc2: Ghost<Seq<StaleFinding>>)
    requires
        old(reasons)@ == finding_reasons(acc),
        diag_views(old(diagnostics)@) == finding_diagnostics(acc),
    ensures
        acc2@ == acc + finding_if(cond, reason, code@, message@, str_views(paths@)),
        final(reasons)@ == finding_reasons(acc2@),
        diag_views(final(diagnostics)@) == finding_diagnostics(acc2@),
{
    let ghost next = acc + finding_if(cond, reason, code@, message@, str_views(paths@));
    if cond {
        let sorted = sort_strings(paths);
        let count = sorted.len();
        let d = Diagnostic {
            code: String::from_str(code),
            severity: DiagnosticSeverity::Warning,
            message: String::from_str(message),
            count,
            paths: sorted,
        };
        let ghost before = diag_views(diagnostics@);
        reasons.push(reason);
        diagnostics.push(d);
        assert(diag_views(diagnostics@) =~= before.push(d@));
        assert(reasons@ =~= finding_reasons(next));
        assert(diag_views(diagnostics@) =~= finding_diagnostics(next));
    } else {
        assert(next =~= acc);
    }
    Ghost(next)
}

/// Compares a cached inventory with the metadata of the repository as it is
/// now. `repo_root` is the canonical root, `current_metadata` was gathered
/// against the cached manifest, and `policy_version` is the policy now in
/// force. The inventory is fresh exactly when no finding holds.
pub fn compare_inventory_metadata(
    repo_root: &str,
    cached: &RepoInventory,
    current_metadata: &InventoryMetadata,
    options: &InventoryOptions,
    policy_version: &str,
) -> (r: InventoryFreshness)
    ensures
        verdict_of(
            r,
            stale_findings(
                repo_root@,
                *cached,
                *current_metadata,
                blake3_hex(encode_utf8(options_json(*options))),
                policy_version@,
            ),
        ),
        reasons_ordered(r.reasons@),
{
    let ghost f = stale_findings(
        repo_root@,
        *cached,
        *current_metadata,
        blake3_hex(encode_utf8(options_json(*options))),
        policy_version@,
    );
    let m = &cached.metadata;
    let mut reasons: Vec<InventoryStaleReason> = Vec::new();
    let mut diagnostics: Vec<Diagnostic> = Vec::new();
    let ghost acc = Seq::<StaleFinding>::empty();
    assert(reasons@ =~= finding_reasons(acc));
    assert(diag_views(diagnostics@) =~= finding_diagnostics(acc));

    let none: Vec<String> = Vec::new();
    assert(str_views(none@) =~= Seq::<Seq<char>>::empty());
    let Ghost(acc) = push_finding_if(
        &mut reasons,
        &mut diagnostics,
        m.schema_version == 0,
        InventoryStaleReason::MissingMetadata,
        "inventory_stale_missing_metadata",
        "Cached inventory was built before freshness metadata existed.",
        none,
        Ghost(acc),
    );
    let none: Vec<String> = Vec::new();
    assert(str_views(none@) =~= Seq::<Seq<char>>::empty());
    let Ghost(acc) = push_finding_if(
        &mut reasons,
        &mut diagnostics,
        m.schema_version != 0 && m.schema_version != INVENTORY_SCHEMA_VERSION,
        InventoryStaleReason::SchemaChanged,
        "inventory_stale_schema_changed",
        "Cached inventory schema version changed.",
        none,
        Ghost(acc),
    );
    let policy = String::from_str(policy_version);
    let none: Vec<String> = Vec::new();
    assert(str_views(none@) =~= Seq::<Seq<char>>::empty());
    let Ghost(acc) = push_finding_if(
        &mut reasons,
        &mut diagnostics,
        !string_eq(&m.policy_version, &policy),
        InventoryStaleReason::PolicyChanged,
        "inventory_stale_policy_changed",
        "Cached inventory policy version changed.",
        none,
        Ghost(acc),
    );
    let fingerprint = options_fingerprint(options);
    let none: Vec<String> = Vec::new();
    assert(str_views(none@) =~= Seq::<Seq<char>>::empty());
    let Ghost(acc) = push_finding_if(
        &mut reasons,
        &mut diagnostics,
        !string_eq(&m.options_fingerprint, &fingerprint),
        InventoryStaleReason::OptionsChanged,
        "inventory_stale_options_changed",
        "Cached inventory options changed.",
        none,
        Ghost(acc),
    );
    let root_moved = !same_path(m.repo_root.as_str(), repo_root) || !same_path(
        cached.repo_root.as_str(),
        repo_root,
    );
    let root_paths: Vec<String> = vec![m.repo_root.clone()];
    assert(str_views(root_paths@) =~= seq![m.repo_root@]);
    let Ghost(acc) = push_finding_if(
        &mut reasons,
        &mut diagnostics,
        root_moved,
        InventoryStaleReason::RepoRootChanged,
        "inventory_stale_repo_root_changed",
        "Cached inventory was built for a different repository root.",
        root_paths,
        Ghost(acc),
    );
    let ignores = changed_ignores_exec(&m.ignore_fingerprints, &current_metadata.ignore_fingerprints);
    let Ghost(acc) = push_finding_if(
        &mut reasons,
        &mut diagnostics,
        ignores.len() > 0,
        InventoryStaleReason::IgnoreFileChanged,
        "inventory_stale_ignore_changed",
        "Repository ignore configuration changed.",
        ignores,
        Ghost(acc),
    );
    let created = uniq_strings(&absent_paths_exec(&current_metadata.manifest, &m.manifest));
    let Ghost(acc) = push_finding_if(
        &mut reasons,
        &mut diagnostics,
        created.len() > 0,
        InventoryStaleReason::FileCreated,
        "inventory_stale_file_created",
        "Repository files were created since cached inventory was built.",
        created,
        Ghost(acc),
    );
    let deleted = uniq_strings(&absent_paths_exec(&m.manifest, &current_metadata.manifest));
    let Ghost(acc) = push_finding_if(
        &mut reasons,
        &mut diagnostics,
        deleted.len() > 0,
        InventoryStaleReason::FileDeleted,
        "inventory_stale_file_deleted",
        "Repository files were deleted or excluded since cached inventory was built.",
        deleted,
        Ghost(acc),
    );
    let changed = uniq_strings(&changed_paths_exec(&m.manifest, &current_metadata.manifest));
    let Ghost(acc) = push_finding_if(
        &mut reasons,
        &mut diagnostics,
        changed.len() > 0,
        InventoryStaleReason::FileChanged,
        "inventory_stale_file_changed",
        "Repository file metadata changed since cached inventory was built.",
        changed,
        Ghost(acc),
    );
    assert(acc =~= f);
    proof {
        lemma_reasons_ordered(
            repo_root@,
            *cached,
            *current_metadata,
            blake3_hex(encode_utf8(options_json(*options))),
            policy_version@,
        );
    }
    let fresh = reasons.len() == 0;
    InventoryFreshness { fresh, reasons, diagnostics }
}


// ---------------------------------------------------------------------
// Laws
// ---------------------------------------------------------------------
/// Reasons are listed in reason order, each at most once.
pub open spec fn reasons_ordered(r: Seq<InventoryStaleReason>) -> bool {
    forall|i: int, j: int| 0 <= i < j < r.len() ==> reason_rank(r[i]) < reason_rank(r[j])
}

proof fn lemma_append_finding(
    a: Seq<StaleFinding>,
    cond: bool,
    reason: InventoryStaleReason,
    code: Seq<char>,
    message: Seq<char>,
    paths: Seq<Seq<char>>,
)
    requires
        reasons_ordered(finding_reasons(a)),
        forall|i: int| 0 <= i < a.len() ==> reason_rank(#[trigger] a[i].reason) < reason_rank(reason),
    ensures
        reasons_ordered(finding_reasons(a + finding_if(cond, reason, code, message, paths))),
        forall|i: int|
            0 <= i < (a + finding_if(cond, reason, code, message, paths)).len() ==> reason_rank(
                #[trigger] (a + finding_if(cond, reason, code, message, paths))[i].reason,
            ) <= reason_rank(reason),
{
    let b = a + finding_if(cond, reason, code, message, paths);
    assert forall|i: int| 0 <= i < b.len() implies reason_rank(#[trigger] b[i].reason) <= reason_rank(
        reason,
    ) by {
        if i < a.len() {
            assert(b[i] == a[i]);
        }
    }
    assert forall|i: int, j: int| 0 <= i < j < b.len() implies reason_rank(
        finding_reasons(b)[i],
    ) < reason_rank(finding_reasons(b)[j]) by {
        assert(finding_reasons(b)[i] == b[i].reason);
        assert(finding_reasons(b)[j] == b[j].reason);
        if j < a.len() {
            assert(b[i] == a[i] && b[j] == a[j]);
            assert(finding_reasons(a)[i] == a[i].reason);
            assert(finding_reasons(a)[j] == a[j].reason);
        } else {
            assert(b[i] == a[i]);
        }
    }
}

/// The reasons of a freshness verdict come in reason order, none twice.
pub proof fn lemma_reasons_ordered(
    repo_root: Seq<char>,
    cached: RepoInventory,
    current: InventoryMetadata,
    options_fp: Seq<char>,
    policy_version: Seq<char>,
)
    ensures
        reasons_ordered(
            finding_reasons(
                stale_findings(repo_root, cached, current, options_fp, policy_version),
            ),
        ),
{
    let m = cached.metadata;
    let ci = ignore_views(m.ignore_fingerprints@);
    let ui = ignore_views(current.ignore_fingerprints@);
    let ignores = changed_ignores(ci, ui, zip_len(ci.len(), ui.len()));
    let cm = manifest_views(m.manifest@);
    let um = manifest_views(current.manifest@);
    let created = uniq(absent_paths(manifest_paths(um), manifest_paths(cm), um.len()));
    let deleted = uniq(absent_paths(manifest_paths(cm), manifest_paths(um), cm.len()));
    let changed = uniq(changed_paths(cm, um, cm.len()));
    let a0 = Seq::<StaleFinding>::empty();
    let c0 = m.schema_version == 0;
    let r0 = InventoryStaleReason::MissingMetadata;
    let k0 = "inventory_stale_missing_metadata"@;
    let s0 = "Cached inventory was built before freshness metadata existed."@;
    assert(finding_reasons(a0) =~= Seq::<InventoryStaleReason>::empty());
    lemma_append_finding(a0, c0, r0, k0, s0, seq![]);
    let a1 = a0 + finding_if(c0, r0, k0, s0, seq![]);
    let c1 = m.schema_version != 0 && m.schema_version != INVENTORY_SCHEMA_VERSION;
    let r1 = InventoryStaleReason::SchemaChanged;
    let k1 = "inventory_stale_schema_changed"@;
    let s1 = "Cached inventory schema version changed."@;
    lemma_append_finding(a1, c1, r1, k1, s1, seq![]);
    let a2 = a1 + finding_if(c1, r1, k1, s1, seq![]);
    let c2 = m.policy_version@ != policy_version;
    let r2 = InventoryStaleReason::PolicyChanged;
    let k2 = "inventory_stale_policy_changed"@;
    let s2 = "Cached inventory policy version changed."@;
    lemma_append_finding(a2, c2, r2, k2, s2, seq![]);
    let a3 = a2 + finding_if(c2, r2, k2, s2, seq![]);
    let c3 = m.options_fingerprint@ != options_fp;
    let r3 = InventoryStaleReason::OptionsChanged;
    let k3 = "inventory_stale_options_changed"@;
    let s3 = "Cached inventory options changed."@;
    lemma_append_finding(a3, c3, r3, k3, s3, seq![]);
    let a4 = a3 + finding_if(c3, r3, k3, s3, seq![]);
    let c4 = components(m.repo_root@) != components(repo_root) || components(cached.repo_root@)
        != components(repo_root);
    let r4 = InventoryStaleReason::RepoRootChanged;
    let k4 = "inventory_stale_repo_root_changed"@;
    let s4 = "Cached inventory was built for a different repository root."@;
    lemma_append_finding(a4, c4, r4, k4, s4, seq![m.repo_root@]);
    let a5 = a4 + finding_if(c4, r4, k4, s4, seq![m.repo_root@]);
    let r5 = InventoryStaleReason::IgnoreFileChanged;
    let k5 = "inventory_stale_ignore_changed"@;
    let s5 = "Repository ignore configuration changed."@;
    lemma_append_finding(a5, ignores.len() > 0, r5, k5, s5, ignores);
    let a6 = a5 + finding_if(ignores.len() > 0, r5, k5, s5, ignores);
    let r6 = InventoryStaleReason::FileCreated;
    let k6 = "inventory_stale_file_created"@;
    let s6 = "Repository files were created since cached inventory was built."@;
    lemma_append_finding(a6, created.len() > 0, r6, k6, s6, created);
    let a7 = a6 + finding_if(created.len() > 0, r6, k6, s6, created);
    let r7 = InventoryStaleReason::FileDeleted;
    let k7 = "inventory_stale_file_deleted"@;
    let s7 = "Repository files were deleted or excluded since cached inventory was built."@;
    lemma_append_finding(a7, deleted.len() > 0, r7, k7, s7, deleted);
    let a8 = a7 + finding_if(deleted.len() > 0, r7, k7, s7, deleted);
    let r8 = InventoryStaleReason::FileChanged;
    let k8 = "inventory_stale_file_changed"@;
    let s8 = "Repository file metadata changed since cached inventory was built."@;
    lemma_append_finding(a8, changed.len() > 0, r8, k8, s8, changed);
    let a9 = a8 + finding_if(changed.len() > 0, r8, k8, s8, changed);
    assert(a9 =~= stale_findings(repo_root, cached, current, options_fp, policy_version));
}

proof fn lemma_changed_ignores_same(a: Seq<IgnoreFingerprintView>, n: nat)
    requires
        n <= a.len(),
    ensures
        changed_ignores(a, a, n).len() == 0,
    decreases n,
{
    if n > 0 {
        lemma_changed_ignores_same(a, (n - 1) as nat);
    }
}

proof fn lemma_absent_paths(from: Seq<Seq<char>>, other: Seq<Seq<char>>, n: nat)
    requires
        n <= from.len(),
    ensures
        forall|y: Seq<char>|
            #![trigger absent_paths(from, other, n).contains(y)]
            absent_paths(from, other, n).contains(y) <==> (from.take(n as int).contains(y)
                && !other.contains(y)),
    decreases n,
{
    broadcast use vstd::seq_lib::lemma_seq_contains_after_push;

    if n > 0 {
        let k = (n - 1) as nat;
        lemma_absent_paths(from, other, k);
        let r = absent_paths(from, other, k);
        assert(from.take(n as int) =~= from.take(k as int).push(from[n - 1]));
        assert forall|y: Seq<char>|
            absent_paths(from, other, n).contains(y) <==> (from.take(n as int).contains(y)
                && !other.contains(y)) by {
            assert(r.contains(y) <==> (from.take(k as int).contains(y) && !other.contains(y)));
            if !other.contains(from[n - 1]) {
                assert(absent_paths(from, other, n) == r.push(from[n - 1]));
            } else {
                assert(absent_paths(from, other, n) == r);
            }
        }
    } else {
        assert(from.take(0) =~= Seq::<Seq<char>>::empty());
    }
}

proof fn lemma_last_with_path(m: Seq<ManifestEntryView>, p: Seq<char>)
    ensures
        last_with_path(m, p) is Some <==> manifest_paths(m).contains(p),
        last_with_path(m, p) is Some ==> last_with_path(m, p)->0.path == p,
    decreases m.len(),
{
    broadcast use vstd::seq_lib::lemma_seq_contains_after_push;

    if m.len() > 0 {
        lemma_last_with_path(m.drop_last(), p);
        assert(manifest_paths(m) =~= manifest_paths(m.drop_last()).push(m.last().path));
    } else {
        assert(manifest_paths(m) =~= Seq::<Seq<char>>::empty());
    }
}

proof fn lemma_changed_paths(c: Seq<ManifestEntryView>, u: Seq<ManifestEntryView>, n: nat)
    requires
        n <= c.len(),
    ensures
        forall|y: Seq<char>|
            #![trigger changed_paths(c, u, n).contains(y)]
            changed_paths(c, u, n).contains(y) <==> (manifest_paths(c.take(n as int)).contains(y)
                && entry_changed(c, u, y)),
    decreases n,
{
    broadcast use vstd::seq_lib::lemma_seq_contains_after_push;

    if n > 0 {
        let k = (n - 1) as nat;
        lemma_changed_paths(c, u, k);
        let r = changed_paths(c, u, k);
        assert(manifest_paths(c.take(n as int)) =~= manifest_paths(c.take(k as int)).push(
            c[n - 1].path,
        ));
        assert forall|y: Seq<char>|
            changed_paths(c, u, n).contains(y) <==> (manifest_paths(c.take(n as int)).contains(y)
                && entry_changed(c, u, y)) by {
            assert(r.contains(y) <==> (manifest_paths(c.take(k as int)).contains(y) && entry_changed(
                c,
                u,
                y,
            )));
            if entry_changed(c, u, c[n - 1].path) {
                assert(changed_paths(c, u, n) == r.push(c[n - 1].path));
            } else {
                assert(changed_paths(c, u, n) == r);
            }
        }
    } else {
        assert(manifest_paths(c.take(0)) =~= Seq::<Seq<char>>::empty());
    }
}

/// An inventory whose metadata matches what is in force now (the current
/// schema, policy, options fingerprint and root, the same ignore-file
/// fingerprints and the same manifest) is fresh: nothing is found.
pub proof fn lemma_unchanged_inventory_is_fresh(
    repo_root: Seq<char>,
    cached: RepoInventory,
    current: InventoryMetadata,
    options_fp: Seq<char>,
    policy_version: Seq<char>,
)
    requires
        cached.metadata.schema_version == INVENTORY_SCHEMA_VERSION,
        cached.metadata.policy_version@ == policy_version,
        cached.metadata.options_fingerprint@ == options_fp,
        components(cached.metadata.repo_root@) == components(repo_root),
        components(cached.repo_root@) == components(repo_root),
        ignore_views(current.ignore_fingerprints@) == ignore_views(
            cached.metadata.ignore_fingerprints@,
        ),
        manifest_views(current.manifest@) == manifest_views(cached.metadata.manifest@),
    ensures
        stale_findings(repo_root, cached, current, options_fp, policy_version).len() == 0,
{
    let m = cached.metadata;
    let ci = ignore_views(m.ignore_fingerprints@);
    let cm = manifest_views(m.manifest@);
    let mp = manifest_paths(cm);
    lemma_changed_ignores_same(ci, zip_len(ci.len(), ci.len()));
    lemma_absent_paths(mp, mp, cm.len());
    assert(mp.take(cm.len() as int) =~= mp);
    let a = absent_paths(mp, mp, cm.len());
    if a.len() > 0 {
        assert(a.contains(a[0]));
    }
    lemma_changed_paths(cm, cm, cm.len());
    let c = changed_paths(cm, cm, cm.len());
    if c.len() > 0 {
        assert(c.contains(c[0]));
    }
    assert(uniq(a) =~= Seq::<Seq<char>>::empty());
    assert(uniq(c) =~= Seq::<Seq<char>>::empty());
}

/// The paths a file finding lists: each once, in string order.
pub open spec fn listed(s: Seq<Seq<char>>) -> Seq<Seq<char>> {
    sort_strs(uniq(s))
}

/// What the three file findings list. Created: the current files the cache
/// lacks. Deleted: the cached files that are gone. Changed: the files in
/// both whose recorded entries differ. Each list holds every such path once,
/// in string order.
pub proof fn lemma_file_findings(cached: Seq<ManifestEntryView>, current: Seq<ManifestEntryView>)
    ensures
        ({
            let cp = manifest_paths(cached);
            let up = manifest_paths(current);
            let created = listed(absent_paths(up, cp, current.len()));
            let deleted = listed(absent_paths(cp, up, cached.len()));
            let changed = listed(changed_paths(cached, current, cached.len()));
            &&& sorted_strs(created) && no_dups(created)
            &&& sorted_strs(deleted) && no_dups(deleted)
            &&& sorted_strs(changed) && no_dups(changed)
            &&& forall|y: Seq<char>| created.contains(y) <==> (up.contains(y) && !cp.contains(y))
            &&& forall|y: Seq<char>| deleted.contains(y) <==> (cp.contains(y) && !up.contains(y))
            &&& forall|y: Seq<char>|
                changed.contains(y) <==> (cp.contains(y) && up.contains(y) && last_with_path(
                    cached,
                    y,
                ) != last_with_path(current, y))
        }),
{
    let cp = manifest_paths(cached);
    let up = manifest_paths(current);
    lemma_absent_paths(up, cp, current.len());
    lemma_absent_paths(cp, up, cached.len());
    lemma_changed_paths(cached, current, cached.len());
    assert(up.take(current.len() as int) =~= up);
    assert(cp.take(cached.len() as int) =~= cp);
    assert(cached.take(cached.len() as int) =~= cached);
    let a = absent_paths(up, cp, current.len());
    let d = absent_paths(cp, up, cached.len());
    let c = changed_paths(cached, current, cached.len());
    lemma_sorted_distinct(a);
    lemma_sorted_distinct(d);
    lemma_sorted_distinct(c);
    assert forall|y: Seq<char>| listed(a).contains(y) <==> (up.contains(y) && !cp.contains(y)) by {
        assert(a.contains(y) <==> (up.take(current.len() as int).contains(y) && !cp.contains(y)));
    }
    assert forall|y: Seq<char>| listed(d).contains(y) <==> (cp.contains(y) && !up.contains(y)) by {
        assert(d.contains(y) <==> (cp.take(cached.len() as int).contains(y) && !up.contains(y)));
    }
    assert forall|y: Seq<char>|
        listed(c).contains(y) <==> (cp.contains(y) && up.contains(y) && last_with_path(cached, y)
            != last_with_path(current, y)) by {
        assert(c.contains(y) <==> (manifest_paths(cached.take(cached.len() as int)).contains(y)
            && entry_changed(cached, current, y)));
        lemma_last_with_path(current, y);
        lemma_last_with_path(cached, y);
    }
}


// ---------------------------------------------------------------------
// Loading the cache
// ---------------------------------------------------------------------
/// How a load of the inventory cache ended, where the cache lives, and the
/// diagnostics of the cache itself.
#[derive(Debug, Clone)]
pub struct CacheStatus {
    pub status: LoadCacheStatus,
    pub path: Option<String>,
    pub diagnostics: Vec<Diagnostic>,
}

/// The paths of all diagnostics, in order.
pub open spec fn all_paths(d: Seq<DiagnosticView>) -> Seq<Seq<char>>
    decreases d.len(),
{
    if d.len() == 0 {
        seq![]
    } else {
        all_paths(d.drop_last()) + d.last().paths
    }
}

fn make_diagnostic(code: &str, severity: DiagnosticSeverity, message: &str, paths: Vec<String>) -> (d: Diagnostic)
    ensures
        d@ == diagnostic_of(code@, severity, message@, str_views(paths@)),
{
    let count = paths.len();
    Diagnostic {
        code: String::from_str(code),
        severity,
        message: String::from_str(message),
        count,
        paths,
    }
}

/// The diagnostics of a stale cache that was rebuilt: a warning that lists
/// the paths of every freshness diagnostic, then those diagnostics.
pub fn stale_rebuild_diagnostics(freshness: &InventoryFreshness) -> (r: Vec<Diagnostic>)
    ensures
        diag_views(r@) == seq![
            diagnostic_of(
                "inventory_stale"@,
                DiagnosticSeverity::Warning,
                "Cached inventory was stale and was rebuilt before returning results."@,
                all_paths(diag_views(freshness.diagnostics@)),
            ),
        ] + diag_views(freshness.diagnostics@),
{
    let ghost dv = diag_views(freshness.diagnostics@);
    let mut paths: Vec<String> = Vec::new();
    let mut i: usize = 0;
    while i < freshness.diagnostics.len()
        invariant
            i <= freshness.diagnostics@.len(),
            dv == diag_views(freshness.diagnostics@),
            str_views(paths@) == all_paths(dv.take(i as int)),
        decreases freshness.diagnostics.len() - i,
    {
        let d = &freshness.diagnostics[i];
        assert(dv.take(i + 1).drop_last() =~= dv.take(i as int));
        assert(dv.take(i + 1).last() == d@);
        let ghost before = str_views(paths@);
        let mut j: usize = 0;
        while j < d.paths.len()
            invariant
                j <= d.paths@.len(),
                str_views(paths@) == before + str_views(d.paths@).take(j as int),
            decreases d.paths.len() - j,
        {
            let c = d.paths[j].clone();
            assert(str_views(d.paths@)[j as int] == c@);
            let ghost prev = str_views(paths@);
            paths.push(c);
            assert(str_views(paths@) =~= prev.push(c@));
            assert(str_views(d.paths@).take(j + 1) =~= str_views(d.paths@).take(j as int).push(c@));
            assert(str_views(paths@) =~= before + str_views(d.paths@).take(j + 1));
            j += 1;
        }
        assert(str_views(d.paths@).take(j as int) =~= str_views(d.paths@));
        i += 1;
    }
    assert(dv.take(dv.len() as int) =~= dv);
    let head = make_diagnostic(
        "inventory_stale",
        DiagnosticSeverity::Warning,
        "Cached inventory was stale and was rebuilt before returning results.",
        paths,
    );
    let mut out: Vec<Diagnostic> = Vec::new();
    out.push(head);
    let mut k: usize = 0;
    while k < freshness.diagnostics.len()
        invariant
            k <= freshness.diagnostics@.len(),
            dv == diag_views(freshness.diagnostics@),
            diag_views(out@) == seq![head@] + dv.take(k as int),
        decreases freshness.diagnostics.len() - k,
    {
        let d = freshness.diagnostics[k].duplicate();
        assert(dv[k as int] == d@);
        let ghost prev = diag_views(out@);
        out.push(d);
        assert(diag_views(out@) =~= prev.push(d@));
        assert(dv.take(k + 1) =~= dv.take(k as int).push(d@));
        assert(diag_views(out@) =~= seq![head@] + dv.take(k + 1));
        k += 1;
    }
    assert(dv.take(dv.len() as int) =~= dv);
    out
}

/// The diagnostics of a cache that was missing or unreadable.
pub fn cache_miss_diagnostics() -> (r: Vec<Diagnostic>)
    ensures
        diag_views(r@) == seq![
            diagnostic_of(
                "inventory_cache_miss"@,
                DiagnosticSeverity::Info,
                "Cached inventory was missing or unreadable and was rebuilt."@,
                seq![],
            ),
        ],
{
    let none: Vec<String> = Vec::new();
    assert(str_views(none@) =~= Seq::<Seq<char>>::empty());
    let d = make_diagnostic(
        "inventory_cache_miss",
        DiagnosticSeverity::Info,
        "Cached inventory was missing or unreadable and was rebuilt.",
        none,
    );
    let mut out: Vec<Diagnostic> = Vec::new();
    out.push(d);
    assert(diag_views(out@) =~= seq![d@]);
    out
}

/// The cache status of a load that found a fresh cache at `path`.
pub fn cache_hit_status(path: String) -> (r: CacheStatus)
    ensures
        r.status == LoadCacheStatus::Hit,
        opt_view(r.path) == Some(path@),
        r.diagnostics@.len() == 0,
{
    CacheStatus { status: LoadCacheStatus::Hit, path: Some(path), diagnostics: Vec::new() }
}

/// The text of the diagnostic a failed cache write reports in the cache
/// status: the message, then the error in parentheses.
pub open spec fn write_failure_message(error: Seq<char>) -> Seq<char> {
    "Fresh inventory was returned, but ctxpack could not persist the cache."@ + " ("@ + error
        + ")"@
}

/// Finishes a rebuild: `diagnostics` are those gathered so far, `target` is
/// where the cache should be written, and `persisted` is where it was
/// written or why it could not be. An info diagnostic records the rebuild;
/// a failed write adds a warning naming `target`, and the cache status
/// carries that warning with the error appended to its message.
pub fn finish_rebuild(diagnostics: Vec<Diagnostic>, target: String, persisted: Result<String, String>) -> (r: (Vec<Diagnostic>, CacheStatus))
    ensures
        ({
            let rebuilt = diagnostic_of(
                "inventory_rebuilt"@,
                DiagnosticSeverity::Info,
                "Inventory was rebuilt before returning results."@,
                seq![],
            );
            let failed = diagnostic_of(
                "cache_write_failed"@,
                DiagnosticSeverity::Warning,
                "Fresh inventory was returned, but ctxpack could not persist the cache."@,
                seq![target@],
            );
            match persisted {
                Ok(path) => {
                    &&& diag_views(r.0@) == diag_views(diagnostics@).push(rebuilt)
                    &&& r.1.status == LoadCacheStatus::Rebuilt
                    &&& opt_view(r.1.path) == Some(path@)
                    &&& r.1.diagnostics@.len() == 0
                },
                Err(error) => {
                    &&& diag_views(r.0@) == diag_views(diagnostics@).push(rebuilt).push(failed)
                    &&& r.1.status == LoadCacheStatus::WriteFailed
                    &&& opt_view(r.1.path) == Some(target@)
                    &&& diag_views(r.1.diagnostics@) == seq![
                        DiagnosticView { message: write_failure_message(error@), ..failed },
                    ]
                },
            }
        }),
{
    let mut diagnostics = diagnostics;
    let none: Vec<String> = Vec::new();
    assert(str_views(none@) =~= Seq::<Seq<char>>::empty());
    let rebuilt = make_diagnostic(
        "inventory_rebuilt",
        DiagnosticSeverity::Info,
        "Inventory was rebuilt before returning results.",
        none,
    );
    let ghost before = diag_views(diagnostics@);
    diagnostics.push(rebuilt);
    assert(diag_views(diagnostics@) =~= before.push(rebuilt@));
    match persisted {
        Ok(path) => {
            let status = CacheStatus {
                status: LoadCacheStatus::Rebuilt,
                path: Some(path),
                diagnostics: Vec::new(),
            };
            (diagnostics, status)
        },
        Err(error) => {
            let target_paths: Vec<String> = vec![target.clone()];
            assert(str_views(target_paths@) =~= seq![target@]);
            let failed = make_diagnostic(
                "cache_write_failed",
                DiagnosticSeverity::Warning,
                "Fresh inventory was returned, but ctxpack could not persist the cache.",
                target_paths,
            );
            let mut text: Vec<char> = crate::text::chars_of(failed.message.as_str());
            crate::text::extend_str(&mut text, " (");
            crate::text::extend_str(&mut text, error.as_str());
            crate::text::extend_str(&mut text, ")");
            let message = crate::text::string_of(&text);
            let status_diagnostic = Diagnostic {
                code: failed.code.clone(),
                severity: failed.severity,
                message,
                count: failed.count,
                paths: crate::model::clone_strings(&failed.paths),
            };
            let mut status_diagnostics: Vec<Diagnostic> = Vec::new();
            status_diagnostics.push(status_diagnostic);
            assert(diag_views(status_diagnostics@) =~= seq![status_diagnostic@]);
            let ghost before2 = diag_views(diagnostics@);
            diagnostics.push(failed);
            assert(diag_views(diagnostics@) =~= before2.push(failed@));
            let status = CacheStatus {
                status: LoadCacheStatus::WriteFailed,
                path: Some(target),
                diagnostics: status_diagnostics,
            };
            (diagnostics, status)
        },
    }
}

} // verus!
