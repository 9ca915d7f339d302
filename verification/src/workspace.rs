//! Multi-repository workspaces: where the manifest lives, how repository
//! paths resolve, and the status report of every listed repository.
use vstd::prelude::*;

use crate::inventory::{blake3_hex, blake3_hex_of, repo_id_for_path, uuid_v5_url};
use crate::model::{opt_view, str_views, DiagnosticSeverity, FileRole};
use crate::paths::{
    comp_views, components, components_exec, has_root, join, join_exec, parent_comps,
    parent_exec, relative_label, relative_label_exec, CompView, Comp, NORMAL,
};
use crate::semantic::{role_name, role_name_str};
use crate::storage::{compatibility_label, storage_compatibility_label, StorageCompatibility};
use crate::text::{
    chars_of, decimal, extend_chars, extend_str, slice_of, string_eq, string_of, utf8_len,
    utf8_len_below,
};
use vstd::utf8::encode_utf8;

verus! {

/// The workspace manifest's schema version.
pub const WORKSPACE_MANIFEST_SCHEMA_VERSION: u32 = 1;

/// Where the manifest of a workspace lives:
/// `<root>/.ctxpack/workspace.json`, for the canonical root.
pub fn default_workspace_manifest_path(canonical_root: &str) -> (r: String)
    ensures
        r@ == join(join(canonical_root@, ".ctxpack"@), "workspace.json"@),
{
    let root = chars_of(canonical_root);
    let a = join_exec(&root, ".ctxpack");
    let b = join_exec(&a, "workspace.json");
    string_of(&b)
}

/// One repository of a workspace manifest.
#[derive(Debug, Clone)]
pub struct WorkspaceRepo {
    pub id: Option<String>,
    pub path: String,
    pub label: Option<String>,
    pub tags: Vec<String>,
}

/// A workspace manifest.
#[derive(Debug, Clone)]
pub struct WorkspaceManifest {
    pub schema_version: u32,
    pub workspace_id: Option<String>,
    pub repos: Vec<WorkspaceRepo>,
}

/// Whether a listed repository could be inventoried.
#[derive(Debug, Clone, Copy, PartialEq, Eq, Structural)]
pub enum WorkspaceRepoState {
    Available,
    Missing,
    Invalid,
}

/// What a workspace report may hold: local, source-free data only.
#[derive(Debug, Clone, Copy, PartialEq, Eq, Structural)]
pub struct WorkspaceRepoPrivacyStatus {
    pub local_only: bool,
    pub source_text_logged: bool,
}

impl WorkspaceRepoPrivacyStatus {
    /// Local and source-free.
    pub fn local_source_free() -> (p: WorkspaceRepoPrivacyStatus)
        ensures
            p.local_only && !p.source_text_logged,
    {
        WorkspaceRepoPrivacyStatus { local_only: true, source_text_logged: false }
    }
}

/// A diagnostic about one listed repository.
#[derive(Debug, Clone)]
pub struct WorkspaceRepoDiagnostic {
    pub code: String,
    pub severity: DiagnosticSeverity,
    pub message: String,
    pub repo_id: Option<String>,
    pub label: Option<String>,
    pub paths: Vec<String>,
}

/// The mathematical content of a repository diagnostic.
pub ghost struct RepoDiagnosticView {
    pub code: Seq<char>,
    pub severity: DiagnosticSeverity,
    pub message: Seq<char>,
    pub repo_id: Option<Seq<char>>,
    pub label: Option<Seq<char>>,
    pub paths: Seq<Seq<char>>,
}

impl View for WorkspaceRepoDiagnostic {
    type V = RepoDiagnosticView;

    open spec fn view(&self) -> RepoDiagnosticView {
        RepoDiagnosticView {
            code: self.code@,
            severity: self.severity,
            message: self.message@,
            repo_id: opt_view(self.repo_id),
            label: opt_view(self.label),
            paths: str_views(self.paths@),
        }
    }
}

/// The views of repository diagnostics.
pub open spec fn repo_diag_views(v: Seq<WorkspaceRepoDiagnostic>) -> Seq<RepoDiagnosticView> {
    v.map_values(|d: WorkspaceRepoDiagnostic| d@)
}

/// A diagnostic about a repository, pointing at its path label.
pub open spec fn repo_diag(
    code: Seq<char>,
    severity: DiagnosticSeverity,
    message: Seq<char>,
    repo_id: Option<Seq<char>>,
    label: Seq<char>,
    path_label: Seq<char>,
) -> RepoDiagnosticView {
    RepoDiagnosticView { code, severity, message, repo_id, label: Some(label), paths: seq![path_label] }
}

fn repo_diag_exec(
    code: &[char],
    severity: DiagnosticSeverity,
    message: &[char],
    repo_id: Option<String>,
    label: &String,
    path_label: &String,
) -> (d: WorkspaceRepoDiagnostic)
    ensures
        d@ == repo_diag(code@, severity, message@, opt_view(repo_id), label@, path_label@),
{
    let paths: Vec<String> = vec![path_label.clone()];
    assert(str_views(paths@) =~= seq![path_label@]);
    WorkspaceRepoDiagnostic {
        code: string_of(code),
        severity,
        message: string_of(message),
        repo_id,
        label: Some(label.clone()),
        paths,
    }
}

/// The status of one listed repository.
#[derive(Debug, Clone)]
pub struct WorkspaceRepoStatus {
    pub repo_id: String,
    pub label: String,
    pub path_label: String,
    pub tags: Vec<String>,
    pub state: WorkspaceRepoState,
    pub git_root: bool,
    pub file_count: usize,
    pub ignored_count: usize,
    pub generated_count: usize,
    pub sensitive_count: usize,
    pub storage_compatibility: Option<String>,
    pub storage_database_present: bool,
    pub memory_card_count: usize,
    pub privacy_status: WorkspaceRepoPrivacyStatus,
    pub diagnostics: Vec<WorkspaceRepoDiagnostic>,
}

/// The status report of a workspace.
#[derive(Debug, Clone)]
pub struct WorkspaceInventoryReport {
    pub schema_version: u32,
    pub workspace_root: String,
    pub manifest_path: String,
    pub repo_count: usize,
    pub available_repo_count: usize,
    pub file_count: usize,
    pub ignored_count: usize,
    pub generated_count: usize,
    pub sensitive_count: usize,
    pub source_text_logged: bool,
    pub privacy_status: WorkspaceRepoPrivacyStatus,
    pub repos: Vec<WorkspaceRepoStatus>,
    pub diagnostics: Vec<WorkspaceRepoDiagnostic>,
}

// ---------------------------------------------------------------------
// Paths
// ---------------------------------------------------------------------
/// A repository path of the manifest: absolute paths stand, relative ones
/// are joined to the manifest's base.
pub open spec fn resolved_repo_path(base: Seq<char>, path: Seq<char>) -> Seq<char> {
    if has_root(path) {
        path
    } else {
        join(base, path)
    }
}

/// Executable `resolved_repo_path`.
pub fn resolve_repo_path(manifest_base: &str, path: &str) -> (r: String)
    ensures
        r@ == resolved_repo_path(manifest_base@, path@),
{
    let p = chars_of(path);
    if p.len() > 0 && p[0] == '/' {
        String::from_str(path)
    } else {
        let b = chars_of(manifest_base);
        string_of(&join_exec(&b, path))
    }
}

/// Components written as a path: a root as `/`, the others joined by `/`.
pub open spec fn render_comps(c: Seq<CompView>) -> Seq<char>
    decreases c.len(),
{
    if c.len() == 0 {
        seq![]
    } else {
        let head = render_comps(c.drop_last());
        let part = if c.last().0 == crate::paths::ROOT {
            seq!['/']
        } else if c.last().0 == crate::paths::CUR_DIR {
            seq!['.']
        } else if c.last().0 == crate::paths::PARENT_DIR {
            seq!['.', '.']
        } else {
            c.last().1
        };
        if head.len() == 0 || head == seq!['/'] {
            head + part
        } else {
            head + seq!['/'] + part
        }
    }
}

fn render_comps_exec(c: &Vec<Comp>) -> (r: Vec<char>)
    ensures
        r@ == render_comps(comp_views(c@)),
{
    let ghost cv = comp_views(c@);
    let mut out: Vec<char> = Vec::new();
    let mut i: usize = 0;
    while i < c.len()
        invariant
            i <= c@.len(),
            cv == comp_views(c@),
            out@ == render_comps(cv.take(i as int)),
        decreases c.len() - i,
    {
        assert(cv.take(i + 1).drop_last() =~= cv.take(i as int));
        assert(cv.take(i + 1).last() == (c@[i as int].kind, c@[i as int].text@));
        let ghost slash = seq!['/'];
        let is_slash = out.len() == 1 && out[0] == '/';
        proof {
            if is_slash {
                assert(out@ =~= slash);
            } else if out@.len() == 1 {
                assert(out@ != slash) by {
                    assert(out@[0] != '/');
                }
            }
        }
        if !(out.len() == 0 || is_slash) {
            out.push('/');
        }
        if c[i].kind == crate::paths::ROOT {
            out.push('/');
        } else if c[i].kind == crate::paths::CUR_DIR {
            out.push('.');
        } else if c[i].kind == crate::paths::PARENT_DIR {
            out.push('.');
            out.push('.');
        } else {
            extend_chars(&mut out, &c[i].text);
        }
        proof {
            let head = render_comps(cv.take(i as int));
            let part = if cv[i as int].0 == crate::paths::ROOT {
                seq!['/']
            } else if cv[i as int].0 == crate::paths::CUR_DIR {
                seq!['.']
            } else if cv[i as int].0 == crate::paths::PARENT_DIR {
                seq!['.', '.']
            } else {
                cv[i as int].1
            };
            if head.len() == 0 || head == seq!['/'] {
                assert(out@ =~= head + part);
            } else {
                assert(out@ =~= head + seq!['/'] + part);
            }
        }
        i += 1;
    }
    assert(cv.take(cv.len() as int) =~= cv);
    out
}

/// The base that relative repository paths resolve against: the manifest's
/// directory, or that directory's parent when it is `.ctxpack`; the
/// workspace root when there is no such directory.
pub open spec fn manifest_base_of(manifest_path: Seq<char>, workspace_root: Seq<char>) -> Seq<char> {
    match parent_comps(components(manifest_path)) {
        None => workspace_root,
        Some(parent) => if parent.len() > 0 && parent.last() == (NORMAL, ".ctxpack"@) {
            match parent_comps(parent) {
                Some(gp) => render_comps(gp),
                None => workspace_root,
            }
        } else {
            render_comps(parent)
        },
    }
}

/// Executable `manifest_base_of`.
pub fn manifest_repo_base(manifest_path: &str, workspace_root: &str) -> (r: String)
    ensures
        r@ == manifest_base_of(manifest_path@, workspace_root@),
{
    let mp = chars_of(manifest_path);
    let c = components_exec(&mp);
    match parent_exec(&c) {
        None => String::from_str(workspace_root),
        Some(parent) => {
            let n = parent.len();
            let ghost pv = comp_views(parent@);
            let is_dot = n > 0 && crate::paths::comp_is(&parent[n - 1], ".ctxpack");
            proof {
                if n > 0 {
                    assert(pv.last() == (parent@[n - 1].kind, parent@[n - 1].text@));
                }
            }
            if is_dot {
                match parent_exec(&parent) {
                    Some(gp) => string_of(&render_comps_exec(&gp)),
                    None => String::from_str(workspace_root),
                }
            } else {
                string_of(&render_comps_exec(&parent))
            }
        },
    }
}

/// The label of a repository path: its normal components relative to the
/// workspace root, joined with `/`.
pub fn path_label(workspace_root: &str, path: &str) -> (r: String)
    ensures
        r@ == relative_label(workspace_root@, path@),
{
    let w = chars_of(workspace_root);
    let p = chars_of(path);
    string_of(&relative_label_exec(&w, &p))
}

/// The id of a repository whose path did not resolve: `unresolved-` and the
/// first 12 hexadecimal digits of the BLAKE3 digest of `path:label`.
pub open spec fn fallback_id(path: Seq<char>, label: Seq<char>) -> Seq<char> {
    "unresolved-"@ + blake3_hex(encode_utf8(path + ":"@ + label)).take(12)
}

/// Executable `fallback_id`.
pub fn fallback_repo_id(path: &str, label: &str) -> (r: String)
    ensures
        r@ == fallback_id(path@, label@),
{
    let mut key: Vec<char> = Vec::new();
    extend_str(&mut key, path);
    extend_str(&mut key, ":");
    extend_str(&mut key, label);
    let ks = string_of(&key);
    let digest = blake3_hex_of(ks.as_str().as_bytes());
    let dv = chars_of(digest.as_str());
    let head = slice_of(&dv, 0, 12);
    let mut out: Vec<char> = Vec::new();
    extend_str(&mut out, "unresolved-");
    extend_chars(&mut out, &head);
    string_of(&out)
}

/// `char::is_control`: the Unicode control characters (category Cc).
pub open spec fn is_control(c: char) -> bool {
    let u = c as u32;
    u <= 0x1f || (0x7f <= u && u <= 0x9f)
}

/// A manifest string that is too long (over 160 bytes) or holds a control
/// character.
pub open spec fn unsafe_string(s: Seq<char>) -> bool {
    utf8_len(s) > 160 || exists|i: int| 0 <= i < s.len() && is_control(#[trigger] s[i])
}

/// Executable `unsafe_string`.
pub fn has_unsafe_string(value: &str) -> (b: bool)
    ensures
        b == unsafe_string(value@),
{
    let v = chars_of(value);
    if !utf8_len_below(&v, 161) {
        return true;
    }
    let mut i: usize = 0;
    while i < v.len()
        invariant
            i <= v@.len(),
            v@ == value@,
            utf8_len(value@) <= 160,
            forall|k: int| 0 <= k < i ==> !is_control(#[trigger] v@[k]),
        decreases v.len() - i,
    {
        let u = v[i] as u32;
        if u <= 0x1f || (0x7f <= u && u <= 0x9f) {
            assert(is_control(v@[i as int]));
            return true;
        }
        i += 1;
    }
    false
}

/// The word for a role that a label should not look like.
pub open spec fn role_word(r: FileRole) -> Seq<char> {
    match r {
        FileRole::Sensitive => "sensitive"@,
        FileRole::Generated => "generated"@,
        _ => "unsafe"@,
    }
}

/// Executable `role_word`.
pub fn role_label(r: FileRole) -> (s: &'static str)
    ensures
        s@ == role_word(r),
{
    match r {
        FileRole::Sensitive => "sensitive",
        FileRole::Generated => "generated",
        _ => "unsafe",
    }
}


// ---------------------------------------------------------------------
// Manifest validation
// ---------------------------------------------------------------------
/// How the path policy classifies each value of a manifest entry: its id,
/// label, path and each tag (a value that is absent is not looked at).
#[derive(Debug, Clone)]
pub struct RepoValueRoles {
    pub id: FileRole,
    pub label: FileRole,
    pub path: FileRole,
    pub tags: Vec<FileRole>,
}

/// The diagnostics one value of a manifest entry gets: an error when it is
/// unsafe, and a warning when it looks like a sensitive or generated path.
pub open spec fn value_diags(
    field: Seq<char>,
    value: Option<Seq<char>>,
    role: FileRole,
    repo_id: Option<Seq<char>>,
    label: Seq<char>,
    path_label: Seq<char>,
) -> Seq<RepoDiagnosticView> {
    match value {
        None => seq![],
        Some(v) => (if unsafe_string(v) {
            seq![
                repo_diag(
                    "workspace_repo_invalid_"@ + field,
                    DiagnosticSeverity::Error,
                    "Workspace repository "@ + field
                        + " contains control characters or is too long."@,
                    repo_id,
                    label,
                    path_label,
                ),
            ]
        } else {
            seq![]
        }) + (if role == FileRole::Sensitive || role == FileRole::Generated {
            seq![
                repo_diag(
                    "workspace_repo_"@ + field + "_looks_"@ + role_word(role),
                    DiagnosticSeverity::Warning,
                    "Workspace repository "@ + field + " looks like a "@ + role_name(role)
                        + " path label."@,
                    repo_id,
                    label,
                    path_label,
                ),
            ]
        } else {
            seq![]
        }),
    }
}

/// The diagnostics of the first `n` tags.
pub open spec fn tag_diags(
    tags: Seq<Seq<char>>,
    roles: Seq<FileRole>,
    n: nat,
    repo_id: Option<Seq<char>>,
    label: Seq<char>,
    path_label: Seq<char>,
) -> Seq<RepoDiagnosticView>
    decreases n,
{
    if n == 0 {
        seq![]
    } else {
        tag_diags(tags, roles, (n - 1) as nat, repo_id, label, path_label) + value_diags(
            "tag"@,
            Some(tags[n - 1]),
            roles[n - 1],
            repo_id,
            label,
            path_label,
        )
    }
}

/// The diagnostics of a manifest entry's values: id, label, path, then tags.
pub open spec fn entry_diags(repo: WorkspaceRepo, roles: RepoValueRoles, label: Seq<char>, path_label: Seq<char>) -> Seq<RepoDiagnosticView> {
    let rid = opt_view(repo.id);
    value_diags("id"@, opt_view(repo.id), roles.id, rid, label, path_label) + value_diags(
        "label"@,
        opt_view(repo.label),
        roles.label,
        rid,
        label,
        path_label,
    ) + value_diags("path"@, Some(repo.path@), roles.path, rid, label, path_label) + tag_diags(
        str_views(repo.tags@),
        roles.tags@,
        repo.tags@.len(),
        rid,
        label,
        path_label,
    )
}

fn push_value_diags(
    out: &mut Vec<WorkspaceRepoDiagnostic>,
    field: &str,
    value: Option<&String>,
    role: FileRole,
    repo_id: &Option<String>,
    label: &String,
    path_label: &String,
)
    ensures
        repo_diag_views(final(out)@) == repo_diag_views(old(out)@) + value_diags(
            field@,
            match value {
                Some(v) => Some(v@),
                None => None,
            },
            role,
            opt_view(*repo_id),
            label@,
            path_label@,
        ),
{
    let ghost start = repo_diag_views(out@);
    if let Some(v) = value {
        if has_unsafe_string(v.as_str()) {
            let mut code: Vec<char> = Vec::new();
            extend_str(&mut code, "workspace_repo_invalid_");
            extend_str(&mut code, field);
            let mut message: Vec<char> = Vec::new();
            extend_str(&mut message, "Workspace repository ");
            extend_str(&mut message, field);
            extend_str(&mut message, " contains control characters or is too long.");
            let d = repo_diag_exec(
                &code,
                DiagnosticSeverity::Error,
                &message,
                crate::model::clone_opt(repo_id),
                label,
                path_label,
            );
            let ghost before = repo_diag_views(out@);
            out.push(d);
            assert(repo_diag_views(out@) =~= before.push(d@));
        }
        let ghost mid = repo_diag_views(out@);
        if role == FileRole::Sensitive || role == FileRole::Generated {
            let mut code: Vec<char> = Vec::new();
            extend_str(&mut code, "workspace_repo_");
            extend_str(&mut code, field);
            extend_str(&mut code, "_looks_");
            extend_str(&mut code, role_label(role));
            let mut message: Vec<char> = Vec::new();
            extend_str(&mut message, "Workspace repository ");
            extend_str(&mut message, field);
            extend_str(&mut message, " looks like a ");
            extend_str(&mut message, role_name_str(role));
            extend_str(&mut message, " path label.");
            let d = repo_diag_exec(
                &code,
                DiagnosticSeverity::Warning,
                &message,
                crate::model::clone_opt(repo_id),
                label,
                path_label,
            );
            let ghost before = repo_diag_views(out@);
            out.push(d);
            assert(repo_diag_views(out@) =~= before.push(d@));
        }
        assert(repo_diag_views(out@) =~= start + value_diags(
            field@,
            Some(v@),
            role,
            opt_view(*repo_id),
            label@,
            path_label@,
        ));
    } else {
        assert(repo_diag_views(out@) =~= start + Seq::<RepoDiagnosticView>::empty());
    }
}

/// The diagnostics of a manifest entry's values. `roles` holds the path
/// policy's classification of each value.
pub fn validate_repo_metadata(repo: &WorkspaceRepo, roles: &RepoValueRoles, label: &String, path_label: &String) -> (r: Vec<WorkspaceRepoDiagnostic>)
    requires
        roles.tags@.len() == repo.tags@.len(),
    ensures
        repo_diag_views(r@) == entry_diags(*repo, *roles, label@, path_label@),
{
    let mut out: Vec<WorkspaceRepoDiagnostic> = Vec::new();
    assert(repo_diag_views(out@) =~= Seq::<RepoDiagnosticView>::empty());
    let id_value = match &repo.id {
        Some(v) => Some(v),
        None => None,
    };
    push_value_diags(&mut out, "id", id_value, roles.id, &repo.id, label, path_label);
    let label_value = match &repo.label {
        Some(v) => Some(v),
        None => None,
    };
    push_value_diags(&mut out, "label", label_value, roles.label, &repo.id, label, path_label);
    push_value_diags(&mut out, "path", Some(&repo.path), roles.path, &repo.id, label, path_label);
    let ghost head = repo_diag_views(out@);
    let ghost tv = str_views(repo.tags@);
    let mut i: usize = 0;
    while i < repo.tags.len()
        invariant
            i <= repo.tags@.len(),
            roles.tags@.len() == repo.tags@.len(),
            tv == str_views(repo.tags@),
            repo_diag_views(out@) == head + tag_diags(
                tv,
                roles.tags@,
                i as nat,
                opt_view(repo.id),
                label@,
                path_label@,
            ),
        decreases repo.tags.len() - i,
    {
        assert(tv[i as int] == repo.tags@[i as int]@);
        push_value_diags(&mut out, "tag", Some(&repo.tags[i]), roles.tags[i], &repo.id, label, path_label);
        i += 1;
    }
    out
}

// ---------------------------------------------------------------------
// Repository status
// ---------------------------------------------------------------------
/// The counts of a built inventory.
#[derive(Debug, Clone, Copy, PartialEq, Eq, Structural)]
pub struct InventoryCounts {
    pub files: usize,
    pub ignored: usize,
    pub generated: usize,
    pub sensitive: usize,
}

/// What inspecting a repository's store found.
#[derive(Debug, Clone, Copy, PartialEq, Eq, Structural)]
pub struct StorageProbe {
    pub compatibility: StorageCompatibility,
    pub database_present: bool,
    pub memory_card_records: usize,
}

/// What looking at a listed repository on disk found: whether its resolved
/// path exists, its canonical form (or why it could not be had), whether
/// it is a git root, its inventory counts (or why they could not be had),
/// and its store (or why it could not be inspected). Later fields matter
/// only when the earlier ones succeeded.
#[derive(Debug)]
pub struct RepoProbe {
    pub exists: bool,
    pub canonical: Result<String, String>,
    pub git_root: bool,
    pub inventory: Result<InventoryCounts, String>,
    pub storage: Result<StorageProbe, String>,
}

/// The mathematical content of a repository status.
pub ghost struct RepoStatusView {
    pub repo_id: Seq<char>,
    pub label: Seq<char>,
    pub path_label: Seq<char>,
    pub tags: Seq<Seq<char>>,
    pub state: WorkspaceRepoState,
    pub git_root: bool,
    pub file_count: usize,
    pub ignored_count: usize,
    pub generated_count: usize,
    pub sensitive_count: usize,
    pub storage_compatibility: Option<Seq<char>>,
    pub storage_database_present: bool,
    pub memory_card_count: usize,
    pub diagnostics: Seq<RepoDiagnosticView>,
    pub privacy_status: WorkspaceRepoPrivacyStatus,
}

/// Local and source-free: what every repository status reports.
pub open spec fn source_free_privacy() -> WorkspaceRepoPrivacyStatus {
    WorkspaceRepoPrivacyStatus { local_only: true, source_text_logged: false }
}

impl View for WorkspaceRepoStatus {
    type V = RepoStatusView;

    open spec fn view(&self) -> RepoStatusView {
        RepoStatusView {
            repo_id: self.repo_id@,
            label: self.label@,
            path_label: self.path_label@,
            tags: str_views(self.tags@),
            state: self.state,
            git_root: self.git_root,
            file_count: self.file_count,
            ignored_count: self.ignored_count,
            generated_count: self.generated_count,
            sensitive_count: self.sensitive_count,
            storage_compatibility: opt_view(self.storage_compatibility),
            storage_database_present: self.storage_database_present,
            memory_card_count: self.memory_card_count,
            diagnostics: repo_diag_views(self.diagnostics@),
            privacy_status: self.privacy_status,
        }
    }
}

/// The status of a repository that could not be inventoried.
pub open spec fn empty_status(
    repo_id: Seq<char>,
    label: Seq<char>,
    path_label: Seq<char>,
    tags: Seq<Seq<char>>,
    state: WorkspaceRepoState,
    git_root: bool,
    diagnostics: Seq<RepoDiagnosticView>,
) -> RepoStatusView {
    RepoStatusView {
        repo_id,
        label,
        path_label,
        tags,
        state,
        git_root,
        file_count: 0,
        ignored_count: 0,
        generated_count: 0,
        sensitive_count: 0,
        storage_compatibility: None,
        storage_database_present: false,
        memory_card_count: 0,
        diagnostics,
        privacy_status: source_free_privacy(),
    }
}

/// The status of a listed repository, from the workspace root, the
/// manifest's base, the entry, the classification of its values and what
/// was found on disk.
pub open spec fn repo_status_of(
    root: Seq<char>,
    base: Seq<char>,
    repo: WorkspaceRepo,
    roles: RepoValueRoles,
    probe: RepoProbe,
) -> RepoStatusView {
    let resolved = resolved_repo_path(base, repo.path@);
    let pl = relative_label(root, resolved);
    let label = match repo.label {
        Some(l) => l@,
        None => pl,
    };
    let d0 = entry_diags(repo, roles, label, pl);
    let tags = str_views(repo.tags@);
    let fallback = match repo.id {
        Some(i) => i@,
        None => fallback_id(repo.path@, label),
    };
    if !probe.exists {
        empty_status(
            fallback,
            label,
            pl,
            tags,
            WorkspaceRepoState::Missing,
            false,
            d0.push(
                repo_diag(
                    "workspace_repo_missing"@,
                    DiagnosticSeverity::Error,
                    "Workspace repository path does not exist."@,
                    Some(fallback),
                    label,
                    pl,
                ),
            ),
        )
    } else {
        match probe.canonical {
            Err(e) => empty_status(
                fallback,
                label,
                pl,
                tags,
                WorkspaceRepoState::Invalid,
                false,
                d0.push(
                    repo_diag(
                        "workspace_repo_inaccessible"@,
                        DiagnosticSeverity::Error,
                        "Workspace repository path could not be accessed: "@ + e@,
                        Some(fallback),
                        label,
                        pl,
                    ),
                ),
            ),
            Ok(c) => {
                let id = match repo.id {
                    Some(i) => i@,
                    None => uuid_v5_url(encode_utf8(c@)),
                };
                let d1 = if !probe.git_root {
                    d0.push(
                        repo_diag(
                            "workspace_repo_not_git_root"@,
                            DiagnosticSeverity::Warning,
                            "Workspace repository path is not a git root."@,
                            Some(id),
                            label,
                            pl,
                        ),
                    )
                } else {
                    d0
                };
                match probe.inventory {
                    Ok(counts) => {
                        let (compat, present, cards, d2) = match probe.storage {
                            Ok(st) => (
                                Some(compatibility_label(st.compatibility)),
                                st.database_present,
                                st.memory_card_records,
                                d1,
                            ),
                            Err(e) => (
                                None,
                                false,
                                0usize,
                                d1.push(
                                    repo_diag(
                                        "workspace_storage_status_unavailable"@,
                                        DiagnosticSeverity::Warning,
                                        "Storage status could not be inspected: "@ + e@,
                                        Some(id),
                                        label,
                                        pl,
                                    ),
                                ),
                            ),
                        };
                        RepoStatusView {
                            repo_id: id,
                            label,
                            path_label: pl,
                            tags,
                            state: WorkspaceRepoState::Available,
                            git_root: probe.git_root,
                            file_count: counts.files,
                            ignored_count: counts.ignored,
                            generated_count: counts.generated,
                            sensitive_count: counts.sensitive,
                            storage_compatibility: compat,
                            storage_database_present: present,
                            memory_card_count: cards,
                            diagnostics: d2,
                            privacy_status: source_free_privacy(),
                        }
                    },
                    Err(e) => empty_status(
                        id,
                        label,
                        pl,
                        tags,
                        WorkspaceRepoState::Invalid,
                        probe.git_root,
                        d1.push(
                            repo_diag(
                                "workspace_inventory_unavailable"@,
                                DiagnosticSeverity::Error,
                                "Workspace inventory could not be built: "@ + e@,
                                Some(id),
                                label,
                                pl,
                            ),
                        ),
                    ),
                }
            },
        }
    }
}

fn text_of(parts_a: &str, parts_b: &str) -> (r: Vec<char>)
    ensures
        r@ == parts_a@ + parts_b@,
{
    let mut v: Vec<char> = Vec::new();
    extend_str(&mut v, parts_a);
    extend_str(&mut v, parts_b);
    v
}

fn push_repo_diag(
    out: &mut Vec<WorkspaceRepoDiagnostic>,
    code: &str,
    severity: DiagnosticSeverity,
    message: &[char],
    repo_id: &String,
    label: &String,
    path_label: &String,
)
    ensures
        repo_diag_views(final(out)@) == repo_diag_views(old(out)@).push(
            repo_diag(code@, severity, message@, Some(repo_id@), label@, path_label@),
        ),
{
    let c = chars_of(code);
    let d = repo_diag_exec(&c, severity, message, Some(repo_id.clone()), label, path_label);
    let ghost before = repo_diag_views(out@);
    out.push(d);
    assert(repo_diag_views(out@) =~= before.push(d@));
}

fn clone_tags(tags: &Vec<String>) -> (r: Vec<String>)
    ensures
        str_views(r@) == str_views(tags@),
{
    crate::model::clone_strings(tags)
}

/// The status of a listed repository: `repo_status_of`.
pub fn repo_status(
    workspace_root: &str,
    manifest_base: &str,
    repo: &WorkspaceRepo,
    roles: &RepoValueRoles,
    probe: &RepoProbe,
) -> (r: WorkspaceRepoStatus)
    requires
        roles.tags@.len() == repo.tags@.len(),
    ensures
        r@ == repo_status_of(workspace_root@, manifest_base@, *repo, *roles, *probe),
{
    let resolved = resolve_repo_path(manifest_base, repo.path.as_str());
    let pl = path_label(workspace_root, resolved.as_str());
    let label = match &repo.label {
        Some(l) => l.clone(),
        None => pl.clone(),
    };
    let mut diagnostics = validate_repo_metadata(repo, roles, &label, &pl);
    let fallback = match &repo.id {
        Some(i) => i.clone(),
        None => fallback_repo_id(repo.path.as_str(), label.as_str()),
    };
    if !probe.exists {
        let m = chars_of("Workspace repository path does not exist.");
        push_repo_diag(&mut diagnostics, "workspace_repo_missing", DiagnosticSeverity::Error, &m, &fallback, &label, &pl);
        return WorkspaceRepoStatus {
            repo_id: fallback,
            label,
            path_label: pl,
            tags: clone_tags(&repo.tags),
            state: WorkspaceRepoState::Missing,
            git_root: false,
            file_count: 0,
            ignored_count: 0,
            generated_count: 0,
            sensitive_count: 0,
            storage_compatibility: None,
            storage_database_present: false,
            memory_card_count: 0,
            privacy_status: WorkspaceRepoPrivacyStatus::local_source_free(),
            diagnostics,
        };
    }
    match &probe.canonical {
        Err(e) => {
            let m = text_of("Workspace repository path could not be accessed: ", e.as_str());
            push_repo_diag(&mut diagnostics, "workspace_repo_inaccessible", DiagnosticSeverity::Error, &m, &fallback, &label, &pl);
            WorkspaceRepoStatus {
                repo_id: fallback,
                label,
                path_label: pl,
                tags: clone_tags(&repo.tags),
                state: WorkspaceRepoState::Invalid,
                git_root: false,
                file_count: 0,
                ignored_count: 0,
                generated_count: 0,
                sensitive_count: 0,
                storage_compatibility: None,
                storage_database_present: false,
                memory_card_count: 0,
                privacy_status: WorkspaceRepoPrivacyStatus::local_source_free(),
                diagnostics,
            }
        },
        Ok(c) => {
            let id = match &repo.id {
                Some(i) => i.clone(),
                None => repo_id_for_path(c.as_str()),
            };
            if !probe.git_root {
                let m = chars_of("Workspace repository path is not a git root.");
                push_repo_diag(&mut diagnostics, "workspace_repo_not_git_root", DiagnosticSeverity::Warning, &m, &id, &label, &pl);
            }
            match &probe.inventory {
                Ok(counts) => {
                    let (compat, present, cards) = match &probe.storage {
                        Ok(st) => (
                            Some(String::from_str(storage_compatibility_label(st.compatibility))),
                            st.database_present,
                            st.memory_card_records,
                        ),
                        Err(e) => {
                            let m = text_of("Storage status could not be inspected: ", e.as_str());
                            push_repo_diag(&mut diagnostics, "workspace_storage_status_unavailable", DiagnosticSeverity::Warning, &m, &id, &label, &pl);
                            (None, false, 0)
                        },
                    };
                    WorkspaceRepoStatus {
                        repo_id: id,
                        label,
                        path_label: pl,
                        tags: clone_tags(&repo.tags),
                        state: WorkspaceRepoState::Available,
                        git_root: probe.git_root,
                        file_count: counts.files,
                        ignored_count: counts.ignored,
                        generated_count: counts.generated,
                        sensitive_count: counts.sensitive,
                        storage_compatibility: compat,
                        storage_database_present: present,
                        memory_card_count: cards,
                        privacy_status: WorkspaceRepoPrivacyStatus::local_source_free(),
                        diagnostics,
                    }
                },
                Err(e) => {
                    let m = text_of("Workspace inventory could not be built: ", e.as_str());
                    push_repo_diag(&mut diagnostics, "workspace_inventory_unavailable", DiagnosticSeverity::Error, &m, &id, &label, &pl);
                    WorkspaceRepoStatus {
                        repo_id: id,
                        label,
                        path_label: pl,
                        tags: clone_tags(&repo.tags),
                        state: WorkspaceRepoState::Invalid,
                        git_root: probe.git_root,
                        file_count: 0,
                        ignored_count: 0,
                        generated_count: 0,
                        sensitive_count: 0,
                        storage_compatibility: None,
                        storage_database_present: false,
                        memory_card_count: 0,
                        privacy_status: WorkspaceRepoPrivacyStatus::local_source_free(),
                        diagnostics,
                    }
                },
            }
        },
    }
}


// ---------------------------------------------------------------------
// Workspace report
// ---------------------------------------------------------------------
/// The statuses of the listed repositories, before duplicate checks.
pub open spec fn base_statuses(
    root: Seq<char>,
    base: Seq<char>,
    repos: Seq<WorkspaceRepo>,
    roles: Seq<RepoValueRoles>,
    probes: Seq<RepoProbe>,
) -> Seq<RepoStatusView> {
    Seq::new(repos.len(), |i: int| repo_status_of(root, base, repos[i], roles[i], probes[i]))
}

/// Whether an earlier repository has the same id as the `i`-th.
pub open spec fn id_seen(st: Seq<RepoStatusView>, i: int) -> bool {
    exists|j: int| 0 <= j < i && #[trigger] st[j].repo_id == st[i].repo_id
}

/// The id of the last of the first `n` repositories labelled `label`.
pub open spec fn label_owner(st: Seq<RepoStatusView>, label: Seq<char>, n: int) -> Option<Seq<char>>
    decreases n,
{
    if n <= 0 {
        None
    } else if st[n - 1].label == label {
        Some(st[n - 1].repo_id)
    } else {
        label_owner(st, label, n - 1)
    }
}

/// The duplicate diagnostics of the `i`-th repository: its id was used
/// before, or its label was (naming the id that last used it).
pub open spec fn dup_diags(repo: WorkspaceRepo, st: Seq<RepoStatusView>, i: int) -> Seq<RepoDiagnosticView> {
    let s = st[i];
    (if id_seen(st, i) {
        seq![
            repo_diag(
                "workspace_repo_duplicate_id"@,
                DiagnosticSeverity::Error,
                "Workspace manifest contains a duplicate repository ID."@,
                Some(s.repo_id),
                s.label,
                s.path_label,
            ),
        ]
    } else {
        seq![]
    }) + match label_owner(st, s.label, i) {
        Some(pid) => seq![
            repo_diag(
                "workspace_repo_duplicate_label"@,
                DiagnosticSeverity::Warning,
                "Workspace manifest label is also used by repository ID "@ + pid + "."@,
                Some(
                    match repo.id {
                        Some(x) => x@,
                        None => s.repo_id,
                    },
                ),
                s.label,
                s.path_label,
            ),
        ],
        None => seq![],
    }
}

/// The diagnostics of the first `n` repositories: each one's duplicate
/// diagnostics, then its own.
pub open spec fn report_diags(repos: Seq<WorkspaceRepo>, st: Seq<RepoStatusView>, n: nat) -> Seq<RepoDiagnosticView>
    decreases n,
{
    if n == 0 {
        seq![]
    } else {
        report_diags(repos, st, (n - 1) as nat) + dup_diags(repos[n - 1], st, n - 1) + st[n
            - 1].diagnostics
    }
}

/// How many of the first `n` repositories are available.
pub open spec fn available_count(st: Seq<RepoStatusView>, n: nat) -> nat
    decreases n,
{
    if n == 0 {
        0
    } else {
        available_count(st, (n - 1) as nat) + if st[n - 1].state == WorkspaceRepoState::Available {
            1nat
        } else {
            0
        }
    }
}

/// A total over the first `n` statuses: files, ignored, generated or
/// sensitive counts (`which` 0 to 3).
pub open spec fn count_total(st: Seq<RepoStatusView>, which: int, n: nat) -> nat
    decreases n,
{
    if n == 0 {
        0
    } else {
        count_total(st, which, (n - 1) as nat) + (if which == 0 {
            st[n - 1].file_count
        } else if which == 1 {
            st[n - 1].ignored_count
        } else if which == 2 {
            st[n - 1].generated_count
        } else {
            st[n - 1].sensitive_count
        }) as nat
    }
}

fn dup_diags_exec(repo: &WorkspaceRepo, done: &Vec<WorkspaceRepoStatus>, s: &WorkspaceRepoStatus) -> (r: Vec<WorkspaceRepoDiagnostic>)
    ensures
        repo_diag_views(r@) == dup_diags(
            *repo,
            done@.map_values(|x: WorkspaceRepoStatus| x@).push(s@),
            done@.len() as int,
        ),
{
    let ghost st = done@.map_values(|x: WorkspaceRepoStatus| x@).push(s@);
    let ghost i = done@.len() as int;
    assert(st[i] == s@);
    let mut out: Vec<WorkspaceRepoDiagnostic> = Vec::new();
    let mut seen = false;
    let mut j: usize = 0;
    while j < done.len()
        invariant
            j <= done@.len(),
            st == done@.map_values(|x: WorkspaceRepoStatus| x@).push(s@),
            i == done@.len(),
            st[i] == s@,
            seen == exists|k: int| 0 <= k < j && #[trigger] st[k].repo_id == st[i].repo_id,
        decreases done.len() - j,
    {
        assert(st[j as int] == done@[j as int]@);
        let same = string_eq(&done[j].repo_id, &s.repo_id);
        proof {
            if same {
                assert(st[j as int].repo_id == st[i].repo_id);
            }
            if !same && !seen {
                assert forall|k: int| 0 <= k < j + 1 implies #[trigger] st[k].repo_id != st[i].repo_id by {
                    if k < j {
                    } else {
                        assert(k == j);
                    }
                }
            }
        }
        if same {
            seen = true;
        }
        j += 1;
    }
    assert(seen == id_seen(st, i));
    if seen {
        let m = chars_of("Workspace manifest contains a duplicate repository ID.");
        push_repo_diag(&mut out, "workspace_repo_duplicate_id", DiagnosticSeverity::Error, &m, &s.repo_id, &s.label, &s.path_label);
    }
    let mut owner: Option<usize> = None;
    let mut k: usize = done.len();
    while k > 0 && owner.is_none()
        invariant
            k <= done@.len(),
            st == done@.map_values(|x: WorkspaceRepoStatus| x@).push(s@),
            i == done@.len(),
            st[i] == s@,
            owner is None ==> label_owner(st, st[i].label, i) == label_owner(st, st[i].label, k as int),
            owner matches Some(o) ==> o < done@.len() && label_owner(st, st[i].label, i) == Some(
                st[o as int].repo_id,
            ),
        decreases k + if owner is None {
            1int
        } else {
            0int
        },
    {
        assert(st[k - 1] == done@[k - 1]@);
        if string_eq(&done[k - 1].label, &s.label) {
            owner = Some(k - 1);
        } else {
            k -= 1;
        }
    }
    match owner {
        Some(o) => {
            assert(st[o as int] == done@[o as int]@);
            let mut m: Vec<char> = Vec::new();
            extend_str(&mut m, "Workspace manifest label is also used by repository ID ");
            extend_str(&mut m, done[o].repo_id.as_str());
            extend_str(&mut m, ".");
            let rid = match &repo.id {
                Some(x) => x.clone(),
                None => s.repo_id.clone(),
            };
            push_repo_diag(&mut out, "workspace_repo_duplicate_label", DiagnosticSeverity::Warning, &m, &rid, &s.label, &s.path_label);
        },
        None => {},
    }
    out
}


fn copy_repo_diag(d: &WorkspaceRepoDiagnostic) -> (r: WorkspaceRepoDiagnostic)
    ensures
        r@ == d@,
{
    WorkspaceRepoDiagnostic {
        code: d.code.clone(),
        severity: d.severity,
        message: d.message.clone(),
        repo_id: crate::model::clone_opt(&d.repo_id),
        label: crate::model::clone_opt(&d.label),
        paths: crate::model::clone_strings(&d.paths),
    }
}

fn append_repo_diags(out: &mut Vec<WorkspaceRepoDiagnostic>, ds: &Vec<WorkspaceRepoDiagnostic>)
    ensures
        repo_diag_views(final(out)@) == repo_diag_views(old(out)@) + repo_diag_views(ds@),
{
    let ghost start = repo_diag_views(out@);
    let ghost dv = repo_diag_views(ds@);
    let mut i: usize = 0;
    while i < ds.len()
        invariant
            i <= ds@.len(),
            dv == repo_diag_views(ds@),
            repo_diag_views(out@) == start + dv.take(i as int),
        decreases ds.len() - i,
    {
        let d = copy_repo_diag(&ds[i]);
        let ghost before = repo_diag_views(out@);
        out.push(d);
        assert(repo_diag_views(out@) =~= before.push(d@));
        assert(dv.take(i + 1) =~= dv.take(i as int).push(d@));
        i += 1;
    }
    assert(dv.take(dv.len() as int) =~= dv);
}

fn copy_status(s: &WorkspaceRepoStatus) -> (r: WorkspaceRepoStatus)
    ensures
        r@ == s@,
{
    let mut diagnostics: Vec<WorkspaceRepoDiagnostic> = Vec::new();
    append_repo_diags(&mut diagnostics, &s.diagnostics);
    assert(repo_diag_views(diagnostics@) =~= repo_diag_views(s.diagnostics@));
    WorkspaceRepoStatus {
        repo_id: s.repo_id.clone(),
        label: s.label.clone(),
        path_label: s.path_label.clone(),
        tags: crate::model::clone_strings(&s.tags),
        state: s.state,
        git_root: s.git_root,
        file_count: s.file_count,
        ignored_count: s.ignored_count,
        generated_count: s.generated_count,
        sensitive_count: s.sensitive_count,
        storage_compatibility: crate::model::clone_opt(&s.storage_compatibility),
        storage_database_present: s.storage_database_present,
        memory_card_count: s.memory_card_count,
        privacy_status: s.privacy_status,
        diagnostics,
    }
}

/// The view of the `i`-th repository of a report: its status with its
/// duplicate diagnostics appended.
pub open spec fn reported_status(repos: Seq<WorkspaceRepo>, st: Seq<RepoStatusView>, i: int) -> RepoStatusView {
    RepoStatusView { diagnostics: st[i].diagnostics + dup_diags(repos[i], st, i), ..st[i] }
}

proof fn lemma_total_step(st: Seq<RepoStatusView>, which: int, n: nat, m: nat)
    requires
        n <= m <= st.len(),
    ensures
        count_total(st, which, n) <= count_total(st, which, m),
    decreases m - n,
{
    if n < m {
        lemma_total_step(st, which, n, (m - 1) as nat);
    }
}

proof fn lemma_available_bounded(st: Seq<RepoStatusView>, n: nat)
    ensures
        available_count(st, n) <= n,
    decreases n,
{
    if n > 0 {
        lemma_available_bounded(st, (n - 1) as nat);
    }
}

/// A diagnostic with the given code is among `ds`.
pub open spec fn has_code(ds: Seq<RepoDiagnosticView>, code: Seq<char>) -> bool {
    exists|k: int| 0 <= k < ds.len() && (#[trigger] ds[k]).code == code
}

/// What a workspace report says of its repositories: no more are available
/// than are listed; every one is reported local and source-free; one whose
/// path does not exist is missing, with a `workspace_repo_missing`
/// diagnostic; one that repeats an earlier repository's id carries a
/// `workspace_repo_duplicate_id` diagnostic.
pub proof fn lemma_workspace_report(
    root: Seq<char>,
    base: Seq<char>,
    repos: Seq<WorkspaceRepo>,
    roles: Seq<RepoValueRoles>,
    probes: Seq<RepoProbe>,
    i: int,
)
    requires
        roles.len() == repos.len(),
        probes.len() == repos.len(),
        0 <= i < repos.len(),
    ensures
        available_count(base_statuses(root, base, repos, roles, probes), repos.len()) <= repos.len(),
        reported_status(repos, base_statuses(root, base, repos, roles, probes), i).privacy_status
            == source_free_privacy(),
        !probes[i].exists ==> reported_status(repos, base_statuses(root, base, repos, roles, probes), i).state
            == WorkspaceRepoState::Missing && has_code(
            reported_status(repos, base_statuses(root, base, repos, roles, probes), i).diagnostics,
            "workspace_repo_missing"@,
        ),
        id_seen(base_statuses(root, base, repos, roles, probes), i) ==> has_code(
            reported_status(repos, base_statuses(root, base, repos, roles, probes), i).diagnostics,
            "workspace_repo_duplicate_id"@,
        ),
{
    let st = base_statuses(root, base, repos, roles, probes);
    lemma_available_bounded(st, repos.len());
    let r = reported_status(repos, st, i);
    let own = st[i].diagnostics;
    let dup = dup_diags(repos[i], st, i);
    assert(r.diagnostics == own + dup);
    if !probes[i].exists {
        assert((own + dup)[own.len() - 1] == own[own.len() - 1]);
        assert(own[own.len() - 1].code == "workspace_repo_missing"@);
    }
    if id_seen(st, i) {
        assert((own + dup)[own.len() as int] == dup[0]);
        assert(dup[0].code == "workspace_repo_duplicate_id"@);
    }
}

/// The status report of a workspace. `manifest_path` is where the manifest
/// was read; relative repository paths resolve against its base. For each
/// listed repository, `roles` holds the classification of its values and
/// `probes` what was found on disk.
pub fn workspace_inventory_status_for_manifest(
    workspace_root: &str,
    manifest_path: &str,
    manifest: &WorkspaceManifest,
    roles: &Vec<RepoValueRoles>,
    probes: &Vec<RepoProbe>,
) -> (r: WorkspaceInventoryReport)
    requires
        roles@.len() == manifest.repos@.len(),
        probes@.len() == manifest.repos@.len(),
        forall|i: int| 0 <= i < roles@.len() ==> (#[trigger] roles@[i]).tags@.len() == manifest.repos@[i].tags@.len(),
        forall|w: int|
            0 <= w < 4 ==> #[trigger] count_total(
                base_statuses(
                    workspace_root@,
                    manifest_base_of(manifest_path@, workspace_root@),
                    manifest.repos@,
                    roles@,
                    probes@,
                ),
                w,
                manifest.repos@.len(),
            ) <= usize::MAX,
    ensures
        ({
            let repos = manifest.repos@;
            let n = repos.len();
            let st = base_statuses(
                workspace_root@,
                manifest_base_of(manifest_path@, workspace_root@),
                repos,
                roles@,
                probes@,
            );
            &&& r.schema_version == WORKSPACE_MANIFEST_SCHEMA_VERSION
            &&& r.workspace_root@ == workspace_root@
            &&& r.manifest_path@ == manifest_path@
            &&& r.repo_count == n
            &&& r.available_repo_count == available_count(st, n)
            &&& r.file_count == count_total(st, 0, n)
            &&& r.ignored_count == count_total(st, 1, n)
            &&& r.generated_count == count_total(st, 2, n)
            &&& r.sensitive_count == count_total(st, 3, n)
            &&& !r.source_text_logged
            &&& r.repos@.len() == n
            &&& forall|i: int| 0 <= i < n ==> (#[trigger] r.repos@[i])@ == reported_status(repos, st, i)
            &&& repo_diag_views(r.diagnostics@) == report_diags(repos, st, n)
        }),
{
    let base = manifest_repo_base(manifest_path, workspace_root);
    let ghost repos = manifest.repos@;
    let ghost st = base_statuses(workspace_root@, base@, repos, roles@, probes@);
    let n = manifest.repos.len();
    let mut done: Vec<WorkspaceRepoStatus> = Vec::new();
    let mut reported: Vec<WorkspaceRepoStatus> = Vec::new();
    let mut diagnostics: Vec<WorkspaceRepoDiagnostic> = Vec::new();
    let mut available: usize = 0;
    let mut files: usize = 0;
    let mut ignored: usize = 0;
    let mut generated: usize = 0;
    let mut sensitive: usize = 0;
    let mut i: usize = 0;
    while i < n
        invariant
            n == repos.len(),
            repos == manifest.repos@,
            st == base_statuses(workspace_root@, base@, repos, roles@, probes@),
            roles@.len() == n,
            probes@.len() == n,
            forall|k: int| 0 <= k < roles@.len() ==> (#[trigger] roles@[k]).tags@.len() == repos[k].tags@.len(),
            forall|w: int| 0 <= w < 4 ==> #[trigger] count_total(st, w, n as nat) <= usize::MAX,
            i <= n,
            done@.len() == i,
            forall|k: int| 0 <= k < i ==> (#[trigger] done@[k])@ == st[k],
            reported@.len() == i,
            forall|k: int| 0 <= k < i ==> (#[trigger] reported@[k])@ == reported_status(repos, st, k),
            repo_diag_views(diagnostics@) == report_diags(repos, st, i as nat),
            available == available_count(st, i as nat),
            available <= i,
            files == count_total(st, 0, i as nat),
            ignored == count_total(st, 1, i as nat),
            generated == count_total(st, 2, i as nat),
            sensitive == count_total(st, 3, i as nat),
        decreases n - i,
    {
        let status = repo_status(workspace_root, base.as_str(), &manifest.repos[i], &roles[i], &probes[i]);
        assert(status@ == st[i as int]);
        let ghost prefix = done@.map_values(|x: WorkspaceRepoStatus| x@).push(status@);
        let dups = dup_diags_exec(&manifest.repos[i], &done, &status);
        proof {
            assert forall|k: int| 0 <= k <= i implies prefix[k] == st[k] by {
                if k < i {
                    assert(prefix[k] == done@[k]@);
                }
            }
            lemma_dup_prefix(repos[i as int], prefix, st, i as int);
        }
        let ghost ddv = repo_diag_views(dups@);
        append_repo_diags(&mut diagnostics, &dups);
        append_repo_diags(&mut diagnostics, &status.diagnostics);
        let mut shown = copy_status(&status);
        append_repo_diags(&mut shown.diagnostics, &dups);
        proof {
            lemma_total_step(st, 0, (i + 1) as nat, n as nat);
            lemma_total_step(st, 1, (i + 1) as nat, n as nat);
            lemma_total_step(st, 2, (i + 1) as nat, n as nat);
            lemma_total_step(st, 3, (i + 1) as nat, n as nat);
            assert(count_total(st, 0, n as nat) <= usize::MAX);
            assert(count_total(st, 1, n as nat) <= usize::MAX);
            assert(count_total(st, 2, n as nat) <= usize::MAX);
            assert(count_total(st, 3, n as nat) <= usize::MAX);
        }
        if status.state == WorkspaceRepoState::Available {
            available = available + 1;
        }
        files = files + status.file_count;
        ignored = ignored + status.ignored_count;
        generated = generated + status.generated_count;
        sensitive = sensitive + status.sensitive_count;
        done.push(status);
        reported.push(shown);
        i += 1;
    }
    WorkspaceInventoryReport {
        schema_version: WORKSPACE_MANIFEST_SCHEMA_VERSION,
        workspace_root: String::from_str(workspace_root),
        manifest_path: String::from_str(manifest_path),
        repo_count: n,
        available_repo_count: available,
        file_count: files,
        ignored_count: ignored,
        generated_count: generated,
        sensitive_count: sensitive,
        source_text_logged: false,
        privacy_status: WorkspaceRepoPrivacyStatus::local_source_free(),
        repos: reported,
        diagnostics,
    }
}

proof fn lemma_label_owner_prefix(a: Seq<RepoStatusView>, b: Seq<RepoStatusView>, label: Seq<char>, n: int)
    requires
        0 <= n <= a.len(),
        n <= b.len(),
        forall|k: int| 0 <= k < n ==> a[k] == b[k],
    ensures
        label_owner(a, label, n) == label_owner(b, label, n),
    decreases n,
{
    if n > 0 {
        lemma_label_owner_prefix(a, b, label, n - 1);
    }
}

proof fn lemma_dup_prefix(repo: WorkspaceRepo, prefix: Seq<RepoStatusView>, st: Seq<RepoStatusView>, i: int)
    requires
        0 <= i < prefix.len(),
        i < st.len(),
        forall|k: int| 0 <= k <= i ==> prefix[k] == st[k],
    ensures
        dup_diags(repo, prefix, i) == dup_diags(repo, st, i),
{
    lemma_label_owner_prefix(prefix, st, st[i].label, i);
    assert(id_seen(prefix, i) == id_seen(st, i)) by {
        if id_seen(prefix, i) {
            let j = choose|j: int| 0 <= j < i && #[trigger] prefix[j].repo_id == prefix[i].repo_id;
            assert(st[j].repo_id == st[i].repo_id);
        }
        if id_seen(st, i) {
            let j = choose|j: int| 0 <= j < i && #[trigger] st[j].repo_id == st[i].repo_id;
            assert(prefix[j].repo_id == prefix[i].repo_id);
        }
    }
}

} // verus!
