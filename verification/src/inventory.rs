//! Repository inventory records and path normalisation.
use vstd::prelude::*;

use crate::model::{opt_view, FileRole};
use crate::paths::{
    components, components_exec, has_root, join, join_exec, join_slash, join_slash_exec, normals,
    normals_exec, relative_label, relative_label_exec,
};
use crate::text::{chars_of, string_of, trim, trim_vec};
use vstd::utf8::encode_utf8;

verus! {

/// One safe file of the inventory.
#[derive(Debug, Clone)]
pub struct FileInventoryEntry {
    pub path: String,
    pub language: Option<String>,
    pub role: FileRole,
    pub hash: String,
    pub size_bytes: u64,
    pub generated: bool,
    pub ignored: bool,
}

/// The mathematical content of an inventory entry.
pub ghost struct FileEntryView {
    pub path: Seq<char>,
    pub language: Option<Seq<char>>,
    pub role: FileRole,
    pub hash: Seq<char>,
    pub size_bytes: u64,
    pub generated: bool,
    pub ignored: bool,
}

impl View for FileInventoryEntry {
    type V = FileEntryView;

    open spec fn view(&self) -> FileEntryView {
        FileEntryView {
            path: self.path@,
            language: opt_view(self.language),
            role: self.role,
            hash: self.hash@,
            size_bytes: self.size_bytes,
            generated: self.generated,
            ignored: self.ignored,
        }
    }
}

/// The inventory schema version written into inventory metadata.
pub const INVENTORY_SCHEMA_VERSION: u32 = 2;

/// Whether generated and sensitive files enter the inventory.
#[derive(Debug, Clone, Copy, PartialEq, Eq, Structural)]
pub struct InventoryOptions {
    pub include_generated: bool,
    pub include_sensitive: bool,
}

impl Default for InventoryOptions {
    fn default() -> (o: InventoryOptions)
        ensures
            !o.include_generated && !o.include_sensitive,
    {
        InventoryOptions { include_generated: false, include_sensitive: false }
    }
}

/// Freshness record of one file, as of the inventory build.
#[derive(Debug, Clone)]
pub struct InventoryManifestEntry {
    pub path: String,
    pub hash: String,
    pub size_bytes: u64,
    pub modified_unix_nanos: u128,
    pub role: FileRole,
    pub generated: bool,
    pub ignored: bool,
}

/// The mathematical content of a manifest entry.
pub ghost struct ManifestEntryView {
    pub path: Seq<char>,
    pub hash: Seq<char>,
    pub size_bytes: u64,
    pub modified_unix_nanos: u128,
    pub role: FileRole,
    pub generated: bool,
    pub ignored: bool,
}

impl View for InventoryManifestEntry {
    type V = ManifestEntryView;

    open spec fn view(&self) -> ManifestEntryView {
        ManifestEntryView {
            path: self.path@,
            hash: self.hash@,
            size_bytes: self.size_bytes,
            modified_unix_nanos: self.modified_unix_nanos,
            role: self.role,
            generated: self.generated,
            ignored: self.ignored,
        }
    }
}

/// Freshness record of one ignore file.
#[derive(Debug, Clone)]
pub struct IgnoreFileFingerprint {
    pub path: String,
    pub present: bool,
    pub hash: Option<String>,
    pub size_bytes: u64,
    pub modified_unix_nanos: u128,
}

/// The mathematical content of an ignore-file fingerprint.
pub ghost struct IgnoreFingerprintView {
    pub path: Seq<char>,
    pub present: bool,
    pub hash: Option<Seq<char>>,
    pub size_bytes: u64,
    pub modified_unix_nanos: u128,
}

impl View for IgnoreFileFingerprint {
    type V = IgnoreFingerprintView;

    open spec fn view(&self) -> IgnoreFingerprintView {
        IgnoreFingerprintView {
            path: self.path@,
            present: self.present,
            hash: opt_view(self.hash),
            size_bytes: self.size_bytes,
            modified_unix_nanos: self.modified_unix_nanos,
        }
    }
}

/// What an inventory was built from, for freshness checks.
#[derive(Debug, Clone)]
pub struct InventoryMetadata {
    pub schema_version: u32,
    pub policy_version: String,
    pub options_fingerprint: String,
    pub repo_root: String,
    pub built_at_unix_seconds: u64,
    pub ignore_fingerprints: Vec<IgnoreFileFingerprint>,
    pub manifest: Vec<InventoryManifestEntry>,
}

impl InventoryMetadata {
    /// Metadata of an inventory written before metadata existed: schema 0
    /// and everything empty.
    pub fn empty() -> (m: InventoryMetadata)
        ensures
            m.schema_version == 0,
            m.policy_version@.len() == 0,
            m.options_fingerprint@.len() == 0,
            m.repo_root@.len() == 0,
            m.built_at_unix_seconds == 0,
            m.ignore_fingerprints@.len() == 0,
            m.manifest@.len() == 0,
    {
        InventoryMetadata {
            schema_version: 0,
            policy_version: String::new(),
            options_fingerprint: String::new(),
            repo_root: String::new(),
            built_at_unix_seconds: 0,
            ignore_fingerprints: Vec::new(),
            manifest: Vec::new(),
        }
    }
}

/// A repository inventory.
#[derive(Debug, Clone)]
pub struct RepoInventory {
    pub repo_id: String,
    pub repo_root: String,
    pub metadata: InventoryMetadata,
    pub files: Vec<FileInventoryEntry>,
    pub ignored_count: usize,
    pub generated_count: usize,
    pub sensitive_count: usize,
}

/// Summary of a written inventory.
#[derive(Debug, Clone)]
pub struct InventoryReport {
    pub repo_id: String,
    pub repo_root: String,
    pub inventory_path: String,
    pub file_count: usize,
    pub ignored_count: usize,
    pub generated_count: usize,
    pub sensitive_count: usize,
}

/// The report of an inventory persisted at `inventory_path`.
pub fn inventory_report(inventory: &RepoInventory, inventory_path: String) -> (r: InventoryReport)
    ensures
        r.repo_id@ == inventory.repo_id@,
        r.repo_root@ == inventory.repo_root@,
        r.inventory_path@ == inventory_path@,
        r.file_count == inventory.files@.len(),
        r.ignored_count == inventory.ignored_count,
        r.generated_count == inventory.generated_count,
        r.sensitive_count == inventory.sensitive_count,
{
    InventoryReport {
        repo_id: inventory.repo_id.clone(),
        repo_root: inventory.repo_root.clone(),
        inventory_path,
        file_count: inventory.files.len(),
        ignored_count: inventory.ignored_count,
        generated_count: inventory.generated_count,
        sensitive_count: inventory.sensitive_count,
    }
}

/// `home/repos/<repo_id>/<file>`.
pub open spec fn repo_state_path(home: Seq<char>, repo_id: Seq<char>, file: Seq<char>) -> Seq<
    char,
> {
    join(join(join(home, "repos"@), repo_id), file)
}

pub fn repo_state_path_exec(home: &str, repo_id: &str, file: &str) -> (r: String)
    ensures
        r@ == repo_state_path(home@, repo_id@, file@),
{
    let h = chars_of(home);
    let a = join_exec(&h, "repos");
    let b = join_exec(&a, repo_id);
    let c = join_exec(&b, file);
    string_of(&c)
}

/// The ctxpack home, from the values of the `CTXPACK_HOME` and `HOME`
/// environment variables: `CTXPACK_HOME` when it is set, else `.ctxpack`
/// under `HOME` when that is set, else the relative path `.ctxpack`.
pub open spec fn home_base(ctxpack_home_var: Option<Seq<char>>, home_var: Option<Seq<char>>) -> Seq<char> {
    match ctxpack_home_var {
        Some(h) => h,
        None => match home_var {
            Some(h) => join(h, ".ctxpack"@),
            None => ".ctxpack"@,
        },
    }
}

/// Executable `home_base`.
pub fn ctxpack_home(ctxpack_home_var: Option<String>, home_var: Option<String>) -> (r: String)
    ensures
        r@ == home_base(opt_view(ctxpack_home_var), opt_view(home_var)),
{
    match ctxpack_home_var {
        Some(h) => h,
        None => match home_var {
            Some(h) => string_of(&join_exec(&chars_of(h.as_str()), ".ctxpack")),
            None => String::from_str(".ctxpack"),
        },
    }
}

/// The directory that holds a repository's state under the ctxpack home,
/// with the separator that its files follow.
pub open spec fn repo_state_prefix(home: Seq<char>, repo_id: Seq<char>) -> Seq<char> {
    let dir = join(join(home, "repos"@), repo_id);
    if dir.len() == 0 || dir.last() == '/' {
        dir
    } else {
        dir + seq!['/']
    }
}

/// The inventory, the feedback log and the policy profiles of a repository
/// are three distinct files side by side in one directory,
/// `home/repos/<repo_id>/`.
pub proof fn lemma_repo_state_files_are_siblings(home: Seq<char>, repo_id: Seq<char>)
    ensures
        repo_state_path(home, repo_id, "inventory.json"@) == repo_state_prefix(home, repo_id)
            + "inventory.json"@,
        repo_state_path(home, repo_id, "feedback.jsonl"@) == repo_state_prefix(home, repo_id)
            + "feedback.jsonl"@,
        repo_state_path(home, repo_id, "policy-profiles.json"@) == repo_state_prefix(home, repo_id)
            + "policy-profiles.json"@,
        repo_state_path(home, repo_id, "inventory.json"@) != repo_state_path(home, repo_id, "feedback.jsonl"@),
        repo_state_path(home, repo_id, "inventory.json"@) != repo_state_path(home, repo_id, "policy-profiles.json"@),
        repo_state_path(home, repo_id, "feedback.jsonl"@) != repo_state_path(home, repo_id, "policy-profiles.json"@),
{
    reveal_strlit("inventory.json");
    reveal_strlit("feedback.jsonl");
    reveal_strlit("policy-profiles.json");
    let pre = repo_state_prefix(home, repo_id);
    let a = pre + "inventory.json"@;
    let b = pre + "feedback.jsonl"@;
    let c = pre + "policy-profiles.json"@;
    assert(a[pre.len() as int] == 'i' && b[pre.len() as int] == 'f' && c[pre.len() as int] == 'p');
}

/// Where the inventory of a repository is cached under the ctxpack home.
pub fn inventory_path(home: &str, repo_id: &str) -> (r: String)
    ensures
        r@ == repo_state_path(home@, repo_id@, "inventory.json"@),
{
    repo_state_path_exec(home, repo_id, "inventory.json")
}

/// A path relative to the repository root: the root's components are
/// removed when they prefix the path's, and the normal components are joined
/// with `/` (`.`, `..` and the root vanish).
pub fn normalize_relative_path(repo_root: &str, path: &str) -> (r: String)
    ensures
        r@ == relative_label(repo_root@, path@),
{
    let rv = chars_of(repo_root);
    let pv = chars_of(path);
    let out = relative_label_exec(&rv, &pv);
    string_of(&out)
}

/// A user-supplied path as a repository label: an absolute path loses the
/// repository root when the root prefixes it; the normal components are
/// joined with `/`.
pub open spec fn input_label(repo_root: Seq<char>, path: Seq<char>) -> Seq<char> {
    if has_root(path) {
        relative_label(repo_root, path)
    } else {
        join_slash(normals(components(path)))
    }
}

/// Executable `input_label`.
pub fn normalize_input_path(repo_root: &str, path: &str) -> (r: String)
    ensures
        r@ == input_label(repo_root@, path@),
{
    let pv = chars_of(path);
    if pv.len() > 0 && pv[0] == '/' {
        let rv = chars_of(repo_root);
        let out = relative_label_exec(&rv, &pv);
        string_of(&out)
    } else {
        let c = components_exec(&pv);
        let n = normals_exec(&c);
        let out = join_slash_exec(&n);
        string_of(&out)
    }
}

/// The lowercase hexadecimal BLAKE3 digest of some bytes.
pub uninterp spec fn blake3_hex(data: Seq<u8>) -> Seq<char>;

pub open spec fn is_lower_hex(c: char) -> bool {
    ('0' as u32 <= c as u32 && c as u32 <= '9' as u32) || ('a' as u32 <= c as u32 && c as u32
        <= 'f' as u32)
}

/// Calls `blake3::hash` and `Hash::to_hex`. The result is named
/// `blake3_hex`; as the source of `to_hex` shows, it is 64 lowercase
/// hexadecimal digits. The digest itself is not described.
#[verifier::external_body]
pub(crate) fn blake3_hex_of(data: &[u8]) -> (r: String)
    ensures
        r@ == blake3_hex(data@),
        r@.len() == 64,
        forall|i: int| 0 <= i < 64 ==> is_lower_hex(#[trigger] r@[i]),
{
    blake3::hash(data).to_hex().to_string()
}

/// The hyphenated text of the version-5 UUID of a name in the URL namespace.
pub uninterp spec fn uuid_v5_url(name: Seq<u8>) -> Seq<char>;

/// Calls `uuid::Uuid::new_v5` with `Uuid::NAMESPACE_URL` and formats the
/// result with `to_string`. The result is named `uuid_v5_url`; nothing more
/// is stated of it.
#[verifier::external_body]
fn uuid_v5_url_of(name: &[u8]) -> (r: String)
    ensures
        r@ == uuid_v5_url(name@),
{
    uuid::Uuid::new_v5(&uuid::Uuid::NAMESPACE_URL, name).to_string()
}

/// The repository id: the URL-namespace UUID v5 of the root path's UTF-8
/// bytes.
pub fn repo_id_for_path(repo_root: &str) -> (r: String)
    ensures
        r@ == uuid_v5_url(encode_utf8(repo_root@)),
{
    uuid_v5_url_of(repo_root.as_bytes())
}

/// The task hash: the BLAKE3 hex digest of the trimmed task text.
pub fn task_hash(task: &str) -> (r: String)
    ensures
        r@ == blake3_hex(encode_utf8(trim(task@))),
{
    let tv = chars_of(task);
    let t = trim_vec(&tv);
    let s = string_of(&t);
    blake3_hex_of(s.as_str().as_bytes())
}

pub open spec fn bool_text(b: bool) -> Seq<char> {
    if b {
        "true"@
    } else {
        "false"@
    }
}

/// The compact JSON form of inventory options, fields in declaration order.
pub open spec fn options_json(o: InventoryOptions) -> Seq<char> {
    "{\"includeGenerated\":"@ + bool_text(o.include_generated) + ",\"includeSensitive\":"@
        + bool_text(o.include_sensitive) + "}"@
}

/// The options fingerprint: the BLAKE3 hex digest of the options' JSON.
pub fn options_fingerprint(options: &InventoryOptions) -> (r: String)
    ensures
        r@ == blake3_hex(encode_utf8(options_json(*options))),
{
    let mut v: Vec<char> = Vec::new();
    crate::text::extend_str(&mut v, "{\"includeGenerated\":");
    crate::text::extend_str(&mut v, if options.include_generated { "true" } else { "false" });
    crate::text::extend_str(&mut v, ",\"includeSensitive\":");
    crate::text::extend_str(&mut v, if options.include_sensitive { "true" } else { "false" });
    crate::text::extend_str(&mut v, "}");
    assert(v@ =~= options_json(*options));
    let s = string_of(&v);
    blake3_hex_of(s.as_str().as_bytes())
}

// ---------------------------------------------------------------------
// Building an inventory
// ---------------------------------------------------------------------
/// What was read of a walked file: its bytes, its size and when it was
/// last modified.
#[derive(Debug, Clone)]
pub struct WalkedContent {
    pub bytes: Vec<u8>,
    pub size_bytes: u64,
    pub modified_unix_nanos: u128,
}

/// A file that the repository walk found: its path relative to the root,
/// the role and language that the path policy gives it, and its content, or
/// `None` when it could not be read.
#[derive(Debug, Clone)]
pub struct WalkedFile {
    pub path: String,
    pub role: FileRole,
    pub language: Option<String>,
    pub content: Option<WalkedContent>,
}

/// A path inside the `.git` directory.
pub open spec fn is_git_path(p: Seq<char>) -> bool {
    p == ".git"@ || crate::text::starts_with(p, ".git/"@)
}

/// A walked file that the options leave out: generated or sensitive
/// without the option that admits it.
pub open spec fn excluded_by(f: WalkedFile, o: InventoryOptions) -> bool {
    (f.role == FileRole::Generated && !o.include_generated) || (f.role == FileRole::Sensitive
        && !o.include_sensitive)
}

/// A walked file that enters the inventory: outside `.git`, admitted by the
/// options, and read.
pub open spec fn kept_file(f: WalkedFile, o: InventoryOptions) -> bool {
    !is_git_path(f.path@) && !excluded_by(f, o) && f.content is Some
}

/// The inventory entry of a kept file: its hash is the BLAKE3 hex digest
/// of its bytes.
pub open spec fn walked_entry(f: WalkedFile) -> FileEntryView {
    FileEntryView {
        path: f.path@,
        language: opt_view(f.language),
        role: f.role,
        hash: blake3_hex(f.content->0.bytes@),
        size_bytes: f.content->0.size_bytes,
        generated: f.role == FileRole::Generated,
        ignored: false,
    }
}

/// The manifest entry of a kept file.
pub open spec fn walked_manifest(f: WalkedFile) -> ManifestEntryView {
    ManifestEntryView {
        path: f.path@,
        hash: blake3_hex(f.content->0.bytes@),
        size_bytes: f.content->0.size_bytes,
        modified_unix_nanos: f.content->0.modified_unix_nanos,
        role: f.role,
        generated: f.role == FileRole::Generated,
        ignored: false,
    }
}

/// The entries of the kept files, in walk order.
pub open spec fn kept_entries(ws: Seq<WalkedFile>, o: InventoryOptions) -> Seq<FileEntryView>
    decreases ws.len(),
{
    if ws.len() == 0 {
        seq![]
    } else if kept_file(ws.last(), o) {
        kept_entries(ws.drop_last(), o).push(walked_entry(ws.last()))
    } else {
        kept_entries(ws.drop_last(), o)
    }
}

/// The manifest entries of the kept files, in walk order.
pub open spec fn kept_manifest(ws: Seq<WalkedFile>, o: InventoryOptions) -> Seq<ManifestEntryView>
    decreases ws.len(),
{
    if ws.len() == 0 {
        seq![]
    } else if kept_file(ws.last(), o) {
        kept_manifest(ws.drop_last(), o).push(walked_manifest(ws.last()))
    } else {
        kept_manifest(ws.drop_last(), o)
    }
}

/// How many walked files outside `.git` have the role `r` (counted whether
/// or not the options admit them).
pub open spec fn walked_role_count(ws: Seq<WalkedFile>, r: FileRole) -> nat
    decreases ws.len(),
{
    if ws.len() == 0 {
        0
    } else {
        walked_role_count(ws.drop_last(), r) + if !is_git_path(ws.last().path@) && ws.last().role
            == r {
            1nat
        } else {
            0nat
        }
    }
}

/// How many admitted walked files outside `.git` could not be read.
pub open spec fn unreadable_count(ws: Seq<WalkedFile>, o: InventoryOptions) -> nat
    decreases ws.len(),
{
    if ws.len() == 0 {
        0
    } else {
        unreadable_count(ws.drop_last(), o) + if !is_git_path(ws.last().path@) && !excluded_by(
            ws.last(),
            o,
        ) && ws.last().content is None {
            1nat
        } else {
            0nat
        }
    }
}

pub open spec fn insert_entry(s: Seq<FileEntryView>, x: FileEntryView) -> Seq<FileEntryView>
    decreases s.len(),
{
    if s.len() == 0 || !crate::text::lex_lt(x.path, s.last().path) {
        s.push(x)
    } else {
        insert_entry(s.drop_last(), x).push(s.last())
    }
}

/// Stable sort of inventory entries by path.
pub open spec fn sort_entries(s: Seq<FileEntryView>) -> Seq<FileEntryView>
    decreases s.len(),
{
    if s.len() == 0 {
        s
    } else {
        insert_entry(sort_entries(s.drop_last()), s.last())
    }
}

pub open spec fn insert_manifest(s: Seq<ManifestEntryView>, x: ManifestEntryView) -> Seq<ManifestEntryView>
    decreases s.len(),
{
    if s.len() == 0 || !crate::text::lex_lt(x.path, s.last().path) {
        s.push(x)
    } else {
        insert_manifest(s.drop_last(), x).push(s.last())
    }
}

/// Stable sort of manifest entries by path.
pub open spec fn sort_manifest(s: Seq<ManifestEntryView>) -> Seq<ManifestEntryView>
    decreases s.len(),
{
    if s.len() == 0 {
        s
    } else {
        insert_manifest(sort_manifest(s.drop_last()), s.last())
    }
}

fn insert_entry_exec(out: &mut Vec<FileInventoryEntry>, x: FileInventoryEntry)
    ensures
        crate::symbols::entry_views(final(out)@) == insert_entry(crate::symbols::entry_views(old(out)@), x@),
{
    let ghost xv = x@;
    let ghost orig = crate::symbols::entry_views(out@);
    let mut j: usize = out.len();
    assert(orig.take(j as int) =~= orig);
    assert(orig.skip(j as int) =~= Seq::<FileEntryView>::empty());
    while j > 0 && crate::text::string_lt(&x.path, &out[j - 1].path)
        invariant
            j <= out@.len(),
            orig == crate::symbols::entry_views(out@),
            xv == x@,
            insert_entry(orig, xv) == insert_entry(orig.take(j as int), xv) + orig.skip(j as int),
        decreases j,
    {
        let ghost t = orig.take(j as int);
        assert(t.last() == out@[j - 1]@);
        assert(t.drop_last() =~= orig.take(j - 1));
        assert(orig.skip(j - 1) =~= seq![t.last()] + orig.skip(j as int));
        assert(insert_entry(orig.take(j - 1), xv).push(t.last()) + orig.skip(j as int)
            =~= insert_entry(orig.take(j - 1), xv) + orig.skip(j - 1));
        j -= 1;
    }
    proof {
        if j > 0 {
            assert(orig.take(j as int).last() == out@[j - 1]@);
        }
    }
    out.insert(j, x);
    assert(crate::symbols::entry_views(out@) =~= orig.take(j as int).push(xv) + orig.skip(j as int));
}

fn insert_manifest_exec(out: &mut Vec<InventoryManifestEntry>, x: InventoryManifestEntry)
    ensures
        crate::freshness::manifest_views(final(out)@) == insert_manifest(crate::freshness::manifest_views(old(out)@), x@),
{
    let ghost xv = x@;
    let ghost orig = crate::freshness::manifest_views(out@);
    let mut j: usize = out.len();
    assert(orig.take(j as int) =~= orig);
    assert(orig.skip(j as int) =~= Seq::<ManifestEntryView>::empty());
    while j > 0 && crate::text::string_lt(&x.path, &out[j - 1].path)
        invariant
            j <= out@.len(),
            orig == crate::freshness::manifest_views(out@),
            xv == x@,
            insert_manifest(orig, xv) == insert_manifest(orig.take(j as int), xv) + orig.skip(j as int),
        decreases j,
    {
        let ghost t = orig.take(j as int);
        assert(t.last() == out@[j - 1]@);
        assert(t.drop_last() =~= orig.take(j - 1));
        assert(orig.skip(j - 1) =~= seq![t.last()] + orig.skip(j as int));
        assert(insert_manifest(orig.take(j - 1), xv).push(t.last()) + orig.skip(j as int)
            =~= insert_manifest(orig.take(j - 1), xv) + orig.skip(j - 1));
        j -= 1;
    }
    proof {
        if j > 0 {
            assert(orig.take(j as int).last() == out@[j - 1]@);
        }
    }
    out.insert(j, x);
    assert(crate::freshness::manifest_views(out@) =~= orig.take(j as int).push(xv) + orig.skip(j as int));
}

proof fn lemma_counts_bounded(ws: Seq<WalkedFile>, o: InventoryOptions)
    ensures
        walked_role_count(ws, FileRole::Generated) <= ws.len(),
        walked_role_count(ws, FileRole::Sensitive) <= ws.len(),
        unreadable_count(ws, o) <= ws.len(),
    decreases ws.len(),
{
    if ws.len() > 0 {
        lemma_counts_bounded(ws.drop_last(), o);
    }
}

fn is_git_path_exec(p: &String) -> (b: bool)
    ensures
        b == is_git_path(p@),
{
    let v = chars_of(p.as_str());
    crate::text::eq_str(&v, ".git") || crate::text::starts_with_str(&v, ".git/")
}

/// Builds the inventory of a repository from what its walk found: files
/// inside `.git` are passed over; generated and sensitive files are counted
/// and enter only when the options admit them; an admitted file that could
/// not be read is counted as ignored; every other file enters with the
/// BLAKE3 hex digest of its bytes. Entries and manifest are sorted by path
/// (files with the same path keep their walk order), and the metadata
/// records the schema, the policy version, the options' fingerprint, the
/// root, the build time and the ignore-file fingerprints.
pub fn inventory_of(
    canonical_root: &str,
    walked: Vec<WalkedFile>,
    options: &InventoryOptions,
    policy_version: &str,
    built_at_unix_seconds: u64,
    ignore_fingerprints: Vec<IgnoreFileFingerprint>,
) -> (r: RepoInventory)
    ensures
        r.repo_id@ == uuid_v5_url(encode_utf8(canonical_root@)),
        r.repo_root@ == canonical_root@,
        crate::symbols::entry_views(r.files@) == sort_entries(kept_entries(walked@, *options)),
        r.ignored_count == unreadable_count(walked@, *options),
        r.generated_count == walked_role_count(walked@, FileRole::Generated),
        r.sensitive_count == walked_role_count(walked@, FileRole::Sensitive),
        r.metadata.schema_version == INVENTORY_SCHEMA_VERSION,
        r.metadata.policy_version@ == policy_version@,
        r.metadata.options_fingerprint@ == blake3_hex(encode_utf8(options_json(*options))),
        r.metadata.repo_root@ == canonical_root@,
        r.metadata.built_at_unix_seconds == built_at_unix_seconds,
        r.metadata.ignore_fingerprints@ == ignore_fingerprints@,
        crate::freshness::manifest_views(r.metadata.manifest@) == sort_manifest(
            kept_manifest(walked@, *options),
        ),
{
    let ghost ws = walked@;
    let mut files: Vec<FileInventoryEntry> = Vec::new();
    let mut manifest: Vec<InventoryManifestEntry> = Vec::new();
    let mut ignored_count: usize = 0;
    let mut generated_count: usize = 0;
    let mut sensitive_count: usize = 0;
    proof {
        lemma_counts_bounded(ws, *options);
    }
    let mut i: usize = 0;
    while i < walked.len()
        invariant
            i <= ws.len(),
            ws == walked@,
            crate::symbols::entry_views(files@) == sort_entries(kept_entries(ws.take(i as int), *options)),
            crate::freshness::manifest_views(manifest@) == sort_manifest(kept_manifest(ws.take(i as int), *options)),
            ignored_count == unreadable_count(ws.take(i as int), *options),
            generated_count == walked_role_count(ws.take(i as int), FileRole::Generated),
            sensitive_count == walked_role_count(ws.take(i as int), FileRole::Sensitive),
        decreases ws.len() - i,
    {
        proof {
            assert(ws.take(i + 1).drop_last() =~= ws.take(i as int));
            assert(ws.take(i + 1).last() == ws[i as int]);
            lemma_counts_bounded(ws.take(i + 1), *options);
        }
        let f = &walked[i];
        if !is_git_path_exec(&f.path) {
            let generated = f.role == FileRole::Generated;
            let sensitive = f.role == FileRole::Sensitive;
            if generated {
                generated_count += 1;
            }
            if sensitive {
                sensitive_count += 1;
            }
            let excluded = (generated && !options.include_generated) || (sensitive
                && !options.include_sensitive);
            if !excluded {
                match &f.content {
                    None => {
                        ignored_count += 1;
                    },
                    Some(c) => {
                        let hash = blake3_hex_of(c.bytes.as_slice());
                        let entry = FileInventoryEntry {
                            path: f.path.clone(),
                            language: crate::model::clone_opt(&f.language),
                            role: f.role,
                            hash: hash.clone(),
                            size_bytes: c.size_bytes,
                            generated,
                            ignored: false,
                        };
                        let record = InventoryManifestEntry {
                            path: f.path.clone(),
                            hash,
                            size_bytes: c.size_bytes,
                            modified_unix_nanos: c.modified_unix_nanos,
                            role: f.role,
                            generated,
                            ignored: false,
                        };
                        assert(entry@ == walked_entry(ws[i as int]));
                        assert(record@ == walked_manifest(ws[i as int]));
                        insert_entry_exec(&mut files, entry);
                        insert_manifest_exec(&mut manifest, record);
                        proof {
                            let t = ws.take(i as int);
                            assert(kept_entries(t, *options).push(walked_entry(ws[i as int])).drop_last()
                                =~= kept_entries(t, *options));
                            assert(kept_manifest(t, *options).push(walked_manifest(ws[i as int])).drop_last()
                                =~= kept_manifest(t, *options));
                        }
                    },
                }
            }
        }
        i += 1;
    }
    assert(ws.take(ws.len() as int) =~= ws);
    RepoInventory {
        repo_id: repo_id_for_path(canonical_root),
        repo_root: String::from_str(canonical_root),
        metadata: InventoryMetadata {
            schema_version: INVENTORY_SCHEMA_VERSION,
            policy_version: String::from_str(policy_version),
            options_fingerprint: options_fingerprint(options),
            repo_root: String::from_str(canonical_root),
            built_at_unix_seconds,
            ignore_fingerprints,
            manifest,
        },
        files,
        ignored_count,
        generated_count,
        sensitive_count,
    }
}

// ---------------------------------------------------------------------
// Ignore-file fingerprints
// ---------------------------------------------------------------------
/// The ignore files whose fingerprints an inventory records, relative to
/// the repository root, in the order they are recorded.
pub open spec fn ignore_file_names() -> Seq<Seq<char>> {
    seq![".gitignore"@, ".git/info/exclude"@, ".ctxpackignore"@, ".cursorignore"@]
}

/// Executable `ignore_file_names`.
pub fn ignore_file_paths() -> (r: Vec<String>)
    ensures
        crate::model::str_views(r@) == ignore_file_names(),
{
    let r = vec![
        String::from_str(".gitignore"),
        String::from_str(".git/info/exclude"),
        String::from_str(".ctxpackignore"),
        String::from_str(".cursorignore"),
    ];
    assert(crate::model::str_views(r@) =~= ignore_file_names());
    r
}

/// The fingerprint of one ignore file. `found` is the file's size and
/// modification time when its metadata could be read, `None` when the file
/// is absent; `bytes` is what was read of it (empty when the read failed).
/// A present file records the BLAKE3 hex digest of its bytes, its size and
/// its modification time; an absent one records no hash and zeros.
pub fn ignore_file_fingerprint_of(relative: &str, found: Option<(u64, u128)>, bytes: &[u8]) -> (r: IgnoreFileFingerprint)
    ensures
        r.path@ == relative@,
        r.present == found is Some,
        match found {
            Some((size, modified)) => r.hash matches Some(h) && h@ == blake3_hex(bytes@)
                && r.size_bytes == size && r.modified_unix_nanos == modified,
            None => r.hash is None && r.size_bytes == 0 && r.modified_unix_nanos == 0,
        },
{
    match found {
        Some((size, modified)) => IgnoreFileFingerprint {
            path: String::from_str(relative),
            present: true,
            hash: Some(blake3_hex_of(bytes)),
            size_bytes: size,
            modified_unix_nanos: modified,
        },
        None => IgnoreFileFingerprint {
            path: String::from_str(relative),
            present: false,
            hash: None,
            size_bytes: 0,
            modified_unix_nanos: 0,
        },
    }
}

} // verus!
