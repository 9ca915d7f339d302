//! Local semantic retrieval: provider configuration and the source-free
//! documents that describe each file.
use vstd::prelude::*;

use crate::dependencies::DependencyEdge;
use crate::freshness::{diag_views, diagnostic_of};
use crate::inventory::{blake3_hex, blake3_hex_of, FileInventoryEntry};
use crate::model::{clone_opt, opt_view, str_views, Diagnostic, DiagnosticSeverity, DiagnosticView, FileRole};
use crate::symbols::{CodeSymbol, SymbolKind};
use crate::text::{lex_lt, string_lt};
use crate::text::{
    chars_of, decimal, decimal_chars, extend_chars, extend_str, find, find_exec, is_boundary,
    lower, slice_of, starts_with, starts_with_str, string_of, trim, trim_end_matches,
    trim_end_matches_str, trim_vec, truncate_bytes, truncate_bytes_exec, utf8_len,
};
use vstd::utf8::encode_utf8;

verus! {

/// Dimensions of the local hash provider.
pub const DEFAULT_SEMANTIC_DIMENSIONS: usize = 64;

/// The default provider: deterministic local hashing.
pub const DEFAULT_SEMANTIC_PROVIDER: &'static str = "local_hash";

/// The model of the local hash provider.
pub const DEFAULT_SEMANTIC_MODEL: &'static str = "ctxpack-local-hash-v1";

/// The distance metric of every local provider.
pub const DEFAULT_SEMANTIC_DISTANCE: &'static str = "cosine";

/// The role of the local hash provider.
pub const LOCAL_HASH_PROVIDER_ROLE: &'static str = "deterministic_scaffold";

/// The local embedding-model provider.
pub const LOCAL_FASTEMBED_PROVIDER: &'static str = "local_fastembed";

/// The default model of the local embedding-model provider.
pub const LOCAL_FASTEMBED_MODEL: &'static str = "JinaEmbeddingsV2BaseCode";

/// Dimensions of the default local embedding model.
pub const LOCAL_FASTEMBED_DIMENSIONS: usize = 768;

/// The role of the local embedding-model provider.
pub const LOCAL_FASTEMBED_PROVIDER_ROLE: &'static str = "production_local";

/// How many documents the local embedding-model provider embeds per query
/// unless configured otherwise.
pub const DEFAULT_LOCAL_FASTEMBED_DOCUMENT_PREFILTER_LIMIT: usize = 128;

/// Which embedding provider semantic retrieval uses, and how.
#[derive(Debug, Clone)]
pub struct SemanticProviderConfig {
    pub provider: String,
    pub model: String,
    pub dimensions: usize,
    pub distance_metric: String,
    pub provider_role: String,
    pub quality_backend: bool,
    pub local_only: bool,
    pub available: bool,
}

/// The mathematical content of a provider configuration.
pub ghost struct ProviderView {
    pub provider: Seq<char>,
    pub model: Seq<char>,
    pub dimensions: usize,
    pub distance_metric: Seq<char>,
    pub provider_role: Seq<char>,
    pub quality_backend: bool,
    pub local_only: bool,
    pub available: bool,
}

impl View for SemanticProviderConfig {
    type V = ProviderView;

    open spec fn view(&self) -> ProviderView {
        ProviderView {
            provider: self.provider@,
            model: self.model@,
            dimensions: self.dimensions,
            distance_metric: self.distance_metric@,
            provider_role: self.provider_role@,
            quality_backend: self.quality_backend,
            local_only: self.local_only,
            available: self.available,
        }
    }
}

/// The default provider: local hashing, available, local only.
pub open spec fn default_provider() -> ProviderView {
    ProviderView {
        provider: "local_hash"@,
        model: "ctxpack-local-hash-v1"@,
        dimensions: 64,
        distance_metric: "cosine"@,
        provider_role: "deterministic_scaffold"@,
        quality_backend: false,
        local_only: true,
        available: true,
    }
}

impl Default for SemanticProviderConfig {
    fn default() -> (c: SemanticProviderConfig)
        ensures
            c@ == default_provider(),
    {
        SemanticProviderConfig {
            provider: String::from_str("local_hash"),
            model: String::from_str("ctxpack-local-hash-v1"),
            dimensions: 64,
            distance_metric: String::from_str("cosine"),
            provider_role: String::from_str("deterministic_scaffold"),
            quality_backend: false,
            local_only: true,
            available: true,
        }
    }
}

/// Whether and how to run semantic retrieval.
#[derive(Debug, Clone)]
pub struct SemanticOptions {
    pub limit: usize,
    pub enabled: bool,
    pub provider: SemanticProviderConfig,
}

impl Default for SemanticOptions {
    fn default() -> (o: SemanticOptions)
        ensures
            o.limit == 10,
            !o.enabled,
            o.provider@ == default_provider(),
    {
        SemanticOptions { limit: 10, enabled: false, provider: SemanticProviderConfig::default() }
    }
}

/// How many semantic documents to report.
#[derive(Debug, Clone, Copy, PartialEq, Eq, Structural)]
pub struct SemanticDocumentOptions {
    pub limit: usize,
}

impl Default for SemanticDocumentOptions {
    fn default() -> (o: SemanticDocumentOptions)
        ensures
            o.limit == 500,
    {
        SemanticDocumentOptions { limit: 500 }
    }
}

/// A trimmed value, or the default when it is blank.
pub open spec fn or_default(value: Seq<char>, default: Seq<char>) -> Seq<char> {
    if trim(value).len() == 0 {
        default
    } else {
        trim(value)
    }
}

/// Executable `or_default`.
pub fn empty_to_default(value: &str, default: &str) -> (r: String)
    ensures
        r@ == or_default(value@, default@),
{
    let v = chars_of(value);
    let t = trim_vec(&v);
    if t.len() == 0 {
        String::from_str(default)
    } else {
        string_of(&t)
    }
}

/// Dimensions kept within 8 and 4096.
pub open spec fn clamp_dimensions(d: usize) -> usize {
    if d < 8 {
        8
    } else if d > 4096 {
        4096
    } else {
        d
    }
}

/// The models of the local embedding provider that have 384 dimensions.
pub open spec fn small_models() -> Seq<Seq<char>> {
    seq!["AllMiniLML6V2"@, "AllMiniLML6V2Q"@, "AllMiniLML12V2"@, "AllMiniLML12V2Q"@]
}

/// The dimensions of a local embedding model.
pub open spec fn model_dimensions(model: Seq<char>) -> usize {
    if small_models().contains(model) {
        384
    } else {
        768
    }
}

/// Executable `model_dimensions`.
pub fn local_fastembed_model_dimensions(model: &str) -> (d: usize)
    ensures
        d == model_dimensions(model@),
{
    let m = chars_of(model);
    let names = ["AllMiniLML6V2", "AllMiniLML6V2Q", "AllMiniLML12V2", "AllMiniLML12V2Q"];
    assert(crate::text::str_seq(names@) =~= small_models());
    let mut i: usize = 0;
    while i < 4
        invariant
            i <= 4,
            crate::text::str_seq(names@) == small_models(),
            m@ == model@,
            forall|k: int| 0 <= k < i ==> small_models()[k] != m@,
        decreases 4 - i,
    {
        if crate::text::eq_str(&m, names[i]) {
            assert(small_models()[i as int] == m@);
            assert(small_models().contains(m@));
            return 384;
        }
        i += 1;
    }
    768
}

/// Whether this build embeds with local models. It does not: the library is
/// built without the local embedding-model backend.
pub open spec fn fastembed_available() -> bool {
    false
}

/// A provider configuration put in order. Blank fields take their defaults
/// and dimensions are kept within 8 and 4096. The local embedding provider
/// takes its default model for a blank or hash model, and its model's
/// dimensions when the default dimensions were given; it is available only
/// when this build embeds locally. Any other provider than local hashing is
/// unsupported and unavailable.
pub open spec fn normalized(p: ProviderView) -> ProviderView {
    let id = or_default(p.provider, "local_hash"@);
    let distance = or_default(p.distance_metric, "cosine"@);
    if id == "local_fastembed"@ {
        let model = if trim(p.model).len() == 0 || p.model == "ctxpack-local-hash-v1"@ {
            "JinaEmbeddingsV2BaseCode"@
        } else {
            trim(p.model)
        };
        ProviderView {
            provider: id,
            model,
            dimensions: if p.dimensions == 64 {
                model_dimensions(model)
            } else {
                clamp_dimensions(p.dimensions)
            },
            distance_metric: distance,
            provider_role: "production_local"@,
            quality_backend: true,
            local_only: true,
            available: fastembed_available(),
        }
    } else if id != "local_hash"@ {
        ProviderView {
            provider: id,
            model: or_default(p.model, "ctxpack-local-hash-v1"@),
            dimensions: if p.dimensions == 64 {
                64
            } else {
                clamp_dimensions(p.dimensions)
            },
            distance_metric: distance,
            provider_role: "unsupported"@,
            quality_backend: false,
            local_only: true,
            available: false,
        }
    } else {
        ProviderView {
            provider: id,
            model: or_default(p.model, "ctxpack-local-hash-v1"@),
            dimensions: clamp_dimensions(p.dimensions),
            distance_metric: distance,
            provider_role: "deterministic_scaffold"@,
            quality_backend: false,
            local_only: true,
            available: true,
        }
    }
}

/// A configuration normalized once, and whose model was already trimmed,
/// is unchanged when normalized again.
pub proof fn lemma_normalized_idempotent(p: ProviderView)
    requires
        p.model == trim(p.model),
    ensures
        normalized(normalized(p)) == normalized(p),
{
    reveal_strlit("local_hash");
    reveal_strlit("cosine");
    reveal_strlit("JinaEmbeddingsV2BaseCode");
    reveal_strlit("ctxpack-local-hash-v1");
    reveal_strlit("local_fastembed");
    crate::text::lemma_trim_idempotent(p.provider);
    crate::text::lemma_trim_idempotent(p.distance_metric);
    crate::text::lemma_trim_idempotent(p.model);
    let lits = seq!["local_hash"@, "cosine"@, "JinaEmbeddingsV2BaseCode"@, "ctxpack-local-hash-v1"@];
    assert forall|i: int| 0 <= i < 4 implies trim(#[trigger] lits[i]) == lits[i] by {
        let l = lits[i];
        assert(!crate::text::is_ws(l[0]));
        assert(!crate::text::is_ws(l.last()));
        assert(crate::text::trim_start(l) == l);
        assert(crate::text::trim_end(l) == l);
    }
    assert(trim(lits[0]) == lits[0]);
    assert(trim(lits[1]) == lits[1]);
    assert(trim(lits[2]) == lits[2]);
    assert(trim(lits[3]) == lits[3]);
    let q = normalized(p);
    assert(q.provider == or_default(p.provider, "local_hash"@));
    assert(or_default(q.provider, "local_hash"@) == q.provider);
    assert(or_default(q.distance_metric, "cosine"@) == q.distance_metric);
    assert(or_default(q.model, "ctxpack-local-hash-v1"@) == q.model);
    assert(q.dimensions != 64 || q.provider != "local_fastembed"@);
}

fn clamp_dims_exec(d: usize) -> (r: usize)
    ensures
        r == clamp_dimensions(d),
{
    if d < 8 {
        8
    } else if d > 4096 {
        4096
    } else {
        d
    }
}

/// Executable `normalized`.
pub fn normalized_provider(provider: &SemanticProviderConfig) -> (r: SemanticProviderConfig)
    ensures
        r@ == normalized(provider@),
{
    let id = empty_to_default(provider.provider.as_str(), "local_hash");
    let distance = empty_to_default(provider.distance_metric.as_str(), "cosine");
    let idv = chars_of(id.as_str());
    if crate::text::eq_str(&idv, "local_fastembed") {
        let mv = chars_of(provider.model.as_str());
        let mt = trim_vec(&mv);
        let model = if mt.len() == 0 || crate::text::eq_str(&mv, "ctxpack-local-hash-v1") {
            String::from_str("JinaEmbeddingsV2BaseCode")
        } else {
            string_of(&mt)
        };
        let dimensions = if provider.dimensions == 64 {
            local_fastembed_model_dimensions(model.as_str())
        } else {
            clamp_dims_exec(provider.dimensions)
        };
        return SemanticProviderConfig {
            provider: id,
            model,
            dimensions,
            distance_metric: distance,
            provider_role: String::from_str("production_local"),
            quality_backend: true,
            local_only: true,
            available: false,
        };
    }
    let model = empty_to_default(provider.model.as_str(), "ctxpack-local-hash-v1");
    if !crate::text::eq_str(&idv, "local_hash") {
        let dimensions = if provider.dimensions == 64 {
            64
        } else {
            clamp_dims_exec(provider.dimensions)
        };
        return SemanticProviderConfig {
            provider: id,
            model,
            dimensions,
            distance_metric: distance,
            provider_role: String::from_str("unsupported"),
            quality_backend: false,
            local_only: true,
            available: false,
        };
    }
    SemanticProviderConfig {
        provider: id,
        model,
        dimensions: clamp_dims_exec(provider.dimensions),
        distance_metric: distance,
        provider_role: String::from_str("deterministic_scaffold"),
        quality_backend: false,
        local_only: true,
        available: true,
    }
}


// ---------------------------------------------------------------------
// Semantic documents
// ---------------------------------------------------------------------
/// The bits of the `f32` weight 0.4.
pub const WEIGHT_METADATA_BITS: u32 = 0x3ECC_CCCD;

/// The bits of the `f32` weight 0.8.
pub const WEIGHT_SYMBOL_BITS: u32 = 0x3F4C_CCCD;

/// The bits of the `f32` weight 1.0.
pub const WEIGHT_EXPORTED_BITS: u32 = 0x3F80_0000;

/// The bits of the `f32` weight 0.7.
pub const WEIGHT_DOC_BITS: u32 = 0x3F33_3333;

/// What a facet of a semantic document describes.
#[derive(Debug, Clone, Copy, PartialEq, Eq, Structural)]
pub enum SemanticDocumentFacetKind {
    Metadata,
    Symbol,
    Dependency,
    Precision,
    RelatedTest,
    Doc,
}

/// A range of lines.
#[derive(Debug, Clone, Copy, PartialEq, Eq, Structural)]
pub struct LineRange {
    pub start: u32,
    pub end: u32,
}

/// One source-free fact about a file. The weight is an `f32` given by its
/// bits; a clamped weight is that value brought into `[0, 1]`.
#[derive(Debug, Clone)]
pub struct SemanticDocumentFacet {
    pub kind: SemanticDocumentFacetKind,
    pub label: String,
    pub value: String,
    pub path: Option<String>,
    pub line_range: Option<LineRange>,
    pub weight_bits: u32,
    pub clamp_weight: bool,
}

/// The mathematical content of a facet.
pub ghost struct FacetView {
    pub kind: SemanticDocumentFacetKind,
    pub label: Seq<char>,
    pub value: Seq<char>,
    pub path: Option<Seq<char>>,
    pub line_range: Option<LineRange>,
    pub weight_bits: u32,
    pub clamp_weight: bool,
}

impl View for SemanticDocumentFacet {
    type V = FacetView;

    open spec fn view(&self) -> FacetView {
        FacetView {
            kind: self.kind,
            label: self.label@,
            value: self.value@,
            path: opt_view(self.path),
            line_range: self.line_range,
            weight_bits: self.weight_bits,
            clamp_weight: self.clamp_weight,
        }
    }
}

/// The views of facets.
pub open spec fn facet_views(v: Seq<SemanticDocumentFacet>) -> Seq<FacetView> {
    v.map_values(|f: SemanticDocumentFacet| f@)
}

/// Where data may go: always local, never to a remote embedding service.
#[derive(Debug, Clone, Copy, PartialEq, Eq, Structural)]
pub struct PrivacyStatus {
    pub local_only: bool,
    pub remote_embeddings_used: bool,
}

impl PrivacyStatus {
    /// Local only, no remote embeddings.
    pub fn local_only() -> (p: PrivacyStatus)
        ensures
            p.local_only && !p.remote_embeddings_used,
    {
        PrivacyStatus { local_only: true, remote_embeddings_used: false }
    }
}

/// A source-free description of one file.
#[derive(Debug, Clone)]
pub struct SemanticDocument {
    pub id: String,
    pub path: String,
    pub role: FileRole,
    pub language: Option<String>,
    pub safe_hash: String,
    pub summary: String,
    pub facets: Vec<SemanticDocumentFacet>,
    pub source_text_logged: bool,
    pub privacy_status: PrivacyStatus,
}

/// The mathematical content of a document.
pub ghost struct DocumentView {
    pub id: Seq<char>,
    pub path: Seq<char>,
    pub role: FileRole,
    pub language: Option<Seq<char>>,
    pub safe_hash: Seq<char>,
    pub summary: Seq<char>,
    pub facets: Seq<FacetView>,
    pub source_text_logged: bool,
    pub privacy_status: PrivacyStatus,
}

impl View for SemanticDocument {
    type V = DocumentView;

    open spec fn view(&self) -> DocumentView {
        DocumentView {
            id: self.id@,
            path: self.path@,
            role: self.role,
            language: opt_view(self.language),
            safe_hash: self.safe_hash@,
            summary: self.summary@,
            facets: facet_views(self.facets@),
            source_text_logged: self.source_text_logged,
            privacy_status: self.privacy_status,
        }
    }
}

/// The views of documents.
pub open spec fn document_views(v: Seq<SemanticDocument>) -> Seq<DocumentView> {
    v.map_values(|d: SemanticDocument| d@)
}

/// A related test found for a source file; its confidence is an `f32`
/// given by its bits.
#[derive(Debug, Clone)]
pub struct RelatedTestBrief {
    pub path: String,
    pub reason: String,
    pub confidence_bits: u32,
}

/// What looking up the related tests of a file gave.
#[derive(Debug, Clone)]
pub enum RelatedOutcome {
    /// No lookup was made.
    NotRequested,
    /// The related tests, best first, and the lookup's diagnostics.
    Tests(Vec<RelatedTestBrief>, Vec<Diagnostic>),
    /// The lookup failed with this error.
    Failed(String),
}

/// Whether a file gets a semantic document: a source, test, config,
/// schema or docs file that is neither generated nor ignored.
pub open spec fn document_file(f: FileInventoryEntry) -> bool {
    !f.generated && !f.ignored && (f.role == FileRole::Source || f.role == FileRole::Test
        || f.role == FileRole::Config || f.role == FileRole::Schema || f.role == FileRole::Docs)
}

/// Executable `document_file`.
pub fn semantic_document_file(file: &FileInventoryEntry) -> (b: bool)
    ensures
        b == document_file(*file),
{
    !file.generated && !file.ignored && (file.role == FileRole::Source || file.role == FileRole::Test
        || file.role == FileRole::Config || file.role == FileRole::Schema || file.role
        == FileRole::Docs)
}

/// The name of a role, as `Debug` writes it.
pub open spec fn role_name(r: FileRole) -> Seq<char> {
    match r {
        FileRole::Source => "Source"@,
        FileRole::Test => "Test"@,
        FileRole::Config => "Config"@,
        FileRole::Schema => "Schema"@,
        FileRole::Docs => "Docs"@,
        FileRole::Generated => "Generated"@,
        FileRole::Sensitive => "Sensitive"@,
        FileRole::Unknown => "Unknown"@,
    }
}

/// Executable `role_name`.
pub fn role_name_str(r: FileRole) -> (s: &'static str)
    ensures
        s@ == role_name(r),
{
    match r {
        FileRole::Source => "Source",
        FileRole::Test => "Test",
        FileRole::Config => "Config",
        FileRole::Schema => "Schema",
        FileRole::Docs => "Docs",
        FileRole::Generated => "Generated",
        FileRole::Sensitive => "Sensitive",
        FileRole::Unknown => "Unknown",
    }
}

/// The name of a symbol kind, as `Debug` writes it, lowercased.
pub open spec fn kind_label(k: SymbolKind) -> Seq<char> {
    match k {
        SymbolKind::Function => "function"@,
        SymbolKind::Method => "method"@,
        SymbolKind::Class => "class"@,
        SymbolKind::Interface => "interface"@,
        SymbolKind::Type => "type"@,
        SymbolKind::Constant => "constant"@,
        SymbolKind::Import => "import"@,
        SymbolKind::Module => "module"@,
    }
}

fn kind_label_str(k: SymbolKind) -> (s: &'static str)
    ensures
        s@ == kind_label(k),
{
    match k {
        SymbolKind::Function => "function",
        SymbolKind::Method => "method",
        SymbolKind::Class => "class",
        SymbolKind::Interface => "interface",
        SymbolKind::Type => "type",
        SymbolKind::Constant => "constant",
        SymbolKind::Import => "import",
        SymbolKind::Module => "module",
    }
}

/// `value` cut before the first `marker`, if there is one.
pub open spec fn cut_at(value: Seq<char>, marker: Seq<char>) -> Seq<char> {
    match find(value, marker) {
        Some(i) => value.take(i),
        None => value,
    }
}

fn cut_at_exec(value: &Vec<char>, marker: &str) -> (r: Vec<char>)
    ensures
        r@ == cut_at(value@, marker@),
{
    let m = chars_of(marker);
    match find_exec(value, &m) {
        Some(i) => {
            proof {
                crate::text::lemma_first_occ_unique(value@, m@, i as int);
            }
            slice_of(value, 0, i)
        },
        None => slice_of(value, 0, value.len()),
    }
}

/// The signature text of a symbol before any body, default or initializer
/// (`{`, `=>`, `=`), without trailing `;`, or the symbol's name when
/// nothing is left.
pub open spec fn signature_core(name: Seq<char>, signature: Seq<char>) -> Seq<char> {
    let v = cut_at(cut_at(cut_at(trim(signature), "{"@), "=>"@), "="@);
    let w = trim(trim_end_matches(trim(v), ";"@));
    if w.len() == 0 {
        name
    } else {
        w
    }
}

/// The signature core cut to at most 180 bytes.
pub open spec fn safe_signature(name: Seq<char>, signature: Seq<char>) -> Seq<char> {
    truncate_bytes(signature_core(name, signature), 180)
}

/// Whether the cut to 180 bytes, if any, falls on a character boundary
/// (`String::truncate` panics otherwise).
pub open spec fn signature_cut_ok(name: Seq<char>, signature: Seq<char>) -> bool {
    let c = signature_core(name, signature);
    utf8_len(c) <= 180 || is_boundary(c, 180)
}

/// Executable `safe_signature`.
pub fn safe_symbol_signature(name: &str, signature: &str) -> (r: String)
    requires
        signature_cut_ok(name@, signature@),
    ensures
        r@ == safe_signature(name@, signature@),
{
    let sv = chars_of(signature);
    let t = trim_vec(&sv);
    let a = cut_at_exec(&t, "{");
    let b = cut_at_exec(&a, "=>");
    let c = cut_at_exec(&b, "=");
    let d = trim_vec(&c);
    let e = trim_end_matches_str(&d, ";");
    let w = trim_vec(&e);
    let core = if w.len() == 0 {
        chars_of(name)
    } else {
        w
    };
    let out = truncate_bytes_exec(&core, 180);
    string_of(&out)
}

/// The document id: `sem_doc_` and the BLAKE3 digest of `path:hash`.
pub open spec fn document_id(path: Seq<char>, hash: Seq<char>) -> Seq<char> {
    "sem_doc_"@ + blake3_hex(encode_utf8(path + ":"@ + hash))
}

/// Executable `document_id`.
pub fn semantic_document_id(path: &str, safe_hash: &str) -> (r: String)
    ensures
        r@ == document_id(path@, safe_hash@),
{
    let mut key: Vec<char> = Vec::new();
    extend_str(&mut key, path);
    extend_str(&mut key, ":");
    extend_str(&mut key, safe_hash);
    let ks = string_of(&key);
    let digest = blake3_hex_of(ks.as_str().as_bytes());
    let mut out: Vec<char> = Vec::new();
    extend_str(&mut out, "sem_doc_");
    extend_str(&mut out, digest.as_str());
    string_of(&out)
}

/// The document summary.
pub open spec fn document_summary(f: FileInventoryEntry, facet_count: nat) -> Seq<char> {
    let language = match f.language {
        Some(l) => l@,
        None => "unknown"@,
    };
    role_name(f.role) + " file `"@ + f.path@ + "` in "@ + language + " with "@ + decimal(facet_count)
        + " source-free semantic facet(s)"@
}

/// Executable `document_summary`.
pub fn semantic_document_summary(file: &FileInventoryEntry, facet_count: usize) -> (r: String)
    ensures
        r@ == document_summary(*file, facet_count as nat),
{
    let mut out: Vec<char> = Vec::new();
    extend_str(&mut out, role_name_str(file.role));
    extend_str(&mut out, " file `");
    extend_str(&mut out, file.path.as_str());
    extend_str(&mut out, "` in ");
    match &file.language {
        Some(l) => extend_str(&mut out, l.as_str()),
        None => extend_str(&mut out, "unknown"),
    }
    extend_str(&mut out, " with ");
    extend_chars(&mut out, &decimal_chars(facet_count as u64));
    extend_str(&mut out, " source-free semantic facet(s)");
    string_of(&out)
}

/// At most the first `n` elements.
pub open spec fn first_n<A>(s: Seq<A>, n: nat) -> Seq<A> {
    if s.len() <= n {
        s
    } else {
        s.take(n as int)
    }
}

/// The symbols of the file at `p`, in order.
pub open spec fn symbols_on(syms: Seq<CodeSymbol>, p: Seq<char>) -> Seq<CodeSymbol>
    decreases syms.len(),
{
    if syms.len() == 0 {
        seq![]
    } else {
        symbols_on(syms.drop_last(), p) + if syms.last().path@ == p {
            seq![syms.last()]
        } else {
            seq![]
        }
    }
}

/// The edges that touch the file at `p`, in order; an edge from the file to
/// itself counts twice.
pub open spec fn edges_touching(edges: Seq<DependencyEdge>, p: Seq<char>) -> Seq<DependencyEdge>
    decreases edges.len(),
{
    if edges.len() == 0 {
        seq![]
    } else {
        let e = edges.last();
        edges_touching(edges.drop_last(), p) + (if e.source_path@ == p {
            seq![e]
        } else {
            seq![]
        }) + (if e.target_path@ == p {
            seq![e]
        } else {
            seq![]
        })
    }
}

/// A metadata facet.
pub open spec fn metadata_facet(label: Seq<char>, value: Seq<char>) -> FacetView {
    FacetView {
        kind: SemanticDocumentFacetKind::Metadata,
        label,
        value,
        path: None,
        line_range: None,
        weight_bits: WEIGHT_METADATA_BITS,
        clamp_weight: false,
    }
}

/// The facet of a symbol.
pub open spec fn symbol_facet(s: CodeSymbol) -> FacetView {
    FacetView {
        kind: SemanticDocumentFacetKind::Symbol,
        label: kind_label(s.kind),
        value: safe_signature(s.name@, s.signature@),
        path: Some(s.path@),
        line_range: Some(
            LineRange {
                start: s.start_line,
                end: if s.end_line < s.start_line {
                    s.start_line
                } else {
                    s.end_line
                },
            },
        ),
        weight_bits: if s.exported {
            WEIGHT_EXPORTED_BITS
        } else {
            WEIGHT_SYMBOL_BITS
        },
        clamp_weight: false,
    }
}

/// The facet of an edge touching the file at `p`: it names the other end.
pub open spec fn edge_facet(e: DependencyEdge, p: Seq<char>) -> FacetView {
    FacetView {
        kind: if starts_with(e.kind@, "precision:"@) {
            SemanticDocumentFacetKind::Precision
        } else {
            SemanticDocumentFacetKind::Dependency
        },
        label: e.kind@,
        value: e.reason@,
        path: Some(
            if e.source_path@ == p {
                e.target_path@
            } else {
                e.source_path@
            },
        ),
        line_range: None,
        weight_bits: e.confidence_bits,
        clamp_weight: true,
    }
}

/// A facet path that names the other end of an edge touching the file at
/// `p`: the target of an edge leaving `p`, the source of an edge coming
/// into `p` from another file.
pub open spec fn names_other_end(path: Option<Seq<char>>, e: DependencyEdge, p: Seq<char>) -> bool {
    (e.source_path@ == p && path == Some(e.target_path@)) || (e.target_path@ == p && e.source_path@
        != p && path == Some(e.source_path@))
}

/// The facet of an edge names the edge's other end: its target when the
/// edge leaves the file, its source when the edge comes into the file from
/// another one; it is a precision facet exactly for a precision edge.
pub proof fn lemma_edge_facet_names_other_end(e: DependencyEdge, p: Seq<char>)
    ensures
        e.source_path@ == p ==> edge_facet(e, p).path == Some(e.target_path@),
        e.target_path@ == p && e.source_path@ != p ==> edge_facet(e, p).path == Some(e.source_path@),
        (edge_facet(e, p).kind == SemanticDocumentFacetKind::Precision) == starts_with(
            e.kind@,
            "precision:"@,
        ),
        edge_facet(e, p).kind == SemanticDocumentFacetKind::Precision || edge_facet(e, p).kind
            == SemanticDocumentFacetKind::Dependency,
{
}

proof fn lemma_edges_touching(edges: Seq<DependencyEdge>, p: Seq<char>)
    ensures
        forall|i: int| 0 <= i < edges_touching(edges, p).len() ==> edges.contains(
            #[trigger] edges_touching(edges, p)[i],
        ) && (edges_touching(edges, p)[i].source_path@ == p || edges_touching(edges, p)[i].target_path@
            == p),
    decreases edges.len(),
{
    if edges.len() > 0 {
        let d = edges.drop_last();
        lemma_edges_touching(d, p);
        let t = edges_touching(d, p);
        let e = edges.last();
        let a = if e.source_path@ == p { seq![e] } else { Seq::<DependencyEdge>::empty() };
        let b = if e.target_path@ == p { seq![e] } else { Seq::<DependencyEdge>::empty() };
        let r = t + a + b;
        assert(edges_touching(edges, p) == r);
        assert(edges[edges.len() - 1] == e);
        assert forall|i: int| 0 <= i < r.len() implies edges.contains(#[trigger] r[i]) && (r[i].source_path@
            == p || r[i].target_path@ == p) by {
            if i < t.len() {
                assert(r[i] == t[i]);
                let k = choose|k: int| 0 <= k < d.len() && d[k] == t[i];
                assert(edges[k] == t[i]);
            } else if i < t.len() + a.len() {
                assert(r[i] == a[i - t.len()]);
            } else {
                assert(r[i] == b[i - t.len() - a.len()]);
            }
        }
    }
}

/// Every dependency or precision facet of a file's document names the
/// other end of one of the graph's edges touching that file: the importer
/// of the file for an edge coming in, the imported file for an edge going
/// out; never the file itself unless the edge joins the file to itself.
pub proof fn lemma_document_edge_facets(
    f: FileInventoryEntry,
    syms: Seq<CodeSymbol>,
    edges: Seq<DependencyEdge>,
    related: RelatedOutcome,
)
    ensures
        forall|i: int|
            0 <= i < document_facets(f, syms, edges, related).len() && ((#[trigger] document_facets(
                f,
                syms,
                edges,
                related,
            )[i]).kind == SemanticDocumentFacetKind::Dependency || document_facets(f, syms, edges, related)[i].kind
                == SemanticDocumentFacetKind::Precision) ==> exists|e: DependencyEdge|
                #[trigger] edges.contains(e) && names_other_end(
                    document_facets(f, syms, edges, related)[i].path,
                    e,
                    f.path@,
                ),
{
    let p = f.path@;
    let a = seq![metadata_facet("role"@, role_label(f.role))];
    let b = match f.language {
        Some(l) => seq![metadata_facet("language"@, l@)],
        None => Seq::<FacetView>::empty(),
    };
    let c = first_n(symbols_on(syms, p), 12).map_values(|s: CodeSymbol| symbol_facet(s));
    let touching = edges_touching(edges, p);
    lemma_edges_touching(edges, p);
    let dsel = first_n(touching, 12);
    let d = dsel.map_values(|e: DependencyEdge| edge_facet(e, p));
    let e_part = if f.role == FileRole::Source {
        match related {
            RelatedOutcome::Tests(ts, _) => first_n(ts@, 3).map_values(|t: RelatedTestBrief| test_facet(t)),
            _ => Seq::<FacetView>::empty(),
        }
    } else {
        Seq::<FacetView>::empty()
    };
    let g = if f.role == FileRole::Docs { seq![doc_facet(p)] } else { Seq::<FacetView>::empty() };
    let all = a + b + c + d + e_part + g;
    assert(document_facets(f, syms, edges, related) == all);
    assert forall|i: int|
        0 <= i < all.len() && ((#[trigger] all[i]).kind == SemanticDocumentFacetKind::Dependency
            || all[i].kind == SemanticDocumentFacetKind::Precision) implies exists|e: DependencyEdge|
        #[trigger] edges.contains(e) && names_other_end(all[i].path, e, p) by {
        let n1 = a.len() + b.len();
        let n2 = n1 + c.len();
        let n3 = n2 + d.len();
        let n4 = n3 + e_part.len();
        if i < a.len() {
            assert(all[i] == a[i]);
        } else if i < n1 {
            assert(all[i] == b[i - a.len()]);
        } else if i < n2 {
            assert(all[i] == c[i - n1]);
        } else if i < n3 {
            let j = i - n2;
            assert(all[i] == d[j]);
            assert(dsel[j] == touching[j]);
            let x = touching[j];
            assert(edges.contains(x));
            assert(d[j] == edge_facet(x, p));
            assert(names_other_end(all[i].path, x, p));
        } else if i < n4 {
            assert(all[i] == e_part[i - n3]);
        } else {
            assert(all[i] == g[i - n4]);
        }
    }
}

/// The facet of a related test.
pub open spec fn test_facet(t: RelatedTestBrief) -> FacetView {
    FacetView {
        kind: SemanticDocumentFacetKind::RelatedTest,
        label: "related_test"@,
        value: t.reason@,
        path: Some(t.path@),
        line_range: None,
        weight_bits: t.confidence_bits,
        clamp_weight: true,
    }
}

/// The facet of a docs file.
pub open spec fn doc_facet(p: Seq<char>) -> FacetView {
    FacetView {
        kind: SemanticDocumentFacetKind::Doc,
        label: "doc_file"@,
        value: p,
        path: Some(p),
        line_range: None,
        weight_bits: WEIGHT_DOC_BITS,
        clamp_weight: false,
    }
}

/// The lowercased name of a role.
pub open spec fn role_label(r: FileRole) -> Seq<char> {
    lower(role_name(r))
}

/// The facets of a document: role and language, the first 12 symbols, the
/// first 12 edges, for a source file the first 3 related tests, and for a
/// docs file the file itself.
pub open spec fn document_facets(
    f: FileInventoryEntry,
    syms: Seq<CodeSymbol>,
    edges: Seq<DependencyEdge>,
    related: RelatedOutcome,
) -> Seq<FacetView> {
    let p = f.path@;
    seq![metadata_facet("role"@, role_label(f.role))] + (match f.language {
        Some(l) => seq![metadata_facet("language"@, l@)],
        None => seq![],
    }) + first_n(symbols_on(syms, p), 12).map_values(|s: CodeSymbol| symbol_facet(s))
        + first_n(edges_touching(edges, p), 12).map_values(|e: DependencyEdge| edge_facet(e, p))
        + (if f.role == FileRole::Source {
        match related {
            RelatedOutcome::Tests(ts, _) => first_n(ts@, 3).map_values(
                |t: RelatedTestBrief| test_facet(t),
            ),
            _ => seq![],
        }
    } else {
        seq![]
    }) + (if f.role == FileRole::Docs {
        seq![doc_facet(p)]
    } else {
        seq![]
    })
}

/// The diagnostics a document adds: those of its related-test lookup, or a
/// warning when the lookup failed.
pub open spec fn document_diagnostics(f: FileInventoryEntry, related: RelatedOutcome) -> Seq<DiagnosticView> {
    if f.role == FileRole::Source {
        match related {
            RelatedOutcome::Tests(_, ds) => diag_views(ds@),
            RelatedOutcome::Failed(e) => seq![
                diagnostic_of(
                    "semantic_document_tests_degraded"@,
                    DiagnosticSeverity::Warning,
                    "Semantic document related-test enrichment failed for "@ + f.path@ + ": "@
                        + e@,
                    seq![f.path@],
                ),
            ],
            RelatedOutcome::NotRequested => seq![],
        }
    } else {
        seq![]
    }
}

/// The document of a file.
pub open spec fn document_of(
    f: FileInventoryEntry,
    syms: Seq<CodeSymbol>,
    edges: Seq<DependencyEdge>,
    related: RelatedOutcome,
) -> DocumentView {
    let facets = document_facets(f, syms, edges, related);
    DocumentView {
        id: document_id(f.path@, f.hash@),
        path: f.path@,
        role: f.role,
        language: opt_view(f.language),
        safe_hash: f.hash@,
        summary: document_summary(f, facets.len()),
        facets,
        source_text_logged: false,
        privacy_status: PrivacyStatus { local_only: true, remote_embeddings_used: false },
    }
}

/// Whether the signatures that the document of `f` uses can be cut safely.
pub open spec fn document_signatures_ok(f: FileInventoryEntry, syms: Seq<CodeSymbol>) -> bool {
    let used = first_n(symbols_on(syms, f.path@), 12);
    forall|i: int| 0 <= i < used.len() ==> signature_cut_ok(#[trigger] used[i].name@, used[i].signature@)
}


// ---------------------------------------------------------------------
// Building documents
// ---------------------------------------------------------------------
/// The elements at some indices, in index order.
pub open spec fn pick<A>(s: Seq<A>, idx: Seq<usize>) -> Seq<A> {
    idx.map_values(|k: usize| s[k as int])
}

fn symbol_indices(syms: &Vec<CodeSymbol>, p: &String) -> (idx: Vec<usize>)
    ensures
        forall|j: int| 0 <= j < idx@.len() ==> idx@[j] < syms@.len(),
        pick(syms@, idx@) == symbols_on(syms@, p@),
{
    let mut idx: Vec<usize> = Vec::new();
    let mut i: usize = 0;
    assert(syms@.take(0) =~= Seq::<CodeSymbol>::empty());
    assert(pick(syms@, idx@) =~= Seq::<CodeSymbol>::empty());
    while i < syms.len()
        invariant
            i <= syms@.len(),
            forall|j: int| 0 <= j < idx@.len() ==> idx@[j] < i,
            pick(syms@, idx@) == symbols_on(syms@.take(i as int), p@),
        decreases syms.len() - i,
    {
        assert(syms@.take(i + 1).drop_last() =~= syms@.take(i as int));
        assert(syms@.take(i + 1).last() == syms@[i as int]);
        let ghost before = pick(syms@, idx@);
        if crate::text::string_eq(&syms[i].path, p) {
            idx.push(i);
            assert(pick(syms@, idx@) =~= before.push(syms@[i as int]));
        } else {
            assert(before + Seq::<CodeSymbol>::empty() =~= before);
        }
        i += 1;
    }
    assert(syms@.take(syms@.len() as int) =~= syms@);
    idx
}

fn edge_indices(edges: &Vec<DependencyEdge>, p: &String) -> (idx: Vec<usize>)
    ensures
        forall|j: int| 0 <= j < idx@.len() ==> idx@[j] < edges@.len(),
        pick(edges@, idx@) == edges_touching(edges@, p@),
{
    let mut idx: Vec<usize> = Vec::new();
    let mut i: usize = 0;
    assert(edges@.take(0) =~= Seq::<DependencyEdge>::empty());
    assert(pick(edges@, idx@) =~= Seq::<DependencyEdge>::empty());
    while i < edges.len()
        invariant
            i <= edges@.len(),
            forall|j: int| 0 <= j < idx@.len() ==> idx@[j] < i,
            pick(edges@, idx@) == edges_touching(edges@.take(i as int), p@),
        decreases edges.len() - i,
    {
        let ghost t = edges@.take(i + 1);
        assert(t.drop_last() =~= edges@.take(i as int));
        assert(t.last() == edges@[i as int]);
        let ghost before = pick(edges@, idx@);
        let from = crate::text::string_eq(&edges[i].source_path, p);
        if from {
            idx.push(i);
        }
        let ghost mid = pick(edges@, idx@);
        assert(mid =~= before + if from {
            seq![edges@[i as int]]
        } else {
            Seq::<DependencyEdge>::empty()
        });
        let to = crate::text::string_eq(&edges[i].target_path, p);
        if to {
            idx.push(i);
        }
        assert(pick(edges@, idx@) =~= mid + if to {
            seq![edges@[i as int]]
        } else {
            Seq::<DependencyEdge>::empty()
        });
        i += 1;
    }
    assert(edges@.take(edges@.len() as int) =~= edges@);
    idx
}

fn symbol_facet_exec(s: &CodeSymbol) -> (f: SemanticDocumentFacet)
    requires
        signature_cut_ok(s.name@, s.signature@),
    ensures
        f@ == symbol_facet(*s),
{
    let value = safe_symbol_signature(s.name.as_str(), s.signature.as_str());
    let end = if s.end_line < s.start_line {
        s.start_line
    } else {
        s.end_line
    };
    SemanticDocumentFacet {
        kind: SemanticDocumentFacetKind::Symbol,
        label: String::from_str(kind_label_str(s.kind)),
        value,
        path: Some(s.path.clone()),
        line_range: Some(LineRange { start: s.start_line, end }),
        weight_bits: if s.exported {
            WEIGHT_EXPORTED_BITS
        } else {
            WEIGHT_SYMBOL_BITS
        },
        clamp_weight: false,
    }
}

fn edge_facet_exec(e: &DependencyEdge, p: &String) -> (f: SemanticDocumentFacet)
    ensures
        f@ == edge_facet(*e, p@),
{
    let kind_chars = chars_of(e.kind.as_str());
    let kind = if starts_with_str(&kind_chars, "precision:") {
        SemanticDocumentFacetKind::Precision
    } else {
        SemanticDocumentFacetKind::Dependency
    };
    let other = if crate::text::string_eq(&e.source_path, p) {
        e.target_path.clone()
    } else {
        e.source_path.clone()
    };
    SemanticDocumentFacet {
        kind,
        label: e.kind.clone(),
        value: e.reason.clone(),
        path: Some(other),
        line_range: None,
        weight_bits: e.confidence_bits,
        clamp_weight: true,
    }
}

fn test_facet_exec(t: &RelatedTestBrief) -> (f: SemanticDocumentFacet)
    ensures
        f@ == test_facet(*t),
{
    SemanticDocumentFacet {
        kind: SemanticDocumentFacetKind::RelatedTest,
        label: String::from_str("related_test"),
        value: t.reason.clone(),
        path: Some(t.path.clone()),
        line_range: None,
        weight_bits: t.confidence_bits,
        clamp_weight: true,
    }
}

fn push_facet(facets: &mut Vec<SemanticDocumentFacet>, f: SemanticDocumentFacet)
    ensures
        facet_views(final(facets)@) == facet_views(old(facets)@).push(f@),
{
    facets.push(f);
    assert(facet_views(facets@) =~= facet_views(old(facets)@).push(f@));
}

/// The facets of one document, in document order.
pub fn document_facets_exec(
    file: &FileInventoryEntry,
    syms: &Vec<CodeSymbol>,
    edges: &Vec<DependencyEdge>,
    related: &RelatedOutcome,
) -> (r: Vec<SemanticDocumentFacet>)
    requires
        document_signatures_ok(*file, syms@),
    ensures
        facet_views(r@) == document_facets(*file, syms@, edges@, *related),
{
    let p = &file.path;
    let mut facets: Vec<SemanticDocumentFacet> = Vec::new();
    let role_chars = chars_of(role_name_str(file.role));
    let role_value = string_of(&crate::text::lower_vec(&role_chars));
    push_facet(
        &mut facets,
        SemanticDocumentFacet {
            kind: SemanticDocumentFacetKind::Metadata,
            label: String::from_str("role"),
            value: role_value,
            path: None,
            line_range: None,
            weight_bits: WEIGHT_METADATA_BITS,
            clamp_weight: false,
        },
    );
    assert(facet_views(facets@) =~= seq![metadata_facet("role"@, role_label(file.role))]);
    if let Some(l) = &file.language {
        push_facet(
            &mut facets,
            SemanticDocumentFacet {
                kind: SemanticDocumentFacetKind::Metadata,
                label: String::from_str("language"),
                value: l.clone(),
                path: None,
                line_range: None,
                weight_bits: WEIGHT_METADATA_BITS,
                clamp_weight: false,
            },
        );
    }
    let ghost base1 = facet_views(facets@);
    assert(base1 =~= seq![metadata_facet("role"@, role_label(file.role))] + (match file.language {
        Some(l) => seq![metadata_facet("language"@, l@)],
        None => seq![],
    }));
    // Symbols.
    let sidx = symbol_indices(syms, p);
    let ghost ssel = first_n(symbols_on(syms@, p@), 12);
    let sn: usize = if sidx.len() < 12 {
        sidx.len()
    } else {
        12
    };
    assert(pick(syms@, sidx@).len() == sidx@.len());
    let mut j: usize = 0;
    while j < sn
        invariant
            j <= sn,
            sn <= sidx@.len(),
            sn == ssel.len(),
            ssel == first_n(pick(syms@, sidx@), 12),
            forall|k: int| 0 <= k < sidx@.len() ==> sidx@[k] < syms@.len(),
            forall|k: int| 0 <= k < ssel.len() ==> signature_cut_ok(#[trigger] ssel[k].name@, ssel[k].signature@),
            facet_views(facets@) == base1 + ssel.take(j as int).map_values(|s: CodeSymbol| symbol_facet(s)),
        decreases sn - j,
    {
        let k = sidx[j];
        assert(ssel[j as int] == syms@[k as int]);
        let f = symbol_facet_exec(&syms[k]);
        push_facet(&mut facets, f);
        assert(ssel.take(j + 1).map_values(|s: CodeSymbol| symbol_facet(s)) =~= ssel.take(
            j as int,
        ).map_values(|s: CodeSymbol| symbol_facet(s)).push(symbol_facet(ssel[j as int])));
        j += 1;
    }
    assert(ssel.take(sn as int) =~= ssel);
    let ghost base2 = facet_views(facets@);
    // Edges.
    let eidx = edge_indices(edges, p);
    let ghost esel = first_n(edges_touching(edges@, p@), 12);
    let en: usize = if eidx.len() < 12 {
        eidx.len()
    } else {
        12
    };
    assert(pick(edges@, eidx@).len() == eidx@.len());
    let mut j: usize = 0;
    while j < en
        invariant
            j <= en,
            en <= eidx@.len(),
            en == esel.len(),
            esel == first_n(pick(edges@, eidx@), 12),
            forall|k: int| 0 <= k < eidx@.len() ==> eidx@[k] < edges@.len(),
            facet_views(facets@) == base2 + esel.take(j as int).map_values(
                |e: DependencyEdge| edge_facet(e, p@),
            ),
        decreases en - j,
    {
        let k = eidx[j];
        assert(esel[j as int] == edges@[k as int]);
        let f = edge_facet_exec(&edges[k], p);
        push_facet(&mut facets, f);
        assert(esel.take(j + 1).map_values(|e: DependencyEdge| edge_facet(e, p@)) =~= esel.take(
            j as int,
        ).map_values(|e: DependencyEdge| edge_facet(e, p@)).push(edge_facet(esel[j as int], p@)));
        j += 1;
    }
    assert(esel.take(en as int) =~= esel);
    let ghost base3 = facet_views(facets@);
    // Related tests of a source file.
    if file.role == FileRole::Source {
        if let RelatedOutcome::Tests(ts, _) = related {
            let ghost tsel = first_n(ts@, 3);
            let tn: usize = if ts.len() < 3 {
                ts.len()
            } else {
                3
            };
            let mut j: usize = 0;
            while j < tn
                invariant
                    j <= tn,
                    tn <= ts@.len(),
                    tn == tsel.len(),
                    tsel == first_n(ts@, 3),
                    facet_views(facets@) == base3 + tsel.take(j as int).map_values(
                        |t: RelatedTestBrief| test_facet(t),
                    ),
                decreases tn - j,
            {
                assert(tsel[j as int] == ts@[j as int]);
                let f = test_facet_exec(&ts[j]);
                push_facet(&mut facets, f);
                assert(tsel.take(j + 1).map_values(|t: RelatedTestBrief| test_facet(t))
                    =~= tsel.take(j as int).map_values(|t: RelatedTestBrief| test_facet(t)).push(
                    test_facet(tsel[j as int]),
                ));
                j += 1;
            }
            assert(tsel.take(tn as int) =~= tsel);
        }
    }
    let ghost base4 = facet_views(facets@);
    assert(base4 =~= base3 + (if file.role == FileRole::Source {
        match *related {
            RelatedOutcome::Tests(ts, _) => first_n(ts@, 3).map_values(
                |t: RelatedTestBrief| test_facet(t),
            ),
            _ => seq![],
        }
    } else {
        seq![]
    }));
    if file.role == FileRole::Docs {
        push_facet(
            &mut facets,
            SemanticDocumentFacet {
                kind: SemanticDocumentFacetKind::Doc,
                label: String::from_str("doc_file"),
                value: p.clone(),
                path: Some(p.clone()),
                line_range: None,
                weight_bits: WEIGHT_DOC_BITS,
                clamp_weight: false,
            },
        );
    }
    assert(facet_views(facets@) =~= document_facets(*file, syms@, edges@, *related));
    facets
}


fn duplicate_all(ds: &Vec<Diagnostic>, out: &mut Vec<Diagnostic>)
    ensures
        diag_views(final(out)@) == diag_views(old(out)@) + diag_views(ds@),
{
    let ghost start = diag_views(out@);
    let mut i: usize = 0;
    while i < ds.len()
        invariant
            i <= ds@.len(),
            diag_views(out@) == start + diag_views(ds@).take(i as int),
        decreases ds.len() - i,
    {
        let d = ds[i].duplicate();
        let ghost before = diag_views(out@);
        out.push(d);
        assert(diag_views(out@) =~= before.push(d@));
        assert(diag_views(ds@).take(i + 1) =~= diag_views(ds@).take(i as int).push(d@));
        i += 1;
    }
    assert(diag_views(ds@).take(ds@.len() as int) =~= diag_views(ds@));
}

/// The document of one file, and the diagnostics its related-test lookup
/// adds.
pub fn semantic_document(
    file: &FileInventoryEntry,
    syms: &Vec<CodeSymbol>,
    edges: &Vec<DependencyEdge>,
    related: &RelatedOutcome,
) -> (r: (SemanticDocument, Vec<Diagnostic>))
    requires
        document_signatures_ok(*file, syms@),
    ensures
        r.0@ == document_of(*file, syms@, edges@, *related),
        diag_views(r.1@) == document_diagnostics(*file, *related),
{
    let facets = document_facets_exec(file, syms, edges, related);
    let summary = semantic_document_summary(file, facets.len());
    let mut diagnostics: Vec<Diagnostic> = Vec::new();
    if file.role == FileRole::Source {
        match related {
            RelatedOutcome::Tests(_, ds) => {
                duplicate_all(ds, &mut diagnostics);
                assert(diag_views(diagnostics@) =~= diag_views(ds@));
            },
            RelatedOutcome::Failed(e) => {
                let mut text: Vec<char> = Vec::new();
                extend_str(&mut text, "Semantic document related-test enrichment failed for ");
                extend_str(&mut text, file.path.as_str());
                extend_str(&mut text, ": ");
                extend_str(&mut text, e.as_str());
                let paths: Vec<String> = vec![file.path.clone()];
                assert(str_views(paths@) =~= seq![file.path@]);
                let d = Diagnostic {
                    code: String::from_str("semantic_document_tests_degraded"),
                    severity: DiagnosticSeverity::Warning,
                    message: string_of(&text),
                    count: 1,
                    paths,
                };
                diagnostics.push(d);
                assert(diag_views(diagnostics@) =~= seq![d@]);
            },
            RelatedOutcome::NotRequested => {
                assert(diag_views(diagnostics@) =~= Seq::<DiagnosticView>::empty());
            },
        }
    } else {
        assert(diag_views(diagnostics@) =~= Seq::<DiagnosticView>::empty());
    }
    let doc = SemanticDocument {
        id: semantic_document_id(file.path.as_str(), file.hash.as_str()),
        path: file.path.clone(),
        role: file.role,
        language: clone_opt(&file.language),
        safe_hash: file.hash.clone(),
        summary,
        facets,
        source_text_logged: false,
        privacy_status: PrivacyStatus::local_only(),
    };
    (doc, diagnostics)
}

/// The documents of the first `n` files, in file order.
pub open spec fn documents_upto(
    files: Seq<FileInventoryEntry>,
    syms: Seq<CodeSymbol>,
    edges: Seq<DependencyEdge>,
    related: Seq<RelatedOutcome>,
    n: nat,
) -> Seq<DocumentView>
    decreases n,
{
    if n == 0 {
        seq![]
    } else {
        let r = documents_upto(files, syms, edges, related, (n - 1) as nat);
        let f = files[n - 1];
        if document_file(f) {
            r.push(document_of(f, syms, edges, related[n - 1]))
        } else {
            r
        }
    }
}

/// The diagnostics of the documents of the first `n` files, in file order.
pub open spec fn diagnostics_upto(
    files: Seq<FileInventoryEntry>,
    related: Seq<RelatedOutcome>,
    n: nat,
) -> Seq<DiagnosticView>
    decreases n,
{
    if n == 0 {
        seq![]
    } else {
        let r = diagnostics_upto(files, related, (n - 1) as nat);
        let f = files[n - 1];
        if document_file(f) {
            r + document_diagnostics(f, related[n - 1])
        } else {
            r
        }
    }
}

/// Inserts a document after every document whose path is not greater.
pub open spec fn insert_doc(s: Seq<DocumentView>, d: DocumentView) -> Seq<DocumentView>
    decreases s.len(),
{
    if s.len() == 0 || !lex_lt(d.path, s.last().path) {
        s.push(d)
    } else {
        insert_doc(s.drop_last(), d).push(s.last())
    }
}

/// Documents in path order, equal paths keeping their order (a stable sort).
pub open spec fn sort_docs(s: Seq<DocumentView>) -> Seq<DocumentView>
    decreases s.len(),
{
    if s.len() == 0 {
        s
    } else {
        insert_doc(sort_docs(s.drop_last()), s.last())
    }
}

fn insert_document(out: &mut Vec<SemanticDocument>, d: SemanticDocument)
    ensures
        document_views(final(out)@) == insert_doc(document_views(old(out)@), d@),
{
    let ghost dv = d@;
    let ghost orig = document_views(out@);
    let mut j: usize = out.len();
    assert(orig.take(j as int) =~= orig);
    assert(orig.skip(j as int) =~= Seq::<DocumentView>::empty());
    while j > 0 && string_lt(&d.path, &out[j - 1].path)
        invariant
            j <= out@.len(),
            orig == document_views(out@),
            dv == d@,
            insert_doc(orig, dv) == insert_doc(orig.take(j as int), dv) + orig.skip(j as int),
        decreases j,
    {
        let ghost t = orig.take(j as int);
        assert(t.last() == out@[j - 1]@);
        assert(t.drop_last() =~= orig.take(j - 1));
        assert(orig.skip(j - 1) =~= seq![t.last()] + orig.skip(j as int));
        assert(insert_doc(orig.take(j - 1), dv).push(t.last()) + orig.skip(j as int)
            =~= insert_doc(orig.take(j - 1), dv) + orig.skip(j - 1));
        j -= 1;
    }
    out.insert(j, d);
    assert(document_views(out@) =~= orig.take(j as int).push(dv) + orig.skip(j as int));
}

/// A count capped at `usize::MAX`.
pub open spec fn saturate_usize(n: nat) -> usize {
    if n <= usize::MAX {
        n as usize
    } else {
        usize::MAX
    }
}

/// The number of facets of some documents.
pub open spec fn facet_total(docs: Seq<DocumentView>) -> nat
    decreases docs.len(),
{
    if docs.len() == 0 {
        0
    } else {
        facet_total(docs.drop_last()) + docs.last().facets.len()
    }
}

/// The documents of a repository, their diagnostics and how many facets
/// they hold.
#[derive(Debug, Clone)]
pub struct SemanticDocumentSet {
    pub documents: Vec<SemanticDocument>,
    pub diagnostics: Vec<Diagnostic>,
    pub facet_count: usize,
}

/// The semantic documents of the files that get one, in path order, at most
/// `limit` of them (at least one). `related[i]` is what the related-test
/// lookup gave for `files[i]`. The diagnostics are those of the documents,
/// in file order.
pub fn semantic_documents(
    files: &Vec<FileInventoryEntry>,
    syms: &Vec<CodeSymbol>,
    edges: &Vec<DependencyEdge>,
    related: &Vec<RelatedOutcome>,
    limit: usize,
) -> (r: SemanticDocumentSet)
    requires
        related@.len() == files@.len(),
        forall|i: int|
            0 <= i < files@.len() && document_file(#[trigger] files@[i]) ==> document_signatures_ok(
                files@[i],
                syms@,
            ),
    ensures
        document_views(r.documents@) == first_n(
            sort_docs(documents_upto(files@, syms@, edges@, related@, files@.len())),
            if limit < 1 {
                1
            } else {
                limit as nat
            },
        ),
        diag_views(r.diagnostics@) == diagnostics_upto(files@, related@, files@.len()),
        r.facet_count == saturate_usize(facet_total(document_views(r.documents@))),
{
    let mut docs: Vec<SemanticDocument> = Vec::new();
    let mut diagnostics: Vec<Diagnostic> = Vec::new();
    let mut i: usize = 0;
    while i < files.len()
        invariant
            i <= files@.len(),
            related@.len() == files@.len(),
            forall|k: int|
                0 <= k < files@.len() && document_file(#[trigger] files@[k]) ==> document_signatures_ok(
                    files@[k],
                    syms@,
                ),
            document_views(docs@) == sort_docs(documents_upto(files@, syms@, edges@, related@, i as nat)),
            diag_views(diagnostics@) == diagnostics_upto(files@, related@, i as nat),
        decreases files.len() - i,
    {
        let f = &files[i];
        let ghost prev = documents_upto(files@, syms@, edges@, related@, i as nat);
        if semantic_document_file(f) {
            let (doc, ds) = semantic_document(f, syms, edges, &related[i]);
            let ghost before = diag_views(diagnostics@);
            duplicate_all(&ds, &mut diagnostics);
            assert(documents_upto(files@, syms@, edges@, related@, (i + 1) as nat) == prev.push(doc@));
            assert(prev.push(doc@).drop_last() =~= prev);
            insert_document(&mut docs, doc);
        }
        i += 1;
    }
    let keep: usize = if limit < 1 {
        1
    } else {
        limit
    };
    let ghost all = document_views(docs@);
    if docs.len() > keep {
        docs.truncate(keep);
        assert(document_views(docs@) =~= all.take(keep as int));
    }
    let ghost kept = document_views(docs@);
    let mut count: usize = 0;
    let mut k: usize = 0;
    while k < docs.len()
        invariant
            k <= docs@.len(),
            kept == document_views(docs@),
            count == saturate_usize(facet_total(kept.take(k as int))),
        decreases docs.len() - k,
    {
        assert(kept.take(k + 1).drop_last() =~= kept.take(k as int));
        assert(kept.take(k + 1).last() == docs@[k as int]@);
        let n = docs[k].facets.len();
        if count > usize::MAX - n {
            count = usize::MAX;
        } else {
            count = count + n;
        }
        k += 1;
    }
    assert(kept.take(kept.len() as int) =~= kept);
    SemanticDocumentSet { documents: docs, diagnostics, facet_count: count }
}


// ---------------------------------------------------------------------
// Semantic search decisions
// ---------------------------------------------------------------------
/// An informational or warning diagnostic without paths.
pub open spec fn plain_diagnostic(code: Seq<char>, severity: DiagnosticSeverity, message: Seq<char>) -> DiagnosticView {
    diagnostic_of(code, severity, message, seq![])
}

fn plain_diagnostic_exec(code: &str, severity: DiagnosticSeverity, message: &str) -> (d: Diagnostic)
    ensures
        d@ == plain_diagnostic(code@, severity, message@),
{
    let paths: Vec<String> = Vec::new();
    assert(str_views(paths@) =~= Seq::<Seq<char>>::empty());
    Diagnostic {
        code: String::from_str(code),
        severity,
        message: String::from_str(message),
        count: 0,
        paths,
    }
}

/// Why semantic search returned no results before embedding, if it did.
pub open spec fn semantic_stop(enabled: bool, provider: ProviderView, query: Seq<char>) -> Option<DiagnosticView> {
    if !enabled {
        Some(
            plain_diagnostic(
                "semantic_disabled"@,
                DiagnosticSeverity::Info,
                "Local semantic retrieval is disabled; pass an explicit semantic flag to enable the local provider."@,
            ),
        )
    } else if !provider.available {
        Some(
            plain_diagnostic(
                "semantic_provider_unavailable"@,
                DiagnosticSeverity::Warning,
                if provider.provider == "local_fastembed"@ {
                    "Semantic provider local_fastembed requires the ctxpack-index local-embeddings feature and remains opt-in; no cloud provider was used."@
                } else {
                    "Semantic provider is unsupported by this ctxpack build; no cloud provider was used."@
                },
            ),
        )
    } else if crate::search::query_terms_of(query).len() == 0 {
        Some(
            plain_diagnostic(
                "semantic_query_empty"@,
                DiagnosticSeverity::Warning,
                "Semantic retrieval received no meaningful query terms."@,
            ),
        )
    } else {
        None
    }
}

/// Whether semantic search stops before embedding, and with which
/// diagnostic: when it is disabled, when the normalized provider is
/// unavailable, or when the query has no terms.
pub fn semantic_search_stop(enabled: bool, provider: &SemanticProviderConfig, query: &str) -> (r: Option<Diagnostic>)
    ensures
        match semantic_stop(enabled, provider@, query@) {
            Some(d) => r matches Some(x) && x@ == d,
            None => r is None,
        },
{
    if !enabled {
        return Some(
            plain_diagnostic_exec(
                "semantic_disabled",
                DiagnosticSeverity::Info,
                "Local semantic retrieval is disabled; pass an explicit semantic flag to enable the local provider.",
            ),
        );
    }
    if !provider.available {
        let pv = chars_of(provider.provider.as_str());
        let message = if crate::text::eq_str(&pv, "local_fastembed") {
            "Semantic provider local_fastembed requires the ctxpack-index local-embeddings feature and remains opt-in; no cloud provider was used."
        } else {
            "Semantic provider is unsupported by this ctxpack build; no cloud provider was used."
        };
        return Some(
            plain_diagnostic_exec(
                "semantic_provider_unavailable",
                DiagnosticSeverity::Warning,
                message,
            ),
        );
    }
    let terms = crate::search::query_terms(query);
    if terms.len() == 0 {
        return Some(
            plain_diagnostic_exec(
                "semantic_query_empty",
                DiagnosticSeverity::Warning,
                "Semantic retrieval received no meaningful query terms.",
            ),
        );
    }
    None
}

/// How texts are embedded for a provider.
#[derive(Debug, Clone, PartialEq, Eq)]
pub enum EmbeddingRoute {
    /// Local hashing into vectors of the given dimensions.
    LocalHash(usize),
    /// No embedding: the error message to report.
    Unavailable(String),
}

/// The embedding route of a provider. Local hashing embeds; the local
/// embedding-model provider is not built into this library; any other
/// provider is unsupported.
pub open spec fn embedding_route(p: ProviderView) -> Result<usize, Seq<char>> {
    if p.provider == "local_hash"@ {
        Ok(p.dimensions)
    } else if p.provider == "local_fastembed"@ {
        Err(
            "Semantic provider "@ + p.provider
                + " requires the ctxpack-index local-embeddings feature; no cloud provider was used."@,
        )
    } else {
        Err(
            "Semantic provider "@ + p.provider
                + " is unsupported by this ctxpack build; no cloud provider was used."@,
        )
    }
}

/// Executable `embedding_route`.
pub fn embed_route(provider: &SemanticProviderConfig) -> (r: EmbeddingRoute)
    ensures
        match embedding_route(provider@) {
            Ok(d) => r == EmbeddingRoute::LocalHash(d),
            Err(m) => r matches EmbeddingRoute::Unavailable(x) && x@ == m,
        },
{
    let pv = chars_of(provider.provider.as_str());
    if crate::text::eq_str(&pv, "local_hash") {
        return EmbeddingRoute::LocalHash(provider.dimensions);
    }
    let mut text: Vec<char> = Vec::new();
    extend_str(&mut text, "Semantic provider ");
    extend_chars(&mut text, &pv);
    if crate::text::eq_str(&pv, "local_fastembed") {
        extend_str(&mut text, " requires the ctxpack-index local-embeddings feature; no cloud provider was used.");
    } else {
        extend_str(&mut text, " is unsupported by this ctxpack build; no cloud provider was used.");
    }
    EmbeddingRoute::Unavailable(string_of(&text))
}

/// The name of a facet kind, as `Debug` writes it.
pub open spec fn facet_kind_name(k: SemanticDocumentFacetKind) -> Seq<char> {
    match k {
        SemanticDocumentFacetKind::Metadata => "Metadata"@,
        SemanticDocumentFacetKind::Symbol => "Symbol"@,
        SemanticDocumentFacetKind::Dependency => "Dependency"@,
        SemanticDocumentFacetKind::Precision => "Precision"@,
        SemanticDocumentFacetKind::RelatedTest => "RelatedTest"@,
        SemanticDocumentFacetKind::Doc => "Doc"@,
    }
}

fn facet_kind_name_str(k: SemanticDocumentFacetKind) -> (s: &'static str)
    ensures
        s@ == facet_kind_name(k),
{
    match k {
        SemanticDocumentFacetKind::Metadata => "Metadata",
        SemanticDocumentFacetKind::Symbol => "Symbol",
        SemanticDocumentFacetKind::Dependency => "Dependency",
        SemanticDocumentFacetKind::Precision => "Precision",
        SemanticDocumentFacetKind::RelatedTest => "RelatedTest",
        SemanticDocumentFacetKind::Doc => "Doc",
    }
}

/// The line that describes a facet in the text that is embedded.
pub open spec fn facet_line(f: FacetView) -> Seq<char> {
    "facet "@ + facet_kind_name(f.kind) + " "@ + f.label + " "@ + f.value + match f.path {
        Some(p) => " path "@ + p,
        None => seq![],
    }
}

/// The lines of the text that is embedded for a document.
pub open spec fn document_lines(d: DocumentView) -> Seq<Seq<char>> {
    seq!["path "@ + d.path, "role "@ + role_name(d.role), d.summary] + (match d.language {
        Some(l) => seq!["language "@ + l],
        None => seq![],
    }) + d.facets.map_values(|f: FacetView| facet_line(f))
}

/// The text that is embedded for a document: its lines joined with
/// newlines.
pub fn render_semantic_document_text(d: &SemanticDocument) -> (r: String)
    ensures
        r@ == crate::strs::join_with(document_lines(d@), "\n"@),
{
    let mut lines: Vec<String> = Vec::new();
    let mut a: Vec<char> = Vec::new();
    extend_str(&mut a, "path ");
    extend_str(&mut a, d.path.as_str());
    lines.push(string_of(&a));
    let mut b: Vec<char> = Vec::new();
    extend_str(&mut b, "role ");
    extend_str(&mut b, role_name_str(d.role));
    lines.push(string_of(&b));
    lines.push(d.summary.clone());
    if let Some(l) = &d.language {
        let mut c: Vec<char> = Vec::new();
        extend_str(&mut c, "language ");
        extend_str(&mut c, l.as_str());
        lines.push(string_of(&c));
    }
    let ghost head = str_views(lines@);
    let ghost fv = facet_views(d.facets@);
    let mut i: usize = 0;
    while i < d.facets.len()
        invariant
            i <= d.facets@.len(),
            fv == facet_views(d.facets@),
            str_views(lines@) == head + fv.take(i as int).map_values(|f: FacetView| facet_line(f)),
        decreases d.facets.len() - i,
    {
        let f = &d.facets[i];
        let mut v: Vec<char> = Vec::new();
        extend_str(&mut v, "facet ");
        extend_str(&mut v, facet_kind_name_str(f.kind));
        extend_str(&mut v, " ");
        extend_str(&mut v, f.label.as_str());
        extend_str(&mut v, " ");
        extend_str(&mut v, f.value.as_str());
        if let Some(p) = &f.path {
            extend_str(&mut v, " path ");
            extend_str(&mut v, p.as_str());
        }
        assert(fv[i as int] == f@);
        assert(v@ =~= facet_line(f@));
        let ghost before = str_views(lines@);
        lines.push(string_of(&v));
        assert(str_views(lines@) =~= before.push(v@));
        assert(fv.take(i + 1).map_values(|f: FacetView| facet_line(f)) =~= fv.take(i as int).map_values(
            |f: FacetView| facet_line(f),
        ).push(facet_line(fv[i as int])));
        i += 1;
    }
    assert(fv.take(fv.len() as int) =~= fv);
    assert(str_views(lines@) =~= document_lines(d@));
    crate::strs::join_with_exec(&lines, "\n")
}

/// Whether a facet's label, value or path mentions one of the terms, in
/// lowercase.
pub open spec fn facet_mentions(f: FacetView, terms: Seq<Seq<char>>) -> bool {
    let text = lower(f.label + " "@ + f.value + " "@ + match f.path {
        Some(p) => p,
        None => seq![],
    });
    exists|k: int| 0 <= k < terms.len() && crate::text::contains(text, #[trigger] terms[k])
}

/// Executable `facet_mentions`.
pub fn facet_matches_terms(f: &SemanticDocumentFacet, terms: &Vec<String>) -> (b: bool)
    ensures
        b == facet_mentions(f@, str_views(terms@)),
{
    let mut v: Vec<char> = Vec::new();
    extend_str(&mut v, f.label.as_str());
    extend_str(&mut v, " ");
    extend_str(&mut v, f.value.as_str());
    extend_str(&mut v, " ");
    if let Some(p) = &f.path {
        extend_str(&mut v, p.as_str());
    }
    let text = crate::text::lower_vec(&v);
    let ghost tv = str_views(terms@);
    proof {
        assert(v@ =~= f@.label + " "@ + f@.value + " "@ + match f@.path {
            Some(p) => p,
            None => Seq::<char>::empty(),
        });
    }
    let mut i: usize = 0;
    while i < terms.len()
        invariant
            i <= terms@.len(),
            tv == str_views(terms@),
            text@ == lower(f@.label + " "@ + f@.value + " "@ + match f@.path {
                Some(p) => p,
                None => Seq::<char>::empty(),
            }),
            forall|k: int| 0 <= k < i ==> !crate::text::contains(text@, #[trigger] tv[k]),
        decreases terms.len() - i,
    {
        let t = chars_of(terms[i].as_str());
        assert(tv[i as int] == t@);
        if crate::text::contains_str(&text, terms[i].as_str()) {
            assert(crate::text::contains(text@, tv[i as int]));
            return true;
        }
        i += 1;
    }
    false
}

/// The reason of a semantic match: the provider and model, and the first
/// four distinct labels of the matched facets in string order (or
/// "metadata facets" when none matched).
pub open spec fn match_reason(p: ProviderView, labels: Seq<Seq<char>>) -> Seq<char> {
    let summary = if labels.len() == 0 {
        "metadata facets"@
    } else {
        crate::strs::join_with(first_n(uniq_sorted(labels), 4), ", "@)
    };
    "local semantic similarity via "@ + p.provider + " "@ + p.model + " over source-free facets: "@
        + summary
}

/// Distinct elements in string order.
pub open spec fn uniq_sorted(s: Seq<Seq<char>>) -> Seq<Seq<char>> {
    crate::strs::uniq(crate::strs::sort_strs(s))
}

/// Executable `match_reason` over the labels of the matched facets.
pub fn semantic_match_reason(provider: &SemanticProviderConfig, labels: &Vec<String>) -> (r: String)
    ensures
        r@ == match_reason(provider@, str_views(labels@)),
{
    let mut out: Vec<char> = Vec::new();
    extend_str(&mut out, "local semantic similarity via ");
    extend_str(&mut out, provider.provider.as_str());
    extend_str(&mut out, " ");
    extend_str(&mut out, provider.model.as_str());
    extend_str(&mut out, " over source-free facets: ");
    if labels.len() == 0 {
        extend_str(&mut out, "metadata facets");
    } else {
        let copy = crate::model::clone_strings(labels);
        let sorted = crate::strs::sort_strings(copy);
        let mut distinct = crate::strs::uniq_strings(&sorted);
        let ghost all = str_views(distinct@);
        if distinct.len() > 4 {
            distinct.truncate(4);
            assert(str_views(distinct@) =~= all.take(4));
        }
        let joined = crate::strs::join_with_exec(&distinct, ", ");
        extend_str(&mut out, joined.as_str());
    }
    string_of(&out)
}


// ---------------------------------------------------------------------
// Precision status
// ---------------------------------------------------------------------
/// How usable the precision-edge overlay is.
#[derive(Debug, Clone, Copy, PartialEq, Eq, Structural)]
pub enum PrecisionStatus {
    Available,
    Degraded,
    Invalid,
    Unavailable,
}

/// What reading the overlay file gave.
#[derive(Debug, Clone)]
pub enum OverlayRead {
    /// The file does not exist.
    Missing,
    /// The file could not be read or parsed.
    Unparsed,
    /// The file parsed; its provider.
    Parsed(String),
}

/// The state of the precision-edge overlay of a repository.
#[derive(Debug, Clone)]
pub struct PrecisionStatusReport {
    pub status: PrecisionStatus,
    pub provider: Option<String>,
    pub overlay_path: Option<String>,
    pub edge_count: usize,
    pub rejected_edge_count: usize,
    pub stale: bool,
    pub degraded: bool,
    pub diagnostics: Vec<Diagnostic>,
}

/// The diagnostics about the overlay, in order.
pub open spec fn precision_diags(ds: Seq<DiagnosticView>) -> Seq<DiagnosticView>
    decreases ds.len(),
{
    if ds.len() == 0 {
        seq![]
    } else {
        precision_diags(ds.drop_last()) + if starts_with(ds.last().code, "precision_edges_"@) {
            seq![ds.last()]
        } else {
            seq![]
        }
    }
}

/// The number of rejected overlay edges the diagnostics count.
pub open spec fn rejected_total(ds: Seq<DiagnosticView>) -> nat
    decreases ds.len(),
{
    if ds.len() == 0 {
        0
    } else {
        rejected_total(ds.drop_last()) + if ds.last().code == "precision_edges_rejected"@ {
            ds.last().count
        } else {
            0
        }
    }
}

/// Whether a diagnostic says the overlay could not be used.
pub open spec fn overlay_broken(ds: Seq<DiagnosticView>) -> bool {
    exists|k: int|
        0 <= k < ds.len() && (#[trigger] ds[k].code == "precision_edges_invalid"@ || ds[k].code
            == "precision_edges_unreadable"@)
}

/// The number of precision edges.
pub open spec fn precision_edge_count(edges: Seq<DependencyEdge>) -> nat
    decreases edges.len(),
{
    if edges.len() == 0 {
        0
    } else {
        precision_edge_count(edges.drop_last()) + if starts_with(edges.last().kind@, "precision:"@) {
            1nat
        } else {
            0
        }
    }
}

/// The status of the overlay: unavailable when it has no path or no file;
/// otherwise invalid when it did not parse or a diagnostic says it is
/// broken, degraded when some of its edges were rejected, else available.
pub open spec fn overlay_status(has_path: bool, read: OverlayRead, ds: Seq<DiagnosticView>) -> PrecisionStatus {
    if !has_path {
        PrecisionStatus::Unavailable
    } else {
        match read {
            OverlayRead::Missing => PrecisionStatus::Unavailable,
            OverlayRead::Unparsed => PrecisionStatus::Invalid,
            OverlayRead::Parsed(_) => if overlay_broken(precision_diags(ds)) {
                PrecisionStatus::Invalid
            } else if rejected_total(precision_diags(ds)) > 0 {
                PrecisionStatus::Degraded
            } else {
                PrecisionStatus::Available
            },
        }
    }
}

/// The precision status of a repository from its dependency edges, the
/// dependency diagnostics, the overlay's path (if it has one) and what
/// reading the overlay gave.
pub fn precision_status(
    edges: &Vec<DependencyEdge>,
    diagnostics: &Vec<Diagnostic>,
    overlay_path: Option<String>,
    read: OverlayRead,
) -> (r: PrecisionStatusReport)
    requires
        rejected_total(precision_diags(diag_views(diagnostics@))) <= usize::MAX,
    ensures
        ({
            let pd = precision_diags(diag_views(diagnostics@));
            let found = overlay_path is Some && !(read is Missing);
            &&& r.status == overlay_status(overlay_path is Some, read, diag_views(diagnostics@))
            &&& opt_view(r.provider) == (match read {
                OverlayRead::Parsed(p) => if overlay_path is Some {
                    Some(p@)
                } else {
                    None
                },
                _ => None,
            })
            &&& opt_view(r.overlay_path) == opt_view(overlay_path)
            &&& r.edge_count == precision_edge_count(edges@)
            &&& r.rejected_edge_count == rejected_total(pd)
            &&& !r.stale
            &&& r.degraded == (found && rejected_total(pd) > 0)
            &&& diag_views(r.diagnostics@) == pd
        }),
{
    let ghost dv = diag_views(diagnostics@);
    let mut pd: Vec<Diagnostic> = Vec::new();
    let mut rejected: usize = 0;
    let mut broken = false;
    let mut i: usize = 0;
    while i < diagnostics.len()
        invariant
            i <= diagnostics@.len(),
            dv == diag_views(diagnostics@),
            rejected_total(precision_diags(dv)) <= usize::MAX,
            diag_views(pd@) == precision_diags(dv.take(i as int)),
            rejected == rejected_total(precision_diags(dv.take(i as int))),
            broken == overlay_broken(precision_diags(dv.take(i as int))),
        decreases diagnostics.len() - i,
    {
        let d = &diagnostics[i];
        assert(dv.take(i + 1).drop_last() =~= dv.take(i as int));
        assert(dv.take(i + 1).last() == d@);
        let ghost before = precision_diags(dv.take(i as int));
        let code = chars_of(d.code.as_str());
        if starts_with_str(&code, "precision_edges_") {
            proof {
                lemma_precision_prefix(dv, i as int);
                let after = precision_diags(dv.take(i + 1));
                assert(after == before.push(d@));
                assert(after.drop_last() =~= before);
                assert(after.last() == d@);
            }
            if crate::text::eq_str(&code, "precision_edges_rejected") {
                rejected = rejected + d.count;
            }
            if crate::text::eq_str(&code, "precision_edges_invalid") || crate::text::eq_str(
                &code,
                "precision_edges_unreadable",
            ) {
                broken = true;
            }
            let c = d.duplicate();
            let ghost prev = diag_views(pd@);
            pd.push(c);
            assert(diag_views(pd@) =~= prev.push(c@));
            let ghost after = precision_diags(dv.take(i + 1));
            assert(after == before.push(d@));
            assert(after.drop_last() =~= before);
            assert(after.last() == d@);
            proof {
                if broken && !overlay_broken(before) {
                    assert(after[before.len() as int] == d@);
                }
                if overlay_broken(after) && !overlay_broken(before) {
                    let k = choose|k: int|
                        0 <= k < after.len() && (#[trigger] after[k].code
                            == "precision_edges_invalid"@ || after[k].code
                            == "precision_edges_unreadable"@);
                    if k < before.len() {
                        assert(before[k] == after[k]);
                    }
                }
                if overlay_broken(before) {
                    let k = choose|k: int|
                        0 <= k < before.len() && (#[trigger] before[k].code
                            == "precision_edges_invalid"@ || before[k].code
                            == "precision_edges_unreadable"@);
                    assert(after[k] == before[k]);
                }
            }
        } else {
            assert(precision_diags(dv.take(i + 1)) =~= before);
        }
        i += 1;
    }
    assert(dv.take(dv.len() as int) =~= dv);
    let mut count: usize = 0;
    let mut j: usize = 0;
    while j < edges.len()
        invariant
            j <= edges@.len(),
            count == precision_edge_count(edges@.take(j as int)),
            count <= j,
        decreases edges.len() - j,
    {
        assert(edges@.take(j + 1).drop_last() =~= edges@.take(j as int));
        assert(edges@.take(j + 1).last() == edges@[j as int]);
        let kind = chars_of(edges[j].kind.as_str());
        if starts_with_str(&kind, "precision:") {
            count = count + 1;
        }
        j += 1;
    }
    assert(edges@.take(edges@.len() as int) =~= edges@);
    match overlay_path {
        None => PrecisionStatusReport {
            status: PrecisionStatus::Unavailable,
            provider: None,
            overlay_path: None,
            edge_count: count,
            rejected_edge_count: rejected,
            stale: false,
            degraded: false,
            diagnostics: pd,
        },
        Some(path) => match read {
            OverlayRead::Missing => PrecisionStatusReport {
                status: PrecisionStatus::Unavailable,
                provider: None,
                overlay_path: Some(path),
                edge_count: count,
                rejected_edge_count: rejected,
                stale: false,
                degraded: false,
                diagnostics: pd,
            },
            OverlayRead::Unparsed => PrecisionStatusReport {
                status: PrecisionStatus::Invalid,
                provider: None,
                overlay_path: Some(path),
                edge_count: count,
                rejected_edge_count: rejected,
                stale: false,
                degraded: rejected > 0,
                diagnostics: pd,
            },
            OverlayRead::Parsed(provider) => {
                let degraded = rejected > 0;
                let status = if broken {
                    PrecisionStatus::Invalid
                } else if degraded {
                    PrecisionStatus::Degraded
                } else {
                    PrecisionStatus::Available
                };
                PrecisionStatusReport {
                    status,
                    provider: Some(provider),
                    overlay_path: Some(path),
                    edge_count: count,
                    rejected_edge_count: rejected,
                    stale: false,
                    degraded,
                    diagnostics: pd,
                }
            },
        },
    }
}

proof fn lemma_precision_prefix(dv: Seq<DiagnosticView>, i: int)
    requires
        0 <= i < dv.len(),
        starts_with(dv[i].code, "precision_edges_"@),
    ensures
        rejected_total(precision_diags(dv.take(i + 1))) <= rejected_total(precision_diags(dv)),
{
    lemma_rejected_monotone(dv, i + 1);
}

proof fn lemma_rejected_monotone(dv: Seq<DiagnosticView>, n: int)
    requires
        0 <= n <= dv.len(),
    ensures
        rejected_total(precision_diags(dv.take(n))) <= rejected_total(precision_diags(dv)),
    decreases dv.len() - n,
{
    if n < dv.len() {
        lemma_rejected_monotone(dv, n + 1);
        let a = precision_diags(dv.take(n));
        let t = dv.take(n + 1);
        assert(t.drop_last() =~= dv.take(n));
        if starts_with(t.last().code, "precision_edges_"@) {
            assert(precision_diags(t).drop_last() =~= a);
        } else {
            assert(precision_diags(t) =~= a);
        }
    } else {
        assert(dv.take(n) =~= dv);
    }
}

} // verus!
