//! The decisions of the MCP server: its tool surface, argument defaults,
//! context anchors, resource addresses and the session cache of packs.
use vstd::prelude::*;

use crate::model::{opt_view, str_views, FileRole};
use crate::semantic::{default_provider, ProviderView, SemanticProviderConfig};
use crate::strs::{join_with, join_with_exec, uniq, uniq_strings};
use crate::text::{
    chars_of, decimal, decimal_chars, extend_chars, extend_str, lines, lines_exec, slice_of,
    split_once, split_once_str, starts_with, string_eq, string_of, strip_prefix, strip_prefix_str,
    trim, trim_start_matches, trim_start_matches_str, trim_vec,
};

verus! {

/// The tools the MCP server is meant to offer.
pub const PLANNED_MCP_TOOL_NAMES: [&'static str; 6] = [
    "prepare_task",
    "search",
    "related",
    "get_pack",
    "related_tests",
    "current_diff",
];

/// The tools the MCP server offers.
pub const IMPLEMENTED_MCP_TOOL_NAMES: [&'static str; 6] = [
    "prepare_task",
    "search",
    "related",
    "get_pack",
    "related_tests",
    "current_diff",
];

/// A result limit: the given one or the default, kept within 1 and 50.
pub open spec fn bounded(limit: Option<usize>, default: usize) -> usize {
    let l = match limit {
        Some(l) => l,
        None => default,
    };
    if l < 1 {
        1
    } else if l > 50 {
        50
    } else {
        l
    }
}

/// Executable `bounded`.
pub fn bounded_limit(limit: Option<usize>, default: usize) -> (r: usize)
    ensures
        r == bounded(limit, default),
        1 <= r <= 50,
{
    let l = match limit {
        Some(l) => l,
        None => default,
    };
    if l < 1 {
        1
    } else if l > 50 {
        50
    } else {
        l
    }
}

/// An optional argument trimmed, or the default when absent or blank.
pub open spec fn arg_or(value: Option<Seq<char>>, default: Seq<char>) -> Seq<char> {
    match value {
        Some(v) => if trim(v).len() == 0 {
            default
        } else {
            trim(v)
        },
        None => default,
    }
}

fn arg_or_exec(value: &Option<String>, default: &str) -> (r: String)
    ensures
        r@ == arg_or(opt_view(*value), default@),
{
    match value {
        Some(v) => {
            let c = chars_of(v.as_str());
            let t = trim_vec(&c);
            if t.len() == 0 {
                String::from_str(default)
            } else {
                string_of(&t)
            }
        },
        None => String::from_str(default),
    }
}

/// The provider a tool call asks for: the default local provider with the
/// given id, model and dimensions, local only and assumed available.
pub open spec fn requested_provider(provider: Option<Seq<char>>, model: Option<Seq<char>>, dimensions: Option<usize>) -> ProviderView {
    let d = default_provider();
    ProviderView {
        provider: arg_or(provider, d.provider),
        model: arg_or(model, d.model),
        dimensions: match dimensions {
            Some(n) => n,
            None => d.dimensions,
        },
        ..d
    }
}

/// Executable `requested_provider`.
pub fn semantic_provider_config(provider: &Option<String>, model: &Option<String>, dimensions: Option<usize>) -> (r: SemanticProviderConfig)
    ensures
        r@ == requested_provider(opt_view(*provider), opt_view(*model), dimensions),
{
    SemanticProviderConfig {
        provider: arg_or_exec(provider, "local_hash"),
        model: arg_or_exec(model, "ctxpack-local-hash-v1"),
        dimensions: match dimensions {
            Some(n) => n,
            None => 64,
        },
        distance_metric: String::from_str("cosine"),
        provider_role: String::from_str("deterministic_scaffold"),
        quality_backend: false,
        local_only: true,
        available: true,
    }
}

// ---------------------------------------------------------------------
// Context anchors
// ---------------------------------------------------------------------
/// The trimmed, non-blank values, in order.
pub open spec fn trimmed_nonblank(vs: Seq<Seq<char>>) -> Seq<Seq<char>>
    decreases vs.len(),
{
    if vs.len() == 0 {
        seq![]
    } else {
        trimmed_nonblank(vs.drop_last()) + if trim(vs.last()).len() == 0 {
            seq![]
        } else {
            seq![trim(vs.last())]
        }
    }
}

fn append_trimmed(out: &mut Vec<String>, vs: &Vec<String>)
    ensures
        str_views(final(out)@) == str_views(old(out)@) + trimmed_nonblank(str_views(vs@)),
{
    let ghost start = str_views(out@);
    let ghost sv = str_views(vs@);
    let mut i: usize = 0;
    while i < vs.len()
        invariant
            i <= vs@.len(),
            sv == str_views(vs@),
            str_views(out@) == start + trimmed_nonblank(sv.take(i as int)),
        decreases vs.len() - i,
    {
        assert(sv.take(i + 1).drop_last() =~= sv.take(i as int));
        assert(sv.take(i + 1).last() == vs@[i as int]@);
        let c = chars_of(vs[i].as_str());
        let t = trim_vec(&c);
        let ghost before = str_views(out@);
        if t.len() > 0 {
            let s = string_of(&t);
            out.push(s);
            assert(str_views(out@) =~= before.push(t@));
        }
        assert(str_views(out@) =~= start + trimmed_nonblank(sv.take(i + 1)));
        i += 1;
    }
    assert(sv.take(sv.len() as int) =~= sv);
}

fn append_all(out: &mut Vec<String>, vs: &Vec<String>)
    ensures
        str_views(final(out)@) == str_views(old(out)@) + str_views(vs@),
{
    let ghost start = str_views(out@);
    let mut i: usize = 0;
    while i < vs.len()
        invariant
            i <= vs@.len(),
            str_views(out@) == start + str_views(vs@).take(i as int),
        decreases vs.len() - i,
    {
        let c = vs[i].clone();
        let ghost before = str_views(out@);
        out.push(c);
        assert(str_views(out@) =~= before.push(c@));
        assert(str_views(vs@).take(i + 1) =~= str_views(vs@).take(i as int).push(c@));
        i += 1;
    }
    assert(str_views(vs@).take(vs@.len() as int) =~= str_views(vs@));
}

/// The anchors of a task: the explicit paths, trimmed and non-blank, then
/// the paths of the current diff; each path once, first occurrence kept.
pub fn context_anchor_paths(explicit: &Vec<String>, diff_paths: &Vec<String>) -> (r: Vec<String>)
    ensures
        str_views(r@) == uniq(trimmed_nonblank(str_views(explicit@)) + str_views(diff_paths@)),
{
    let mut all: Vec<String> = Vec::new();
    append_trimmed(&mut all, explicit);
    append_all(&mut all, diff_paths);
    assert(str_views(all@) =~= trimmed_nonblank(str_views(explicit@)) + str_views(diff_paths@));
    uniq_strings(&all)
}

/// The symbol query of a related call, if it names one.
pub open spec fn symbol_query_of(symbol: Option<Seq<char>>) -> Option<Seq<char>> {
    match symbol {
        Some(s) => if trim(s).len() == 0 {
            None
        } else {
            Some(trim(s))
        },
        None => None,
    }
}

/// Executable `symbol_query_of`: which symbol to resolve, if any.
pub fn symbol_query(symbol: &Option<String>) -> (r: Option<String>)
    ensures
        opt_view(r) == symbol_query_of(opt_view(*symbol)),
{
    match symbol {
        Some(s) => {
            let c = chars_of(s.as_str());
            let t = trim_vec(&c);
            if t.len() == 0 {
                None
            } else {
                Some(string_of(&t))
            }
        },
        None => None,
    }
}

/// The anchors of a related call: the path (trimmed, if not blank), the
/// paths of the symbol matches, then the paths of the current diff; each
/// once, first occurrence kept.
pub open spec fn related_anchors(path: Option<Seq<char>>, symbol_paths: Seq<Seq<char>>, diff_paths: Seq<Seq<char>>) -> Seq<Seq<char>> {
    let head = match path {
        Some(p) => trimmed_nonblank(seq![p]),
        None => seq![],
    };
    uniq(head + symbol_paths + diff_paths)
}

/// The anchors of a related call; `Err` when there is none.
pub fn related_anchor_paths(path: &Option<String>, symbol_paths: &Vec<String>, diff_paths: &Vec<String>) -> (r: Result<Vec<String>, String>)
    ensures
        related_anchors(opt_view(*path), str_views(symbol_paths@), str_views(diff_paths@)).len() == 0 <==> r is Err,
        r matches Ok(v) ==> str_views(v@) == related_anchors(
            opt_view(*path),
            str_views(symbol_paths@),
            str_views(diff_paths@),
        ),
        r matches Err(m) ==> m@ == "related requires a non-empty path, symbol, or current diff anchor"@,
{
    let mut all: Vec<String> = Vec::new();
    match path {
        Some(p) => {
            let one: Vec<String> = vec![p.clone()];
            assert(str_views(one@) =~= seq![p@]);
            append_trimmed(&mut all, &one);
        },
        None => {},
    }
    assert(str_views(all@) =~= match opt_view(*path) {
        Some(p) => trimmed_nonblank(seq![p]),
        None => Seq::<Seq<char>>::empty(),
    });
    append_all(&mut all, symbol_paths);
    append_all(&mut all, diff_paths);
    let out = uniq_strings(&all);
    if out.len() == 0 {
        Err(String::from_str("related requires a non-empty path, symbol, or current diff anchor"))
    } else {
        Ok(out)
    }
}


// ---------------------------------------------------------------------
// Numbers in resource addresses
// ---------------------------------------------------------------------
/// Whether a character is an ASCII digit.
pub open spec fn is_digit(c: char) -> bool {
    '0' <= c && c <= '9'
}

/// The value of a digit.
pub open spec fn digit_value(c: char) -> nat {
    ((c as int) - ('0' as int)) as nat
}

/// The value of a string of digits.
pub open spec fn digits_value(s: Seq<char>) -> nat
    decreases s.len(),
{
    if s.len() == 0 {
        0
    } else {
        digits_value(s.drop_last()) * 10 + digit_value(s.last())
    }
}

/// A numeral without its leading `+`, if it has one.
pub open spec fn unsigned_digits(s: Seq<char>) -> Seq<char> {
    if s.len() > 0 && s[0] == '+' {
        s.drop_first()
    } else {
        s
    }
}

/// Whether every character is a digit.
pub open spec fn all_digits(d: Seq<char>) -> bool {
    forall|i: int| 0 <= i < d.len() ==> is_digit(#[trigger] d[i])
}

/// `usize::from_str`: an optional `+`, then one or more digits whose value
/// fits.
pub open spec fn parse_usize(s: Seq<char>) -> Option<usize> {
    let d = unsigned_digits(s);
    if d.len() > 0 && all_digits(d) && digits_value(d) <= usize::MAX {
        Some(digits_value(d) as usize)
    } else {
        None
    }
}

proof fn lemma_digits_monotone(s: Seq<char>, k: int)
    requires
        0 <= k <= s.len(),
    ensures
        digits_value(s.take(k)) <= digits_value(s),
    decreases s.len() - k,
{
    if k < s.len() {
        lemma_digits_monotone(s, k + 1);
        assert(s.take(k + 1).drop_last() =~= s.take(k));
    } else {
        assert(s.take(k) =~= s);
    }
}

/// Executable `parse_usize`.
pub fn parse_usize_exec(s: &[char]) -> (r: Option<usize>)
    ensures
        r == parse_usize(s@),
{
    let d = if s.len() > 0 && s[0] == '+' {
        slice_of(s, 1, s.len())
    } else {
        slice_of(s, 0, s.len())
    };
    proof {
        if s@.len() > 0 && s@[0] == '+' {
            assert(d@ =~= s@.drop_first());
        } else {
            assert(d@ =~= s@);
        }
    }
    if d.len() == 0 {
        return None;
    }
    let mut v: usize = 0;
    let mut i: usize = 0;
    assert(d@.take(0) =~= Seq::<char>::empty());
    while i < d.len()
        invariant
            i <= d@.len(),
            d@.len() > 0,
            d@ == unsigned_digits(s@),
            v == digits_value(d@.take(i as int)),
            forall|k: int| 0 <= k < i ==> is_digit(#[trigger] d@[k]),
        decreases d.len() - i,
    {
        let c = d[i];
        assert(d@.take(i + 1).drop_last() =~= d@.take(i as int));
        if !('0' <= c && c <= '9') {
            assert(!is_digit(d@[i as int]));
            assert(!all_digits(d@));
            return None;
        }
        let dv = (c as u32 - '0' as u32) as usize;
        assert(dv == digit_value(c));
        if v > (usize::MAX - dv) / 10 {
            proof {
                assert(digits_value(d@.take(i + 1)) > usize::MAX) by (nonlinear_arith)
                    requires
                        v > (usize::MAX - dv) / 10,
                        digits_value(d@.take(i + 1)) == v * 10 + dv,
                        dv <= 9,
                ;
                lemma_digits_monotone(d@, i + 1);
            }
            return None;
        }
        v = v * 10 + dv;
        i += 1;
    }
    assert(d@.take(d@.len() as int) =~= d@);
    Some(v)
}

// ---------------------------------------------------------------------
// File resources
// ---------------------------------------------------------------------
/// The part of a file address after its scheme and before any query, and
/// the query.
pub open spec fn file_uri_parts(uri: Seq<char>) -> (Seq<char>, Seq<char>) {
    let rest = trim_start_matches(uri, "ctxpack://file/"@);
    match split_once(rest, "?"@) {
        Some((p, q)) => (trim_start_matches(p, "/"@), q),
        None => (trim_start_matches(rest, "/"@), seq![]),
    }
}

/// The `&`-separated parts of a query.
pub open spec fn query_parts(q: Seq<char>) -> Seq<Seq<char>> {
    crate::paths::split_char(q, '&')
}

/// The value of the first `lines=` part of a query, if any.
pub open spec fn lines_param(parts: Seq<Seq<char>>) -> Option<Seq<char>>
    decreases parts.len(),
{
    if parts.len() == 0 {
        None
    } else {
        match strip_prefix(parts[0], "lines="@) {
            Some(v) => Some(v),
            None => lines_param(parts.drop_first()),
        }
    }
}

/// The raw line range a query asks for: `lines=<start>-<end>`.
pub open spec fn raw_range(q: Seq<char>) -> Option<(usize, usize)> {
    match lines_param(query_parts(q)) {
        Some(v) => match split_once(v, "-"@) {
            Some((a, b)) => match (parse_usize(a), parse_usize(b)) {
                (Some(x), Some(y)) => Some((x, y)),
                _ => None,
            },
            None => None,
        },
        None => None,
    }
}

/// The line range a file address asks for: the start at least 1, the end
/// at least the start and at most 500 lines after it.
pub open spec fn file_range(q: Seq<char>) -> Option<(usize, usize)> {
    match raw_range(q) {
        Some((s, e)) => {
            let start = if s < 1 {
                1usize
            } else {
                s
            };
            let hi = if e < s {
                s
            } else {
                e
            };
            let end = if hi < s + 500 {
                hi
            } else {
                (s + 500) as usize
            };
            Some((start, end))
        },
        None => None,
    }
}

fn lines_param_exec(parts: &Vec<Vec<char>>) -> (r: Option<Vec<char>>)
    ensures
        match lines_param(crate::model::vec_views(parts@)) {
            Some(v) => r matches Some(x) && x@ == v,
            None => r is None,
        },
{
    let ghost pv = crate::model::vec_views(parts@);
    let mut i: usize = 0;
    assert(pv.skip(0) =~= pv);
    while i < parts.len()
        invariant
            i <= parts@.len(),
            pv == crate::model::vec_views(parts@),
            lines_param(pv) == lines_param(pv.skip(i as int)),
        decreases parts.len() - i,
    {
        assert(pv.skip(i as int)[0] == parts@[i as int]@);
        assert(pv.skip(i as int).drop_first() =~= pv.skip(i + 1));
        match strip_prefix_str(&parts[i], "lines=") {
            Some(v) => {
                return Some(v);
            },
            None => {},
        }
        i += 1;
    }
    assert(pv.skip(i as int) =~= Seq::<Seq<char>>::empty());
    None
}

/// Whether the range a file address asks for can be bounded without
/// overflow (the start is at most `usize::MAX - 500`); an address without
/// a path is refused before any range is read.
pub open spec fn range_fits(uri: Seq<char>) -> bool {
    file_uri_parts(uri).0.len() == 0 || match raw_range(file_uri_parts(uri).1) {
        Some((s, _)) => s + 500 <= usize::MAX,
        None => true,
    }
}

/// The path and line range of a file resource address
/// (`ctxpack://file/<path>?lines=<start>-<end>`); `Err` when it names no
/// path.
pub fn parse_file_uri(uri: &str) -> (r: Result<(String, Option<(usize, usize)>), String>)
    requires
        range_fits(uri@),
    ensures
        file_uri_parts(uri@).0.len() == 0 <==> r is Err,
        r matches Err(m) ==> m@ == "file resource requires a path"@,
        r matches Ok((p, range)) ==> p@ == file_uri_parts(uri@).0 && range == file_range(
            file_uri_parts(uri@).1,
        ),
{
    let u = chars_of(uri);
    let rest = trim_start_matches_str(&u, "ctxpack://file/");
    let (path_part, query) = match split_once_str(&rest, "?") {
        Some((p, q)) => (p, q),
        None => (slice_of(&rest, 0, rest.len()), Vec::new()),
    };
    proof {
        if split_once(rest@, "?"@) is None {
            assert(path_part@ =~= rest@);
            assert(query@ =~= Seq::<char>::empty());
        }
    }
    let path = trim_start_matches_str(&path_part, "/");
    if path.len() == 0 {
        return Err(String::from_str("file resource requires a path"));
    }
    let parts = crate::paths::split_char_exec(&query, '&');
    let range = match lines_param_exec(&parts) {
        Some(v) => match split_once_str(&v, "-") {
            Some((a, b)) => match (parse_usize_exec(&a), parse_usize_exec(&b)) {
                (Some(x), Some(y)) => {
                    let start = if x < 1 {
                        1
                    } else {
                        x
                    };
                    let hi = if y < x {
                        x
                    } else {
                        y
                    };
                    let end = if hi < x + 500 {
                        hi
                    } else {
                        x + 500
                    };
                    Some((start, end))
                },
                _ => None,
            },
            None => None,
        },
        None => None,
    };
    Ok((string_of(&path), range))
}

/// Whether the line range of a file address can be bounded (the test made
/// before `parse_file_uri`).
pub fn file_range_fits(uri: &str) -> (b: bool)
    ensures
        b == range_fits(uri@),
{
    let u = chars_of(uri);
    let rest = trim_start_matches_str(&u, "ctxpack://file/");
    let (path_part, query) = match split_once_str(&rest, "?") {
        Some((p, q)) => (p, q),
        None => (slice_of(&rest, 0, rest.len()), Vec::new()),
    };
    proof {
        if split_once(rest@, "?"@) is None {
            assert(path_part@ =~= rest@);
            assert(query@ =~= Seq::<char>::empty());
        }
    }
    if trim_start_matches_str(&path_part, "/").len() == 0 {
        return true;
    }
    let parts = crate::paths::split_char_exec(&query, '&');
    match lines_param_exec(&parts) {
        Some(v) => match split_once_str(&v, "-") {
            Some((a, b)) => match (parse_usize_exec(&a), parse_usize_exec(&b)) {
                (Some(x), Some(_)) => x <= usize::MAX - 500,
                _ => true,
            },
            None => true,
        },
        None => true,
    }
}

/// A line number right-aligned in four columns.
pub open spec fn pad4(n: nat) -> Seq<char> {
    let d = decimal(n);
    if d.len() < 4 {
        Seq::new((4 - d.len()) as nat, |i: int| ' ') + d
    } else {
        d
    }
}

/// The numbered lines of `content` from line `start` to line `end`
/// (counting from 1), each as `<number>: <line>`.
pub open spec fn numbered_lines(ls: Seq<Seq<char>>, start: nat, end: nat, n: nat) -> Seq<Seq<char>>
    decreases n,
{
    if n == 0 {
        seq![]
    } else {
        numbered_lines(ls, start, end, (n - 1) as nat) + if start <= n && n <= end {
            seq![pad4(n) + ": "@ + ls[n - 1]]
        } else {
            seq![]
        }
    }
}

/// The lines of `content` from `start` to `end`, numbered, joined with
/// newlines.
pub open spec fn line_slice(content: Seq<char>, start: nat, end: nat) -> Seq<char> {
    let ls = lines(content);
    join_with(numbered_lines(ls, start, end, ls.len()), "\n"@)
}

fn pad4_exec(n: usize) -> (r: Vec<char>)
    ensures
        r@ == pad4(n as nat),
{
    let d = decimal_chars(n as u64);
    if d.len() < 4 {
        let mut out: Vec<char> = Vec::new();
        let k = 4 - d.len();
        let mut j: usize = 0;
        while j < k
            invariant
                j <= k,
                out@ == Seq::new(j as nat, |i: int| ' '),
            decreases k - j,
        {
            out.push(' ');
            j += 1;
            assert(out@ =~= Seq::new(j as nat, |i: int| ' '));
        }
        extend_chars(&mut out, &d);
        out
    } else {
        d
    }
}

/// Executable `line_slice`.
pub fn render_line_slice(content: &str, start: usize, end: usize) -> (r: String)
    ensures
        r@ == line_slice(content@, start as nat, end as nat),
{
    let c = chars_of(content);
    let ls = lines_exec(&c);
    let ghost lv = crate::model::vec_views(ls@);
    let mut out: Vec<String> = Vec::new();
    let mut i: usize = 0;
    while i < ls.len()
        invariant
            i <= ls@.len(),
            lv == crate::model::vec_views(ls@),
            str_views(out@) == numbered_lines(lv, start as nat, end as nat, i as nat),
        decreases ls.len() - i,
    {
        let n = i + 1;
        if start <= n && n <= end {
            let mut v = pad4_exec(n);
            extend_str(&mut v, ": ");
            extend_chars(&mut v, &ls[i]);
            assert(lv[i as int] == ls@[i as int]@);
            let ghost before = str_views(out@);
            let s = string_of(&v);
            out.push(s);
            assert(str_views(out@) =~= before.push(v@));
        } else {
            assert(str_views(out@) =~= str_views(out@) + Seq::<Seq<char>>::empty());
        }
        i += 1;
    }
    join_with_exec(&out, "\n")
}


// ---------------------------------------------------------------------
// Resources
// ---------------------------------------------------------------------
/// Which handler a resource address goes to.
#[derive(Debug, Clone, Copy, PartialEq, Eq, Structural)]
pub enum ResourceRoute {
    RepoSummary,
    TestMap,
    DependencyGraph,
    PackGuide,
    Pack,
    File,
    Symbol,
    Unsupported,
}

/// The handler of a resource address: the fixed addresses first, then the
/// pack, file and symbol prefixes.
pub open spec fn route_of(uri: Seq<char>) -> ResourceRoute {
    if uri == "ctxpack://repo/summary"@ {
        ResourceRoute::RepoSummary
    } else if uri == "ctxpack://repo/test-map"@ {
        ResourceRoute::TestMap
    } else if uri == "ctxpack://repo/dependency-graph"@ {
        ResourceRoute::DependencyGraph
    } else if uri == "ctxpack://pack/guide"@ {
        ResourceRoute::PackGuide
    } else if starts_with(uri, "ctxpack://pack/"@) {
        ResourceRoute::Pack
    } else if starts_with(uri, "ctxpack://file/"@) {
        ResourceRoute::File
    } else if starts_with(uri, "ctxpack://symbol/"@) {
        ResourceRoute::Symbol
    } else {
        ResourceRoute::Unsupported
    }
}

/// Executable `route_of`.
pub fn resource_route(uri: &str) -> (r: ResourceRoute)
    ensures
        r == route_of(uri@),
{
    let u = chars_of(uri);
    if crate::text::eq_str(&u, "ctxpack://repo/summary") {
        ResourceRoute::RepoSummary
    } else if crate::text::eq_str(&u, "ctxpack://repo/test-map") {
        ResourceRoute::TestMap
    } else if crate::text::eq_str(&u, "ctxpack://repo/dependency-graph") {
        ResourceRoute::DependencyGraph
    } else if crate::text::eq_str(&u, "ctxpack://pack/guide") {
        ResourceRoute::PackGuide
    } else if crate::text::starts_with_str(&u, "ctxpack://pack/") {
        ResourceRoute::Pack
    } else if crate::text::starts_with_str(&u, "ctxpack://file/") {
        ResourceRoute::File
    } else if crate::text::starts_with_str(&u, "ctxpack://symbol/") {
        ResourceRoute::Symbol
    } else {
        ResourceRoute::Unsupported
    }
}

/// The error for an address no handler takes.
pub fn unsupported_resource_message(uri: &str) -> (r: String)
    ensures
        r@ == "unsupported resource URI: "@ + uri@,
{
    let mut v: Vec<char> = Vec::new();
    extend_str(&mut v, "unsupported resource URI: ");
    extend_str(&mut v, uri);
    string_of(&v)
}

/// The symbol a symbol resource names.
pub open spec fn resource_symbol(uri: Seq<char>) -> Seq<char> {
    trim(trim_start_matches(uri, "ctxpack://symbol/"@))
}

/// The symbol a symbol resource names; `Err` when it names none.
pub fn symbol_resource_name(uri: &str) -> (r: Result<String, String>)
    ensures
        resource_symbol(uri@).len() == 0 <==> r is Err,
        r matches Ok(s) ==> s@ == resource_symbol(uri@),
        r matches Err(m) ==> m@ == "symbol resource requires a symbol"@,
{
    let u = chars_of(uri);
    let rest = trim_start_matches_str(&u, "ctxpack://symbol/");
    let t = trim_vec(&rest);
    if t.len() == 0 {
        Err(String::from_str("symbol resource requires a symbol"))
    } else {
        Ok(string_of(&t))
    }
}

/// The guide to context packs.
pub open spec fn pack_guide() -> Seq<char> {
    "Use the `ctxpack.get_pack` MCP tool with `task`, optional `mode`, and `budget` to compile a task-conditioned context pack. Pack resource URIs returned by `prepare_task` are MCP-session scoped: they work only in the same MCP server process that created them. After reconnect or server restart, call `get_pack` for the durable reconnect-safe way to materialize a pack, or call `prepare_task` again to mint fresh session resource URIs. Packs are generated on demand so they reflect the current safe inventory and git history."@
}

/// Executable `pack_guide`, with its media type.
pub fn pack_guide_markdown() -> (r: CachedResource)
    ensures
        r.mime_type@ == "text/markdown"@,
        r.text@ == pack_guide(),
{
    CachedResource {
        mime_type: String::from_str("text/markdown"),
        text: String::from_str(
            "Use the `ctxpack.get_pack` MCP tool with `task`, optional `mode`, and `budget` to compile a task-conditioned context pack. Pack resource URIs returned by `prepare_task` are MCP-session scoped: they work only in the same MCP server process that created them. After reconnect or server restart, call `get_pack` for the durable reconnect-safe way to materialize a pack, or call `prepare_task` again to mint fresh session resource URIs. Packs are generated on demand so they reflect the current safe inventory and git history.",
        ),
    }
}

/// A resource as served: its media type and text.
#[derive(Debug, Clone)]
pub struct CachedResource {
    pub mime_type: String,
    pub text: String,
}

/// The most pack resources a session keeps.
pub const MAX_PACK_RESOURCE_CACHE_ENTRIES: usize = 24;

/// The pack resources of a session, oldest first: each address once, at
/// most `MAX_PACK_RESOURCE_CACHE_ENTRIES` of them.
#[derive(Debug)]
pub struct PackResourceCache {
    entries: Vec<(String, CachedResource)>,
}

/// The content of a cached resource.
pub type ResourceView = (Seq<char>, Seq<char>);

/// The content of a cache entry.
pub type EntryView = (Seq<char>, ResourceView);

/// The entries without the one at `uri`, in order.
pub open spec fn without_key(s: Seq<EntryView>, uri: Seq<char>) -> Seq<EntryView>
    decreases s.len(),
{
    if s.len() == 0 {
        seq![]
    } else {
        without_key(s.drop_last(), uri) + if s.last().0 == uri {
            seq![]
        } else {
            seq![s.last()]
        }
    }
}

/// The newest `MAX_PACK_RESOURCE_CACHE_ENTRIES` entries.
pub open spec fn evicted(s: Seq<EntryView>) -> Seq<EntryView> {
    if s.len() > MAX_PACK_RESOURCE_CACHE_ENTRIES {
        s.skip(s.len() - MAX_PACK_RESOURCE_CACHE_ENTRIES)
    } else {
        s
    }
}

/// The entry at `uri`, if any.
pub open spec fn lookup(s: Seq<EntryView>, uri: Seq<char>) -> Option<ResourceView>
    decreases s.len(),
{
    if s.len() == 0 {
        None
    } else if s.last().0 == uri {
        Some(s.last().1)
    } else {
        lookup(s.drop_last(), uri)
    }
}

/// The content of an entry.
pub open spec fn entry_view(e: (String, CachedResource)) -> EntryView {
    (e.0@, (e.1.mime_type@, e.1.text@))
}

/// The contents of entries.
pub open spec fn entries_of(v: Seq<(String, CachedResource)>) -> Seq<EntryView> {
    v.map_values(|e: (String, CachedResource)| entry_view(e))
}

/// No address occurs twice.
pub open spec fn distinct_keys(s: Seq<EntryView>) -> bool {
    forall|i: int, j: int| 0 <= i < j < s.len() ==> (#[trigger] s[i]).0 != (#[trigger] s[j]).0
}

impl PackResourceCache {
    /// The entries, oldest first.
    pub closed spec fn entries_view(&self) -> Seq<EntryView> {
        entries_of(self.entries@)
    }

    /// The cache's invariant: each address once, within the bound.
    pub open spec fn wf(&self) -> bool {
        &&& distinct_keys(self.entries_view())
        &&& self.entries_view().len() <= MAX_PACK_RESOURCE_CACHE_ENTRIES
    }

    /// An empty cache.
    pub fn new() -> (c: PackResourceCache)
        ensures
            c.wf(),
            c.entries_view().len() == 0,
    {
        let c = PackResourceCache { entries: Vec::new() };
        assert(c.entries_view() =~= Seq::<EntryView>::empty());
        c
    }

    /// How many resources the cache holds.
    pub fn len(&self) -> (n: usize)
        ensures
            n == self.entries_view().len(),
    {
        self.entries.len()
    }

    /// The most resources a cache holds.
    pub fn limit() -> (n: usize)
        ensures
            n == MAX_PACK_RESOURCE_CACHE_ENTRIES,
    {
        MAX_PACK_RESOURCE_CACHE_ENTRIES
    }

    /// Empties the cache.
    pub fn clear(&mut self)
        ensures
            final(self).wf(),
            final(self).entries_view().len() == 0,
    {
        self.entries = Vec::new();
        assert(self.entries_view() =~= Seq::<EntryView>::empty());
    }

    /// Stores a resource at `uri`: an older entry at `uri` is dropped, the
    /// new one becomes the newest, and the oldest entries go beyond the
    /// bound.
    pub fn insert(&mut self, uri: String, resource: CachedResource)
        requires
            old(self).wf(),
        ensures
            final(self).wf(),
            final(self).entries_view() == evicted(
                without_key(old(self).entries_view(), uri@).push(
                    (uri@, (resource.mime_type@, resource.text@)),
                ),
            ),
    {
        let ghost ov = self.entries_view();
        let ghost item = (uri@, (resource.mime_type@, resource.text@));
        let mut old_entries: Vec<(String, CachedResource)> = Vec::new();
        std::mem::swap(&mut old_entries, &mut self.entries);
        let mut kept: Vec<(String, CachedResource)> = Vec::new();
        let mut rest = old_entries;
        let n = rest.len();
        let mut i: usize = 0;
        proof {
            assert(entries_of(rest@) == ov);
        }
        while i < n
            invariant
                n == ov.len(),
                i <= n,
                rest@.len() == n - i,
                entries_of(rest@) == ov.skip(i as int),
                entries_of(kept@) == without_key(ov.take(i as int), uri@),
            decreases n - i,
        {
            let ghost old_rest = rest@;
            let e = rest.remove(0);
            proof {
                assert(rest@ =~= old_rest.drop_first());
                assert(entries_of(old_rest)[0] == entry_view(e));
                assert(ov.skip(i as int)[0] == ov[i as int]);
                assert(entries_of(rest@) =~= entries_of(old_rest).drop_first());
                assert(ov.skip(i as int).drop_first() =~= ov.skip(i + 1));
                assert(ov.take(i + 1).drop_last() =~= ov.take(i as int));
                assert(ov.take(i + 1).last() == ov[i as int]);
            }
            let ghost before = kept@;
            if !string_eq(&e.0, &uri) {
                kept.push(e);
                proof {
                    assert(entries_of(kept@) =~= entries_of(before).push(ov[i as int]));
                }
            } else {
                proof {
                    assert(entries_of(kept@) =~= entries_of(before) + Seq::<EntryView>::empty());
                }
            }
            i += 1;
        }
        assert(ov.take(n as int) =~= ov);
        let ghost removed = without_key(ov, uri@);
        proof {
            lemma_without_key(ov, uri@);
        }
        kept.push((uri, resource));
        let ghost pushed = removed.push(item);
        proof {
            assert(entries_of(kept@) =~= pushed);
        }
        if kept.len() > MAX_PACK_RESOURCE_CACHE_ENTRIES {
            let ghost before = kept@;
            kept.remove(0);
            proof {
                assert(kept@ =~= before.drop_first());
                assert(entries_of(kept@) =~= pushed.skip(1));
                assert(pushed.len() == MAX_PACK_RESOURCE_CACHE_ENTRIES + 1);
            }
        }
        self.entries = kept;
        proof {
            let v = self.entries_view();
            assert(v == evicted(pushed));
            assert forall|a: int, b: int| 0 <= a < b < v.len() implies (#[trigger] v[a]).0 != (#[trigger] v[b]).0 by {
                let off = pushed.len() - v.len();
                assert(v[a] == pushed[a + off]);
                assert(v[b] == pushed[b + off]);
                if b + off < removed.len() {
                    assert(pushed[a + off] == removed[a + off]);
                    assert(pushed[b + off] == removed[b + off]);
                } else {
                    assert(pushed[a + off] == removed[a + off]);
                    assert(removed.contains(removed[a + off]));
                }
            }
        }
    }

    /// The resource at `uri`, if the cache holds one.
    pub fn get(&self, uri: &String) -> (r: Option<&CachedResource>)
        ensures
            match lookup(self.entries_view(), uri@) {
                Some(v) => r matches Some(x) && (x.mime_type@, x.text@) == v,
                None => r is None,
            },
    {
        let ghost ev = self.entries_view();
        let mut j: usize = self.entries.len();
        assert(ev.take(j as int) =~= ev);
        while j > 0
            invariant
                j <= self.entries@.len(),
                ev == self.entries_view(),
                lookup(ev, uri@) == lookup(ev.take(j as int), uri@),
            decreases j,
        {
            let ghost t = ev.take(j as int);
            assert(t.last() == ev[j - 1]);
            assert(t.drop_last() =~= ev.take(j - 1));
            if string_eq(&self.entries[j - 1].0, uri) {
                return Some(&self.entries[j - 1].1);
            }
            j -= 1;
        }
        None
    }
}

proof fn lemma_without_key(s: Seq<EntryView>, uri: Seq<char>)
    requires
        distinct_keys(s),
    ensures
        distinct_keys(without_key(s, uri)),
        forall|i: int| 0 <= i < without_key(s, uri).len() ==> (#[trigger] without_key(s, uri)[i]).0 != uri,
        forall|i: int| 0 <= i < without_key(s, uri).len() ==> s.contains(#[trigger] without_key(s, uri)[i]),
        without_key(s, uri).len() <= s.len(),
    decreases s.len(),
{
    if s.len() > 0 {
        let d = s.drop_last();
        assert(distinct_keys(d)) by {
            assert forall|i: int, j: int| 0 <= i < j < d.len() implies (#[trigger] d[i]).0 != (#[trigger] d[j]).0 by {
                assert(d[i] == s[i] && d[j] == s[j]);
            }
        }
        lemma_without_key(d, uri);
        let w = without_key(d, uri);
        let r = without_key(s, uri);
        assert forall|i: int| 0 <= i < w.len() implies s.contains(#[trigger] w[i]) by {
            assert(d.contains(w[i]));
            let k = choose|k: int| 0 <= k < d.len() && d[k] == w[i];
            assert(s[k] == w[i]);
        }
        if s.last().0 != uri {
            assert(r == w.push(s.last()));
            assert forall|i: int, j: int| 0 <= i < j < r.len() implies (#[trigger] r[i]).0 != (#[trigger] r[j]).0 by {
                if j == w.len() {
                    assert(s.contains(w[i]));
                    let k = choose|k: int| 0 <= k < s.len() && s[k] == w[i];
                    if k == s.len() - 1 {
                    } else {
                        assert(s[k].0 != s[s.len() - 1].0);
                    }
                } else {
                    assert(r[i] == w[i] && r[j] == w[j]);
                }
            }
            assert forall|i: int| 0 <= i < r.len() implies s.contains(#[trigger] r[i]) by {
                if i == w.len() {
                    assert(s[s.len() - 1] == r[i]);
                } else {
                    assert(r[i] == w[i]);
                }
            }
        } else {
            assert(r =~= w);
        }
    }
}

/// A cache after storing a pack's two renderings: the Markdown at `uri`
/// and the JSON at `uri.json`.
pub fn cache_pack_texts(cache: &mut PackResourceCache, uri: &str, markdown: String, json: String)
    requires
        old(cache).wf(),
    ensures
        final(cache).wf(),
        final(cache).entries_view() == evicted(
            without_key(
                evicted(
                    without_key(old(cache).entries_view(), uri@).push(
                        (uri@, ("text/markdown"@, markdown@)),
                    ),
                ),
                uri@ + ".json"@,
            ).push((uri@ + ".json"@, ("application/json"@, json@))),
        ),
{
    cache.insert(
        String::from_str(uri),
        CachedResource { mime_type: String::from_str("text/markdown"), text: markdown },
    );
    let mut j: Vec<char> = chars_of(uri);
    extend_str(&mut j, ".json");
    cache.insert(
        string_of(&j),
        CachedResource { mime_type: String::from_str("application/json"), text: json },
    );
}

/// The error text for a pack resource that the session does not hold.
pub open spec fn missing_pack_text(uri: Seq<char>) -> Seq<char> {
    "pack resource is session-scoped and is only available after prepare_task in the same MCP server process; call prepare_task first in this session, or call get_pack again after reconnect/restart: "@
        + uri
}

/// The error for a pack resource that this session does not hold.
pub fn missing_pack_resource_message(uri: &str) -> (r: String)
    ensures
        r@ == missing_pack_text(uri@),
{
    let mut v: Vec<char> = Vec::new();
    extend_str(
        &mut v,
        "pack resource is session-scoped and is only available after prepare_task in the same MCP server process; call prepare_task first in this session, or call get_pack again after reconnect/restart: ",
    );
    extend_str(&mut v, uri);
    string_of(&v)
}


/// Reads a pack resource of this session: the stored media type and text
/// when the cache holds `uri`, else the error that the resource is
/// session-scoped. The cache is only read.
pub fn read_pack_resource(cache: &PackResourceCache, uri: &str) -> (r: Result<CachedResource, String>)
    ensures
        match lookup(cache.entries_view(), uri@) {
            Some(v) => r matches Ok(x) && (x.mime_type@, x.text@) == v,
            None => r matches Err(m) && m@ == missing_pack_text(uri@),
        },
{
    let key = String::from_str(uri);
    match cache.get(&key) {
        Some(found) => Ok(CachedResource { mime_type: found.mime_type.clone(), text: found.text.clone() }),
        None => Err(missing_pack_resource_message(uri)),
    }
}

/// Without an entry at `uri`, dropping `uri` changes nothing.
proof fn lemma_without_absent(s: Seq<EntryView>, uri: Seq<char>)
    requires
        lookup(s, uri) is None,
    ensures
        without_key(s, uri) == s,
    decreases s.len(),
{
    if s.len() > 0 {
        lemma_without_absent(s.drop_last(), uri);
        assert(s.drop_last().push(s.last()) =~= s);
    }
}

/// With each address once, dropping a present `uri` drops exactly one entry.
proof fn lemma_without_present(s: Seq<EntryView>, uri: Seq<char>)
    requires
        distinct_keys(s),
        lookup(s, uri) is Some,
    ensures
        without_key(s, uri).len() == s.len() - 1,
    decreases s.len(),
{
    let d = s.drop_last();
    assert(distinct_keys(d)) by {
        assert forall|i: int, j: int| 0 <= i < j < d.len() implies (#[trigger] d[i]).0 != (#[trigger] d[j]).0 by {
            assert(d[i] == s[i] && d[j] == s[j]);
        }
    }
    if s.last().0 == uri {
        assert forall|i: int| 0 <= i < d.len() implies (#[trigger] d[i]).0 != uri by {
            assert(s[i] == d[i]);
            assert(s[i].0 != s[s.len() - 1].0);
        }
        lemma_lookup_absent(d, uri);
        lemma_without_absent(d, uri);
    } else {
        lemma_without_present(d, uri);
    }
}

proof fn lemma_lookup_absent(s: Seq<EntryView>, uri: Seq<char>)
    requires
        forall|i: int| 0 <= i < s.len() ==> (#[trigger] s[i]).0 != uri,
    ensures
        lookup(s, uri) is None,
    decreases s.len(),
{
    if s.len() > 0 {
        assert(s[s.len() - 1].0 != uri);
        assert forall|i: int| 0 <= i < s.drop_last().len() implies (#[trigger] s.drop_last()[i]).0 != uri by {
            assert(s.drop_last()[i] == s[i]);
        }
        lemma_lookup_absent(s.drop_last(), uri);
    }
}

/// How storing a resource bounds the cache: the stored entry becomes the
/// newest; a new address in a full cache (one holding
/// `MAX_PACK_RESOURCE_CACHE_ENTRIES` entries) evicts exactly the oldest
/// entry and keeps all others in order; a new address in a cache with room
/// evicts nothing; an address already held moves to the newest place, with
/// the others kept in order and nothing evicted.
pub proof fn lemma_insert_evicts_oldest(s: Seq<EntryView>, uri: Seq<char>, r: ResourceView)
    requires
        distinct_keys(s),
        s.len() <= MAX_PACK_RESOURCE_CACHE_ENTRIES,
    ensures
        evicted(without_key(s, uri).push((uri, r))).last() == (uri, r),
        lookup(s, uri) is None && s.len() == MAX_PACK_RESOURCE_CACHE_ENTRIES ==> evicted(
            without_key(s, uri).push((uri, r)),
        ) == s.drop_first().push((uri, r)),
        lookup(s, uri) is None && s.len() < MAX_PACK_RESOURCE_CACHE_ENTRIES ==> evicted(
            without_key(s, uri).push((uri, r)),
        ) == s.push((uri, r)),
        lookup(s, uri) is Some ==> evicted(without_key(s, uri).push((uri, r))) == without_key(
            s,
            uri,
        ).push((uri, r)) && without_key(s, uri).len() == s.len() - 1,
{
    let w = without_key(s, uri);
    let p = w.push((uri, r));
    if lookup(s, uri) is None {
        lemma_without_absent(s, uri);
        if s.len() == MAX_PACK_RESOURCE_CACHE_ENTRIES {
            assert(p.skip(1) =~= s.drop_first().push((uri, r)));
        }
    } else {
        lemma_without_present(s, uri);
    }
    if p.len() > MAX_PACK_RESOURCE_CACHE_ENTRIES {
        assert(evicted(p).last() == p.last());
    }
}

/// After a resource is stored at `uri`, reading `uri` gives it back.
pub proof fn lemma_read_after_insert(s: Seq<EntryView>, uri: Seq<char>, r: ResourceView)
    ensures
        lookup(evicted(without_key(s, uri).push((uri, r))), uri) == Some(r),
{
    let p = without_key(s, uri).push((uri, r));
    let e = evicted(p);
    if p.len() > MAX_PACK_RESOURCE_CACHE_ENTRIES {
        assert(e.last() == p.last());
    }
}

proof fn lemma_lookup_without_key(s: Seq<EntryView>, uri: Seq<char>, k: Seq<char>)
    requires
        k != uri,
    ensures
        lookup(without_key(s, uri), k) == lookup(s, k),
    decreases s.len(),
{
    if s.len() > 0 {
        lemma_lookup_without_key(s.drop_last(), uri, k);
        if s.last().0 == uri {
            assert(without_key(s, uri) =~= without_key(s.drop_last(), uri));
        } else {
            assert(without_key(s, uri).drop_last() =~= without_key(s.drop_last(), uri));
        }
    }
}

proof fn lemma_lookup_suffix(s: Seq<EntryView>, n: int, k: Seq<char>)
    requires
        0 <= n <= s.len(),
    ensures
        lookup(s.skip(n), k) is Some ==> lookup(s.skip(n), k) == lookup(s, k),
    decreases s.len(),
{
    if s.len() > 0 && n < s.len() {
        assert(s.skip(n).last() == s.last());
        if s.last().0 != k {
            assert(s.skip(n).drop_last() =~= s.drop_last().skip(n));
            lemma_lookup_suffix(s.drop_last(), n, k);
        }
    } else if n == s.len() {
        assert(s.skip(n) =~= Seq::<EntryView>::empty());
    }
}

/// Storing a resource never changes what another address reads: an
/// address other than `uri` that can still be read gives what it gave
/// before.
pub proof fn lemma_insert_keeps_others(s: Seq<EntryView>, uri: Seq<char>, r: ResourceView, k: Seq<char>)
    requires
        k != uri,
    ensures
        lookup(evicted(without_key(s, uri).push((uri, r))), k) is Some ==> lookup(
            evicted(without_key(s, uri).push((uri, r))),
            k,
        ) == lookup(s, k),
{
    let w = without_key(s, uri);
    let p = w.push((uri, r));
    lemma_lookup_without_key(s, uri, k);
    assert(p.drop_last() =~= w);
    if p.len() > MAX_PACK_RESOURCE_CACHE_ENTRIES {
        lemma_lookup_suffix(p, p.len() - MAX_PACK_RESOURCE_CACHE_ENTRIES, k);
    }
}

/// The diagnostic codes that mean local git history could not be read.
pub open spec fn history_code(code: Seq<char>) -> bool {
    code == "history_partial"@ || code == "git_missing"@ || code == "git_timeout"@ || code
        == "git_unavailable"@
}

/// The warnings a related call reports for missing git history: one per
/// such diagnostic, in order.
pub open spec fn history_warnings_of(ds: Seq<crate::model::DiagnosticView>) -> Seq<Seq<char>>
    decreases ds.len(),
{
    if ds.len() == 0 {
        seq![]
    } else {
        history_warnings_of(ds.drop_last()) + if history_code(ds.last().code) {
            seq![
                "Local git co-change hints were unavailable; continuing without history signal: "@
                    + ds.last().message,
            ]
        } else {
            seq![]
        }
    }
}

/// Executable `history_warnings_of`.
pub fn history_warnings(diagnostics: &Vec<crate::model::Diagnostic>) -> (r: Vec<String>)
    ensures
        str_views(r@) == history_warnings_of(crate::freshness::diag_views(diagnostics@)),
{
    let ghost dv = crate::freshness::diag_views(diagnostics@);
    let mut out: Vec<String> = Vec::new();
    let mut i: usize = 0;
    while i < diagnostics.len()
        invariant
            i <= diagnostics@.len(),
            dv == crate::freshness::diag_views(diagnostics@),
            str_views(out@) == history_warnings_of(dv.take(i as int)),
        decreases diagnostics.len() - i,
    {
        assert(dv.take(i + 1).drop_last() =~= dv.take(i as int));
        assert(dv.take(i + 1).last() == diagnostics@[i as int]@);
        let d = &diagnostics[i];
        let code = chars_of(d.code.as_str());
        let ghost before = str_views(out@);
        if crate::text::eq_str(&code, "history_partial") || crate::text::eq_str(&code, "git_missing")
            || crate::text::eq_str(&code, "git_timeout") || crate::text::eq_str(
            &code,
            "git_unavailable",
        ) {
            let mut v: Vec<char> = Vec::new();
            extend_str(
                &mut v,
                "Local git co-change hints were unavailable; continuing without history signal: ",
            );
            extend_str(&mut v, d.message.as_str());
            let s = string_of(&v);
            out.push(s);
            assert(str_views(out@) =~= before.push(v@));
        } else {
            assert(str_views(out@) =~= before + Seq::<Seq<char>>::empty());
        }
        i += 1;
    }
    assert(dv.take(dv.len() as int) =~= dv);
    out
}

/// The roles in the order of their names (`Config` to `Unknown`).
pub open spec fn roles_by_name() -> Seq<FileRole> {
    seq![
        FileRole::Config,
        FileRole::Docs,
        FileRole::Generated,
        FileRole::Schema,
        FileRole::Sensitive,
        FileRole::Source,
        FileRole::Test,
        FileRole::Unknown,
    ]
}

/// How many files have a role.
pub open spec fn role_count(files: Seq<crate::inventory::FileInventoryEntry>, r: FileRole) -> nat
    decreases files.len(),
{
    if files.len() == 0 {
        0
    } else {
        role_count(files.drop_last(), r) + if files.last().role == r {
            1nat
        } else {
            0
        }
    }
}

/// The role counts of a repository summary: each role that some file has,
/// by name, with its count, in name order.
pub open spec fn role_counts_of(files: Seq<crate::inventory::FileInventoryEntry>, n: nat) -> Seq<(Seq<char>, nat)>
    decreases n,
{
    if n == 0 {
        seq![]
    } else {
        let r = roles_by_name()[n - 1];
        role_counts_of(files, (n - 1) as nat) + if role_count(files, r) > 0 {
            seq![(crate::semantic::role_name(r), role_count(files, r))]
        } else {
            seq![]
        }
    }
}

fn count_role(files: &Vec<crate::inventory::FileInventoryEntry>, r: FileRole) -> (n: usize)
    ensures
        n == role_count(files@, r),
{
    let mut n: usize = 0;
    let mut i: usize = 0;
    while i < files.len()
        invariant
            i <= files@.len(),
            n == role_count(files@.take(i as int), r),
            n <= i,
        decreases files.len() - i,
    {
        assert(files@.take(i + 1).drop_last() =~= files@.take(i as int));
        if files[i].role == r {
            n = n + 1;
        }
        i += 1;
    }
    assert(files@.take(files@.len() as int) =~= files@);
    n
}

/// The role counts of a repository summary.
pub fn role_counts(files: &Vec<crate::inventory::FileInventoryEntry>) -> (r: Vec<(String, usize)>)
    ensures
        r@.map_values(|e: (String, usize)| (e.0@, e.1 as nat)) == role_counts_of(files@, 8),
{
    let roles = [
        FileRole::Config,
        FileRole::Docs,
        FileRole::Generated,
        FileRole::Schema,
        FileRole::Sensitive,
        FileRole::Source,
        FileRole::Test,
        FileRole::Unknown,
    ];
    assert(roles@ =~= roles_by_name());
    let mut out: Vec<(String, usize)> = Vec::new();
    let mut k: usize = 0;
    while k < 8
        invariant
            k <= 8,
            roles@ == roles_by_name(),
            out@.map_values(|e: (String, usize)| (e.0@, e.1 as nat)) == role_counts_of(files@, k as nat),
        decreases 8 - k,
    {
        let role = roles[k];
        let c = count_role(files, role);
        let ghost before = out@;
        if c > 0 {
            out.push((String::from_str(crate::semantic::role_name_str(role)), c));
            assert(out@.map_values(|e: (String, usize)| (e.0@, e.1 as nat)) =~= before.map_values(
                |e: (String, usize)| (e.0@, e.1 as nat),
            ).push((crate::semantic::role_name(role), c as nat)));
        } else {
            assert(out@.map_values(|e: (String, usize)| (e.0@, e.1 as nat)) =~= before.map_values(
                |e: (String, usize)| (e.0@, e.1 as nat),
            ) + Seq::<(Seq<char>, nat)>::empty());
        }
        k += 1;
    }
    out
}

} // verus!
