//! Lexical search: query terms, term weights, and the evidence a file
//! gives for each term.
use vstd::prelude::*;

use crate::model::{str_views, FileRole};
use crate::strs::{join_with, join_with_exec, sort_strings, sort_strs, uniq, uniq_strings};
use crate::text::{
    alnum, chars_of, contains, count_matches, count_matches_exec, decimal, decimal_chars,
    ends_with, ends_with_str, eq_str, extend_chars, extend_str, find_exec, is_alnum, lower,
    lower_vec, rsplit_once, rsplit_once_str, starts_with, starts_with_str, str_seq, string_of,
    to_lower, trim, trim_vec,
};

verus! {

/// How many results a lexical search returns.
#[derive(Debug, Clone, Copy, PartialEq, Eq, Structural)]
pub struct SearchOptions {
    pub limit: usize,
}

impl Default for SearchOptions {
    fn default() -> (o: SearchOptions)
        ensures
            o.limit == 10,
    {
        SearchOptions { limit: 10 }
    }
}

/// Characters that belong to a query term.
pub open spec fn is_term_char(c: char) -> bool {
    is_alnum(c) || c == '_'
}

/// The finished terms and the pending term after reading `s` from the left;
/// terms are lowercased as they are read.
pub open spec fn term_scan(s: Seq<char>) -> (Seq<Seq<char>>, Seq<char>)
    decreases s.len(),
{
    if s.len() == 0 {
        (seq![], seq![])
    } else {
        let (done, cur) = term_scan(s.drop_last());
        if is_term_char(s.last()) {
            (done, cur.push(to_lower(s.last())))
        } else if cur.len() > 0 {
            (done.push(cur), seq![])
        } else {
            (done, seq![])
        }
    }
}

/// The query terms: the maximal runs of ASCII letters, digits and `_`,
/// lowercased, in order.
pub open spec fn query_terms_of(s: Seq<char>) -> Seq<Seq<char>> {
    let (done, cur) = term_scan(s);
    if cur.len() > 0 {
        done.push(cur)
    } else {
        done
    }
}

/// An ASCII letter, an ASCII digit or `_`, by code point.
pub open spec fn ascii_word_char(c: char) -> bool {
    ('0' as u32 <= c as u32 && c as u32 <= '9' as u32) || ('A' as u32 <= c as u32 && c as u32
        <= 'Z' as u32) || ('a' as u32 <= c as u32 && c as u32 <= 'z' as u32) || c == '_'
}

proof fn lemma_scan_word(s: Seq<char>)
    requires
        forall|i: int| 0 <= i < s.len() ==> ascii_word_char(#[trigger] s[i]),
    ensures
        term_scan(s) == (Seq::<Seq<char>>::empty(), lower(s)),
    decreases s.len(),
{
    if s.len() > 0 {
        let d = s.drop_last();
        assert forall|i: int| 0 <= i < d.len() implies ascii_word_char(#[trigger] d[i]) by {
            assert(d[i] == s[i]);
        }
        lemma_scan_word(d);
        assert(ascii_word_char(s[s.len() - 1]));
        assert(lower(s) =~= lower(d).push(to_lower(s.last())));
    }
}

/// A query that is one word of ASCII letters, digits and `_` has that
/// word, lowercased, as its only term (so `HTTP2` gives `http2`).
pub proof fn lemma_single_word_query(s: Seq<char>)
    requires
        s.len() > 0,
        forall|i: int| 0 <= i < s.len() ==> ascii_word_char(#[trigger] s[i]),
    ensures
        query_terms_of(s) == seq![lower(s)],
{
    lemma_scan_word(s);
}

proof fn lemma_scan_keeps_word_chars(s: Seq<char>)
    ensures
        forall|i: int|
            0 <= i < s.len() && ascii_word_char(#[trigger] s[i]) ==> term_scan(s).1.contains(to_lower(s[i]))
                || exists|j: int| 0 <= j < term_scan(s).0.len() && (#[trigger] term_scan(s).0[j]).contains(to_lower(s[i])),
    decreases s.len(),
{
    if s.len() > 0 {
        let d = s.drop_last();
        lemma_scan_keeps_word_chars(d);
        let (done, cur) = term_scan(d);
        let c = s.last();
        assert forall|i: int|
            0 <= i < s.len() && ascii_word_char(#[trigger] s[i]) implies term_scan(s).1.contains(to_lower(s[i]))
                || exists|j: int| 0 <= j < term_scan(s).0.len() && (#[trigger] term_scan(s).0[j]).contains(to_lower(s[i])) by {
            let x = to_lower(s[i]);
            let ts = term_scan(s);
            if i == s.len() - 1 {
                assert(is_term_char(c));
                assert(ts.1 == cur.push(to_lower(c)));
                assert(ts.1[cur.len() as int] == x);
            } else {
                assert(d[i] == s[i]);
                assert(ascii_word_char(d[i]));
                let in_cur = cur.contains(x);
                if is_term_char(c) {
                    assert(ts == (done, cur.push(to_lower(c))));
                    if in_cur {
                        let k = choose|k: int| 0 <= k < cur.len() && cur[k] == x;
                        assert(ts.1[k] == x);
                    } else {
                        let j = choose|j: int| 0 <= j < done.len() && (#[trigger] done[j]).contains(x);
                        assert(ts.0[j] == done[j]);
                    }
                } else if cur.len() > 0 {
                    assert(ts == (done.push(cur), Seq::<char>::empty()));
                    if in_cur {
                        assert(ts.0[done.len() as int] == cur);
                    } else {
                        let j = choose|j: int| 0 <= j < done.len() && (#[trigger] done[j]).contains(x);
                        assert(ts.0[j] == done[j]);
                    }
                } else {
                    assert(ts == (done, Seq::<char>::empty()));
                    assert(!in_cur);
                    let j = choose|j: int| 0 <= j < done.len() && (#[trigger] done[j]).contains(x);
                    assert(ts.0[j] == done[j]);
                }
            }
        }
    }
}

/// No letter, digit or `_` of a query is lost: each occurs, lowercased, in
/// some query term (so `http2 handler` keeps the `2` of `http2`).
pub proof fn lemma_query_keeps_word_chars(s: Seq<char>)
    ensures
        forall|i: int|
            0 <= i < s.len() && ascii_word_char(#[trigger] s[i]) ==> exists|j: int|
                0 <= j < query_terms_of(s).len() && (#[trigger] query_terms_of(s)[j]).contains(to_lower(s[i])),
{
    lemma_scan_keeps_word_chars(s);
    let (done, cur) = term_scan(s);
    assert forall|i: int| 0 <= i < s.len() && ascii_word_char(#[trigger] s[i]) implies exists|j: int|
        0 <= j < query_terms_of(s).len() && (#[trigger] query_terms_of(s)[j]).contains(to_lower(s[i])) by {
        let x = to_lower(s[i]);
        if cur.contains(x) {
            assert(query_terms_of(s)[done.len() as int] == cur);
        } else {
            let j = choose|j: int| 0 <= j < done.len() && (#[trigger] done[j]).contains(x);
            assert(query_terms_of(s)[j] == done[j]);
        }
    }
}

/// A lowercase term character: an ASCII lowercase letter, a digit or `_`.
pub open spec fn lower_word_char(c: char) -> bool {
    ascii_word_char(c) && !('A' as u32 <= c as u32 && c as u32 <= 'Z' as u32)
}

proof fn lemma_scan_terms_clean(s: Seq<char>)
    ensures
        forall|j: int| 0 <= j < term_scan(s).0.len() ==> (#[trigger] term_scan(s).0[j]).len() > 0 && forall|k: int|
            0 <= k < term_scan(s).0[j].len() ==> lower_word_char(#[trigger] term_scan(s).0[j][k]),
        forall|k: int| 0 <= k < term_scan(s).1.len() ==> lower_word_char(#[trigger] term_scan(s).1[k]),
    decreases s.len(),
{
    if s.len() > 0 {
        let d = s.drop_last();
        lemma_scan_terms_clean(d);
        let (done, cur) = term_scan(d);
        let c = s.last();
        if is_term_char(c) {
            let n = cur.push(to_lower(c));
            assert(term_scan(s) == (done, n));
            assert forall|k: int| 0 <= k < n.len() implies lower_word_char(#[trigger] n[k]) by {
                if k < cur.len() {
                    assert(n[k] == cur[k]);
                }
            }
        } else if cur.len() > 0 {
            let n = done.push(cur);
            assert(term_scan(s) == (n, Seq::<char>::empty()));
            assert forall|j: int| 0 <= j < n.len() implies (#[trigger] n[j]).len() > 0 && forall|k: int|
                0 <= k < n[j].len() ==> lower_word_char(#[trigger] n[j][k]) by {
                if j < done.len() {
                    assert(n[j] == done[j]);
                }
            }
        }
    }
}

/// Every query term is non-empty and made only of ASCII lowercase
/// letters, digits and `_`.
pub proof fn lemma_query_terms_clean(s: Seq<char>)
    ensures
        forall|j: int| 0 <= j < query_terms_of(s).len() ==> (#[trigger] query_terms_of(s)[j]).len() > 0
            && forall|k: int| 0 <= k < query_terms_of(s)[j].len() ==> lower_word_char(#[trigger] query_terms_of(s)[j][k]),
{
    lemma_scan_terms_clean(s);
    let (done, cur) = term_scan(s);
    let q = query_terms_of(s);
    assert forall|j: int| 0 <= j < q.len() implies (#[trigger] q[j]).len() > 0 && forall|k: int|
        0 <= k < q[j].len() ==> lower_word_char(#[trigger] q[j][k]) by {
        if j < done.len() {
            assert(q[j] == done[j]);
        } else {
            assert(q[j] == cur);
        }
    }
}

/// Executable `query_terms_of`.
pub fn query_terms(query: &str) -> (r: Vec<String>)
    ensures
        str_views(r@) == query_terms_of(query@),
{
    let s = chars_of(query);
    let mut done: Vec<String> = Vec::new();
    let mut cur: Vec<char> = Vec::new();
    let mut i: usize = 0;
    while i < s.len()
        invariant
            i <= s@.len(),
            (str_views(done@), cur@) == term_scan(s@.take(i as int)),
        decreases s.len() - i,
    {
        assert(s@.take(i + 1).drop_last() =~= s@.take(i as int));
        assert(s@.take(i + 1).last() == s@[i as int]);
        let c = s[i];
        if alnum(c) || c == '_' {
            cur.push(crate::text::lower_char(c));
        } else if cur.len() > 0 {
            let ghost before = str_views(done@);
            let t = string_of(&cur);
            done.push(t);
            assert(str_views(done@) =~= before.push(cur@));
            cur = Vec::new();
        }
        i += 1;
    }
    assert(s@.take(s@.len() as int) =~= s@);
    if cur.len() > 0 {
        let ghost before = str_views(done@);
        let t = string_of(&cur);
        done.push(t);
        assert(str_views(done@) =~= before.push(cur@));
    }
    done
}

/// `str::matches(needle).count()`, and 0 for an empty needle.
pub fn count_occurrences(haystack: &str, needle: &str) -> (n: usize)
    ensures
        n == count_matches(haystack@, needle@),
{
    let h = chars_of(haystack);
    let p = chars_of(needle);
    count_matches_exec(&h, &p)
}

/// How much a query term counts.
#[derive(Debug, Clone, Copy, PartialEq, Eq, Structural)]
pub enum TermWeight {
    /// A stop word: weight 0.
    Ignored,
    /// A language name: weight 0.25.
    Language,
    /// `node` or `nodes`: weight 0.10.
    Node,
    /// Any other term: weight 1.
    Full,
}

/// Words that carry no search weight.
pub open spec fn stop_words() -> Seq<Seq<char>> {
    seq![
        "a"@, "an"@, "and"@, "are"@, "as"@, "be"@, "by"@, "change"@, "changed"@, "changes"@,
        "default"@, "fix"@, "fixed"@, "fixes"@, "for"@, "from"@, "handle"@, "in"@, "is"@, "of"@,
        "on"@, "or"@, "support"@, "supports"@, "the"@, "to"@, "with"@,
    ]
}

/// Language names, which carry a quarter weight.
pub open spec fn language_words() -> Seq<Seq<char>> {
    seq![
        "csharp"@, "go"@, "java"@, "javascript"@, "js"@, "kotlin"@, "python"@, "rust"@,
        "scala"@, "typescript"@, "ts"@,
    ]
}

/// The weight of a term.
pub open spec fn term_weight(t: Seq<char>) -> TermWeight {
    if stop_words().contains(t) {
        TermWeight::Ignored
    } else if language_words().contains(t) {
        TermWeight::Language
    } else if t == "node"@ || t == "nodes"@ {
        TermWeight::Node
    } else {
        TermWeight::Full
    }
}

fn one_of(t: &[char], words: &[&str]) -> (b: bool)
    ensures
        b == str_seq(words@).contains(t@),
{
    let ghost ws = str_seq(words@);
    let wl = words.len();
    let mut i: usize = 0;
    while i < wl
        invariant
            wl == words@.len(),
            i <= wl,
            ws == str_seq(words@),
            forall|k: int| 0 <= k < i ==> ws[k] != t@,
        decreases wl - i,
    {
        if eq_str(t, words[i]) {
            assert(ws[i as int] == t@);
            return true;
        }
        i += 1;
    }
    false
}

/// Executable `term_weight`.
pub fn query_term_weight(term: &str) -> (w: TermWeight)
    ensures
        w == term_weight(term@),
{
    let t = chars_of(term);
    let stops = [
        "a", "an", "and", "are", "as", "be", "by", "change", "changed", "changes", "default",
        "fix", "fixed", "fixes", "for", "from", "handle", "in", "is", "of", "on", "or",
        "support", "supports", "the", "to", "with",
    ];
    assert(str_seq(stops@) =~= stop_words());
    let languages = [
        "csharp", "go", "java", "javascript", "js", "kotlin", "python", "rust", "scala",
        "typescript", "ts",
    ];
    assert(str_seq(languages@) =~= language_words());
    if one_of(&t, &stops) {
        TermWeight::Ignored
    } else if one_of(&t, &languages) {
        TermWeight::Language
    } else if eq_str(&t, "node") || eq_str(&t, "nodes") {
        TermWeight::Node
    } else {
        TermWeight::Full
    }
}

/// Archived planning material, whose scores are dampened.
pub open spec fn archive_artifact(path: Seq<char>) -> bool {
    starts_with(path, ".planning/milestones/"@) || (starts_with(path, ".planning/e2e/"@)
        && ends_with(path, ".json"@))
}

/// Executable `archive_artifact`.
pub fn is_archive_context_artifact(path: &str) -> (b: bool)
    ensures
        b == archive_artifact(path@),
{
    let p = chars_of(path);
    starts_with_str(&p, ".planning/milestones/") || (starts_with_str(&p, ".planning/e2e/")
        && ends_with_str(&p, ".json"))
}

/// The last `/`-separated part of a path.
pub open spec fn last_part(path: Seq<char>) -> Seq<char> {
    match rsplit_once(path, "/"@) {
        Some((_, name)) => name,
        None => path,
    }
}

/// What a file shows for one weighted query term.
#[derive(Debug, Clone)]
pub struct TermEvidence {
    pub term: String,
    pub weight: TermWeight,
    pub path_match: bool,
    pub name_match: bool,
    pub occurrences: usize,
}

/// What a file shows for a query: the evidence of each weighted term, in
/// query order, whether the file is an archived artifact, and the reasons
/// to report when the file scores.
#[derive(Debug, Clone)]
pub struct FileEvidence {
    pub terms: Vec<TermEvidence>,
    pub archive: bool,
    pub reasons: String,
}

/// The reasons one term contributes, for a lowercased path, file name and
/// content.
pub open spec fn term_reasons(t: Seq<char>, path: Seq<char>, name: Seq<char>, content: Seq<char>) -> Seq<Seq<char>> {
    (if contains(path, t) {
        seq!["path matched `"@ + t + "`"@]
    } else {
        seq![]
    }) + (if contains(name, t) {
        seq!["file name matched `"@ + t + "`"@]
    } else {
        seq![]
    }) + (if count_matches(content, t) > 0 {
        seq!["content matched `"@ + t + "` "@ + decimal(count_matches(content, t)) + " time(s)"@]
    } else {
        seq![]
    })
}

/// The weighted terms of the first `n` query terms, in order.
pub open spec fn weighted_terms(terms: Seq<Seq<char>>, n: nat) -> Seq<Seq<char>>
    decreases n,
{
    if n == 0 {
        seq![]
    } else {
        let r = weighted_terms(terms, (n - 1) as nat);
        if term_weight(terms[n - 1]) == TermWeight::Ignored {
            r
        } else {
            r.push(terms[n - 1])
        }
    }
}

/// The reasons of all weighted terms, in order.
pub open spec fn all_term_reasons(ts: Seq<Seq<char>>, path: Seq<char>, name: Seq<char>, content: Seq<char>) -> Seq<Seq<char>>
    decreases ts.len(),
{
    if ts.len() == 0 {
        seq![]
    } else {
        all_term_reasons(ts.drop_last(), path, name, content) + term_reasons(ts.last(), path, name, content)
    }
}

/// The reasons a scoring file reports, each once, in string order, joined
/// with `; `.
pub open spec fn file_reasons(path: Seq<char>, content: Seq<char>, terms: Seq<Seq<char>>) -> Seq<char> {
    let p = lower(path);
    let ts = weighted_terms(terms, terms.len());
    let rs = all_term_reasons(ts, p, last_part(p), lower(content)) + if archive_artifact(p) {
        seq!["archive context artifact dampened"@]
    } else {
        seq![]
    };
    join_with(uniq(sort_strs(rs)), "; "@)
}

/// The evidence of one term.
pub open spec fn evidence_matches(e: TermEvidence, t: Seq<char>, path: Seq<char>, name: Seq<char>, content: Seq<char>) -> bool {
    &&& e.term@ == t
    &&& e.weight == term_weight(t)
    &&& e.path_match == contains(path, t)
    &&& e.name_match == contains(name, t)
    &&& e.occurrences == count_matches(content, t)
}

fn push_reason_text(reasons: &mut Vec<String>, prefix: &str, t: &[char], suffix: &[char])
    ensures
        str_views(final(reasons)@) == str_views(old(reasons)@).push(prefix@ + t@ + suffix@),
{
    let mut v: Vec<char> = Vec::new();
    extend_str(&mut v, prefix);
    extend_chars(&mut v, t);
    extend_chars(&mut v, suffix);
    let s = string_of(&v);
    let ghost before = str_views(reasons@);
    reasons.push(s);
    assert(str_views(reasons@) =~= before.push(prefix@ + t@ + suffix@));
}

/// What a file at `path` with text `content` shows for the query terms
/// `terms`: per weighted term, whether the lowercased path and file name
/// contain it and how often the lowercased content does, and the reasons a
/// scoring file reports.
pub fn file_evidence(path: &str, content: &str, terms: &Vec<String>) -> (r: FileEvidence)
    ensures
        ({
            let p = lower(path@);
            let ts = weighted_terms(str_views(terms@), terms@.len());
            &&& r.terms@.len() == ts.len()
            &&& forall|k: int|
                0 <= k < ts.len() ==> evidence_matches(
                    #[trigger] r.terms@[k],
                    ts[k],
                    p,
                    last_part(p),
                    lower(content@),
                )
            &&& r.archive == archive_artifact(p)
            &&& r.reasons@ == file_reasons(path@, content@, str_views(terms@))
        }),
{
    let pv = chars_of(path);
    let p = lower_vec(&pv);
    let name = match rsplit_once_str(&p, "/") {
        Some((_, n)) => n,
        None => crate::text::slice_of(&p, 0, p.len()),
    };
    proof {
        if rsplit_once(p@, "/"@) is None {
            assert(p@.subrange(0, p@.len() as int) =~= p@);
        }
    }
    let cv = chars_of(content);
    let c = lower_vec(&cv);
    let ghost tv = str_views(terms@);
    let mut evidence: Vec<TermEvidence> = Vec::new();
    let mut reasons: Vec<String> = Vec::new();
    let mut i: usize = 0;
    while i < terms.len()
        invariant
            i <= terms@.len(),
            tv == str_views(terms@),
            p@ == lower(path@),
            name@ == last_part(p@),
            c@ == lower(content@),
            evidence@.len() == weighted_terms(tv, i as nat).len(),
            forall|k: int|
                0 <= k < evidence@.len() ==> evidence_matches(
                    #[trigger] evidence@[k],
                    weighted_terms(tv, i as nat)[k],
                    p@,
                    name@,
                    c@,
                ),
            str_views(reasons@) == all_term_reasons(weighted_terms(tv, i as nat), p@, name@, c@),
        decreases terms.len() - i,
    {
        let tstr = &terms[i];
        let t = chars_of(tstr.as_str());
        assert(tv[i as int] == t@);
        let weight = query_term_weight(tstr.as_str());
        let ghost prev = weighted_terms(tv, i as nat);
        if weight != TermWeight::Ignored {
            let path_match = match find_exec(&p, &t) {
                Some(_) => true,
                None => false,
            };
            let name_match = match find_exec(&name, &t) {
                Some(_) => true,
                None => false,
            };
            proof {
                if path_match {
                    assert(contains(p@, t@));
                }
                if name_match {
                    assert(contains(name@, t@));
                }
            }
            let occurrences = count_matches_exec(&c, &t);
            let ghost before = str_views(reasons@);
            if path_match {
                push_reason_text(&mut reasons, "path matched `", &t, &chars_of("`"));
            }
            let ghost mid1 = str_views(reasons@);
            if name_match {
                push_reason_text(&mut reasons, "file name matched `", &t, &chars_of("`"));
            }
            let ghost mid2 = str_views(reasons@);
            if occurrences > 0 {
                let mut tail: Vec<char> = Vec::new();
                extend_str(&mut tail, "` ");
                extend_chars(&mut tail, &decimal_chars(occurrences as u64));
                extend_str(&mut tail, " time(s)");
                push_reason_text(&mut reasons, "content matched `", &t, &tail);
                assert("content matched `"@ + t@ + tail@ =~= "content matched `"@ + t@ + "` "@
                    + decimal(occurrences as nat) + " time(s)"@);
            }
            assert(str_views(reasons@) =~= before + term_reasons(t@, p@, name@, c@));
            let e = TermEvidence {
                term: string_of(&t),
                weight,
                path_match,
                name_match,
                occurrences,
            };
            evidence.push(e);
            assert(weighted_terms(tv, (i + 1) as nat) == prev.push(t@));
            assert(weighted_terms(tv, (i + 1) as nat).drop_last() =~= prev);
            assert forall|k: int|
                0 <= k < evidence@.len() implies evidence_matches(
                #[trigger] evidence@[k],
                weighted_terms(tv, (i + 1) as nat)[k],
                p@,
                name@,
                c@,
            ) by {
                if k < prev.len() {
                    assert(weighted_terms(tv, (i + 1) as nat)[k] == prev[k]);
                }
            }
        }
        i += 1;
    }
    let archive = is_archive_context_artifact(&string_of(&p));
    if archive {
        let ghost before = str_views(reasons@);
        reasons.push(String::from_str("archive context artifact dampened"));
        assert(str_views(reasons@) =~= before + seq!["archive context artifact dampened"@]);
    } else {
        assert(str_views(reasons@) =~= str_views(reasons@) + Seq::<Seq<char>>::empty());
    }
    let sorted = sort_strings(reasons);
    let distinct = uniq_strings(&sorted);
    let text = join_with_exec(&distinct, "; ");
    FileEvidence { terms: evidence, archive, reasons: text }
}

// ---------------------------------------------------------------------
// Symbol evidence
// ---------------------------------------------------------------------
/// How a symbol's lowercased name matches a term.
#[derive(Debug, Clone, Copy, PartialEq, Eq, Structural)]
pub enum NameMatch {
    Exact,
    Prefix,
    Contains,
    Absent,
}

/// How a name matches a term: exactly, as a prefix, inside, or not.
pub open spec fn name_match_of(name: Seq<char>, t: Seq<char>) -> NameMatch {
    if name == t {
        NameMatch::Exact
    } else if starts_with(name, t) {
        NameMatch::Prefix
    } else if contains(name, t) {
        NameMatch::Contains
    } else {
        NameMatch::Absent
    }
}

/// What a symbol shows for one weighted query term.
#[derive(Debug, Clone)]
pub struct SymbolTermEvidence {
    pub term: String,
    pub weight: TermWeight,
    pub name_match: NameMatch,
    pub path_match: bool,
    pub signature_match: bool,
}

/// What a symbol shows for a query: the evidence of each weighted term, in
/// query order, and the reasons to report when the symbol scores.
#[derive(Debug, Clone)]
pub struct SymbolEvidence {
    pub terms: Vec<SymbolTermEvidence>,
    pub reasons: String,
}

/// The reasons one term contributes, for a lowercased name, path and
/// signature.
pub open spec fn symbol_term_reasons(t: Seq<char>, name: Seq<char>, path: Seq<char>, signature: Seq<char>) -> Seq<Seq<char>> {
    (match name_match_of(name, t) {
        NameMatch::Exact => seq!["symbol name exactly matched `"@ + t + "`"@],
        NameMatch::Prefix => seq!["symbol name starts with `"@ + t + "`"@],
        NameMatch::Contains => seq!["symbol name contains `"@ + t + "`"@],
        NameMatch::Absent => seq![],
    }) + (if contains(path, t) {
        seq!["path contains `"@ + t + "`"@]
    } else {
        seq![]
    }) + (if contains(signature, t) {
        seq!["signature contains `"@ + t + "`"@]
    } else {
        seq![]
    })
}

/// The reasons of all weighted terms, in order.
pub open spec fn all_symbol_reasons(ts: Seq<Seq<char>>, name: Seq<char>, path: Seq<char>, signature: Seq<char>) -> Seq<Seq<char>>
    decreases ts.len(),
{
    if ts.len() == 0 {
        seq![]
    } else {
        all_symbol_reasons(ts.drop_last(), name, path, signature) + symbol_term_reasons(
            ts.last(),
            name,
            path,
            signature,
        )
    }
}

/// The reasons a scoring symbol reports, each once, in string order, joined
/// with `; `.
pub open spec fn symbol_reasons(name: Seq<char>, path: Seq<char>, signature: Seq<char>, terms: Seq<Seq<char>>) -> Seq<char> {
    let ts = weighted_terms(terms, terms.len());
    join_with(uniq(sort_strs(all_symbol_reasons(ts, lower(name), lower(path), lower(signature)))), "; "@)
}

/// The evidence of one term for a symbol.
pub open spec fn symbol_evidence_matches(e: SymbolTermEvidence, t: Seq<char>, name: Seq<char>, path: Seq<char>, signature: Seq<char>) -> bool {
    &&& e.term@ == t
    &&& e.weight == term_weight(t)
    &&& e.name_match == name_match_of(name, t)
    &&& e.path_match == contains(path, t)
    &&& e.signature_match == contains(signature, t)
}

fn contains_chars(s: &[char], t: &[char]) -> (b: bool)
    ensures
        b == contains(s@, t@),
{
    match find_exec(s, t) {
        Some(_) => true,
        None => false,
    }
}

/// What a symbol with `name`, `path` and `signature` shows for the query
/// terms `terms`: per weighted term, how the lowercased name matches it and
/// whether the lowercased path and signature contain it, and the reasons a
/// scoring symbol reports.
pub fn symbol_evidence(name: &str, path: &str, signature: &str, terms: &Vec<String>) -> (r: SymbolEvidence)
    ensures
        ({
            let ts = weighted_terms(str_views(terms@), terms@.len());
            &&& r.terms@.len() == ts.len()
            &&& forall|k: int|
                0 <= k < ts.len() ==> symbol_evidence_matches(
                    #[trigger] r.terms@[k],
                    ts[k],
                    lower(name@),
                    lower(path@),
                    lower(signature@),
                )
            &&& r.reasons@ == symbol_reasons(name@, path@, signature@, str_views(terms@))
        }),
{
    let n = lower_vec(&chars_of(name));
    let p = lower_vec(&chars_of(path));
    let g = lower_vec(&chars_of(signature));
    let ghost tv = str_views(terms@);
    let mut evidence: Vec<SymbolTermEvidence> = Vec::new();
    let mut reasons: Vec<String> = Vec::new();
    let mut i: usize = 0;
    while i < terms.len()
        invariant
            i <= terms@.len(),
            tv == str_views(terms@),
            n@ == lower(name@),
            p@ == lower(path@),
            g@ == lower(signature@),
            evidence@.len() == weighted_terms(tv, i as nat).len(),
            forall|k: int|
                0 <= k < evidence@.len() ==> symbol_evidence_matches(
                    #[trigger] evidence@[k],
                    weighted_terms(tv, i as nat)[k],
                    n@,
                    p@,
                    g@,
                ),
            str_views(reasons@) == all_symbol_reasons(weighted_terms(tv, i as nat), n@, p@, g@),
        decreases terms.len() - i,
    {
        let tstr = &terms[i];
        let t = chars_of(tstr.as_str());
        assert(tv[i as int] == t@);
        let weight = query_term_weight(tstr.as_str());
        let ghost prev = weighted_terms(tv, i as nat);
        if weight != TermWeight::Ignored {
            let name_match = if crate::text::eq_chars(&n, &t) {
                NameMatch::Exact
            } else if crate::text::starts_with_exec(&n, &t) {
                NameMatch::Prefix
            } else if contains_chars(&n, &t) {
                NameMatch::Contains
            } else {
                NameMatch::Absent
            };
            let path_match = contains_chars(&p, &t);
            let signature_match = contains_chars(&g, &t);
            let ghost before = str_views(reasons@);
            match name_match {
                NameMatch::Exact => push_reason_text(&mut reasons, "symbol name exactly matched `", &t, &chars_of("`")),
                NameMatch::Prefix => push_reason_text(&mut reasons, "symbol name starts with `", &t, &chars_of("`")),
                NameMatch::Contains => push_reason_text(&mut reasons, "symbol name contains `", &t, &chars_of("`")),
                NameMatch::Absent => {},
            }
            if path_match {
                push_reason_text(&mut reasons, "path contains `", &t, &chars_of("`"));
            }
            if signature_match {
                push_reason_text(&mut reasons, "signature contains `", &t, &chars_of("`"));
            }
            assert(str_views(reasons@) =~= before + symbol_term_reasons(t@, n@, p@, g@));
            evidence.push(SymbolTermEvidence { term: string_of(&t), weight, name_match, path_match, signature_match });
            assert(weighted_terms(tv, (i + 1) as nat) == prev.push(t@));
            assert(weighted_terms(tv, (i + 1) as nat).drop_last() =~= prev);
            assert forall|k: int|
                0 <= k < evidence@.len() implies symbol_evidence_matches(
                #[trigger] evidence@[k],
                weighted_terms(tv, (i + 1) as nat)[k],
                n@,
                p@,
                g@,
            ) by {
                if k < prev.len() {
                    assert(weighted_terms(tv, (i + 1) as nat)[k] == prev[k]);
                }
            }
        }
        i += 1;
    }
    let sorted = sort_strings(reasons);
    let distinct = uniq_strings(&sorted);
    let text = join_with_exec(&distinct, "; ");
    SymbolEvidence { terms: evidence, reasons: text }
}

// ---------------------------------------------------------------------
// The search cache
// ---------------------------------------------------------------------
/// The `k` low bytes of `n`, least significant first.
pub open spec fn le_bytes(n: nat, k: nat) -> Seq<u8>
    decreases k,
{
    if k == 0 {
        seq![]
    } else {
        seq![(n % 256) as u8] + le_bytes(n / 256, (k - 1) as nat)
    }
}

/// The UTF-8 bytes of a text followed by a zero byte.
pub open spec fn nul_terminated(s: Seq<char>) -> Seq<u8> {
    vstd::utf8::encode_utf8(s) + seq![0u8]
}

/// The key bytes of the query terms.
pub open spec fn terms_key(ts: Seq<Seq<char>>) -> Seq<u8>
    decreases ts.len(),
{
    if ts.len() == 0 {
        seq![]
    } else {
        terms_key(ts.drop_last()) + nul_terminated(ts.last())
    }
}

/// The key bytes of the inventoried files: path, hash and role name of
/// each.
pub open spec fn files_key(fs: Seq<crate::inventory::FileInventoryEntry>) -> Seq<u8>
    decreases fs.len(),
{
    if fs.len() == 0 {
        seq![]
    } else {
        files_key(fs.drop_last()) + nul_terminated(fs.last().path@) + nul_terminated(
            fs.last().hash@,
        ) + nul_terminated(crate::cli::role_debug_name(fs.last().role))
    }
}

/// The bytes a lexical search's cache entry is keyed by: a version tag,
/// the trimmed query, the limit (at least 1) as eight little-endian bytes,
/// the query terms and the inventoried files.
pub open spec fn search_cache_key(
    query: Seq<char>,
    limit: usize,
    terms: Seq<Seq<char>>,
    files: Seq<crate::inventory::FileInventoryEntry>,
) -> Seq<u8> {
    vstd::utf8::encode_utf8("lexical-search-cache-v1"@) + vstd::utf8::encode_utf8(trim(query))
        + le_bytes(
        if limit < 1 {
            1
        } else {
            limit as nat
        },
        8,
    ) + terms_key(terms) + files_key(files)
}

fn extend_bytes(out: &mut Vec<u8>, add: &[u8])
    ensures
        final(out)@ == old(out)@ + add@,
{
    let ghost start = out@;
    let mut i: usize = 0;
    while i < add.len()
        invariant
            i <= add@.len(),
            out@ == start + add@.take(i as int),
        decreases add.len() - i,
    {
        out.push(add[i]);
        assert(add@.take(i + 1) =~= add@.take(i as int).push(add@[i as int]));
        i += 1;
    }
    assert(add@.take(add@.len() as int) =~= add@);
}

fn extend_nul_terminated(out: &mut Vec<u8>, s: &str)
    ensures
        final(out)@ == old(out)@ + nul_terminated(s@),
{
    extend_bytes(out, s.as_bytes());
    out.push(0u8);
    assert(out@ =~= old(out)@ + nul_terminated(s@));
}

fn le_bytes_exec(n: u64) -> (r: Vec<u8>)
    ensures
        r@ == le_bytes(n as nat, 8),
{
    let mut r: Vec<u8> = Vec::new();
    let mut x: u64 = n;
    let mut k: usize = 0;
    while k < 8
        invariant
            k <= 8,
            r@ + le_bytes(x as nat, (8 - k) as nat) == le_bytes(n as nat, 8),
        decreases 8 - k,
    {
        let b = (x % 256) as u8;
        assert(le_bytes(x as nat, (8 - k) as nat) == seq![b] + le_bytes(
            (x / 256) as nat,
            (8 - k - 1) as nat,
        ));
        let ghost before = r@;
        r.push(b);
        assert(r@ + le_bytes((x / 256) as nat, (8 - k - 1) as nat) =~= before + (seq![b]
            + le_bytes((x / 256) as nat, (8 - k - 1) as nat)));
        x = x / 256;
        k += 1;
    }
    assert(r@ + le_bytes(x as nat, 0) =~= r@);
    r
}

/// Where the cached results of a lexical search live: under the
/// repository's state directory in `home`, `lexical-search/<key>.json`,
/// where `<key>` is the BLAKE3 hex digest of `search_cache_key`.
pub fn lexical_search_cache_path(
    home: &str,
    repo_id: &str,
    files: &Vec<crate::inventory::FileInventoryEntry>,
    query: &str,
    limit: usize,
    terms: &Vec<String>,
) -> (r: String)
    ensures
        r@ == crate::paths::join(
            crate::paths::join(
                crate::paths::join(crate::paths::join(home@, "repos"@), repo_id@),
                "lexical-search"@,
            ),
            crate::inventory::blake3_hex(search_cache_key(query@, limit, str_views(terms@), files@))
                + ".json"@,
        ),
{
    let mut key: Vec<u8> = Vec::new();
    extend_bytes(&mut key, "lexical-search-cache-v1".as_bytes());
    let qv = chars_of(query);
    let q = string_of(&trim_vec(&qv));
    extend_bytes(&mut key, q.as_str().as_bytes());
    let l: u64 = if limit < 1 {
        1
    } else {
        limit as u64
    };
    let lb = le_bytes_exec(l);
    extend_bytes(&mut key, lb.as_slice());
    let ghost tv = str_views(terms@);
    let ghost k0 = key@;
    let mut i: usize = 0;
    while i < terms.len()
        invariant
            i <= terms@.len(),
            tv == str_views(terms@),
            key@ == k0 + terms_key(tv.take(i as int)),
        decreases terms.len() - i,
    {
        assert(tv.take(i + 1).drop_last() =~= tv.take(i as int));
        assert(tv.take(i + 1).last() == terms@[i as int]@);
        extend_nul_terminated(&mut key, terms[i].as_str());
        i += 1;
    }
    assert(tv.take(terms@.len() as int) =~= tv);
    let ghost k1 = key@;
    let mut j: usize = 0;
    while j < files.len()
        invariant
            j <= files@.len(),
            key@ == k1 + files_key(files@.take(j as int)),
        decreases files.len() - j,
    {
        assert(files@.take(j + 1).drop_last() =~= files@.take(j as int));
        assert(files@.take(j + 1).last() == files@[j as int]);
        let f = &files[j];
        extend_nul_terminated(&mut key, f.path.as_str());
        extend_nul_terminated(&mut key, f.hash.as_str());
        let role = crate::cli::role_debug_text(f.role);
        extend_nul_terminated(&mut key, role.as_str());
        j += 1;
    }
    assert(files@.take(files@.len() as int) =~= files@);
    assert(key@ =~= search_cache_key(query@, limit, str_views(terms@), files@));
    let digest = crate::inventory::blake3_hex_of(key.as_slice());
    let a = crate::paths::join_exec(&chars_of(home), "repos");
    let b = crate::paths::join_exec(&a, repo_id);
    let c = crate::paths::join_exec(&b, "lexical-search");
    let mut name: Vec<char> = chars_of(digest.as_str());
    extend_str(&mut name, ".json");
    let ns = string_of(&name);
    let d = crate::paths::join_exec(&c, ns.as_str());
    string_of(&d)
}

} // verus!
