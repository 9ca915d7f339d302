//! Which test files relate to some source files, and how to run them.
use vstd::prelude::*;

use crate::model::str_views;
use crate::search::{last_part, query_terms, query_terms_of};
use crate::strs::{join_with, join_with_exec, sort_strings, sort_strs, uniq, uniq_strings};
use crate::text::{
    chars_of, contains, contains_str, count_matches, count_matches_exec, decimal, decimal_chars,
    ends_with, ends_with_str, extend_chars, extend_str, find_char, find_exec, lower, lower_vec,
    replace_char, replace_char_exec, rsplit_once, rsplit_once_str, slice_of, strip_prefix,
    strip_prefix_str, strip_suffix, strip_suffix_str, string_of, trim, trim_end_matches,
    trim_end_matches_str, trim_start_matches, trim_start_matches_str, trim_vec, utf8_len,
    utf8_len_below,
};

verus! {

/// The stem a test file name is matched against: the lowercased name
/// without its extension and without `.test`, `.spec`, `test_` and `_test`
/// affixes.
pub open spec fn stem_of(file_name: Seq<char>) -> Seq<char> {
    let l = lower(file_name);
    let base = match rsplit_once(l, "."@) {
        Some((stem, _)) => stem,
        None => l,
    };
    trim_end_matches(
        trim_start_matches(trim_end_matches(trim_end_matches(base, ".test"@), ".spec"@), "test_"@),
        "_test"@,
    )
}

/// Executable `stem_of`.
pub fn source_stem(file_name: &str) -> (r: String)
    ensures
        r@ == stem_of(file_name@),
{
    let f = chars_of(file_name);
    let l = lower_vec(&f);
    let base = match rsplit_once_str(&l, ".") {
        Some((stem, _)) => stem,
        None => l,
    };
    let a = trim_end_matches_str(&base, ".test");
    let b = trim_end_matches_str(&a, ".spec");
    let c = trim_start_matches_str(&b, "test_");
    let d = trim_end_matches_str(&c, "_test");
    string_of(&d)
}

/// What a source file is matched by.
#[derive(Debug, Clone)]
pub struct SourceKey {
    pub path: String,
    pub stem: String,
    pub directory: String,
    pub identifiers: Vec<String>,
}

/// A source path with a leading `./` removed and `\` turned into `/`.
pub open spec fn normalized_source(path: Seq<char>) -> Seq<char> {
    replace_char(trim_start_matches(path, "./"@), '\\', "/"@)
}

/// The directory part of a normalized source path, lowercased.
pub open spec fn source_directory(n: Seq<char>) -> Seq<char> {
    match rsplit_once(n, "/"@) {
        Some((d, _)) => lower(d),
        None => seq![],
    }
}

/// The identifiers of a source path: the terms of its stem and of the
/// whole path, each once, in string order.
pub open spec fn source_identifiers(n: Seq<char>) -> Seq<Seq<char>> {
    uniq(sort_strs(query_terms_of(stem_of(last_part(n))) + query_terms_of(n)))
}

/// Whether a key is the key of a source path.
pub open spec fn key_of(k: SourceKey, path: Seq<char>) -> bool {
    let n = normalized_source(path);
    &&& k.path@ == lower(n)
    &&& k.stem@ == stem_of(last_part(n))
    &&& k.directory@ == source_directory(n)
    &&& str_views(k.identifiers@) == source_identifiers(n)
}

/// The key of a source path.
pub fn source_key(path: &str) -> (k: SourceKey)
    ensures
        key_of(k, path@),
{
    let p = chars_of(path);
    let t = trim_start_matches_str(&p, "./");
    let n = replace_char_exec(&t, '\\', "/");
    let directory = match rsplit_once_str(&n, "/") {
        Some((d, _)) => lower_vec(&d),
        None => Vec::new(),
    };
    proof {
        if rsplit_once(n@, "/"@) is None {
            assert(directory@ =~= Seq::<char>::empty());
        }
    }
    let file_name = match rsplit_once_str(&n, "/") {
        Some((_, f)) => f,
        None => slice_of(&n, 0, n.len()),
    };
    proof {
        if rsplit_once(n@, "/"@) is None {
            assert(n@.subrange(0, n@.len() as int) =~= n@);
        }
    }
    let stem = source_stem(string_of(&file_name).as_str());
    let ns = string_of(&n);
    let mut ids = query_terms(stem.as_str());
    let more = query_terms(ns.as_str());
    let ghost a = str_views(ids@);
    let mut j: usize = 0;
    while j < more.len()
        invariant
            j <= more@.len(),
            str_views(ids@) == a + str_views(more@).take(j as int),
        decreases more.len() - j,
    {
        let ghost before = str_views(ids@);
        let c = more[j].clone();
        ids.push(c);
        assert(str_views(ids@) =~= before.push(c@));
        assert(str_views(more@).take(j + 1) =~= str_views(more@).take(j as int).push(c@));
        j += 1;
    }
    assert(str_views(more@).take(more@.len() as int) =~= str_views(more@));
    let sorted = sort_strings(ids);
    let identifiers = uniq_strings(&sorted);
    SourceKey { path: string_of(&lower_vec(&n)), stem, directory: string_of(&directory), identifiers }
}

/// The score of one match kind, in half points: a stem match is 9 points, a
/// shared directory 4, a mentioned path 8, and a mentioned term 1.5 plus its
/// occurrences up to 5.
pub open spec fn term_halves(occurrences: nat) -> nat {
    3 + 2 * (if occurrences < 5 {
        occurrences
    } else {
        5
    })
}

/// The scored identifiers of a key: those of at least three UTF-8 bytes.
pub open spec fn counted(id: Seq<char>) -> bool {
    utf8_len(id) >= 3
}

/// The half points and reasons that the first `n` identifiers of a key give
/// for lowercased test content.
pub open spec fn identifier_matches(ids: Seq<Seq<char>>, content: Seq<char>, n: nat) -> (nat, Seq<Seq<char>>)
    decreases n,
{
    if n == 0 {
        (0, seq![])
    } else {
        let (h, rs) = identifier_matches(ids, content, (n - 1) as nat);
        let id = ids[n - 1];
        let occ = count_matches(content, id);
        if counted(id) && occ > 0 {
            (
                h + term_halves(occ),
                rs.push(
                    "test content mentions source term `"@ + id + "` "@ + decimal(occ)
                        + " time(s)"@,
                ),
            )
        } else {
            (h, rs)
        }
    }
}

/// The half points and reasons one key gives for a test at lowercased path
/// `tp`, with lowercased file name `name` and lowercased content `content`.
pub open spec fn key_matches(k: SourceKey, tp: Seq<char>, name: Seq<char>, content: Seq<char>) -> (nat, Seq<Seq<char>>) {
    let stem_hit = k.stem@.len() > 0 && contains(name, k.stem@);
    let dir_hit = k.directory@.len() > 0 && contains(tp, k.directory@);
    let path_hit = contains(content, k.path@);
    let ids = str_views(k.identifiers@);
    let (ih, irs) = identifier_matches(ids, content, ids.len());
    (
        (if stem_hit {
            18nat
        } else {
            0
        }) + (if dir_hit {
            8nat
        } else {
            0
        }) + (if path_hit {
            16nat
        } else {
            0
        }) + ih,
        (if stem_hit {
            seq!["test file name matches source stem `"@ + k.stem@ + "`"@]
        } else {
            seq![]
        }) + (if dir_hit {
            seq!["test path shares directory `"@ + k.directory@ + "`"@]
        } else {
            seq![]
        }) + (if path_hit {
            seq!["test content mentions source path `"@ + k.path@ + "`"@]
        } else {
            seq![]
        }) + irs,
    )
}

/// The half points and reasons of the first `n` keys.
pub open spec fn keys_matches(keys: Seq<SourceKey>, tp: Seq<char>, name: Seq<char>, content: Seq<char>, n: nat) -> (nat, Seq<Seq<char>>)
    decreases n,
{
    if n == 0 {
        (0, seq![])
    } else {
        let (h, rs) = keys_matches(keys, tp, name, content, (n - 1) as nat);
        let (kh, krs) = key_matches(keys[n - 1], tp, name, content);
        (h + kh, rs + krs)
    }
}

/// A count capped at `u64::MAX`.
pub open spec fn saturate(n: nat) -> u64 {
    if n <= u64::MAX {
        n as u64
    } else {
        u64::MAX
    }
}

/// The score of a test file in half points, or `None` when nothing
/// matched, and the reasons each once in string order joined with `; `.
pub open spec fn test_score(test_path: Seq<char>, content: Seq<char>, keys: Seq<SourceKey>) -> Option<(nat, Seq<char>)> {
    let tp = lower(test_path);
    let (h, rs) = keys_matches(keys, tp, last_part(tp), lower(content), keys.len());
    if h == 0 {
        None
    } else {
        Some((h, join_with(uniq(sort_strs(rs)), "; "@)))
    }
}

proof fn lemma_keys_matches_grow(keys: Seq<SourceKey>, tp: Seq<char>, name: Seq<char>, content: Seq<char>, n: nat, i: int)
    requires
        0 <= i < n <= keys.len(),
    ensures
        keys_matches(keys, tp, name, content, n).0 >= key_matches(keys[i], tp, name, content).0,
        forall|k: int| 0 <= k < key_matches(keys[i], tp, name, content).1.len() ==> keys_matches(keys, tp, name, content, n).1.contains(
            #[trigger] key_matches(keys[i], tp, name, content).1[k],
        ),
    decreases n,
{
    let (h, rs) = keys_matches(keys, tp, name, content, (n - 1) as nat);
    let (kh, krs) = key_matches(keys[n - 1], tp, name, content);
    let own = key_matches(keys[i], tp, name, content).1;
    if i < n - 1 {
        lemma_keys_matches_grow(keys, tp, name, content, (n - 1) as nat, i);
        assert forall|k: int| 0 <= k < own.len() implies (rs + krs).contains(#[trigger] own[k]) by {
            assert(rs.contains(own[k]));
            let m = choose|m: int| 0 <= m < rs.len() && rs[m] == own[k];
            assert((rs + krs)[m] == own[k]);
        }
    } else {
        assert forall|k: int| 0 <= k < own.len() implies (rs + krs).contains(#[trigger] own[k]) by {
            assert((rs + krs)[rs.len() + k] == own[k]);
        }
    }
}

/// A test whose lowercased file name contains the stem of a source file is
/// related to it: the test scores at least 9 points (18 half points) and
/// its reasons say that its file name matches that stem. So a test named
/// `<stem>.test.ts` always scores for the source `<stem>.ts`.
pub proof fn lemma_stem_match_scores(test_path: Seq<char>, content: Seq<char>, keys: Seq<SourceKey>, i: int)
    requires
        0 <= i < keys.len(),
        keys[i].stem@.len() > 0,
        contains(last_part(lower(test_path)), keys[i].stem@),
    ensures
        test_score(test_path, content, keys) matches Some((h, text)) && h >= 18 && contains(
            text,
            "test file name matches source stem `"@ + keys[i].stem@ + "`"@,
        ),
{
    let tp = lower(test_path);
    let name = last_part(tp);
    let c = lower(content);
    let reason = "test file name matches source stem `"@ + keys[i].stem@ + "`"@;
    lemma_keys_matches_grow(keys, tp, name, c, keys.len(), i);
    let own = key_matches(keys[i], tp, name, c).1;
    assert(own[0] == reason);
    let (h, rs) = keys_matches(keys, tp, name, c, keys.len());
    assert(rs.contains(reason));
    crate::strs::lemma_sort_strs(rs);
    crate::strs::lemma_uniq(sort_strs(rs));
    let parts = uniq(sort_strs(rs));
    assert(parts.contains(reason));
    let j = choose|j: int| 0 <= j < parts.len() && parts[j] == reason;
    crate::strs::lemma_join_with_contains(parts, "; "@, j);
}

proof fn lemma_reason_in_score(test_path: Seq<char>, content: Seq<char>, keys: Seq<SourceKey>, i: int, k: int)
    requires
        0 <= i < keys.len(),
        0 <= k < key_matches(keys[i], lower(test_path), last_part(lower(test_path)), lower(content)).1.len(),
    ensures
        test_score(test_path, content, keys) matches Some((h, text)) && h >= key_matches(
            keys[i],
            lower(test_path),
            last_part(lower(test_path)),
            lower(content),
        ).0 && contains(
            text,
            key_matches(keys[i], lower(test_path), last_part(lower(test_path)), lower(content)).1[k],
        ),
{
    let tp = lower(test_path);
    let name = last_part(tp);
    let c = lower(content);
    lemma_keys_matches_grow(keys, tp, name, c, keys.len(), i);
    let reason = key_matches(keys[i], tp, name, c).1[k];
    let (h, rs) = keys_matches(keys, tp, name, c, keys.len());
    assert(rs.contains(reason));
    assert(h > 0) by {
        lemma_halves_positive(keys, tp, name, c, keys.len(), i);
    }
    crate::strs::lemma_sort_strs(rs);
    crate::strs::lemma_uniq(sort_strs(rs));
    let parts = uniq(sort_strs(rs));
    assert(parts.contains(reason));
    let j = choose|j: int| 0 <= j < parts.len() && parts[j] == reason;
    crate::strs::lemma_join_with_contains(parts, "; "@, j);
}

proof fn lemma_halves_positive(keys: Seq<SourceKey>, tp: Seq<char>, name: Seq<char>, c: Seq<char>, n: nat, i: int)
    requires
        0 <= i < n <= keys.len(),
        key_matches(keys[i], tp, name, c).1.len() > 0,
    ensures
        keys_matches(keys, tp, name, c, n).0 > 0,
{
    lemma_keys_matches_grow(keys, tp, name, c, n, i);
    lemma_reasons_have_points(keys[i], tp, name, c);
}

proof fn lemma_reasons_have_points(k: SourceKey, tp: Seq<char>, name: Seq<char>, c: Seq<char>)
    requires
        key_matches(k, tp, name, c).1.len() > 0,
    ensures
        key_matches(k, tp, name, c).0 > 0,
{
    let ids = str_views(k.identifiers@);
    lemma_identifier_points(ids, c, ids.len());
}

proof fn lemma_identifier_points(ids: Seq<Seq<char>>, content: Seq<char>, n: nat)
    ensures
        identifier_matches(ids, content, n).1.len() > 0 ==> identifier_matches(ids, content, n).0 > 0,
        identifier_matches(ids, content, n).1.len() == 0 ==> identifier_matches(ids, content, n).0 == 0,
    decreases n,
{
    if n > 0 {
        lemma_identifier_points(ids, content, (n - 1) as nat);
    }
}

/// A test in a path that holds a source file's directory scores at least
/// 4 points (8 half points) with the reason that it shares that directory;
/// a test whose content mentions a source file's path scores at least 8
/// points (16 half points) with the reason that it mentions that path.
pub proof fn lemma_directory_and_path_matches_score(test_path: Seq<char>, content: Seq<char>, keys: Seq<SourceKey>, i: int)
    requires
        0 <= i < keys.len(),
    ensures
        keys[i].directory@.len() > 0 && contains(lower(test_path), keys[i].directory@) ==> (test_score(
            test_path,
            content,
            keys,
        ) matches Some((h, text)) && h >= 8 && contains(
            text,
            "test path shares directory `"@ + keys[i].directory@ + "`"@,
        )),
        contains(lower(content), keys[i].path@) ==> (test_score(test_path, content, keys) matches Some((h, text))
            && h >= 16 && contains(text, "test content mentions source path `"@ + keys[i].path@ + "`"@)),
{
    let tp = lower(test_path);
    let name = last_part(tp);
    let c = lower(content);
    let k = keys[i];
    let stem_hit = k.stem@.len() > 0 && contains(name, k.stem@);
    let dir_hit = k.directory@.len() > 0 && contains(tp, k.directory@);
    let own = key_matches(k, tp, name, c).1;
    let s0: int = if stem_hit { 1 } else { 0 };
    let d0: int = if dir_hit { 1 } else { 0 };
    if dir_hit {
        assert(own[s0] == "test path shares directory `"@ + k.directory@ + "`"@);
        lemma_reason_in_score(test_path, content, keys, i, s0);
    }
    if contains(c, k.path@) {
        assert(own[s0 + d0] == "test content mentions source path `"@ + k.path@ + "`"@);
        lemma_reason_in_score(test_path, content, keys, i, s0 + d0);
    }
}

fn push_text(reasons: &mut Vec<String>, prefix: &str, middle: &[char], suffix: &str)
    ensures
        str_views(final(reasons)@) == str_views(old(reasons)@).push(prefix@ + middle@ + suffix@),
{
    let mut v: Vec<char> = Vec::new();
    extend_str(&mut v, prefix);
    extend_chars(&mut v, middle);
    extend_str(&mut v, suffix);
    let s = string_of(&v);
    let ghost before = str_views(reasons@);
    reasons.push(s);
    assert(str_views(reasons@) =~= before.push(prefix@ + middle@ + suffix@));
}

fn score_key(k: &SourceKey, tp: &Vec<char>, name: &Vec<char>, content: &Vec<char>, reasons: &mut Vec<String>) -> (h: u128)
    ensures
        h == key_matches(*k, tp@, name@, content@).0,
        str_views(final(reasons)@) == str_views(old(reasons)@) + key_matches(*k, tp@, name@, content@).1,
{
    let ghost start = str_views(reasons@);
    let stem = chars_of(k.stem.as_str());
    let dir = chars_of(k.directory.as_str());
    let kpath = chars_of(k.path.as_str());
    let mut h: u128 = 0;
    let stem_hit = stem.len() > 0 && match find_exec(name, &stem) {
        Some(_) => true,
        None => false,
    };
    if stem_hit {
        h = h + 18;
        push_text(reasons, "test file name matches source stem `", &stem, "`");
    }
    let dir_hit = dir.len() > 0 && match find_exec(tp, &dir) {
        Some(_) => true,
        None => false,
    };
    if dir_hit {
        h = h + 8;
        push_text(reasons, "test path shares directory `", &dir, "`");
    }
    let path_hit = match find_exec(content, &kpath) {
        Some(_) => true,
        None => false,
    };
    if path_hit {
        h = h + 16;
        push_text(reasons, "test content mentions source path `", &kpath, "`");
    }
    let ghost mid = str_views(reasons@);
    let ghost ids = str_views(k.identifiers@);
    let mut ih: u128 = 0;
    let mut i: usize = 0;
    let idl = k.identifiers.len();
    while i < idl
        invariant
            i <= k.identifiers@.len(),
            idl == k.identifiers@.len(),
            ids == str_views(k.identifiers@),
            ih == identifier_matches(ids, content@, i as nat).0,
            ih <= 13 * i,
            str_views(reasons@) == mid + identifier_matches(ids, content@, i as nat).1,
        decreases idl - i,
    {
        let id = chars_of(k.identifiers[i].as_str());
        assert(ids[i as int] == id@);
        if !utf8_len_below(&id, 3) {
            let occ = count_matches_exec(content, &id);
            if occ > 0 {
                let capped: u128 = if occ < 5 {
                    occ as u128
                } else {
                    5
                };
                ih = ih + 3 + 2 * capped;
                let mut tail: Vec<char> = Vec::new();
                extend_str(&mut tail, "` ");
                extend_chars(&mut tail, &decimal_chars(occ as u64));
                extend_str(&mut tail, " time(s)");
                let mut v: Vec<char> = Vec::new();
                extend_str(&mut v, "test content mentions source term `");
                extend_chars(&mut v, &id);
                extend_chars(&mut v, &tail);
                let s = string_of(&v);
                let ghost before = str_views(reasons@);
                reasons.push(s);
                assert(s@ =~= "test content mentions source term `"@ + id@ + "` "@ + decimal(
                    occ as nat,
                ) + " time(s)"@);
                assert(str_views(reasons@) =~= before.push(s@));
            }
        }
        i += 1;
    }
    proof {
        if stem_hit {
            assert(contains(name@, stem@));
        }
        if dir_hit {
            assert(contains(tp@, dir@));
        }
        if path_hit {
            assert(contains(content@, kpath@));
        }
    }
    assert(str_views(reasons@) =~= start + key_matches(*k, tp@, name@, content@).1);
    h + ih
}

/// Scores a test file against the keys of the source files: `None` when
/// nothing matched, else the score in half points (saturating at
/// `u64::MAX`) and the reasons.
pub fn score_test_file(test_path: &str, content: &str, keys: &Vec<SourceKey>) -> (r: Option<(u64, String)>)
    ensures
        match test_score(test_path@, content@, keys@) {
            Some((h, text)) => r matches Some((rh, rt)) && rh == saturate(h) && rt@ == text,
            None => r is None,
        },
{
    let t = chars_of(test_path);
    let tp = lower_vec(&t);
    let name = match rsplit_once_str(&tp, "/") {
        Some((_, n)) => n,
        None => slice_of(&tp, 0, tp.len()),
    };
    proof {
        if rsplit_once(tp@, "/"@) is None {
            assert(tp@.subrange(0, tp@.len() as int) =~= tp@);
        }
    }
    let cv = chars_of(content);
    let c = lower_vec(&cv);
    let mut reasons: Vec<String> = Vec::new();
    let mut h: u64 = 0;
    let mut i: usize = 0;
    while i < keys.len()
        invariant
            i <= keys@.len(),
            h == saturate(keys_matches(keys@, tp@, name@, c@, i as nat).0),
            str_views(reasons@) == keys_matches(keys@, tp@, name@, c@, i as nat).1,
        decreases keys.len() - i,
    {
        let kh = score_key(&keys[i], &tp, &name, &c, &mut reasons);
        if kh > (u64::MAX - h) as u128 {
            h = u64::MAX;
        } else {
            h = h + kh as u64;
        }
        i += 1;
    }
    if h == 0 {
        None
    } else {
        let sorted = sort_strings(reasons);
        let distinct = uniq_strings(&sorted);
        Some((h, join_with_exec(&distinct, "; ")))
    }
}

/// `cargo test --test <name>` for a top-level file under `tests/`, else
/// `cargo test`.
pub open spec fn rust_command(path: Seq<char>) -> Seq<char> {
    match strip_prefix(path, "tests/"@) {
        Some(rest) => match strip_suffix(rest, ".rs"@) {
            Some(name) => if !contains(name, "/"@) {
                "cargo test --test "@ + name
            } else {
                "cargo test"@
            },
            None => "cargo test"@,
        },
        None => "cargo test"@,
    }
}

/// Executable `rust_command`.
pub fn rust_test_command(path: &str) -> (r: String)
    ensures
        r@ == rust_command(path@),
{
    let p = chars_of(path);
    if let Some(rest) = strip_prefix_str(&p, "tests/") {
        if let Some(name) = strip_suffix_str(&rest, ".rs") {
            if !contains_str(&name, "/") {
                let mut v: Vec<char> = Vec::new();
                extend_str(&mut v, "cargo test --test ");
                extend_chars(&mut v, &name);
                return string_of(&v);
            }
        }
    }
    String::from_str("cargo test")
}

/// The directory of a path, or `.`.
pub open spec fn package_directory(path: Seq<char>) -> Seq<char> {
    match rsplit_once(path, "/"@) {
        Some((d, _)) => d,
        None => "."@,
    }
}

/// Executable `package_directory`.
pub fn package_dir(path: &str) -> (r: String)
    ensures
        r@ == package_directory(path@),
{
    let p = chars_of(path);
    match rsplit_once_str(&p, "/") {
        Some((d, _)) => string_of(&d),
        None => String::from_str("."),
    }
}

/// A JavaScript package manager.
#[derive(Debug, Clone, Copy, PartialEq, Eq, Structural)]
pub enum JsPackageManager {
    Pnpm,
    Yarn,
    Npm,
    Bun,
}

/// The command of a package manager.
pub open spec fn manager_command(m: JsPackageManager) -> Seq<char> {
    match m {
        JsPackageManager::Pnpm => "pnpm"@,
        JsPackageManager::Yarn => "yarn"@,
        JsPackageManager::Npm => "npm"@,
        JsPackageManager::Bun => "bun"@,
    }
}

/// How a package manager runs the `test` script on one path.
pub open spec fn manager_test_script(m: JsPackageManager, path: Seq<char>) -> Seq<char> {
    match m {
        JsPackageManager::Pnpm => "pnpm test -- "@ + path,
        JsPackageManager::Yarn => "yarn test "@ + path,
        JsPackageManager::Npm => "npm test -- "@ + path,
        JsPackageManager::Bun => "bun test "@ + path,
    }
}

impl JsPackageManager {
    /// The manager's command.
    pub fn command(self) -> (r: &'static str)
        ensures
            r@ == manager_command(self),
    {
        match self {
            JsPackageManager::Pnpm => "pnpm",
            JsPackageManager::Yarn => "yarn",
            JsPackageManager::Npm => "npm",
            JsPackageManager::Bun => "bun",
        }
    }

    /// The manager's command that runs the `test` script on `path`.
    pub fn run_test_script(self, path: &str) -> (r: String)
        ensures
            r@ == manager_test_script(self, path@),
    {
        let mut v: Vec<char> = Vec::new();
        match self {
            JsPackageManager::Pnpm => extend_str(&mut v, "pnpm test -- "),
            JsPackageManager::Yarn => extend_str(&mut v, "yarn test "),
            JsPackageManager::Npm => extend_str(&mut v, "npm test -- "),
            JsPackageManager::Bun => extend_str(&mut v, "bun test "),
        }
        extend_str(&mut v, path);
        string_of(&v)
    }
}

/// Which lock files a package root holds.
#[derive(Debug, Clone, Copy, PartialEq, Eq, Structural)]
pub struct LockFiles {
    pub pnpm_lock: bool,
    pub yarn_lock: bool,
    pub package_lock: bool,
    pub npm_shrinkwrap: bool,
    pub bun_lock: bool,
    pub bun_lockb: bool,
}

/// The package manager that the lock files point to; pnpm when none does.
pub open spec fn manager_of(l: LockFiles) -> JsPackageManager {
    if l.pnpm_lock {
        JsPackageManager::Pnpm
    } else if l.yarn_lock {
        JsPackageManager::Yarn
    } else if l.package_lock || l.npm_shrinkwrap {
        JsPackageManager::Npm
    } else if l.bun_lock || l.bun_lockb {
        JsPackageManager::Bun
    } else {
        JsPackageManager::Pnpm
    }
}

/// Executable `manager_of`.
pub fn detect_js_package_manager(locks: LockFiles) -> (m: JsPackageManager)
    ensures
        m == manager_of(locks),
{
    if locks.pnpm_lock {
        JsPackageManager::Pnpm
    } else if locks.yarn_lock {
        JsPackageManager::Yarn
    } else if locks.package_lock || locks.npm_shrinkwrap {
        JsPackageManager::Npm
    } else if locks.bun_lock || locks.bun_lockb {
        JsPackageManager::Bun
    } else {
        JsPackageManager::Pnpm
    }
}

/// A `test` script that only reports that there are no tests.
pub open spec fn placeholder_script(script: Seq<char>) -> bool {
    contains(script, "no test"@) || contains(script, "no tests"@) || contains(
        script,
        "missing script"@,
    ) || contains(script, "error"@)
}

/// Executable `placeholder_script`.
pub fn is_placeholder_test_script(script: &str) -> (b: bool)
    ensures
        b == placeholder_script(script@),
{
    let s = chars_of(script);
    contains_str(&s, "no test") || contains_str(&s, "no tests") || contains_str(&s, "missing script")
        || contains_str(&s, "error")
}

/// The command that runs a JavaScript test at `path`, given the package
/// manager and the package's raw `scripts.test` value, if any.
pub open spec fn js_command(m: JsPackageManager, raw_script: Option<Seq<char>>, path: Seq<char>) -> Seq<char> {
    let fallback = manager_command(m) + " test "@ + path;
    match raw_script {
        Some(raw) => if trim(raw).len() == 0 {
            fallback
        } else {
            let l = lower(trim(raw));
            if contains(l, "vitest"@) {
                manager_command(m) + " vitest run "@ + path
            } else if contains(l, "jest"@) {
                manager_command(m) + " jest "@ + path
            } else if !placeholder_script(l) {
                manager_test_script(m, path)
            } else {
                fallback
            }
        },
        None => fallback,
    }
}

/// Executable `js_command`.
pub fn javascript_test_command(manager: JsPackageManager, raw_script: Option<String>, path: &str) -> (r: String)
    ensures
        r@ == js_command(manager, crate::model::opt_view(raw_script), path@),
{
    let cmd = manager.command();
    if let Some(raw) = raw_script {
        let rv = chars_of(raw.as_str());
        let t = trim_vec(&rv);
        if t.len() > 0 {
            let l = lower_vec(&t);
            if contains_str(&l, "vitest") {
                let mut v: Vec<char> = Vec::new();
                extend_str(&mut v, cmd);
                extend_str(&mut v, " vitest run ");
                extend_str(&mut v, path);
                return string_of(&v);
            }
            if contains_str(&l, "jest") {
                let mut v: Vec<char> = Vec::new();
                extend_str(&mut v, cmd);
                extend_str(&mut v, " jest ");
                extend_str(&mut v, path);
                return string_of(&v);
            }
            let ls = string_of(&l);
            if !is_placeholder_test_script(ls.as_str()) {
                return manager.run_test_script(path);
            }
        }
    }
    let mut v: Vec<char> = Vec::new();
    extend_str(&mut v, cmd);
    extend_str(&mut v, " test ");
    extend_str(&mut v, path);
    string_of(&v)
}

/// Whether a test path is a JavaScript or TypeScript file, whose command
/// depends on its package.
pub open spec fn js_test_path(path: Seq<char>) -> bool {
    let l = lower(path);
    !ends_with(l, ".rs"@) && !ends_with(l, ".go"@) && !ends_with(l, ".py"@) && (ends_with(
        l,
        ".ts"@,
    ) || ends_with(l, ".tsx"@) || ends_with(l, ".js"@) || ends_with(l, ".jsx"@))
}

/// The Gradle test class of a Java test file under `src/test/java/`: the
/// path below that root without `.java`, with each `/` read as `.`.
pub open spec fn gradle_test_class(path: Seq<char>) -> Option<Seq<char>> {
    match strip_prefix(path, "src/test/java/"@) {
        Some(rest) => match strip_suffix(rest, ".java"@) {
            Some(stem) => Some(replace_char(stem, '/', "."@)),
            None => None,
        },
        None => None,
    }
}

/// The command that runs a test file, by its extension: cargo for Rust, go
/// for Go, pytest for Python, the Gradle wrapper on the test class for a
/// Java test under `src/test/java/` in a Gradle build (`gradle`: the
/// repository has a Gradle build file), the package's manager for JavaScript
/// and TypeScript (`js` is the package's manager and raw `scripts.test`), and
/// none for anything else.
pub open spec fn test_command(path: Seq<char>, js: (JsPackageManager, Option<Seq<char>>), gradle: bool) -> Option<Seq<char>> {
    let l = lower(path);
    if ends_with(l, ".rs"@) {
        Some(rust_command(path))
    } else if ends_with(l, ".go"@) {
        Some("go test ./"@ + package_directory(path))
    } else if ends_with(l, ".py"@) {
        Some("pytest "@ + path)
    } else if gradle && gradle_test_class(path) is Some {
        Some("./gradlew test --tests "@ + gradle_test_class(path)->0)
    } else if js_test_path(path) {
        Some(js_command(js.0, js.1, path))
    } else {
        None
    }
}

/// Executable `js_test_path`.
pub fn is_js_test_path(path: &str) -> (b: bool)
    ensures
        b == js_test_path(path@),
{
    let p = chars_of(path);
    let l = lower_vec(&p);
    !ends_with_str(&l, ".rs") && !ends_with_str(&l, ".go") && !ends_with_str(&l, ".py") && (
    ends_with_str(&l, ".ts") || ends_with_str(&l, ".tsx") || ends_with_str(&l, ".js")
        || ends_with_str(&l, ".jsx"))
}

/// Executable `gradle_test_class`.
pub fn gradle_test_class_of(path: &str) -> (r: Option<String>)
    ensures
        crate::model::opt_view(r) == gradle_test_class(path@),
{
    let p = chars_of(path);
    match strip_prefix_str(&p, "src/test/java/") {
        Some(rest) => match strip_suffix_str(&rest, ".java") {
            Some(stem) => Some(string_of(&replace_char_exec(&stem, '/', "."))),
            None => None,
        },
        None => None,
    }
}

/// Executable `test_command`; `gradle_build` tells whether the repository
/// has a Gradle build file (`build.gradle` or `build.gradle.kts`).
pub fn test_command_for(path: &str, manager: JsPackageManager, raw_script: Option<String>, gradle_build: bool) -> (r: Option<String>)
    ensures
        crate::model::opt_view(r) == test_command(path@, (manager, crate::model::opt_view(raw_script)), gradle_build),
{
    let p = chars_of(path);
    let l = lower_vec(&p);
    if ends_with_str(&l, ".rs") {
        Some(rust_test_command(path))
    } else if ends_with_str(&l, ".go") {
        let mut v: Vec<char> = Vec::new();
        extend_str(&mut v, "go test ./");
        extend_str(&mut v, package_dir(path).as_str());
        Some(string_of(&v))
    } else if ends_with_str(&l, ".py") {
        let mut v: Vec<char> = Vec::new();
        extend_str(&mut v, "pytest ");
        extend_str(&mut v, path);
        Some(string_of(&v))
    } else if gradle_build && gradle_test_class_of(path).is_some() {
        let class = gradle_test_class_of(path).unwrap();
        let mut v: Vec<char> = Vec::new();
        extend_str(&mut v, "./gradlew test --tests ");
        extend_str(&mut v, class.as_str());
        Some(string_of(&v))
    } else if is_js_test_path(path) {
        Some(javascript_test_command(manager, raw_script, path))
    } else {
        None
    }
}

// ---------------------------------------------------------------------
// Test files and their ranking
// ---------------------------------------------------------------------
/// Whether an inventoried file is a safe test file: a test that is neither
/// generated nor ignored.
pub open spec fn safe_test_file(f: crate::inventory::FileInventoryEntry) -> bool {
    f.role == crate::model::FileRole::Test && !f.generated && !f.ignored
}

/// The paths of the safe test files, in inventory order.
pub open spec fn test_file_paths(fs: Seq<crate::inventory::FileInventoryEntry>) -> Seq<Seq<char>>
    decreases fs.len(),
{
    if fs.len() == 0 {
        seq![]
    } else if safe_test_file(fs.last()) {
        test_file_paths(fs.drop_last()).push(fs.last().path@)
    } else {
        test_file_paths(fs.drop_last())
    }
}

/// The paths of the safe test files of an inventory, in inventory order:
/// the candidates for related-test inference.
pub fn related_test_candidates(files: &Vec<crate::inventory::FileInventoryEntry>) -> (r: Vec<String>)
    ensures
        str_views(r@) == test_file_paths(files@),
{
    let mut r: Vec<String> = Vec::new();
    let mut i: usize = 0;
    while i < files.len()
        invariant
            i <= files@.len(),
            str_views(r@) == test_file_paths(files@.take(i as int)),
        decreases files.len() - i,
    {
        assert(files@.take(i + 1).drop_last() =~= files@.take(i as int));
        assert(files@.take(i + 1).last() == files@[i as int]);
        let f = &files[i];
        if f.role == crate::model::FileRole::Test && !f.generated && !f.ignored {
            let ghost before = str_views(r@);
            r.push(f.path.clone());
            assert(str_views(r@) =~= before.push(f.path@));
        }
        i += 1;
    }
    assert(files@.take(files@.len() as int) =~= files@);
    r
}

/// The test map's paths: the safe test files, in path order.
pub fn test_map_paths(files: &Vec<crate::inventory::FileInventoryEntry>) -> (r: Vec<String>)
    ensures
        str_views(r@) == sort_strs(test_file_paths(files@)),
{
    sort_strings(related_test_candidates(files))
}

/// A test file that matched the source keys, with its score in half points.
#[derive(Debug, Clone)]
pub struct ScoredTest {
    pub path: String,
    pub half_points: u64,
}

/// A scored test as plain values.
pub open spec fn scored_view(t: ScoredTest) -> (Seq<char>, u64) {
    (t.path@, t.half_points)
}

/// The key by which confidence orders tests: the confidence is the score
/// over 20 (half points over 40), capped at 0.95 (38 half points).
pub open spec fn confidence_key(h: u64) -> u64 {
    if h < 38 {
        h
    } else {
        38
    }
}

/// Whether test `a` ranks strictly before test `b`: higher confidence
/// first, then path order.
pub open spec fn ranks_before(a: (Seq<char>, u64), b: (Seq<char>, u64)) -> bool {
    confidence_key(a.1) > confidence_key(b.1) || (confidence_key(a.1) == confidence_key(b.1)
        && crate::text::lex_lt(a.0, b.0))
}

/// Inserts a test after every test it does not rank before.
pub open spec fn insert_ranked(s: Seq<(Seq<char>, u64)>, x: (Seq<char>, u64)) -> Seq<(Seq<char>, u64)>
    decreases s.len(),
{
    if s.len() == 0 || !ranks_before(x, s.last()) {
        s.push(x)
    } else {
        insert_ranked(s.drop_last(), x).push(s.last())
    }
}

/// The tests in rank order, stable for equal ranks.
pub open spec fn rank_tests(s: Seq<(Seq<char>, u64)>) -> Seq<(Seq<char>, u64)>
    decreases s.len(),
{
    if s.len() == 0 {
        s
    } else {
        insert_ranked(rank_tests(s.drop_last()), s.last())
    }
}

fn confidence_key_exec(h: u64) -> (k: u64)
    ensures
        k == confidence_key(h),
{
    if h < 38 {
        h
    } else {
        38
    }
}

fn ranks_before_exec(a: &ScoredTest, b: &ScoredTest) -> (r: bool)
    ensures
        r == ranks_before(scored_view(*a), scored_view(*b)),
{
    let ka = confidence_key_exec(a.half_points);
    let kb = confidence_key_exec(b.half_points);
    ka > kb || (ka == kb && crate::text::string_lt(&a.path, &b.path))
}

fn insert_ranked_exec(out: &mut Vec<ScoredTest>, x: ScoredTest)
    ensures
        final(out)@.map_values(|t: ScoredTest| scored_view(t)) == insert_ranked(
            old(out)@.map_values(|t: ScoredTest| scored_view(t)),
            scored_view(x),
        ),
{
    let ghost xv = scored_view(x);
    let ghost orig = out@.map_values(|t: ScoredTest| scored_view(t));
    let mut j: usize = out.len();
    assert(orig.take(j as int) =~= orig);
    assert(orig.skip(j as int) =~= Seq::<(Seq<char>, u64)>::empty());
    while j > 0 && ranks_before_exec(&x, &out[j - 1])
        invariant
            j <= out@.len(),
            orig == out@.map_values(|t: ScoredTest| scored_view(t)),
            xv == scored_view(x),
            insert_ranked(orig, xv) == insert_ranked(orig.take(j as int), xv) + orig.skip(j as int),
        decreases j,
    {
        let ghost t = orig.take(j as int);
        assert(t.last() == scored_view(out@[j - 1]));
        assert(t.drop_last() =~= orig.take(j - 1));
        assert(orig.skip(j - 1) =~= seq![t.last()] + orig.skip(j as int));
        assert(insert_ranked(orig.take(j - 1), xv).push(t.last()) + orig.skip(j as int)
            =~= insert_ranked(orig.take(j - 1), xv) + orig.skip(j - 1));
        j -= 1;
    }
    out.insert(j, x);
    assert(out@.map_values(|t: ScoredTest| scored_view(t)) =~= orig.take(j as int).push(xv) + orig.skip(j as int));
}

/// The scored tests in rank order: higher confidence first (the score over
/// 20, capped at 0.95), then path order; equal ranks keep their order.
pub fn rank_related_tests(tests: Vec<ScoredTest>) -> (r: Vec<ScoredTest>)
    ensures
        r@.map_values(|t: ScoredTest| scored_view(t)) == rank_tests(
            tests@.map_values(|t: ScoredTest| scored_view(t)),
        ),
{
    let ghost sv = tests@.map_values(|t: ScoredTest| scored_view(t));
    let mut out: Vec<ScoredTest> = Vec::new();
    let mut rest = tests;
    let n = rest.len();
    let mut i: usize = 0;
    while i < n
        invariant
            n == sv.len(),
            i <= n,
            rest@.len() == n - i,
            rest@.map_values(|t: ScoredTest| scored_view(t)) == sv.skip(i as int),
            out@.map_values(|t: ScoredTest| scored_view(t)) == rank_tests(sv.take(i as int)),
        decreases n - i,
    {
        proof {
            assert(rest@.map_values(|t: ScoredTest| scored_view(t))[0] == scored_view(rest@[0]));
            assert(sv.skip(i as int)[0] == sv[i as int]);
            assert(sv.take(i + 1).drop_last() =~= sv.take(i as int));
        }
        let ghost old_rest = rest@;
        let x = rest.remove(0);
        proof {
            assert(rest@ =~= old_rest.drop_first());
            assert(rest@.map_values(|t: ScoredTest| scored_view(t)) =~= old_rest.map_values(
                |t: ScoredTest| scored_view(t),
            ).drop_first());
            assert(sv.skip(i as int).drop_first() =~= sv.skip(i + 1));
        }
        insert_ranked_exec(&mut out, x);
        i += 1;
    }
    assert(sv.take(n as int) =~= sv);
    out
}

/// Whether tests are in rank order: no test ranks before one listed
/// earlier.
pub open spec fn in_rank_order(s: Seq<(Seq<char>, u64)>) -> bool {
    forall|i: int, j: int| 0 <= i < j < s.len() ==> !ranks_before(#[trigger] s[j], #[trigger] s[i])
}

proof fn lemma_rank_le_trans(a: (Seq<char>, u64), b: (Seq<char>, u64), c: (Seq<char>, u64))
    requires
        !ranks_before(b, a),
        !ranks_before(c, b),
    ensures
        !ranks_before(c, a),
{
    crate::text::lemma_lex_total(a.0, b.0);
    crate::text::lemma_lex_total(b.0, c.0);
    crate::text::lemma_lex_transitive(c.0, b.0, a.0);
    crate::text::lemma_lex_transitive(c.0, a.0, b.0);
    crate::text::lemma_lex_transitive(b.0, c.0, a.0);
    crate::text::lemma_lex_asymmetric(a.0, b.0);
    crate::text::lemma_lex_asymmetric(b.0, c.0);
    crate::text::lemma_lex_irreflexive(a.0);
}

proof fn lemma_insert_ranked(s: Seq<(Seq<char>, u64)>, x: (Seq<char>, u64))
    ensures
        insert_ranked(s, x).len() == s.len() + 1,
        forall|y: (Seq<char>, u64)| insert_ranked(s, x).contains(y) <==> (s.contains(y) || y == x),
        in_rank_order(s) ==> in_rank_order(insert_ranked(s, x)),
    decreases s.len(),
{
    broadcast use vstd::seq_lib::lemma_seq_contains_after_push;

    let r = insert_ranked(s, x);
    if s.len() == 0 || !ranks_before(x, s.last()) {
        if in_rank_order(s) {
            assert forall|i: int, j: int| 0 <= i < j < r.len() implies !ranks_before(
                #[trigger] r[j],
                #[trigger] r[i],
            ) by {
                if j == s.len() {
                    if i < s.len() - 1 {
                        assert(!ranks_before(s[s.len() - 1], s[i]));
                        lemma_rank_le_trans(s[i], s.last(), x);
                    }
                } else {
                    assert(r[i] == s[i] && r[j] == s[j]);
                }
            }
        }
    } else {
        let d = s.drop_last();
        assert(s =~= d.push(s.last()));
        lemma_insert_ranked(d, x);
        let q = insert_ranked(d, x);
        assert(r == q.push(s.last()));
        assert forall|y: (Seq<char>, u64)| s.contains(y) <==> (d.contains(y) || y == s.last()) by {
            if s.contains(y) && y != s.last() {
                let k = choose|k: int| 0 <= k < s.len() && s[k] == y;
                assert(d[k] == y);
            }
        }
        if in_rank_order(s) {
            assert(in_rank_order(d)) by {
                assert forall|i: int, j: int| 0 <= i < j < d.len() implies !ranks_before(
                    #[trigger] d[j],
                    #[trigger] d[i],
                ) by {
                    assert(d[i] == s[i] && d[j] == s[j]);
                }
            }
            assert forall|i: int, j: int| 0 <= i < j < r.len() implies !ranks_before(
                #[trigger] r[j],
                #[trigger] r[i],
            ) by {
                if j == q.len() {
                    let y = q[i];
                    assert(q.contains(y));
                    if y == x {
                        assert(ranks_before(x, s.last()));
                        assert(!ranks_before(s.last(), x)) by {
                            crate::text::lemma_lex_asymmetric(x.0, s.last().0);
                        }
                    } else {
                        assert(d.contains(y));
                        let k = choose|k: int| 0 <= k < d.len() && d[k] == y;
                        assert(s[k] == y);
                        assert(!ranks_before(s[s.len() - 1], s[k]));
                    }
                } else {
                    assert(r[i] == q[i] && r[j] == q[j]);
                }
            }
        }
    }
}

/// Ranking keeps every test, and puts them in rank order.
pub proof fn lemma_rank_tests(s: Seq<(Seq<char>, u64)>)
    ensures
        rank_tests(s).len() == s.len(),
        forall|y: (Seq<char>, u64)| rank_tests(s).contains(y) <==> s.contains(y),
        in_rank_order(rank_tests(s)),
    decreases s.len(),
{
    if s.len() > 0 {
        let d = s.drop_last();
        lemma_rank_tests(d);
        lemma_insert_ranked(rank_tests(d), s.last());
        assert(s =~= d.push(s.last()));
        assert forall|y: (Seq<char>, u64)| s.contains(y) <==> (d.contains(y) || y == s.last()) by {
            if s.contains(y) && y != s.last() {
                let k = choose|k: int| 0 <= k < s.len() && s[k] == y;
                assert(d[k] == y);
            }
            if d.contains(y) {
                let k = choose|k: int| 0 <= k < d.len() && d[k] == y;
                assert(s[k] == y);
            }
            if y == s.last() {
                assert(s[s.len() - 1] == y);
            }
        }
    }
}

/// The warning that inference skipped some files, naming them.
pub fn partial_diagnostic(code: &str, message: &str, paths: Vec<String>) -> (d: crate::model::Diagnostic)
    ensures
        d.code@ == code@,
        d.severity == crate::model::DiagnosticSeverity::Warning,
        d.message@ == message@,
        d.count == paths@.len(),
        d.paths@ == paths@,
{
    crate::model::Diagnostic {
        code: String::from_str(code),
        severity: crate::model::DiagnosticSeverity::Warning,
        message: String::from_str(message),
        count: paths.len(),
        paths,
    }
}

} // verus!
