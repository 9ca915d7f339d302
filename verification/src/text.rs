//! Character-level text operations over `Seq<char>`, with executable
//! counterparts over `&[char]` and `Vec<char>`.
use vstd::prelude::*;

verus! {

/// `char::is_whitespace`: the Unicode `White_Space` property.
pub open spec fn is_ws(c: char) -> bool {
    let u = c as u32;
    (9 <= u && u <= 13) || u == 32 || u == 0x85 || u == 0xa0 || u == 0x1680 || (0x2000 <= u && u
        <= 0x200a) || u == 0x2028 || u == 0x2029 || u == 0x202f || u == 0x205f || u == 0x3000
}

/// `char::is_ascii_alphanumeric`.
pub open spec fn is_alnum(c: char) -> bool {
    let u = c as u32;
    (48 <= u && u <= 57) || (65 <= u && u <= 90) || (97 <= u && u <= 122)
}

/// `char::is_ascii_uppercase`.
pub open spec fn is_upper(c: char) -> bool {
    let u = c as u32;
    65 <= u && u <= 90
}

/// `char::to_ascii_lowercase`.
pub open spec fn to_lower(c: char) -> char {
    if is_upper(c) {
        ((c as u32) + 32) as char
    } else {
        c
    }
}

/// `str::to_ascii_lowercase`.
pub open spec fn lower(s: Seq<char>) -> Seq<char> {
    s.map_values(|c: char| to_lower(c))
}

/// `str::trim_start`.
pub open spec fn trim_start(s: Seq<char>) -> Seq<char>
    decreases s.len(),
{
    if s.len() > 0 && is_ws(s[0]) {
        trim_start(s.drop_first())
    } else {
        s
    }
}

/// `str::trim_end`.
pub open spec fn trim_end(s: Seq<char>) -> Seq<char>
    decreases s.len(),
{
    if s.len() > 0 && is_ws(s.last()) {
        trim_end(s.drop_last())
    } else {
        s
    }
}

/// `str::trim`.
pub open spec fn trim(s: Seq<char>) -> Seq<char> {
    trim_end(trim_start(s))
}

/// What `trim_end` leaves is a prefix that does not end in whitespace.
pub proof fn lemma_trim_end_prefix(x: Seq<char>)
    ensures
        trim_end(x).len() <= x.len(),
        trim_end(x) == x.take(trim_end(x).len() as int),
        trim_end(x).len() == 0 || !is_ws(trim_end(x).last()),
    decreases x.len(),
{
    if x.len() > 0 && is_ws(x.last()) {
        lemma_trim_end_prefix(x.drop_last());
        let r = trim_end(x.drop_last());
        assert(x.drop_last().take(r.len() as int) =~= x.take(r.len() as int));
    } else {
        assert(x.take(x.len() as int) =~= x);
    }
}

/// What `trim_start` leaves does not begin with whitespace.
pub proof fn lemma_trim_start_head(x: Seq<char>)
    ensures
        trim_start(x).len() == 0 || !is_ws(trim_start(x)[0]),
    decreases x.len(),
{
    if x.len() > 0 && is_ws(x[0]) {
        lemma_trim_start_head(x.drop_first());
    }
}

/// Trimming twice trims once.
pub proof fn lemma_trim_idempotent(s: Seq<char>)
    ensures
        trim(trim(s)) == trim(s),
{
    let u = trim_start(s);
    lemma_trim_start_head(s);
    lemma_trim_end_prefix(u);
    let t = trim_end(u);
    if t.len() > 0 {
        assert(t[0] == u[0]);
    }
    assert(trim_start(t) == t);
    assert(trim_end(t) == t);
}

/// `str::starts_with` with a string pattern.
pub open spec fn starts_with(s: Seq<char>, p: Seq<char>) -> bool {
    p.len() <= s.len() && s.subrange(0, p.len() as int) == p
}

/// `str::ends_with` with a string pattern.
pub open spec fn ends_with(s: Seq<char>, p: Seq<char>) -> bool {
    p.len() <= s.len() && s.subrange(s.len() - p.len(), s.len() as int) == p
}

/// `str::strip_prefix` with a string pattern.
pub open spec fn strip_prefix(s: Seq<char>, p: Seq<char>) -> Option<Seq<char>> {
    if starts_with(s, p) {
        Some(s.skip(p.len() as int))
    } else {
        None
    }
}

/// `str::strip_suffix` with a string pattern.
pub open spec fn strip_suffix(s: Seq<char>, p: Seq<char>) -> Option<Seq<char>> {
    if ends_with(s, p) {
        Some(s.take(s.len() - p.len()))
    } else {
        None
    }
}

/// `p` occurs in `s` at index `i`.
pub open spec fn matches_at(s: Seq<char>, p: Seq<char>, i: int) -> bool {
    0 <= i && i + p.len() <= s.len() && s.subrange(i, i + p.len()) == p
}

/// `str::contains` with a string pattern.
pub open spec fn contains(s: Seq<char>, p: Seq<char>) -> bool {
    exists|i: int| matches_at(s, p, i)
}

/// `i` is the leftmost occurrence of `p` in `s`.
pub open spec fn is_first_occ(s: Seq<char>, p: Seq<char>, i: int) -> bool {
    matches_at(s, p, i) && forall|j: int| 0 <= j < i ==> !matches_at(s, p, j)
}

/// `i` is the rightmost occurrence of `p` in `s`.
pub open spec fn is_last_occ(s: Seq<char>, p: Seq<char>, i: int) -> bool {
    matches_at(s, p, i) && forall|j: int| i < j ==> !matches_at(s, p, j)
}

/// `str::find` with a string pattern.
pub open spec fn find(s: Seq<char>, p: Seq<char>) -> Option<int> {
    if exists|i: int| is_first_occ(s, p, i) {
        Some(choose|i: int| is_first_occ(s, p, i))
    } else {
        None
    }
}

/// `str::rfind` with a string pattern.
pub open spec fn rfind(s: Seq<char>, p: Seq<char>) -> Option<int> {
    if exists|i: int| is_last_occ(s, p, i) {
        Some(choose|i: int| is_last_occ(s, p, i))
    } else {
        None
    }
}

/// `str::split_once` with a string pattern.
pub open spec fn split_once(s: Seq<char>, p: Seq<char>) -> Option<(Seq<char>, Seq<char>)> {
    match find(s, p) {
        Some(i) => Some((s.take(i), s.skip(i + p.len()))),
        None => None,
    }
}

/// `str::rsplit_once` with a string pattern.
pub open spec fn rsplit_once(s: Seq<char>, p: Seq<char>) -> Option<(Seq<char>, Seq<char>)> {
    match rfind(s, p) {
        Some(i) => Some((s.take(i), s.skip(i + p.len()))),
        None => None,
    }
}

/// The text before the first `c` (`str::split(c).next()`).
pub open spec fn before_char(s: Seq<char>, c: char) -> Seq<char> {
    match find(s, seq![c]) {
        Some(i) => s.take(i),
        None => s,
    }
}

/// `str::replace` of one character by a string.
pub open spec fn replace_char(s: Seq<char>, c: char, r: Seq<char>) -> Seq<char>
    decreases s.len(),
{
    if s.len() == 0 {
        s
    } else {
        replace_char(s.drop_last(), c, r) + (if s.last() == c {
            r
        } else {
            seq![s.last()]
        })
    }
}

/// `str::trim_start_matches` with a string pattern.
pub open spec fn trim_start_matches(s: Seq<char>, p: Seq<char>) -> Seq<char>
    decreases s.len(),
{
    if p.len() > 0 && starts_with(s, p) {
        trim_start_matches(s.skip(p.len() as int), p)
    } else {
        s
    }
}

/// `str::trim_end_matches` with a string pattern.
pub open spec fn trim_end_matches(s: Seq<char>, p: Seq<char>) -> Seq<char>
    decreases s.len(),
{
    if p.len() > 0 && ends_with(s, p) {
        trim_end_matches(s.take(s.len() - p.len()), p)
    } else {
        s
    }
}

/// `str::matches(p).count()`: non-overlapping occurrences, scanned from the left.
pub open spec fn count_matches(s: Seq<char>, p: Seq<char>) -> nat
    decreases s.len(),
{
    if p.len() == 0 {
        0
    } else {
        match find(s, p) {
            Some(i) => if 0 <= i && i + p.len() <= s.len() {
                1 + count_matches(s.skip(i + p.len()), p)
            } else {
                0
            },
            None => 0,
        }
    }
}

/// The first `n` characters (`chars().take(n).collect()`).
pub open spec fn take_chars(s: Seq<char>, n: nat) -> Seq<char> {
    if s.len() <= n {
        s
    } else {
        s.take(n as int)
    }
}

// ---------------------------------------------------------------------
// Executable operations
// ---------------------------------------------------------------------
/// Appends one character to a `String` (`String::push`).
#[verifier::external_body]
pub(crate) fn push_char(s: &mut String, c: char)
    ensures
        final(s)@ == old(s)@.push(c),
{
    s.push(c);
}

/// The characters of a string slice, in order.
pub fn chars_of(s: &str) -> (out: Vec<char>)
    ensures
        out@ == s@,
{
    let mut out: Vec<char> = Vec::new();
    for c in it: s.chars()
        invariant
            out@ == it.seq().take(it.index() as int),
    {
        out.push(c);
    }
    out
}

/// A `String` holding the given characters.
pub fn string_of(chars: &[char]) -> (out: String)
    ensures
        out@ == chars@,
{
    let mut out = String::new();
    let mut i: usize = 0;
    while i < chars.len()
        invariant
            i <= chars.len(),
            out@ == chars@.take(i as int),
        decreases chars.len() - i,
    {
        push_char(&mut out, chars[i]);
        i += 1;
        assert(out@ =~= chars@.take(i as int));
    }
    assert(chars@.take(chars@.len() as int) =~= chars@);
    out
}

/// Appends the characters of `add` to `out`.
pub fn extend_chars(out: &mut Vec<char>, add: &[char])
    ensures
        final(out)@ == old(out)@ + add@,
{
    let mut i: usize = 0;
    while i < add.len()
        invariant
            i <= add.len(),
            out@ == old(out)@ + add@.take(i as int),
        decreases add.len() - i,
    {
        out.push(add[i]);
        i += 1;
        assert(out@ =~= old(out)@ + add@.take(i as int));
    }
    assert(add@.take(add@.len() as int) =~= add@);
}

/// Appends the characters of a string slice to `out`.
pub fn extend_str(out: &mut Vec<char>, add: &str)
    ensures
        final(out)@ == old(out)@ + add@,
{
    let a = chars_of(add);
    extend_chars(out, &a);
}

/// `s[lo..hi]` as a new vector.
pub fn slice_of(s: &[char], lo: usize, hi: usize) -> (out: Vec<char>)
    requires
        lo <= hi <= s@.len(),
    ensures
        out@ == s@.subrange(lo as int, hi as int),
{
    let mut out: Vec<char> = Vec::new();
    let mut i = lo;
    while i < hi
        invariant
            lo <= i <= hi,
            hi <= s@.len(),
            out@ == s@.subrange(lo as int, i as int),
        decreases hi - i,
    {
        out.push(s[i]);
        i += 1;
        assert(out@ =~= s@.subrange(lo as int, i as int));
    }
    out
}

/// Executable `is_ws`.
pub fn ws(c: char) -> (b: bool)
    ensures
        b == is_ws(c),
{
    let u = c as u32;
    (9 <= u && u <= 13) || u == 32 || u == 0x85 || u == 0xa0 || u == 0x1680 || (0x2000 <= u && u
        <= 0x200a) || u == 0x2028 || u == 0x2029 || u == 0x202f || u == 0x205f || u == 0x3000
}

/// Executable `is_alnum`.
pub fn alnum(c: char) -> (b: bool)
    ensures
        b == is_alnum(c),
{
    let u = c as u32;
    (48 <= u && u <= 57) || (65 <= u && u <= 90) || (97 <= u && u <= 122)
}

/// Executable `to_lower`.
pub fn lower_char(c: char) -> (r: char)
    ensures
        r == to_lower(c),
{
    if 'A' <= c && c <= 'Z' {
        let u = (c as u8) + 32;
        u as char
    } else {
        c
    }
}

/// Executable `lower`.
pub fn lower_vec(s: &[char]) -> (out: Vec<char>)
    ensures
        out@ == lower(s@),
{
    let mut out: Vec<char> = Vec::new();
    let mut i: usize = 0;
    while i < s.len()
        invariant
            i <= s.len(),
            out@ == lower(s@.take(i as int)),
        decreases s.len() - i,
    {
        out.push(lower_char(s[i]));
        i += 1;
        assert(out@ =~= lower(s@.take(i as int)));
    }
    assert(s@.take(s@.len() as int) =~= s@);
    out
}

/// Index where `trim_start` begins.
pub fn trim_start_index(s: &[char]) -> (i: usize)
    ensures
        i <= s@.len(),
        trim_start(s@) == s@.skip(i as int),
{
    let mut i: usize = 0;
    assert(s@.skip(0) =~= s@);
    while i < s.len() && ws(s[i])
        invariant
            i <= s@.len(),
            trim_start(s@) == trim_start(s@.skip(i as int)),
        decreases s.len() - i,
    {
        assert(s@.skip(i as int).drop_first() =~= s@.skip(i + 1));
        i += 1;
    }
    i
}

/// Index where `trim_end` ends.
pub fn trim_end_index(s: &[char]) -> (j: usize)
    ensures
        j <= s@.len(),
        trim_end(s@) == s@.take(j as int),
{
    let mut j: usize = s.len();
    assert(s@.take(s@.len() as int) =~= s@);
    while j > 0 && ws(s[j - 1])
        invariant
            j <= s@.len(),
            trim_end(s@) == trim_end(s@.take(j as int)),
        decreases j,
    {
        assert(s@.take(j as int).drop_last() =~= s@.take(j - 1));
        j -= 1;
    }
    j
}

/// `str::trim`, as a new vector.
pub fn trim_vec(s: &[char]) -> (out: Vec<char>)
    ensures
        out@ == trim(s@),
{
    let i = trim_start_index(s);
    let rest = slice_of(s, i, s.len());
    let j = trim_end_index(&rest);
    slice_of(&rest, 0, j)
}

/// `str::trim_start`, as a new vector.
pub fn trim_start_vec(s: &[char]) -> (out: Vec<char>)
    ensures
        out@ == trim_start(s@),
{
    let i = trim_start_index(s);
    slice_of(s, i, s.len())
}

/// `str::trim_end`, as a new vector.
pub fn trim_end_vec(s: &[char]) -> (out: Vec<char>)
    ensures
        out@ == trim_end(s@),
{
    let j = trim_end_index(s);
    slice_of(s, 0, j)
}

/// Whether `s` holds `p` at index `i`.
pub fn matches_at_exec(s: &[char], p: &[char], i: usize) -> (b: bool)
    ensures
        b == matches_at(s@, p@, i as int),
{
    if i > s.len() || p.len() > s.len() - i {
        return false;
    }
    let sl = s.len();
    let mut k: usize = 0;
    while k < p.len()
        invariant
            k <= p@.len(),
            sl == s@.len(),
            i + p@.len() <= s@.len(),
            forall|m: int| 0 <= m < k ==> s@[i + m] == p@[m],
        decreases p.len() - k,
    {
        if s[i + k] != p[k] {
            assert(s@.subrange(i as int, i + p@.len())[k as int] != p@[k as int]);
            return false;
        }
        k += 1;
    }
    assert(s@.subrange(i as int, i + p@.len()) =~= p@);
    true
}

/// Executable `starts_with`.
pub fn starts_with_exec(s: &[char], p: &[char]) -> (b: bool)
    ensures
        b == starts_with(s@, p@),
{
    matches_at_exec(s, p, 0)
}

/// Executable `starts_with` against a string slice pattern.
pub fn starts_with_str(s: &[char], p: &str) -> (b: bool)
    ensures
        b == starts_with(s@, p@),
{
    let pv = chars_of(p);
    starts_with_exec(s, &pv)
}

/// Executable `ends_with`.
pub fn ends_with_exec(s: &[char], p: &[char]) -> (b: bool)
    ensures
        b == ends_with(s@, p@),
{
    if p.len() > s.len() {
        return false;
    }
    let b = matches_at_exec(s, p, s.len() - p.len());
    b
}

/// Executable `ends_with` against a string slice pattern.
pub fn ends_with_str(s: &[char], p: &str) -> (b: bool)
    ensures
        b == ends_with(s@, p@),
{
    let pv = chars_of(p);
    ends_with_exec(s, &pv)
}

/// Executable `strip_prefix` against a string slice pattern.
pub fn strip_prefix_str(s: &[char], p: &str) -> (out: Option<Vec<char>>)
    ensures
        match out {
            Some(v) => strip_prefix(s@, p@) == Some(v@),
            None => strip_prefix(s@, p@) is None,
        },
{
    let pv = chars_of(p);
    if starts_with_exec(s, &pv) {
        Some(slice_of(s, pv.len(), s.len()))
    } else {
        None
    }
}

/// Executable `strip_suffix` against a string slice pattern.
pub fn strip_suffix_str(s: &[char], p: &str) -> (out: Option<Vec<char>>)
    ensures
        match out {
            Some(v) => strip_suffix(s@, p@) == Some(v@),
            None => strip_suffix(s@, p@) is None,
        },
{
    let pv = chars_of(p);
    if ends_with_exec(s, &pv) {
        Some(slice_of(s, 0, s.len() - pv.len()))
    } else {
        None
    }
}

pub proof fn lemma_first_occ_unique(s: Seq<char>, p: Seq<char>, i: int)
    requires
        is_first_occ(s, p, i),
    ensures
        find(s, p) == Some(i),
{
    let k = choose|k: int| is_first_occ(s, p, k);
    assert(is_first_occ(s, p, k));
    if k < i {
        assert(!matches_at(s, p, k));
    }
    if i < k {
        assert(!matches_at(s, p, i));
    }
}

pub proof fn lemma_last_occ_unique(s: Seq<char>, p: Seq<char>, i: int)
    requires
        is_last_occ(s, p, i),
    ensures
        rfind(s, p) == Some(i),
{
    let k = choose|k: int| is_last_occ(s, p, k);
    assert(is_last_occ(s, p, k));
    if k < i {
        assert(!matches_at(s, p, i));
    }
    if i < k {
        assert(!matches_at(s, p, k));
    }
}

/// Executable `find`.
pub fn find_exec(s: &[char], p: &[char]) -> (r: Option<usize>)
    ensures
        match r {
            Some(i) => find(s@, p@) == Some(i as int) && matches_at(s@, p@, i as int),
            None => find(s@, p@) is None && !contains(s@, p@),
        },
{
    let mut i: usize = 0;
    loop
        invariant
            i <= s@.len(),
            forall|j: int| 0 <= j < i ==> !matches_at(s@, p@, j),
        decreases s.len() - i,
    {
        if matches_at_exec(s, p, i) {
            proof {
                lemma_first_occ_unique(s@, p@, i as int);
            }
            return Some(i);
        }
        if i == s.len() {
            proof {
                assert forall|j: int| !matches_at(s@, p@, j) by {
                    if 0 <= j < i {
                    } else if j == i {
                    } else {
                    }
                }
                assert(!(exists|j: int| is_first_occ(s@, p@, j)));
            }
            return None;
        }
        i += 1;
    }
}

/// Executable `rfind`.
pub fn rfind_exec(s: &[char], p: &[char]) -> (r: Option<usize>)
    ensures
        match r {
            Some(i) => rfind(s@, p@) == Some(i as int) && matches_at(s@, p@, i as int),
            None => rfind(s@, p@) is None && !contains(s@, p@),
        },
{
    let mut i: usize = s.len();
    loop
        invariant
            i <= s@.len(),
            forall|j: int| i < j ==> !matches_at(s@, p@, j),
        decreases i,
    {
        if matches_at_exec(s, p, i) {
            proof {
                lemma_last_occ_unique(s@, p@, i as int);
            }
            return Some(i);
        }
        if i == 0 {
            proof {
                assert forall|j: int| !matches_at(s@, p@, j) by {
                    if j < 0 {
                    } else if j == 0 {
                    } else {
                    }
                }
                assert(!(exists|j: int| is_last_occ(s@, p@, j)));
            }
            return None;
        }
        i -= 1;
    }
}

/// Executable `find` of a single character.
pub fn find_char(s: &[char], c: char) -> (r: Option<usize>)
    ensures
        match r {
            Some(i) => find(s@, seq![c]) == Some(i as int) && i < s@.len() && s@[i as int] == c,
            None => find(s@, seq![c]) is None && !contains(s@, seq![c]),
        },
{
    let p = vec![c];
    assert(p@ =~= seq![c]);
    let r = find_exec(s, &p);
    match r {
        Some(i) => {
            assert(s@.subrange(i as int, i + 1)[0] == s@[i as int]);
        },
        None => {},
    }
    r
}

/// Executable `contains` with a string slice pattern.
pub fn contains_str(s: &[char], p: &str) -> (b: bool)
    ensures
        b == contains(s@, p@),
{
    let pv = chars_of(p);
    match find_exec(s, &pv) {
        Some(_) => true,
        None => false,
    }
}

/// Executable `split_once` with a string slice pattern.
pub fn split_once_str(s: &[char], p: &str) -> (r: Option<(Vec<char>, Vec<char>)>)
    ensures
        match r {
            Some((a, b)) => split_once(s@, p@) == Some((a@, b@)),
            None => split_once(s@, p@) is None,
        },
{
    let pv = chars_of(p);
    match find_exec(s, &pv) {
        Some(i) => {
            let sl = s.len();
            assert(matches_at(s@, pv@, i as int));
            Some((slice_of(s, 0, i), slice_of(s, i + pv.len(), s.len())))
        },
        None => None,
    }
}

/// Executable `rsplit_once` with a string slice pattern.
pub fn rsplit_once_str(s: &[char], p: &str) -> (r: Option<(Vec<char>, Vec<char>)>)
    ensures
        match r {
            Some((a, b)) => rsplit_once(s@, p@) == Some((a@, b@)),
            None => rsplit_once(s@, p@) is None,
        },
{
    let pv = chars_of(p);
    match rfind_exec(s, &pv) {
        Some(i) => {
            let sl = s.len();
            assert(matches_at(s@, pv@, i as int));
            Some((slice_of(s, 0, i), slice_of(s, i + pv.len(), s.len())))
        },
        None => None,
    }
}

/// Executable `before_char`.
pub fn before_char_exec(s: &[char], c: char) -> (out: Vec<char>)
    ensures
        out@ == before_char(s@, c),
{
    match find_char(s, c) {
        Some(i) => slice_of(s, 0, i),
        None => slice_of(s, 0, s.len()),
    }
}

/// Executable `replace_char`.
pub fn replace_char_exec(s: &[char], c: char, r: &str) -> (out: Vec<char>)
    ensures
        out@ == replace_char(s@, c, r@),
{
    let rv = chars_of(r);
    let mut out: Vec<char> = Vec::new();
    let mut i: usize = 0;
    while i < s.len()
        invariant
            i <= s.len(),
            rv@ == r@,
            out@ == replace_char(s@.take(i as int), c, r@),
        decreases s.len() - i,
    {
        assert(s@.take(i + 1).drop_last() =~= s@.take(i as int));
        if s[i] == c {
            extend_chars(&mut out, &rv);
        } else {
            out.push(s[i]);
        }
        i += 1;
        assert(out@ =~= replace_char(s@.take(i as int), c, r@));
    }
    assert(s@.take(s@.len() as int) =~= s@);
    out
}

/// Executable `trim_start_matches` with a string slice pattern.
pub fn trim_start_matches_str(s: &[char], p: &str) -> (out: Vec<char>)
    ensures
        out@ == trim_start_matches(s@, p@),
{
    let pv = chars_of(p);
    let mut cur = slice_of(s, 0, s.len());
    assert(cur@ =~= s@);
    if pv.len() == 0 {
        return cur;
    }
    while starts_with_exec(&cur, &pv)
        invariant
            pv@ == p@,
            pv@.len() > 0,
            trim_start_matches(s@, p@) == trim_start_matches(cur@, p@),
        decreases cur@.len(),
    {
        cur = slice_of(&cur, pv.len(), cur.len());
    }
    cur
}

/// Executable `trim_end_matches` with a string slice pattern.
pub fn trim_end_matches_str(s: &[char], p: &str) -> (out: Vec<char>)
    ensures
        out@ == trim_end_matches(s@, p@),
{
    let pv = chars_of(p);
    let mut cur = slice_of(s, 0, s.len());
    assert(cur@ =~= s@);
    if pv.len() == 0 {
        return cur;
    }
    while ends_with_exec(&cur, &pv)
        invariant
            pv@ == p@,
            pv@.len() > 0,
            trim_end_matches(s@, p@) == trim_end_matches(cur@, p@),
        decreases cur@.len(),
    {
        cur = slice_of(&cur, 0, cur.len() - pv.len());
    }
    cur
}

/// Executable `count_matches`.
pub fn count_matches_exec(s: &[char], p: &[char]) -> (n: usize)
    ensures
        n == count_matches(s@, p@),
{
    if p.len() == 0 {
        return 0;
    }
    let mut cur = slice_of(s, 0, s.len());
    assert(cur@ =~= s@);
    let sl = s.len();
    let mut n: usize = 0;
    loop
        invariant
            sl == s@.len(),
            p@.len() > 0,
            n + count_matches(cur@, p@) == count_matches(s@, p@),
            n <= s@.len() - cur@.len(),
            cur@.len() <= s@.len(),
        decreases cur@.len(),
    {
        match find_exec(&cur, p) {
            Some(i) => {
                let cl = cur.len();
                assert(matches_at(cur@, p@, i as int));
                let next = slice_of(&cur, i + p.len(), cur.len());
                n += 1;
                cur = next;
            },
            None => {
                return n;
            },
        }
    }
}

/// Executable `take_chars`.
pub fn take_chars_exec(s: &[char], n: usize) -> (out: Vec<char>)
    ensures
        out@ == take_chars(s@, n as nat),
{
    if s.len() <= n {
        slice_of(s, 0, s.len())
    } else {
        slice_of(s, 0, n)
    }
}

/// Whether two character sequences are equal.
pub fn eq_chars(a: &[char], b: &[char]) -> (r: bool)
    ensures
        r == (a@ == b@),
{
    if a.len() != b.len() {
        return false;
    }
    let r = matches_at_exec(a, b, 0);
    if r {
        assert(a@.subrange(0, b@.len() as int) =~= a@);
    } else {
        assert(a@.subrange(0, b@.len() as int) =~= a@);
    }
    r
}

/// Whether a character sequence equals a string slice.
pub fn eq_str(a: &[char], b: &str) -> (r: bool)
    ensures
        r == (a@ == b@),
{
    let bv = chars_of(b);
    eq_chars(a, &bv)
}

// ---------------------------------------------------------------------
// Lines
// ---------------------------------------------------------------------
/// Drops one trailing carriage return.
pub open spec fn strip_cr(s: Seq<char>) -> Seq<char> {
    if s.len() > 0 && s.last() == '\r' {
        s.drop_last()
    } else {
        s
    }
}

/// The finished lines and the pending line after reading `s` from the left.
pub open spec fn line_scan(s: Seq<char>) -> (Seq<Seq<char>>, Seq<char>)
    decreases s.len(),
{
    if s.len() == 0 {
        (seq![], seq![])
    } else {
        let (done, cur) = line_scan(s.drop_last());
        if s.last() == '\n' {
            (done.push(strip_cr(cur)), seq![])
        } else {
            (done, cur.push(s.last()))
        }
    }
}

/// `str::lines`: split at `\n`, dropping one `\r` before each `\n`; no empty
/// final line after a trailing newline.
pub open spec fn lines(s: Seq<char>) -> Seq<Seq<char>> {
    let (done, cur) = line_scan(s);
    if cur.len() == 0 {
        done
    } else {
        done.push(cur)
    }
}

fn strip_cr_vec(v: Vec<char>) -> (out: Vec<char>)
    ensures
        out@ == strip_cr(v@),
{
    let n = v.len();
    if n > 0 && v[n - 1] == '\r' {
        slice_of(&v, 0, n - 1)
    } else {
        v
    }
}

/// Executable `lines`.
pub fn lines_exec(s: &[char]) -> (out: Vec<Vec<char>>)
    ensures
        crate::model::vec_views(out@) == lines(s@),
{
    let mut done: Vec<Vec<char>> = Vec::new();
    let mut cur: Vec<char> = Vec::new();
    let mut i: usize = 0;
    while i < s.len()
        invariant
            i <= s.len(),
            (crate::model::vec_views(done@), cur@) == line_scan(s@.take(i as int)),
        decreases s.len() - i,
    {
        assert(s@.take(i + 1).drop_last() =~= s@.take(i as int));
        if s[i] == '\n' {
            let finished = strip_cr_vec(cur);
            done.push(finished);
            cur = Vec::new();
        } else {
            cur.push(s[i]);
        }
        i += 1;
        assert(crate::model::vec_views(done@) =~= line_scan(s@.take(i as int)).0);
        assert(cur@ =~= line_scan(s@.take(i as int)).1);
    }
    assert(s@.take(s@.len() as int) =~= s@);
    if cur.len() > 0 {
        done.push(cur);
        assert(crate::model::vec_views(done@) =~= lines(s@));
    }
    done
}

// ---------------------------------------------------------------------
// Identifiers and words
// ---------------------------------------------------------------------
/// Characters that may continue an identifier.
pub open spec fn is_ident(c: char) -> bool {
    is_alnum(c) || c == '_' || c == '$'
}

/// Length of the leading run of identifier characters.
pub open spec fn ident_run(s: Seq<char>) -> nat
    decreases s.len(),
{
    if s.len() > 0 && is_ident(s[0]) {
        1 + ident_run(s.drop_first())
    } else {
        0
    }
}

/// The identifier at the start of `input` after leading whitespace: its first
/// character, whatever it is, and the identifier characters that follow.
pub open spec fn take_identifier(input: Seq<char>) -> Option<Seq<char>> {
    let t = trim_start(input);
    if t.len() == 0 {
        None
    } else {
        Some(t.take(1 + ident_run(t.drop_first()) as int))
    }
}

/// The identifier that follows `prefix` at the start of `line`.
pub open spec fn identifier_after(line: Seq<char>, prefix: Seq<char>) -> Option<Seq<char>> {
    match strip_prefix(line, prefix) {
        Some(rest) => take_identifier(rest),
        None => None,
    }
}

pub proof fn lemma_ident_run_bound(s: Seq<char>)
    ensures
        ident_run(s) <= s.len(),
    decreases s.len(),
{
    if s.len() > 0 && is_ident(s[0]) {
        lemma_ident_run_bound(s.drop_first());
    }
}

/// Executable `is_ident`.
pub fn ident_char(c: char) -> (b: bool)
    ensures
        b == is_ident(c),
{
    alnum(c) || c == '_' || c == '$'
}

/// Executable `take_identifier`.
pub fn take_identifier_exec(input: &[char]) -> (r: Option<Vec<char>>)
    ensures
        match r {
            Some(v) => take_identifier(input@) == Some(v@),
            None => take_identifier(input@) is None,
        },
{
    let t = trim_start_vec(input);
    if t.len() == 0 {
        return None;
    }
    let mut k: usize = 1;
    assert(t@.drop_first() =~= t@.skip(1));
    while k < t.len() && ident_char(t[k as usize])
        invariant
            1 <= k <= t@.len(),
            t@ == trim_start(input@),
            ident_run(t@.drop_first()) == (k - 1) + ident_run(t@.skip(k as int)),
        decreases t.len() - k,
    {
        assert(t@.skip(k as int).drop_first() =~= t@.skip(k + 1));
        k += 1;
    }
    Some(slice_of(&t, 0, k))
}

/// Executable `identifier_after`.
pub fn identifier_after_exec(line: &[char], prefix: &str) -> (r: Option<Vec<char>>)
    ensures
        match r {
            Some(v) => identifier_after(line@, prefix@) == Some(v@),
            None => identifier_after(line@, prefix@) is None,
        },
{
    match strip_prefix_str(line, prefix) {
        Some(rest) => take_identifier_exec(&rest),
        None => None,
    }
}

/// Index of the last whitespace character, or -1.
pub open spec fn last_ws_index(s: Seq<char>) -> int
    decreases s.len(),
{
    if s.len() == 0 {
        -1
    } else if is_ws(s.last()) {
        s.len() - 1
    } else {
        last_ws_index(s.drop_last())
    }
}

/// `str::split_whitespace().last()`.
pub open spec fn last_word(s: Seq<char>) -> Option<Seq<char>> {
    let t = trim_end(s);
    if t.len() == 0 {
        None
    } else {
        Some(t.skip(last_ws_index(t) + 1))
    }
}

pub proof fn lemma_last_ws_index_range(s: Seq<char>)
    ensures
        -1 <= last_ws_index(s) < s.len(),
    decreases s.len(),
{
    if s.len() > 0 && !is_ws(s.last()) {
        lemma_last_ws_index_range(s.drop_last());
    }
}

/// Executable `last_word`.
pub fn last_word_exec(s: &[char]) -> (r: Option<Vec<char>>)
    ensures
        match r {
            Some(v) => last_word(s@) == Some(v@),
            None => last_word(s@) is None,
        },
{
    let t = trim_end_vec(s);
    if t.len() == 0 {
        return None;
    }
    let mut j: usize = t.len();
    assert(t@.take(t@.len() as int) =~= t@);
    while j > 0 && !ws(t[j - 1])
        invariant
            j <= t@.len(),
            last_ws_index(t@) == last_ws_index(t@.take(j as int)),
        decreases j,
    {
        assert(t@.take(j as int).drop_last() =~= t@.take(j - 1));
        j -= 1;
    }
    Some(slice_of(&t, j, t.len()))
}

/// Index of the first quote character (`"` or `'`).
pub open spec fn is_quote(c: char) -> bool {
    c == '"' || c == '\''
}

/// `i` is the first quote in `s`.
pub open spec fn is_first_quote(s: Seq<char>, i: int) -> bool {
    0 <= i < s.len() && is_quote(s[i]) && forall|j: int| 0 <= j < i ==> !is_quote(s[j])
}

/// The text between the first quote character and the next occurrence of
/// that same character.
pub open spec fn quoted_value(input: Seq<char>) -> Option<Seq<char>> {
    if exists|i: int| is_first_quote(input, i) {
        let start = choose|i: int| is_first_quote(input, i);
        let rest = input.skip(start + 1);
        match find(rest, seq![input[start]]) {
            Some(end) => Some(rest.take(end)),
            None => None,
        }
    } else {
        None
    }
}

/// Executable `quoted_value`.
pub fn quoted_value_exec(input: &[char]) -> (r: Option<Vec<char>>)
    ensures
        match r {
            Some(v) => quoted_value(input@) == Some(v@),
            None => quoted_value(input@) is None,
        },
{
    let mut i: usize = 0;
    while i < input.len()
        invariant
            i <= input@.len(),
            forall|j: int| 0 <= j < i ==> !is_quote(input@[j]),
        decreases input.len() - i,
    {
        if input[i] == '"' || input[i] == '\'' {
            assert(is_first_quote(input@, i as int));
            proof {
                let k = choose|k: int| is_first_quote(input@, k);
                if k < i {
                    assert(!is_quote(input@[k]));
                }
                if i < k {
                    assert(!is_quote(input@[i as int]));
                }
            }
            let rest = slice_of(input, i + 1, input.len());
            match find_char(&rest, input[i]) {
                Some(end) => {
                    return Some(slice_of(&rest, 0, end));
                },
                None => {
                    return None;
                },
            }
        }
        i += 1;
    }
    None
}

// ---------------------------------------------------------------------
// Modifier stripping
// ---------------------------------------------------------------------
/// Strips one leading modifier followed by whitespace.
pub open spec fn strip_one(rest: Seq<char>, m: Seq<char>) -> Option<Seq<char>> {
    if starts_with(rest, m) && rest.len() > m.len() && is_ws(rest[m.len() as int]) {
        Some(trim_start(rest.skip(m.len() as int)))
    } else {
        None
    }
}

/// One pass over `mods[k..]`, in order.
pub open spec fn strip_pass(rest: Seq<char>, mods: Seq<Seq<char>>, k: int) -> (Seq<char>, bool)
    decreases mods.len() - k,
{
    if k < 0 || k >= mods.len() {
        (rest, false)
    } else {
        let (r1, c1) = match strip_one(rest, mods[k]) {
            Some(n) => (n, true),
            None => (rest, false),
        };
        let (r2, c2) = strip_pass(r1, mods, k + 1);
        (r2, c1 || c2)
    }
}

/// Repeats passes until one strips nothing.
pub open spec fn strip_loop(rest: Seq<char>, mods: Seq<Seq<char>>) -> Seq<char>
    decreases rest.len(),
{
    let (r, changed) = strip_pass(rest, mods, 0);
    if changed && r.len() < rest.len() {
        strip_loop(r, mods)
    } else {
        rest
    }
}

/// Strips leading modifiers (such as `pub` or `export`) from a trimmed line.
pub open spec fn strip_modifiers(line: Seq<char>, mods: Seq<Seq<char>>) -> Seq<char> {
    strip_loop(trim(line), mods)
}

pub proof fn lemma_trim_start_len(s: Seq<char>)
    ensures
        trim_start(s).len() <= s.len(),
    decreases s.len(),
{
    if s.len() > 0 && is_ws(s[0]) {
        lemma_trim_start_len(s.drop_first());
    }
}

pub proof fn lemma_strip_pass_shrinks(rest: Seq<char>, mods: Seq<Seq<char>>, k: int)
    ensures
        strip_pass(rest, mods, k).0.len() <= rest.len(),
        strip_pass(rest, mods, k).1 ==> strip_pass(rest, mods, k).0.len() < rest.len(),
        !strip_pass(rest, mods, k).1 ==> strip_pass(rest, mods, k).0 == rest,
    decreases mods.len() - k,
{
    if k < 0 || k >= mods.len() {
    } else {
        match strip_one(rest, mods[k]) {
            Some(n) => {
                lemma_trim_start_len(rest.skip(mods[k].len() as int));
                if mods[k].len() == 0 {
                    assert(rest.skip(0) =~= rest);
                    lemma_trim_start_len(rest.drop_first());
                }
                assert(n.len() < rest.len());
                lemma_strip_pass_shrinks(n, mods, k + 1);
                assert(strip_pass(rest, mods, k) == (strip_pass(n, mods, k + 1).0, true));
            },
            None => {
                lemma_strip_pass_shrinks(rest, mods, k + 1);
                assert(strip_pass(rest, mods, k) == strip_pass(rest, mods, k + 1));
            },
        }
    }
}

/// A list of string slices as character sequences.
pub open spec fn str_seq(v: Seq<&str>) -> Seq<Seq<char>> {
    v.map_values(|m: &str| m@)
}

fn strip_one_exec(rest: &[char], m: &str) -> (r: Option<Vec<char>>)
    ensures
        match r {
            Some(v) => strip_one(rest@, m@) == Some(v@),
            None => strip_one(rest@, m@) is None,
        },
{
    let mv = chars_of(m);
    if starts_with_exec(rest, &mv) && rest.len() > mv.len() && ws(rest[mv.len()]) {
        let after = slice_of(rest, mv.len(), rest.len());
        Some(trim_start_vec(&after))
    } else {
        None
    }
}

/// Executable `strip_modifiers`.
pub fn strip_modifiers_exec(line: &[char], mods: &[&str]) -> (out: Vec<char>)
    ensures
        out@ == strip_modifiers(line@, str_seq(mods@)),
{
    let ghost ms = str_seq(mods@);
    let mut rest = trim_vec(line);
    loop
        invariant
            ms == str_seq(mods@),
            strip_modifiers(line@, ms) == strip_loop(rest@, ms),
        decreases rest@.len(),
    {
        let ghost start = rest@;
        let mut changed = false;
        let mut k: usize = 0;
        while k < mods.len()
            invariant
                k <= mods@.len(),
                ms == str_seq(mods@),
                strip_pass(start, ms, 0) == ({
                    let (r2, c2) = strip_pass(rest@, ms, k as int);
                    (r2, changed || c2)
                }),
            decreases mods.len() - k,
        {
            match strip_one_exec(&rest, mods[k]) {
                Some(next) => {
                    rest = next;
                    changed = true;
                },
                None => {},
            }
            k += 1;
        }
        proof {
            lemma_strip_pass_shrinks(start, ms, 0);
        }
        if !changed {
            return rest;
        }
    }
}


// ---------------------------------------------------------------------
// Lexicographic order
// ---------------------------------------------------------------------
/// Strict lexicographic order by code point. For UTF-8 text this is the
/// order of `str` comparison, which compares the encoded bytes.
pub open spec fn lex_lt(a: Seq<char>, b: Seq<char>) -> bool
    decreases a.len(),
{
    if b.len() == 0 {
        false
    } else if a.len() == 0 {
        true
    } else if a[0] != b[0] {
        (a[0] as int) < (b[0] as int)
    } else {
        lex_lt(a.drop_first(), b.drop_first())
    }
}

/// Executable `lex_lt`.
pub fn lex_lt_exec(a: &[char], b: &[char]) -> (r: bool)
    ensures
        r == lex_lt(a@, b@),
{
    let mut i: usize = 0;
    assert(a@.skip(0) =~= a@);
    assert(b@.skip(0) =~= b@);
    loop
        invariant
            i <= a@.len(),
            i <= b@.len(),
            lex_lt(a@, b@) == lex_lt(a@.skip(i as int), b@.skip(i as int)),
        decreases a@.len() - i,
    {
        if i == b.len() {
            return false;
        }
        if i == a.len() {
            return true;
        }
        if a[i] != b[i] {
            return a[i] < b[i];
        }
        assert(a@.skip(i as int).drop_first() =~= a@.skip(i + 1));
        assert(b@.skip(i as int).drop_first() =~= b@.skip(i + 1));
        i += 1;
    }
}

/// Executable `lex_lt` over strings.
pub fn string_lt(a: &String, b: &String) -> (r: bool)
    ensures
        r == lex_lt(a@, b@),
{
    let av = chars_of(a.as_str());
    let bv = chars_of(b.as_str());
    lex_lt_exec(&av, &bv)
}

/// Whether two strings are equal.
pub fn string_eq(a: &String, b: &String) -> (r: bool)
    ensures
        r == (a@ == b@),
{
    let av = chars_of(a.as_str());
    let bv = chars_of(b.as_str());
    eq_chars(&av, &bv)
}

pub proof fn lemma_lex_irreflexive(a: Seq<char>)
    ensures
        !lex_lt(a, a),
    decreases a.len(),
{
    if a.len() > 0 {
        lemma_lex_irreflexive(a.drop_first());
    }
}

pub proof fn lemma_lex_asymmetric(a: Seq<char>, b: Seq<char>)
    ensures
        lex_lt(a, b) ==> !lex_lt(b, a),
    decreases a.len(),
{
    if a.len() > 0 && b.len() > 0 && a[0] == b[0] {
        lemma_lex_asymmetric(a.drop_first(), b.drop_first());
    }
}

pub proof fn lemma_lex_transitive(a: Seq<char>, b: Seq<char>, c: Seq<char>)
    ensures
        lex_lt(a, b) && lex_lt(b, c) ==> lex_lt(a, c),
    decreases a.len(),
{
    if a.len() > 0 && b.len() > 0 && c.len() > 0 {
        lemma_lex_transitive(a.drop_first(), b.drop_first(), c.drop_first());
    }
}

pub proof fn lemma_lex_total(a: Seq<char>, b: Seq<char>)
    ensures
        a != b ==> lex_lt(a, b) || lex_lt(b, a),
    decreases a.len(),
{
    if a.len() > 0 && b.len() > 0 {
        lemma_lex_total(a.drop_first(), b.drop_first());
        if a[0] == b[0] && a.drop_first() == b.drop_first() {
            assert(a =~= seq![a[0]] + a.drop_first());
            assert(b =~= seq![b[0]] + b.drop_first());
        }
    } else if a.len() == 0 && b.len() == 0 {
        assert(a =~= b);
    }
}

/// `str::replace` of a non-empty string pattern, left to right.
pub open spec fn replace_str(s: Seq<char>, p: Seq<char>, r: Seq<char>) -> Seq<char>
    decreases s.len(),
{
    if p.len() == 0 {
        s
    } else {
        match find(s, p) {
            Some(i) => if 0 <= i && i + p.len() <= s.len() {
                s.take(i) + r + replace_str(s.skip(i + p.len()), p, r)
            } else {
                s
            },
            None => s,
        }
    }
}

/// Executable `replace_str`.
pub fn replace_str_exec(s: &[char], p: &str, r: &str) -> (out: Vec<char>)
    ensures
        out@ == replace_str(s@, p@, r@),
{
    let pv = chars_of(p);
    let rv = chars_of(r);
    let mut cur = slice_of(s, 0, s.len());
    assert(cur@ =~= s@);
    if pv.len() == 0 {
        return cur;
    }
    let mut out: Vec<char> = Vec::new();
    loop
        invariant
            pv@ == p@,
            rv@ == r@,
            pv@.len() > 0,
            out@ + replace_str(cur@, p@, r@) == replace_str(s@, p@, r@),
        decreases cur@.len(),
    {
        match find_exec(&cur, &pv) {
            Some(i) => {
                let cl = cur.len();
                assert(matches_at(cur@, pv@, i as int));
                let head = slice_of(&cur, 0, i);
                let next = slice_of(&cur, i + pv.len(), cur.len());
                let ghost old_out = out@;
                extend_chars(&mut out, &head);
                extend_chars(&mut out, &rv);
                assert(out@ + replace_str(next@, p@, r@) =~= old_out + replace_str(cur@, p@, r@));
                cur = next;
            },
            None => {
                extend_chars(&mut out, &cur);
                return out;
            },
        }
    }
}

/// The first whitespace-separated word (`split_whitespace().next()`), or
/// empty.
pub open spec fn first_word(s: Seq<char>) -> Seq<char> {
    let t = trim_start(s);
    t.take(non_ws_run(t) as int)
}

/// Length of the leading run of non-whitespace characters.
pub open spec fn non_ws_run(s: Seq<char>) -> nat
    decreases s.len(),
{
    if s.len() > 0 && !is_ws(s[0]) {
        1 + non_ws_run(s.drop_first())
    } else {
        0
    }
}

/// Executable `first_word`.
pub fn first_word_exec(s: &[char]) -> (out: Vec<char>)
    ensures
        out@ == first_word(s@),
{
    let t = trim_start_vec(s);
    let mut k: usize = 0;
    assert(t@.skip(0) =~= t@);
    while k < t.len() && !ws(t[k])
        invariant
            k <= t@.len(),
            non_ws_run(t@) == k + non_ws_run(t@.skip(k as int)),
        decreases t.len() - k,
    {
        assert(t@.skip(k as int).drop_first() =~= t@.skip(k + 1));
        k += 1;
    }
    slice_of(&t, 0, k)
}

/// Length of the leading run of `c`.
pub open spec fn char_run(s: Seq<char>, c: char) -> nat
    decreases s.len(),
{
    if s.len() > 0 && s[0] == c {
        1 + char_run(s.drop_first(), c)
    } else {
        0
    }
}

pub proof fn lemma_char_run_strip(s: Seq<char>, c: char)
    ensures
        char_run(s, c) <= s.len(),
        trim_start_matches(s, seq![c]) == s.skip(char_run(s, c) as int),
    decreases s.len(),
{
    if s.len() > 0 && s[0] == c {
        lemma_char_run_strip(s.drop_first(), c);
        assert(s.subrange(0, 1) =~= seq![c]);
        assert(starts_with(s, seq![c]));
        assert(s.skip(1) =~= s.drop_first());
        assert(s.drop_first().skip(char_run(s.drop_first(), c) as int) =~= s.skip(
            char_run(s, c) as int,
        ));
    } else {
        assert(!starts_with(s, seq![c])) by {
            if s.len() > 0 {
                assert(s.subrange(0, 1)[0] == s[0]);
            }
        }
        assert(s.skip(0) =~= s);
    }
}

/// Executable `char_run`.
pub fn char_run_exec(s: &[char], c: char) -> (k: usize)
    ensures
        k == char_run(s@, c),
        k <= s@.len(),
{
    let mut k: usize = 0;
    assert(s@.skip(0) =~= s@);
    while k < s.len() && s[k] == c
        invariant
            k <= s@.len(),
            char_run(s@, c) == k + char_run(s@.skip(k as int), c),
        decreases s.len() - k,
    {
        assert(s@.skip(k as int).drop_first() =~= s@.skip(k + 1));
        k += 1;
    }
    k
}


// ---------------------------------------------------------------------
// Decimal numerals
// ---------------------------------------------------------------------
/// The decimal digit of `d < 10`.
pub open spec fn digit_char(d: nat) -> char {
    seq!['0', '1', '2', '3', '4', '5', '6', '7', '8', '9'][d as int]
}

/// The decimal numeral of `n`, as `Display` writes it.
pub open spec fn decimal(n: nat) -> Seq<char>
    decreases n,
{
    if n < 10 {
        seq![digit_char(n)]
    } else {
        decimal(n / 10).push(digit_char(n % 10))
    }
}

/// Executable `decimal`.
pub fn decimal_chars(n: u64) -> (out: Vec<char>)
    ensures
        out@ == decimal(n as nat),
    decreases n,
{
    let digits = ['0', '1', '2', '3', '4', '5', '6', '7', '8', '9'];
    assert(digits@ =~= seq!['0', '1', '2', '3', '4', '5', '6', '7', '8', '9']);
    if n < 10 {
        let mut out: Vec<char> = Vec::new();
        out.push(digits[n as usize]);
        assert(out@ =~= seq![digit_char(n as nat)]);
        out
    } else {
        let mut out = decimal_chars(n / 10);
        out.push(digits[(n % 10) as usize]);
        out
    }
}

/// The decimal numeral of `n` as a string.
pub fn decimal_string(n: u64) -> (out: String)
    ensures
        out@ == decimal(n as nat),
{
    let v = decimal_chars(n);
    string_of(&v)
}


// ---------------------------------------------------------------------
// UTF-8 lengths
// ---------------------------------------------------------------------
/// The number of bytes of the UTF-8 encoding of `s`: what `str::len` gives.
pub open spec fn utf8_len(s: Seq<char>) -> nat {
    vstd::utf8::encode_utf8(s).len()
}

/// Whether a prefix of `s` encodes to exactly `n` bytes: `n` is a character
/// boundary of the encoding.
pub open spec fn is_boundary(s: Seq<char>, n: nat) -> bool {
    exists|k: int| 0 <= k <= s.len() && #[trigger] utf8_len(s.take(k)) == n
}

/// `String::truncate(n)` when `n` is a boundary: the prefix that encodes to
/// `n` bytes; the whole string when it is no longer than `n` bytes.
pub open spec fn truncate_bytes(s: Seq<char>, n: nat) -> Seq<char> {
    if utf8_len(s) <= n {
        s
    } else {
        s.take(choose|k: int| 0 <= k <= s.len() && #[trigger] utf8_len(s.take(k)) == n)
    }
}

pub proof fn lemma_encode_push(a: Seq<char>, c: char)
    ensures
        vstd::utf8::encode_utf8(a.push(c)) == vstd::utf8::encode_utf8(a) + vstd::utf8::encode_scalar(
            c as u32,
        ),
    decreases a.len(),
{
    if a.len() == 0 {
        assert(a.push(c).drop_first() =~= Seq::<char>::empty());
        assert(a.push(c)[0] == c);
        assert(vstd::utf8::encode_utf8(Seq::<char>::empty()) =~= Seq::<u8>::empty());
        assert(vstd::utf8::encode_utf8(a) =~= Seq::<u8>::empty());
        assert(vstd::utf8::encode_utf8(a.push(c)) =~= vstd::utf8::encode_utf8(a)
            + vstd::utf8::encode_scalar(c as u32));
    } else {
        lemma_encode_push(a.drop_first(), c);
        assert(a.push(c).drop_first() =~= a.drop_first().push(c));
        assert(a.push(c)[0] == a[0]);
        let x = vstd::utf8::encode_scalar(a[0] as u32);
        let r = vstd::utf8::encode_utf8(a.drop_first());
        let e = vstd::utf8::encode_scalar(c as u32);
        assert(vstd::utf8::encode_utf8(a.push(c)) == x + (r + e));
        assert(vstd::utf8::encode_utf8(a) == x + r);
        assert(x + (r + e) =~= (x + r) + e);
    }
}

proof fn lemma_utf8_len_monotone(s: Seq<char>, i: int, j: int)
    requires
        0 <= i < j <= s.len(),
    ensures
        utf8_len(s.take(i)) < utf8_len(s.take(j)),
    decreases j - i,
{
    lemma_encode_push(s.take(j - 1), s[j - 1]);
    assert(s.take(j) =~= s.take(j - 1).push(s[j - 1]));
    if i < j - 1 {
        lemma_utf8_len_monotone(s, i, j - 1);
    }
}

/// The number of UTF-8 bytes of one character.
pub fn char_utf8_width(c: char) -> (w: usize)
    ensures
        w == vstd::utf8::encode_scalar(c as u32).len(),
{
    let v = c as u32;
    if v <= 0x7F {
        1
    } else if v <= 0x7FF {
        2
    } else if v <= 0xFFFF && !(0xD800 <= v && v <= 0xDFFF) {
        3
    } else {
        4
    }
}

/// Executable `truncate_bytes`; the cut, when there is one, must fall on a
/// character boundary, as `String::truncate` demands.
pub fn truncate_bytes_exec(s: &[char], n: usize) -> (out: Vec<char>)
    requires
        utf8_len(s@) <= n || is_boundary(s@, n as nat),
    ensures
        out@ == truncate_bytes(s@, n as nat),
{
    let len = s.len();
    let mut k: usize = 0;
    let mut bytes: usize = 0;
    assert(s@.take(0) =~= Seq::<char>::empty());
    while k < len && bytes != n
        invariant
            len == s@.len(),
            k <= len,
            bytes == utf8_len(s@.take(k as int)),
            bytes <= n,
            forall|j: int| 0 <= j < k ==> utf8_len(#[trigger] s@.take(j)) < n,
            utf8_len(s@) <= n || is_boundary(s@, n as nat),
        decreases len - k,
    {
        let w = char_utf8_width(s[k]);
        proof {
            lemma_encode_push(s@.take(k as int), s@[k as int]);
            assert(s@.take(k + 1) =~= s@.take(k as int).push(s@[k as int]));
        }
        if w > n - bytes {
            proof {
                assert(utf8_len(s@.take(k + 1)) > n);
                if is_boundary(s@, n as nat) {
                    let j = choose|j: int| 0 <= j <= s@.len() && #[trigger] utf8_len(s@.take(j)) == n;
                    if j < k {
                        assert(utf8_len(s@.take(j)) < n);
                    } else if j > k + 1 {
                        lemma_utf8_len_monotone(s@, k + 1, j);
                    }
                }
                if utf8_len(s@) <= n {
                    if k + 1 < len {
                        lemma_utf8_len_monotone(s@, k + 1, len as int);
                    }
                    assert(s@.take(len as int) =~= s@);
                }
                assert(false);
            }
            return slice_of(s, 0, k);
        }
        bytes = bytes + w;
        k += 1;
    }
    proof {
        if k < len {
            lemma_utf8_len_monotone(s@, k as int, len as int);
            assert(s@.take(len as int) =~= s@);
            let c = choose|j: int| 0 <= j <= s@.len() && #[trigger] utf8_len(s@.take(j)) == n;
            if c < k {
                lemma_utf8_len_monotone(s@, c, k as int);
            } else if c > k {
                lemma_utf8_len_monotone(s@, k as int, c);
            }
        } else {
            assert(s@.take(k as int) =~= s@);
        }
    }
    slice_of(s, 0, k)
}


/// Whether the UTF-8 encoding of `s` is shorter than `n` bytes.
pub fn utf8_len_below(s: &[char], n: usize) -> (b: bool)
    ensures
        b == (utf8_len(s@) < n),
{
    if n == 0 {
        return false;
    }
    let len = s.len();
    let mut k: usize = 0;
    let mut bytes: usize = 0;
    assert(s@.take(0) =~= Seq::<char>::empty());
    while k < len
        invariant
            len == s@.len(),
            k <= len,
            bytes == utf8_len(s@.take(k as int)),
            bytes < n,
        decreases len - k,
    {
        let w = char_utf8_width(s[k]);
        proof {
            lemma_encode_push(s@.take(k as int), s@[k as int]);
            assert(s@.take(k + 1) =~= s@.take(k as int).push(s@[k as int]));
        }
        if w >= n - bytes {
            proof {
                if k + 1 < len {
                    lemma_utf8_len_monotone(s@, k + 1, len as int);
                }
                assert(s@.take(len as int) =~= s@);
            }
            return false;
        }
        bytes = bytes + w;
        k += 1;
    }
    assert(s@.take(len as int) =~= s@);
    true
}

} // verus!
