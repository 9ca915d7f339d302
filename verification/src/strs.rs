//! Sequences of strings: membership, first occurrences and sorting.
use vstd::prelude::*;

use crate::model::str_views;
use crate::text::{chars_of, extend_chars, extend_str, string_of};
use crate::text::{
    lemma_lex_asymmetric, lemma_lex_irreflexive, lemma_lex_total, lemma_lex_transitive, lex_lt,
    string_eq, string_lt,
};

verus! {

/// Keeps the first occurrence of each element.
pub open spec fn uniq(s: Seq<Seq<char>>) -> Seq<Seq<char>>
    decreases s.len(),
{
    if s.len() == 0 {
        s
    } else {
        let u = uniq(s.drop_last());
        if u.contains(s.last()) {
            u
        } else {
            u.push(s.last())
        }
    }
}

/// Inserts `x` after every element that is not greater.
pub open spec fn insert_str(s: Seq<Seq<char>>, x: Seq<char>) -> Seq<Seq<char>>
    decreases s.len(),
{
    if s.len() == 0 || !lex_lt(x, s.last()) {
        s.push(x)
    } else {
        insert_str(s.drop_last(), x).push(s.last())
    }
}

/// Sorts strings into string order (`slice::sort`).
pub open spec fn sort_strs(s: Seq<Seq<char>>) -> Seq<Seq<char>>
    decreases s.len(),
{
    if s.len() == 0 {
        s
    } else {
        insert_str(sort_strs(s.drop_last()), s.last())
    }
}

/// Whether `v` holds a string with the view `x`.
pub fn contains_string(v: &Vec<String>, x: &String) -> (b: bool)
    ensures
        b == str_views(v@).contains(x@),
{
    let ghost sv = str_views(v@);
    let mut i: usize = 0;
    while i < v.len()
        invariant
            i <= v@.len(),
            sv == str_views(v@),
            forall|j: int| 0 <= j < i ==> sv[j] != x@,
        decreases v.len() - i,
    {
        if string_eq(&v[i], x) {
            assert(sv[i as int] == x@);
            return true;
        }
        i += 1;
    }
    false
}

fn insert_string(out: &mut Vec<String>, x: String)
    ensures
        str_views(final(out)@) == insert_str(str_views(old(out)@), x@),
{
    let ghost xv = x@;
    let ghost orig = str_views(out@);
    let mut j: usize = out.len();
    assert(orig.take(j as int) =~= orig);
    assert(orig.skip(j as int) =~= Seq::<Seq<char>>::empty());
    while j > 0 && string_lt(&x, &out[j - 1])
        invariant
            j <= out@.len(),
            orig == str_views(out@),
            xv == x@,
            insert_str(orig, xv) == insert_str(orig.take(j as int), xv) + orig.skip(j as int),
        decreases j,
    {
        let ghost t = orig.take(j as int);
        assert(t.last() == out@[j - 1]@);
        assert(t.drop_last() =~= orig.take(j - 1));
        assert(orig.skip(j - 1) =~= seq![t.last()] + orig.skip(j as int));
        assert(insert_str(orig.take(j - 1), xv).push(t.last()) + orig.skip(j as int)
            =~= insert_str(orig.take(j - 1), xv) + orig.skip(j - 1));
        j -= 1;
    }
    out.insert(j, x);
    assert(str_views(out@) =~= orig.take(j as int).push(xv) + orig.skip(j as int));
}

/// Executable `sort_strs`.
pub fn sort_strings(v: Vec<String>) -> (out: Vec<String>)
    ensures
        str_views(out@) == sort_strs(str_views(v@)),
{
    let ghost sv = str_views(v@);
    let mut out: Vec<String> = Vec::new();
    let mut rest = v;
    let n = rest.len();
    let mut i: usize = 0;
    while i < n
        invariant
            n == sv.len(),
            i <= n,
            rest@.len() == n - i,
            str_views(rest@) == sv.skip(i as int),
            str_views(out@) == sort_strs(sv.take(i as int)),
        decreases n - i,
    {
        proof {
            assert(str_views(rest@)[0] == rest@[0]@);
            assert(sv.skip(i as int)[0] == sv[i as int]);
            assert(sv.take(i + 1).drop_last() =~= sv.take(i as int));
        }
        let ghost old_rest = rest@;
        let x = rest.remove(0);
        proof {
            assert(rest@ =~= old_rest.drop_first());
            assert(str_views(rest@) =~= str_views(old_rest).drop_first());
            assert(sv.skip(i as int).drop_first() =~= sv.skip(i + 1));
        }
        insert_string(&mut out, x);
        i += 1;
    }
    assert(sv.take(n as int) =~= sv);
    out
}

/// Executable `uniq`.
pub fn uniq_strings(v: &Vec<String>) -> (out: Vec<String>)
    ensures
        str_views(out@) == uniq(str_views(v@)),
{
    let ghost sv = str_views(v@);
    let mut out: Vec<String> = Vec::new();
    let mut i: usize = 0;
    while i < v.len()
        invariant
            i <= v@.len(),
            sv == str_views(v@),
            str_views(out@) == uniq(sv.take(i as int)),
        decreases v.len() - i,
    {
        assert(sv.take(i + 1).drop_last() =~= sv.take(i as int));
        assert(sv.take(i + 1).last() == v@[i as int]@);
        if !contains_string(&out, &v[i]) {
            let c = v[i].clone();
            let ghost old_out = str_views(out@);
            out.push(c);
            assert(str_views(out@) =~= old_out.push(v@[i as int]@));
        }
        i += 1;
    }
    assert(sv.take(sv.len() as int) =~= sv);
    out
}


/// No element occurs twice.
pub open spec fn no_dups(s: Seq<Seq<char>>) -> bool {
    forall|i: int, j: int| 0 <= i < j < s.len() ==> s[i] != s[j]
}

/// Each element is at most the ones after it.
pub open spec fn sorted_strs(s: Seq<Seq<char>>) -> bool {
    forall|i: int, j: int| 0 <= i < j < s.len() ==> !lex_lt(#[trigger] s[j], #[trigger] s[i])
}

/// A non-empty sequence is its front with its last element pushed.
proof fn lemma_split_last(s: Seq<Seq<char>>)
    requires
        s.len() > 0,
    ensures
        s == s.drop_last().push(s.last()),
        forall|y: Seq<char>| s.contains(y) <==> (s.drop_last().contains(y) || y == s.last()),
{
    broadcast use vstd::seq_lib::lemma_seq_contains_after_push;

    assert(s =~= s.drop_last().push(s.last()));
}

/// `uniq` keeps exactly the elements, each once.
pub proof fn lemma_uniq(s: Seq<Seq<char>>)
    ensures
        no_dups(uniq(s)),
        forall|x: Seq<char>| uniq(s).contains(x) <==> s.contains(x),
    decreases s.len(),
{
    broadcast use vstd::seq_lib::lemma_seq_contains_after_push;

    if s.len() > 0 {
        lemma_uniq(s.drop_last());
        lemma_split_last(s);
        let u = uniq(s.drop_last());
        if !u.contains(s.last()) {
            assert forall|i: int, j: int| 0 <= i < j < u.push(s.last()).len() implies u.push(
                s.last(),
            )[i] != u.push(s.last())[j] by {
                if j == u.len() {
                    assert(u.contains(u[i]));
                }
            }
        }
    }
}

proof fn lemma_le_trans(a: Seq<char>, b: Seq<char>, c: Seq<char>)
    requires
        !lex_lt(b, a),
        !lex_lt(c, b),
    ensures
        !lex_lt(c, a),
{
    lemma_lex_total(a, b);
    lemma_lex_total(b, c);
    lemma_lex_transitive(c, a, b);
    lemma_lex_transitive(c, b, a);
    lemma_lex_asymmetric(a, b);
    lemma_lex_irreflexive(a);
}

/// `insert_str` adds one element, keeps order and keeps elements distinct.
pub proof fn lemma_insert_str(s: Seq<Seq<char>>, x: Seq<char>)
    ensures
        insert_str(s, x).len() == s.len() + 1,
        forall|y: Seq<char>| insert_str(s, x).contains(y) <==> (s.contains(y) || y == x),
        sorted_strs(s) ==> sorted_strs(insert_str(s, x)),
        no_dups(s) && !s.contains(x) ==> no_dups(insert_str(s, x)),
    decreases s.len(),
{
    broadcast use vstd::seq_lib::lemma_seq_contains_after_push;

    let r = insert_str(s, x);
    if s.len() == 0 || !lex_lt(x, s.last()) {
        if sorted_strs(s) {
            assert forall|i: int, j: int| 0 <= i < j < r.len() implies !lex_lt(
                #[trigger] r[j],
                #[trigger] r[i],
            ) by {
                if j == s.len() {
                    if i < s.len() - 1 {
                        assert(!lex_lt(s[s.len() - 1], s[i]));
                        lemma_le_trans(s[i], s.last(), x);
                    }
                } else {
                    assert(r[i] == s[i] && r[j] == s[j]);
                }
            }
        }
        if no_dups(s) && !s.contains(x) {
            assert forall|i: int, j: int| 0 <= i < j < r.len() implies r[i] != r[j] by {
                if j == s.len() {
                    assert(s.contains(s[i]));
                }
            }
        }
    } else {
        let d = s.drop_last();
        lemma_split_last(s);
        lemma_insert_str(d, x);
        let q = insert_str(d, x);
        assert(r == q.push(s.last()));
        if sorted_strs(s) {
            assert(sorted_strs(d)) by {
                assert forall|i: int, j: int| 0 <= i < j < d.len() implies !lex_lt(
                    #[trigger] d[j],
                    #[trigger] d[i],
                ) by {
                    assert(d[i] == s[i] && d[j] == s[j]);
                }
            }
            assert forall|i: int, j: int| 0 <= i < j < r.len() implies !lex_lt(
                #[trigger] r[j],
                #[trigger] r[i],
            ) by {
                if j == q.len() {
                    let y = q[i];
                    assert(q.contains(y));
                    if y == x {
                        lemma_lex_asymmetric(x, s.last());
                    } else {
                        assert(d.contains(y));
                        let k = choose|k: int| 0 <= k < d.len() && d[k] == y;
                        assert(s[k] == y);
                        assert(!lex_lt(s[s.len() - 1], s[k]));
                    }
                } else {
                    assert(r[i] == q[i] && r[j] == q[j]);
                }
            }
        }
        if no_dups(s) && !s.contains(x) {
            assert(no_dups(d)) by {
                assert forall|i: int, j: int| 0 <= i < j < d.len() implies d[i] != d[j] by {
                    assert(d[i] == s[i] && d[j] == s[j]);
                }
            }
            assert forall|i: int, j: int| 0 <= i < j < r.len() implies r[i] != r[j] by {
                if j == q.len() {
                    let y = q[i];
                    assert(q.contains(y));
                    if y == s.last() && y != x {
                        assert(d.contains(y));
                        let k = choose|k: int| 0 <= k < d.len() && d[k] == y;
                        assert(s[k] == s[s.len() - 1]);
                    }
                } else {
                    assert(r[i] == q[i] && r[j] == q[j]);
                }
            }
        }
    }
}

/// `sort_strs` keeps the elements and their number, puts them in order,
/// and keeps distinct elements distinct.
pub proof fn lemma_sort_strs(s: Seq<Seq<char>>)
    ensures
        sort_strs(s).len() == s.len(),
        forall|y: Seq<char>| sort_strs(s).contains(y) <==> s.contains(y),
        sorted_strs(sort_strs(s)),
        no_dups(s) ==> no_dups(sort_strs(s)),
    decreases s.len(),
{
    if s.len() > 0 {
        let d = s.drop_last();
        lemma_split_last(s);
        lemma_sort_strs(d);
        lemma_insert_str(sort_strs(d), s.last());
        if no_dups(s) {
            assert(no_dups(d)) by {
                assert forall|i: int, j: int| 0 <= i < j < d.len() implies d[i] != d[j] by {
                    assert(d[i] == s[i] && d[j] == s[j]);
                }
            }
            assert(!d.contains(s.last())) by {
                if d.contains(s.last()) {
                    let k = choose|k: int| 0 <= k < d.len() && d[k] == s.last();
                    assert(s[k] == s[s.len() - 1]);
                }
            }
        }
    }
}

/// Sorting the distinct elements gives each element once, in order.
pub proof fn lemma_sorted_distinct(s: Seq<Seq<char>>)
    ensures
        sorted_strs(sort_strs(uniq(s))),
        no_dups(sort_strs(uniq(s))),
        forall|y: Seq<char>| sort_strs(uniq(s)).contains(y) <==> s.contains(y),
{
    lemma_uniq(s);
    lemma_sort_strs(uniq(s));
}


/// Parts joined with a separator (`[String]::join`).
pub open spec fn join_with(parts: Seq<Seq<char>>, sep: Seq<char>) -> Seq<char>
    decreases parts.len(),
{
    if parts.len() == 0 {
        seq![]
    } else if parts.len() == 1 {
        parts[0]
    } else {
        join_with(parts.drop_last(), sep) + sep + parts.last()
    }
}

/// Each part occurs in the joined text.
pub proof fn lemma_join_with_contains(parts: Seq<Seq<char>>, sep: Seq<char>, j: int)
    requires
        0 <= j < parts.len(),
    ensures
        crate::text::contains(join_with(parts, sep), parts[j]),
    decreases parts.len(),
{
    let r = join_with(parts, sep);
    if parts.len() == 1 {
        assert(r.subrange(0, parts[0].len() as int) =~= parts[0]);
        assert(crate::text::matches_at(r, parts[0], 0));
    } else {
        let d = parts.drop_last();
        let a = join_with(d, sep);
        assert(r == a + sep + parts.last());
        if j == parts.len() - 1 {
            let i = (a.len() + sep.len()) as int;
            assert(r.subrange(i, i + parts[j].len()) =~= parts[j]);
            assert(crate::text::matches_at(r, parts[j], i));
        } else {
            lemma_join_with_contains(d, sep, j);
            assert(d[j] == parts[j]);
            let i = choose|i: int| crate::text::matches_at(a, d[j], i);
            assert(r.subrange(i, i + d[j].len()) =~= a.subrange(i, i + d[j].len()));
            assert(crate::text::matches_at(r, parts[j], i));
        }
    }
}

/// Executable `join_with`.
pub fn join_with_exec(parts: &Vec<String>, sep: &str) -> (r: String)
    ensures
        r@ == join_with(str_views(parts@), sep@),
{
    let ghost pv = str_views(parts@);
    let mut out: Vec<char> = Vec::new();
    let mut i: usize = 0;
    while i < parts.len()
        invariant
            i <= parts@.len(),
            pv == str_views(parts@),
            out@ == join_with(pv.take(i as int), sep@),
        decreases parts.len() - i,
    {
        assert(pv.take(i + 1).drop_last() =~= pv.take(i as int));
        assert(pv.take(i + 1).last() == parts@[i as int]@);
        if i > 0 {
            extend_str(&mut out, sep);
        }
        let part = chars_of(parts[i].as_str());
        extend_chars(&mut out, &part);
        proof {
            if i == 0 {
                assert(pv.take(1) =~= seq![pv[0]]);
                assert(out@ =~= pv[0]);
            }
        }
        i += 1;
    }
    assert(pv.take(pv.len() as int) =~= pv);
    string_of(&out)
}

} // verus!
