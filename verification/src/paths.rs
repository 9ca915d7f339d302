//! Unix path semantics over character sequences: components, parents,
//! prefixes and joins, as `std::path` defines them.
use vstd::prelude::*;

use crate::text::{chars_of, eq_str, extend_chars, slice_of};

verus! {

/// Component kinds.
pub const ROOT: u8 = 0;

pub const CUR_DIR: u8 = 1;

pub const PARENT_DIR: u8 = 2;

pub const NORMAL: u8 = 3;

/// A path component: its kind and, for normal components, its text.
pub type CompView = (u8, Seq<char>);

/// The finished parts and the pending part after reading `s` from the left.
pub open spec fn split_scan(s: Seq<char>, sep: char) -> (Seq<Seq<char>>, Seq<char>)
    decreases s.len(),
{
    if s.len() == 0 {
        (seq![], seq![])
    } else {
        let (done, cur) = split_scan(s.drop_last(), sep);
        if s.last() == sep {
            (done.push(cur), seq![])
        } else {
            (done, cur.push(s.last()))
        }
    }
}

/// `str::split` on a single character: every part, empty ones included.
pub open spec fn split_char(s: Seq<char>, sep: char) -> Seq<Seq<char>> {
    let (done, cur) = split_scan(s, sep);
    done.push(cur)
}

/// The component (if any) that the `k`-th `/`-separated part yields.
pub open spec fn part_comp(part: Seq<char>, k: int, rooted: bool) -> Seq<CompView> {
    if part.len() == 0 {
        seq![]
    } else if part == seq!['.'] {
        if k == 0 && !rooted {
            seq![(CUR_DIR, seq![])]
        } else {
            seq![]
        }
    } else if part == seq!['.', '.'] {
        seq![(PARENT_DIR, seq![])]
    } else {
        seq![(NORMAL, part)]
    }
}

pub open spec fn parts_comps(parts: Seq<Seq<char>>, rooted: bool) -> Seq<CompView>
    decreases parts.len(),
{
    if parts.len() == 0 {
        seq![]
    } else {
        parts_comps(parts.drop_last(), rooted) + part_comp(parts.last(), parts.len() - 1, rooted)
    }
}

/// `Path::has_root` on Unix.
pub open spec fn has_root(s: Seq<char>) -> bool {
    s.len() > 0 && s[0] == '/'
}

/// `Path::components` on Unix: a leading root, a leading `.` of a relative
/// path, `..`, and the non-empty normal parts; empty parts and inner `.`
/// parts vanish.
pub open spec fn components(s: Seq<char>) -> Seq<CompView> {
    if has_root(s) {
        seq![(ROOT, seq![])] + parts_comps(split_char(s.drop_first(), '/'), true)
    } else {
        parts_comps(split_char(s, '/'), false)
    }
}

/// The texts of the normal components.
pub open spec fn normals(c: Seq<CompView>) -> Seq<Seq<char>>
    decreases c.len(),
{
    if c.len() == 0 {
        seq![]
    } else {
        normals(c.drop_last()) + if c.last().0 == NORMAL {
            seq![c.last().1]
        } else {
            seq![]
        }
    }
}

/// Parts joined with `/`.
pub open spec fn join_slash(parts: Seq<Seq<char>>) -> Seq<char>
    decreases parts.len(),
{
    if parts.len() == 0 {
        seq![]
    } else if parts.len() == 1 {
        parts[0]
    } else {
        join_slash(parts.drop_last()) + seq!['/'] + parts.last()
    }
}

/// `Path::strip_prefix` at the level of components.
pub open spec fn strip_comps(path: Seq<CompView>, base: Seq<CompView>) -> Option<Seq<CompView>> {
    if base.len() <= path.len() && path.take(base.len() as int) == base {
        Some(path.skip(base.len() as int))
    } else {
        None
    }
}

/// `Path::parent` at the level of components.
pub open spec fn parent_comps(c: Seq<CompView>) -> Option<Seq<CompView>> {
    if c.len() == 0 || c.last().0 == ROOT {
        None
    } else {
        Some(c.drop_last())
    }
}

/// `PathBuf::join` on Unix: an absolute segment replaces the base;
/// otherwise a `/` is added unless the base is empty or already ends with one.
pub open spec fn join(base: Seq<char>, seg: Seq<char>) -> Seq<char> {
    if has_root(seg) {
        seg
    } else if base.len() == 0 || base.last() == '/' {
        base + seg
    } else {
        base + seq!['/'] + seg
    }
}

/// The normal components of a path relative to a root, joined with `/`: the
/// root's components are removed when they prefix the path's.
pub open spec fn relative_label(root: Seq<char>, path: Seq<char>) -> Seq<char> {
    let pc = components(path);
    match strip_comps(pc, components(root)) {
        Some(rest) => join_slash(normals(rest)),
        None => join_slash(normals(pc)),
    }
}

// ---------------------------------------------------------------------
// Executable forms
// ---------------------------------------------------------------------
/// Executable path component.
pub struct Comp {
    pub kind: u8,
    pub text: Vec<char>,
}

pub open spec fn comp_views(v: Seq<Comp>) -> Seq<CompView> {
    v.map_values(|c: Comp| (c.kind, c.text@))
}

/// Executable `split_char`.
pub fn split_char_exec(s: &[char], sep: char) -> (out: Vec<Vec<char>>)
    ensures
        crate::model::vec_views(out@) == split_char(s@, sep),
{
    let mut done: Vec<Vec<char>> = Vec::new();
    let mut cur: Vec<char> = Vec::new();
    let mut i: usize = 0;
    while i < s.len()
        invariant
            i <= s.len(),
            (crate::model::vec_views(done@), cur@) == split_scan(s@.take(i as int), sep),
        decreases s.len() - i,
    {
        assert(s@.take(i + 1).drop_last() =~= s@.take(i as int));
        if s[i] == sep {
            done.push(cur);
            cur = Vec::new();
        } else {
            cur.push(s[i]);
        }
        i += 1;
        assert(crate::model::vec_views(done@) =~= split_scan(s@.take(i as int), sep).0);
        assert(cur@ =~= split_scan(s@.take(i as int), sep).1);
    }
    assert(s@.take(s@.len() as int) =~= s@);
    done.push(cur);
    assert(crate::model::vec_views(done@) =~= split_char(s@, sep));
    done
}

fn push_comp(out: &mut Vec<Comp>, kind: u8, text: Vec<char>)
    ensures
        comp_views(final(out)@) == comp_views(old(out)@).push((kind, text@)),
{
    out.push(Comp { kind, text });
    assert(comp_views(out@) =~= comp_views(old(out)@).push((kind, text@)));
}

/// Executable `components`.
pub fn components_exec(s: &[char]) -> (out: Vec<Comp>)
    ensures
        comp_views(out@) == components(s@),
{
    let rooted = s.len() > 0 && s[0] == '/';
    let mut out: Vec<Comp> = Vec::new();
    let rest = if rooted {
        push_comp(&mut out, ROOT, Vec::new());
        slice_of(s, 1, s.len())
    } else {
        slice_of(s, 0, s.len())
    };
    let ghost head = comp_views(out@);
    proof {
        if rooted {
            assert(rest@ =~= s@.drop_first());
            assert(head =~= seq![(ROOT, Seq::<char>::empty())]);
        } else {
            assert(rest@ =~= s@);
            assert(head =~= Seq::<CompView>::empty());
        }
    }
    let parts = split_char_exec(&rest, '/');
    let ghost pv = crate::model::vec_views(parts@);
    let mut k: usize = 0;
    while k < parts.len()
        invariant
            k <= parts@.len(),
            pv == crate::model::vec_views(parts@),
            comp_views(out@) == head + parts_comps(pv.take(k as int), rooted),
        decreases parts.len() - k,
    {
        assert(pv.take(k + 1).drop_last() =~= pv.take(k as int));
        assert(pv.take(k + 1).last() == parts@[k as int]@);
        let part = &parts[k];
        let ghost before = comp_views(out@);
        let dot = vec!['.'];
        let dotdot = vec!['.', '.'];
        assert(dot@ =~= seq!['.']);
        assert(dotdot@ =~= seq!['.', '.']);
        if part.len() == 0 {
        } else if crate::text::eq_chars(part, &dot) {
            if k == 0 && !rooted {
                push_comp(&mut out, CUR_DIR, Vec::new());
            }
        } else if crate::text::eq_chars(part, &dotdot) {
            push_comp(&mut out, PARENT_DIR, Vec::new());
        } else {
            push_comp(&mut out, NORMAL, slice_of(part, 0, part.len()));
            assert(part@.subrange(0, part@.len() as int) =~= part@);
        }
        k += 1;
        assert(comp_views(out@) =~= head + parts_comps(pv.take(k as int), rooted));
    }
    assert(pv.take(pv.len() as int) =~= pv);
    out
}

/// Executable `normals`.
pub fn normals_exec(c: &Vec<Comp>) -> (out: Vec<Vec<char>>)
    ensures
        crate::model::vec_views(out@) == normals(comp_views(c@)),
{
    let ghost cv = comp_views(c@);
    let mut out: Vec<Vec<char>> = Vec::new();
    let mut i: usize = 0;
    while i < c.len()
        invariant
            i <= c@.len(),
            cv == comp_views(c@),
            crate::model::vec_views(out@) == normals(cv.take(i as int)),
        decreases c.len() - i,
    {
        assert(cv.take(i + 1).drop_last() =~= cv.take(i as int));
        assert(cv.take(i + 1).last() == (c@[i as int].kind, c@[i as int].text@));
        if c[i].kind == NORMAL {
            out.push(slice_of(&c[i].text, 0, c[i].text.len()));
            assert(c@[i as int].text@.subrange(0, c@[i as int].text@.len() as int)
                =~= c@[i as int].text@);
        }
        i += 1;
        assert(crate::model::vec_views(out@) =~= normals(cv.take(i as int)));
    }
    assert(cv.take(cv.len() as int) =~= cv);
    out
}

/// Executable `join_slash`.
pub fn join_slash_exec(parts: &Vec<Vec<char>>) -> (out: Vec<char>)
    ensures
        out@ == join_slash(crate::model::vec_views(parts@)),
{
    let ghost pv = crate::model::vec_views(parts@);
    let mut out: Vec<char> = Vec::new();
    let mut i: usize = 0;
    while i < parts.len()
        invariant
            i <= parts@.len(),
            pv == crate::model::vec_views(parts@),
            out@ == join_slash(pv.take(i as int)),
        decreases parts.len() - i,
    {
        assert(pv.take(i + 1).drop_last() =~= pv.take(i as int));
        assert(pv.take(i + 1).last() == parts@[i as int]@);
        if i > 0 {
            out.push('/');
        }
        extend_chars(&mut out, &parts[i]);
        i += 1;
        assert(out@ =~= join_slash(pv.take(i as int)));
    }
    assert(pv.take(pv.len() as int) =~= pv);
    out
}

fn comp_eq(a: &Comp, b: &Comp) -> (r: bool)
    ensures
        r == ((a.kind, a.text@) == (b.kind, b.text@)),
{
    a.kind == b.kind && crate::text::eq_chars(&a.text, &b.text)
}

/// Executable `strip_comps`: the index after the base, if the base prefixes
/// the path.
pub fn strip_comps_exec(path: &Vec<Comp>, base: &Vec<Comp>) -> (r: Option<usize>)
    ensures
        match r {
            Some(k) => k == base@.len() && strip_comps(comp_views(path@), comp_views(base@)) == Some(
                comp_views(path@).skip(k as int),
            ),
            None => strip_comps(comp_views(path@), comp_views(base@)) is None,
        },
{
    let ghost pv = comp_views(path@);
    let ghost bv = comp_views(base@);
    if base.len() > path.len() {
        return None;
    }
    let mut i: usize = 0;
    while i < base.len()
        invariant
            i <= base@.len(),
            base@.len() <= path@.len(),
            pv == comp_views(path@),
            bv == comp_views(base@),
            pv.take(i as int) == bv.take(i as int),
        decreases base.len() - i,
    {
        if !comp_eq(&path[i], &base[i]) {
            assert(pv.take(bv.len() as int)[i as int] == pv[i as int]);
            assert(bv[i as int] == (base@[i as int].kind, base@[i as int].text@));
            return None;
        }
        assert(pv.take(i + 1) =~= pv.take(i as int).push(pv[i as int]));
        assert(bv.take(i + 1) =~= bv.take(i as int).push(bv[i as int]));
        i += 1;
    }
    assert(bv.take(bv.len() as int) =~= bv);
    Some(base.len())
}

/// Executable `join`.
pub fn join_exec(base: &[char], seg: &str) -> (out: Vec<char>)
    ensures
        out@ == join(base@, seg@),
{
    let sv = chars_of(seg);
    if sv.len() > 0 && sv[0] == '/' {
        return sv;
    }
    let mut out = slice_of(base, 0, base.len());
    assert(out@ =~= base@);
    if !(base.len() == 0 || base[base.len() - 1] == '/') {
        out.push('/');
    }
    extend_chars(&mut out, &sv);
    out
}

/// Executable `relative_label`.
pub fn relative_label_exec(root: &[char], path: &[char]) -> (out: Vec<char>)
    ensures
        out@ == relative_label(root@, path@),
{
    let pc = components_exec(path);
    let rc = components_exec(root);
    match strip_comps_exec(&pc, &rc) {
        Some(k) => {
            let mut rest: Vec<Comp> = Vec::new();
            let mut i = k;
            let ghost pv = comp_views(pc@);
            while i < pc.len()
                invariant
                    k <= i <= pc@.len(),
                    pv == comp_views(pc@),
                    comp_views(rest@) == pv.subrange(k as int, i as int),
                decreases pc.len() - i,
            {
                push_comp(&mut rest, pc[i].kind, slice_of(&pc[i].text, 0, pc[i].text.len()));
                assert(pc@[i as int].text@.subrange(0, pc@[i as int].text@.len() as int)
                    =~= pc@[i as int].text@);
                i += 1;
                assert(comp_views(rest@) =~= pv.subrange(k as int, i as int));
            }
            let ns = normals_exec(&rest);
            join_slash_exec(&ns)
        },
        None => {
            let ns = normals_exec(&pc);
            join_slash_exec(&ns)
        },
    }
}

/// Executable `parent_comps`; `None` when there is no parent.
pub fn parent_exec(c: &Vec<Comp>) -> (r: Option<Vec<Comp>>)
    ensures
        match r {
            Some(p) => parent_comps(comp_views(c@)) == Some(comp_views(p@)),
            None => parent_comps(comp_views(c@)) is None,
        },
{
    let n = c.len();
    if n == 0 || c[n - 1].kind == ROOT {
        return None;
    }
    let ghost cv = comp_views(c@);
    let mut out: Vec<Comp> = Vec::new();
    let mut i: usize = 0;
    while i < n - 1
        invariant
            n == c@.len(),
            n > 0,
            i <= n - 1,
            cv == comp_views(c@),
            comp_views(out@) == cv.take(i as int),
        decreases n - 1 - i,
    {
        push_comp(&mut out, c[i].kind, slice_of(&c[i].text, 0, c[i].text.len()));
        assert(c@[i as int].text@.subrange(0, c@[i as int].text@.len() as int) =~= c@[
            i as int
        ].text@);
        i += 1;
        assert(comp_views(out@) =~= cv.take(i as int));
    }
    assert(cv.take(n - 1) =~= cv.drop_last());
    Some(out)
}

/// Whether a component is the normal component `name`.
pub fn comp_is(c: &Comp, name: &str) -> (r: bool)
    ensures
        r == (c.kind == NORMAL && c.text@ == name@),
{
    c.kind == NORMAL && eq_str(&c.text, name)
}


/// `Path` equality: two paths are equal when their components are.
pub fn same_path(a: &str, b: &str) -> (r: bool)
    ensures
        r == (components(a@) == components(b@)),
{
    let av = chars_of(a);
    let bv = chars_of(b);
    let ac = components_exec(&av);
    let bc = components_exec(&bv);
    let ghost acv = comp_views(ac@);
    let ghost bcv = comp_views(bc@);
    if ac.len() != bc.len() {
        assert(acv.len() != bcv.len());
        return false;
    }
    assert(acv.take(bcv.len() as int) =~= acv);
    match strip_comps_exec(&ac, &bc) {
        Some(_) => true,
        None => false,
    }
}

} // verus!
