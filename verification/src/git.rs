//! Reading `git log` output: commits and the files each one touched, as
//! printed with `--name-only` under a `commit:<sha>` (or
//! `commit:<sha>\0<subject>`) format line.
use vstd::prelude::*;

use crate::model::{str_views, vec_views};
use crate::text::{
    chars_of, lines, lines_exec, split_once, split_once_str, starts_with, starts_with_str,
    string_of, strip_prefix, strip_prefix_str, trim, trim_vec,
};

verus! {

/// A commit and the files it touched.
#[derive(Debug, Clone)]
pub struct GitCommitFiles {
    pub sha: String,
    pub files: Vec<String>,
}

/// A file a commit touched.
#[derive(Debug, Clone)]
pub struct GitCommitFile {
    pub path: String,
}

/// A commit with its subject and the files it touched.
#[derive(Debug, Clone)]
pub struct GitCommitSubject {
    pub sha: String,
    pub title: String,
    pub files: Vec<GitCommitFile>,
}

/// A commit as plain values: its header text (after `commit:`) and files.
pub type CommitView = (Seq<char>, Seq<Seq<char>>);

/// The commits finished and the commit being read, after some lines. Each
/// line is trimmed; blank lines are skipped; a `commit:` line starts a
/// commit; any other line is a file of the current commit (and is dropped
/// before the first commit).
pub open spec fn commit_scan(ls: Seq<Seq<char>>) -> (Seq<CommitView>, Option<CommitView>)
    decreases ls.len(),
{
    if ls.len() == 0 {
        (seq![], None)
    } else {
        let (done, cur) = commit_scan(ls.drop_last());
        let l = trim(ls.last());
        if l.len() == 0 {
            (done, cur)
        } else if starts_with(l, "commit:"@) {
            let header = l.skip(7);
            match cur {
                Some(c) => (done.push(c), Some((header, seq![]))),
                None => (done, Some((header, seq![]))),
            }
        } else {
            match cur {
                Some(c) => (done, Some((c.0, c.1.push(l)))),
                None => (done, None),
            }
        }
    }
}

/// The commits of `git log` output, in order.
pub open spec fn log_commits(output: Seq<char>) -> Seq<CommitView> {
    let (done, cur) = commit_scan(lines(output));
    match cur {
        Some(c) => done.push(c),
        None => done,
    }
}

/// The sha of a header: all of it, trimmed.
pub open spec fn header_sha(header: Seq<char>) -> Seq<char> {
    trim(header)
}

/// The sha and subject of a `<sha>\0<subject>` header, each trimmed; the
/// subject is empty without a `\0`.
pub open spec fn header_parts(header: Seq<char>) -> (Seq<char>, Seq<char>) {
    match split_once(header, seq!['\0']) {
        Some((sha, title)) => (trim(sha), trim(title)),
        None => (trim(header), seq![]),
    }
}

/// A commit as its header and files.
pub open spec fn name_only_view(c: GitCommitFiles) -> (Seq<char>, Seq<Seq<char>>) {
    (c.sha@, str_views(c.files@))
}

/// A scanned commit as plain values.
pub open spec fn raw_view(c: (Vec<char>, Vec<String>)) -> CommitView {
    (c.0@, str_views(c.1@))
}

/// Scanned commits as plain values.
pub open spec fn raw_views(v: Seq<(Vec<char>, Vec<String>)>) -> Seq<CommitView> {
    v.map_values(|c: (Vec<char>, Vec<String>)| raw_view(c))
}

/// The paths of a commit's files.
pub open spec fn file_paths(fs: Seq<GitCommitFile>) -> Seq<Seq<char>> {
    fs.map_values(|f: GitCommitFile| f.path@)
}

proof fn lemma_scan_step(ls: Seq<Seq<char>>, k: int)
    requires
        0 <= k < ls.len(),
    ensures
        commit_scan(ls.take(k + 1)) == ({
            let (done, cur) = commit_scan(ls.take(k));
            let l = trim(ls[k]);
            if l.len() == 0 {
                (done, cur)
            } else if starts_with(l, "commit:"@) {
                match cur {
                    Some(c) => (done.push(c), Some((l.skip(7), seq![]))),
                    None => (done, Some((l.skip(7), Seq::<Seq<char>>::empty()))),
                }
            } else {
                match cur {
                    Some(c) => (done, Some((c.0, c.1.push(l)))),
                    None => (done, None),
                }
            }
        }),
{
    assert(ls.take(k + 1).drop_last() =~= ls.take(k));
    assert(ls.take(k + 1).last() == ls[k]);
}

/// The commits of `git log` output, each with the raw text of its header.
fn scan_commits(output: &str) -> (r: Vec<(Vec<char>, Vec<String>)>)
    ensures
        raw_views(r@) == log_commits(output@),
{
    let ls = lines_exec(&chars_of(output));
    let ghost lv = vec_views(ls@);
    let mut done: Vec<(Vec<char>, Vec<String>)> = Vec::new();
    let mut cur_header: Vec<char> = Vec::new();
    let mut cur_files: Vec<String> = Vec::new();
    let mut has_cur = false;
    let mut i: usize = 0;
    while i < ls.len()
        invariant
            i <= ls@.len(),
            lv == vec_views(ls@),
            lv.len() == ls@.len(),
            raw_views(done@) == commit_scan(lv.take(i as int)).0,
            has_cur == commit_scan(lv.take(i as int)).1 is Some,
            has_cur ==> commit_scan(lv.take(i as int)).1 == Some(
                (cur_header@, str_views(cur_files@)),
            ),
        decreases ls.len() - i,
    {
        proof {
            lemma_scan_step(lv, i as int);
            assert(lv[i as int] == ls@[i as int]@);
            reveal_strlit("commit:");
        }
        let t = trim_vec(&ls[i]);
        assert(t@ == trim(lv[i as int]));
        if t.len() == 0 {
        } else if starts_with_str(&t, "commit:") {
            let header = match strip_prefix_str(&t, "commit:") {
                Some(h) => h,
                None => Vec::new(),
            };
            proof {
                assert(strip_prefix(t@, "commit:"@) is Some);
            }
            if has_cur {
                let ghost before = raw_views(done@);
                let h = cur_header;
                let f = cur_files;
                let ghost hv = h@;
                let ghost fv = str_views(f@);
                done.push((h, f));
                assert(raw_views(done@) =~= before.push((hv, fv)));
            }
            cur_header = header;
            cur_files = Vec::new();
            has_cur = true;
            assert(str_views(cur_files@) =~= Seq::<Seq<char>>::empty());
        } else if has_cur {
            let ghost before = str_views(cur_files@);
            let s = string_of(&t);
            cur_files.push(s);
            assert(str_views(cur_files@) =~= before.push(t@));
        }
        i += 1;
    }
    assert(lv.take(ls@.len() as int) =~= lv);
    if has_cur {
        let ghost before = raw_views(done@);
        let ghost hv = cur_header@;
        let ghost fv = str_views(cur_files@);
        done.push((cur_header, cur_files));
        assert(raw_views(done@) =~= before.push((hv, fv)));
    }
    done
}

/// Reads `git log --name-only` output printed with a `commit:<sha>` format
/// line: each commit's sha and files, in order.
pub fn parse_git_log_name_only(output: &str) -> (r: Vec<GitCommitFiles>)
    ensures
        r@.len() == log_commits(output@).len(),
        forall|k: int|
            0 <= k < r@.len() ==> (#[trigger] r@[k]).sha@ == header_sha(log_commits(output@)[k].0)
                && str_views(r@[k].files@) == log_commits(output@)[k].1,
{
    let raw = scan_commits(output);
    let ghost rv = raw_views(raw@);
    let mut out: Vec<GitCommitFiles> = Vec::new();
    let mut rest = raw;
    let n = rest.len();
    let mut i: usize = 0;
    while i < n
        invariant
            n == rv.len(),
            i <= n,
            rest@.len() == n - i,
            raw_views(rest@) == rv.skip(i as int),
            out@.len() == i,
            forall|k: int|
                0 <= k < i ==> (#[trigger] out@[k]).sha@ == header_sha(rv[k].0) && str_views(
                    out@[k].files@,
                ) == rv[k].1,
        decreases n - i,
    {
        let ghost old_rest = rest@;
        proof {
            assert(raw_views(rest@)[0] == rv.skip(i as int)[0]);
        }
        let (header, files) = rest.remove(0);
        proof {
            assert(rest@ =~= old_rest.drop_first());
            assert(raw_views(rest@) =~= raw_views(old_rest).drop_first());
            assert(rv.skip(i as int).drop_first() =~= rv.skip(i + 1));
            assert(rv[i as int] == (header@, str_views(files@)));
        }
        out.push(GitCommitFiles { sha: string_of(&trim_vec(&header)), files });
        i += 1;
    }
    out
}

/// Reads `git log --name-only` output printed with a
/// `commit:<sha>\0<subject>` format line: each commit's sha, subject and
/// files, in order.
pub fn parse_git_log_subject_name_only(output: &str) -> (r: Vec<GitCommitSubject>)
    ensures
        r@.len() == log_commits(output@).len(),
        forall|k: int|
            0 <= k < r@.len() ==> (#[trigger] r@[k]).sha@ == header_parts(log_commits(output@)[k].0).0
                && r@[k].title@ == header_parts(log_commits(output@)[k].0).1 && file_paths(
                r@[k].files@,
            ) == log_commits(output@)[k].1,
{
    let raw = scan_commits(output);
    let ghost rv = raw_views(raw@);
    let mut out: Vec<GitCommitSubject> = Vec::new();
    let mut rest = raw;
    let n = rest.len();
    let mut i: usize = 0;
    while i < n
        invariant
            n == rv.len(),
            i <= n,
            rest@.len() == n - i,
            raw_views(rest@) == rv.skip(i as int),
            out@.len() == i,
            forall|k: int|
                0 <= k < i ==> (#[trigger] out@[k]).sha@ == header_parts(rv[k].0).0 && out@[k].title@
                    == header_parts(rv[k].0).1 && file_paths(out@[k].files@) == rv[k].1,
        decreases n - i,
    {
        let ghost old_rest = rest@;
        proof {
            assert(raw_views(rest@)[0] == rv.skip(i as int)[0]);
        }
        let (header, files) = rest.remove(0);
        proof {
            assert(rest@ =~= old_rest.drop_first());
            assert(raw_views(rest@) =~= raw_views(old_rest).drop_first());
            assert(rv.skip(i as int).drop_first() =~= rv.skip(i + 1));
            assert(rv[i as int] == (header@, str_views(files@)));
        }
        let (sha, title) = match split_once_str(&header, "\0") {
            Some((a, b)) => (string_of(&trim_vec(&a)), string_of(&trim_vec(&b))),
            None => (string_of(&trim_vec(&header)), String::new()),
        };
        proof {
            assert("\0"@ =~= seq!['\0']) by {
                reveal_strlit("\0");
            }
        }
        let mut paths: Vec<GitCommitFile> = Vec::new();
        let mut j: usize = 0;
        while j < files.len()
            invariant
                j <= files@.len(),
                file_paths(paths@) == str_views(files@).take(j as int),
            decreases files.len() - j,
        {
            let ghost before = file_paths(paths@);
            let p = files[j].clone();
            paths.push(GitCommitFile { path: p });
            assert(file_paths(paths@) =~= before.push(files@[j as int]@));
            assert(str_views(files@).take(j + 1) =~= str_views(files@).take(j as int).push(
                files@[j as int]@,
            ));
            j += 1;
        }
        assert(str_views(files@).take(files@.len() as int) =~= str_views(files@));
        out.push(GitCommitSubject { sha, title, files: paths });
        i += 1;
    }
    out
}

} // verus!
