use ctxpack::git::{parse_git_log_name_only, parse_git_log_subject_name_only};

#[test]
fn parses_git_log_name_only_output() {
    let commits = parse_git_log_name_only(
        "commit:abc\nsrc/a.ts\ntests/a.test.ts\n\ncommit:def\nsrc/b.ts\n",
    );

    assert_eq!(commits.len(), 2);
    assert_eq!(commits[0].sha, "abc");
    assert_eq!(commits[0].files, vec!["src/a.ts", "tests/a.test.ts"]);
    assert_eq!(commits[1].sha, "def");
    assert_eq!(commits[1].files, vec!["src/b.ts"]);
}

#[test]
fn parses_git_log_subject_name_only_output() {
    let commits = parse_git_log_subject_name_only(
        "commit:abc\u{0}fix auth redirect\nsrc/a.ts\ntests/a.test.ts\n\ncommit:def\u{0}add billing\nsrc/b.ts\n",
    );

    assert_eq!(commits.len(), 2);
    assert_eq!(commits[0].sha, "abc");
    assert_eq!(commits[0].title, "fix auth redirect");
    assert_eq!(
        commits[0]
            .files
            .iter()
            .map(|file| file.path.as_str())
            .collect::<Vec<_>>(),
        vec!["src/a.ts", "tests/a.test.ts"]
    );
    assert_eq!(commits[1].sha, "def");
    assert_eq!(commits[1].title, "add billing");
    assert_eq!(
        commits[1]
            .files
            .iter()
            .map(|file| file.path.as_str())
            .collect::<Vec<_>>(),
        vec!["src/b.ts"]
    );
}

#[test]
fn git_log_lines_are_trimmed_and_stray_lines_dropped() {
    let commits = parse_git_log_name_only("stray.txt\r\ncommit: abc \r\n  src/a.ts  \r\n\r\ncommit:def\r\n");
    assert_eq!(commits.len(), 2);
    assert_eq!(commits[0].sha, "abc");
    assert_eq!(commits[0].files, vec!["src/a.ts"]);
    assert_eq!(commits[1].sha, "def");
    assert!(commits[1].files.is_empty());
    assert!(parse_git_log_name_only("").is_empty());
    let untitled = parse_git_log_subject_name_only("commit:abc\nsrc/a.ts\n");
    assert_eq!(untitled[0].sha, "abc");
    assert_eq!(untitled[0].title, "");
}
