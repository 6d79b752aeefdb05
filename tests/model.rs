use gitstatus_tree::diff::parse_diff;
use gitstatus_tree::model::{head_from_log, patch_answers, Expand, FileDiff, GitAction, Hunk, Status};
use gitstatus_tree::report::{parse_status, DiffType, ParseError};

const UNTRACKED_ONLY: &str = "On branch main\nUntracked files:\n  (use \"git add <file>...\" to include in what will be committed)\n\ta.txt\n\nnothing added to commit but untracked files present\n";

const TWO_FILES_DIFF: &str = "diff --git a/one.txt b/one.txt\nindex 1111111..2222222 100644\n--- a/one.txt\n+++ b/one.txt\n@@ -1,2 +1,2 @@\n context\n-old\n+new\ndiff --git a/two.txt b/two.txt\nindex 3333333..4444444 100644\n--- a/two.txt\n+++ b/two.txt\n@@ -5,2 +5,2 @@\n keep\n-gone\n+here\n";

fn strings(v: &[&str]) -> Vec<String> {
    v.iter().map(|s| s.to_string()).collect()
}

fn loaded(status: &str, diff: &str, cached: &str) -> Status {
    let mut s = Status::new();
    s.fetch(status, diff, cached, "\"abc1234 first commit\"").unwrap();
    s
}

fn file_with_hunks(n: usize) -> FileDiff {
    let mut f = FileDiff::new("f.txt", DiffType::Modified);
    for i in 0..n {
        f.diff.push(Hunk::new(strings(&[&format!("@@ -{},1 +{},1 @@", i, i), "+x"])));
    }
    f
}

fn status_of(files: Vec<FileDiff>) -> Status {
    let mut s = Status::new();
    s.count_unstaged = files.len();
    s.diffs = files;
    s
}

#[test]
fn untracked_file_only() {
    let s = loaded(UNTRACKED_ONLY, "", "");
    assert_eq!(s.branch, "main");
    assert_eq!(s.diffs.len(), 1);
    assert_eq!(s.diffs[0].path, "a.txt");
    assert_eq!(s.diffs[0].kind, DiffType::Untracked);
    assert!(s.diffs[0].diff.is_empty());
    assert_eq!(s.count_untracked, 1);
    assert_eq!(s.count_unstaged, 0);
    assert_eq!(s.count_staged, 0);
}

#[test]
fn two_file_blocks_one_hunk_each() {
    let files = parse_diff(TWO_FILES_DIFF);
    assert_eq!(files.len(), 2);
    assert_eq!(files[0].path, "one.txt");
    assert_eq!(files[1].path, "two.txt");
    for f in &files {
        assert_eq!(f.hunks.len(), 1);
        assert_eq!(f.hunks[0].len(), 4);
    }
    assert_eq!(files[0].hunks[0], strings(&["@@ -1,2 +1,2 @@", " context", "-old", "+new"]));
}

#[test]
fn empty_diff_gives_no_files() {
    assert!(parse_diff("").is_empty());
}

#[test]
fn file_without_hunks() {
    let files = parse_diff("diff --git a/img.png b/img.png\nBinary files differ\n");
    assert_eq!(files.len(), 1);
    assert_eq!(files[0].path, "img.png");
    assert!(files[0].hunks.is_empty());
}

#[test]
fn parsing_twice_gives_the_same() {
    let a = parse_diff(TWO_FILES_DIFF);
    let b = parse_diff(TWO_FILES_DIFF);
    assert_eq!(a.len(), b.len());
    for (x, y) in a.iter().zip(b.iter()) {
        assert_eq!(x.path, y.path);
        assert_eq!(x.hunks, y.hunks);
    }
}

#[test]
fn stage_second_hunk_answers_no_then_yes() {
    let mut f = file_with_hunks(3);
    f.expanded = true;
    f.cursor = 2;
    let s = status_of(vec![f]);
    match s.stage() {
        Some(GitAction::Patch(args, answers)) => {
            assert_eq!(args, strings(&["add", "-p", "f.txt"]));
            assert_eq!(answers, strings(&["n", "y"]));
        }
        _ => panic!("expected a patch-mode run"),
    }
    match s.unstage() {
        Some(GitAction::Patch(args, answers)) => {
            assert_eq!(args, strings(&["reset", "-p", "f.txt"]));
            assert_eq!(answers, strings(&["n", "y"]));
        }
        _ => panic!("expected a patch-mode run"),
    }
}

#[test]
fn stage_whole_file() {
    let s = status_of(vec![file_with_hunks(1)]);
    match s.stage() {
        Some(GitAction::Run(args)) => assert_eq!(args, strings(&["add", "f.txt"])),
        _ => panic!("expected a plain run"),
    }
    match s.unstage() {
        Some(GitAction::Run(args)) => assert_eq!(args, strings(&["reset", "f.txt"])),
        _ => panic!("expected a plain run"),
    }
}

#[test]
fn unstage_deleted_file_from_head() {
    let s = status_of(vec![FileDiff::new("gone.txt", DiffType::Deleted)]);
    match s.unstage() {
        Some(GitAction::Run(args)) => assert_eq!(args, strings(&["reset", "HEAD", "gone.txt"])),
        _ => panic!("expected a plain run"),
    }
}

#[test]
fn staging_without_files_does_nothing() {
    let s = Status::new();
    assert!(s.stage().is_none());
    assert!(s.unstage().is_none());
}

#[test]
fn answers_for_first_hunk() {
    assert_eq!(patch_answers(1), strings(&["y"]));
    assert_eq!(patch_answers(4), strings(&["n", "n", "n", "y"]));
}

#[test]
fn unstaged_file_gets_its_hunks() {
    let status = "On branch dev\nChanges not staged for commit:\n  (use \"git add <file>...\" to update what will be committed)\n  (use \"git restore <file>...\" to discard changes in working directory)\n\tmodified:   x.txt\n\n";
    let diff = "diff --git a/x.txt b/x.txt\nindex 1..2 100644\n--- a/x.txt\n+++ b/x.txt\n@@ -1 +1 @@\n-a\n+b\n \tc\n";
    let s = loaded(status, diff, "");
    assert_eq!(s.count_unstaged, 1);
    assert_eq!(s.diffs[0].path, "x.txt");
    assert_eq!(s.diffs[0].kind, DiffType::Modified);
    assert_eq!(s.diffs[0].diff.len(), 1);
    assert_eq!(s.diffs[0].diff[0].diffs, strings(&["@@ -1 +1 @@", "-a", "+b", " \tc"]));
    assert!(!s.diffs[0].diff[0].expanded());
}

#[test]
fn three_sections_in_order() {
    let status = "On branch main\nChanges to be committed:\n  (use \"git restore --staged <file>...\" to unstage)\n  (hint)\n\tnew file:   s1\n\trenamed:    r1 -> r2\n\nChanges not staged for commit:\n  (a)\n  (b)\n\tdeleted:    d1\n\nUntracked files:\n  (c)\n\tu1\n\tu2\n\n";
    let s = loaded(status, "", "");
    assert_eq!(s.count_untracked, 2);
    assert_eq!(s.count_unstaged, 1);
    assert_eq!(s.count_staged, 2);
    let paths: Vec<&str> = s.diffs.iter().map(|f| f.path.as_str()).collect();
    assert_eq!(paths, vec!["u1", "u2", "d1", "s1", "r1 -> r2"]);
    assert_eq!(s.diffs[2].kind, DiffType::Deleted);
    assert_eq!(s.diffs[3].kind, DiffType::Created);
    assert_eq!(s.diffs[4].kind, DiffType::Renamed);
    assert_eq!(s.head, "abc1234 first commit");
}

#[test]
fn missing_branch_line() {
    assert_eq!(parse_status("HEAD detached\n").err(), Some(ParseError::MissingBranch));
    assert_eq!(parse_status("").err(), Some(ParseError::MissingBranch));
}

#[test]
fn unknown_entry_label() {
    let text = "On branch main\nChanges to be committed:\n  (a)\n  (b)\n\tcopied:     x\n\n";
    assert_eq!(parse_status(text).err(), Some(ParseError::UnknownPrefix));
}

#[test]
fn entry_without_separator() {
    let text = "On branch main\nChanges not staged for commit:\n  (a)\n  (b)\n\tmodified:x\n\n";
    let rep = parse_status(text).unwrap();
    assert_eq!(rep.unstaged.len(), 1);
    assert_eq!(rep.unstaged[0].path, "modified:x");
    assert_eq!(rep.unstaged[0].kind, DiffType::Untracked);
}

#[test]
fn failed_fetch_keeps_the_tree() {
    let mut s = loaded(UNTRACKED_ONLY, "", "");
    assert_eq!(s.fetch("garbage", "", "", ""), Err(ParseError::MissingBranch));
    assert_eq!(s.diffs.len(), 1);
    assert_eq!(s.branch, "main");
}

#[test]
fn fetch_clamps_the_cursor() {
    let mut s = loaded(UNTRACKED_ONLY, "", "");
    s.cursor = 5;
    s.fetch(UNTRACKED_ONLY, "", "", "").unwrap();
    assert_eq!(s.cursor, 0);
    assert_eq!(s.head, "");
}

#[test]
fn head_loses_its_quotes() {
    assert_eq!(head_from_log("\"1a2b3c fix the parser\""), "1a2b3c fix the parser");
    assert_eq!(head_from_log(""), "");
}

#[test]
fn toggling_twice_restores_the_flag() {
    let mut h = Hunk::new(strings(&["@@ -1 +1 @@"]));
    h.toggle_expand();
    assert!(h.expanded());
    h.toggle_expand();
    assert!(!h.expanded());
    let mut f = FileDiff::new("p", DiffType::Modified);
    f.toggle_expand();
    assert!(f.expanded());
    f.toggle_expand();
    assert!(!f.expanded());
}

#[test]
fn expand_follows_the_cursor() {
    let mut s = status_of(vec![file_with_hunks(2)]);
    s.expand();
    assert!(s.diffs[0].expanded);
    s.down();
    assert_eq!(s.diffs[0].cursor, 1);
    s.expand();
    assert!(s.diffs[0].diff[0].expanded);
    assert!(s.diffs[0].expanded);
}

#[test]
fn file_cursor_stops_at_its_bounds() {
    let mut f = file_with_hunks(2);
    assert_eq!(f.len(), 1);
    assert!(f.up().is_err());
    assert!(f.down().is_err());
    assert_eq!(f.cursor, 0);
    f.toggle_expand();
    assert_eq!(f.len(), 3);
    assert!(f.down().is_ok());
    assert!(f.down().is_ok());
    assert!(f.down().is_err());
    assert_eq!(f.cursor, 2);
    assert!(f.up().is_ok());
    assert_eq!(f.cursor, 1);
}

#[test]
fn navigation_stays_in_bounds() {
    let mut a = file_with_hunks(2);
    a.toggle_expand();
    let b = file_with_hunks(1);
    let mut s = status_of(vec![a, b]);
    for _ in 0..10 {
        s.down();
        assert!(s.cursor < s.diffs.len());
        for f in &s.diffs {
            assert!(f.cursor <= f.diff.len());
        }
    }
    assert_eq!(s.cursor, 1);
    assert_eq!(s.diffs[0].cursor, 2);
    assert_eq!(s.diffs[1].cursor, 0);
    s.up();
    assert_eq!(s.cursor, 0);
    assert_eq!(s.diffs[0].cursor, 1);
    for _ in 0..10 {
        s.up();
        assert!(s.cursor < s.diffs.len());
    }
    assert_eq!(s.cursor, 0);
    assert_eq!(s.diffs[0].cursor, 0);
}

#[test]
fn moves_on_empty_tree_do_nothing() {
    let mut s = Status::new();
    s.up();
    s.down();
    s.expand();
    assert_eq!(s.cursor, 0);
    assert!(s.diffs.is_empty());
}

#[test]
fn repeated_path_gets_hunks_once() {
    let status = "On branch dev\nChanges not staged for commit:\n  (a)\n  (b)\n\tmodified:   x.txt\n\tmodified:   x.txt\n\n";
    let diff = "diff --git a/x.txt b/x.txt\n@@ -1 +1 @@\n-a\n+b\n";
    let s = loaded(status, diff, "");
    assert_eq!(s.diffs.len(), 2);
    assert_eq!(s.diffs[0].diff.len(), 1);
    assert!(s.diffs[1].diff.is_empty());
}

#[test]
fn paths_lose_all_leading_white_space() {
    let status = "On branch main\nUntracked files:\n  (c)\n\u{a0}\u{b}\u{3000}u.txt\n\nChanges to be committed:\n  (a)\n  (b)\n\u{2003}modified:  \u{c}\u{85}m.txt\n\n";
    let s = loaded(status, "", "");
    assert_eq!(s.diffs[0].path, "u.txt");
    assert_eq!(s.diffs[1].path, "m.txt");
    assert_eq!(s.diffs[1].kind, DiffType::Modified);
}

#[test]
fn diff_line_keeps_a_final_bare_carriage_return() {
    let files = parse_diff("diff --git a/f b/f\n@@ -1 +1 @@\r\n+x\r");
    assert_eq!(files[0].hunks[0], strings(&["@@ -1 +1 @@", "+x\r"]));
}

#[test]
fn unlabelled_staged_entry_is_untracked() {
    let status = "On branch main\nChanges to be committed:\n  (a)\n  (b)\n\tplain.txt\n\tmodified:   m.txt\n\n";
    let s = loaded(status, "", "");
    assert_eq!(s.count_staged, 2);
    assert_eq!(s.diffs[0].path, "plain.txt");
    assert_eq!(s.diffs[0].kind, DiffType::Untracked);
    assert_eq!(s.diffs[1].kind, DiffType::Modified);
}
