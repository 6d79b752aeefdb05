use gitstatus_tree::model::{FileDiff, Hunk, Status};
use gitstatus_tree::render::{put_file, put_hunk, render, wants_content, Theme};
use gitstatus_tree::report::DiffType;

fn theme() -> Theme {
    Theme {
        blue: "<blue>".to_string(),
        dark_green: "<green>".to_string(),
        dark_red: "<red>".to_string(),
        yellow: "<yellow>".to_string(),
        reset_fg: "<fg>".to_string(),
        reset_color: "<color>".to_string(),
        bold: "<bold>".to_string(),
        dim: "<dim>".to_string(),
        reset_attr: "<reset>".to_string(),
        reverse: "<rev>".to_string(),
    }
}

fn hunk(lines: &[&str]) -> Hunk {
    Hunk::new(lines.iter().map(|s| s.to_string()).collect())
}

#[test]
fn collapsed_hunk_shows_its_header() {
    let mut out = String::new();
    put_hunk(&mut out, &theme(), &hunk(&["@@ -1 +1 @@ fn f()", "+a", "-b", " c"]));
    assert_eq!(out, "\r\n<blue>›@@ -1 +1 @@<reset> fn f()");
}

#[test]
fn expanded_hunk_colors_its_lines() {
    let mut h = hunk(&["@@ -1 +1 @@", "+a", "-b", " c"]);
    h.expanded = true;
    let mut out = String::new();
    put_hunk(&mut out, &theme(), &h);
    assert_eq!(out, "\r\n<blue>⌄@@ -1 +1 @@<reset>\r\n<green>+a\r\n<red>-b\r\n<fg> c");
}

#[test]
fn expanded_file_without_hunks_shows_content() {
    let mut f = FileDiff::new("new.txt", DiffType::Untracked);
    f.expanded = true;
    let mut out = String::new();
    put_file(&mut out, &theme(), &f, true, &Some("one\ntwo\n".to_string()));
    assert_eq!(out, "\r⌄new.txt\r\n<reset><green>+one\r\n+two");
}

#[test]
fn renamed_file_is_tagged() {
    let f = FileDiff::new("a -> b", DiffType::Renamed);
    let mut out = String::new();
    put_file(&mut out, &theme(), &f, true, &None);
    assert_eq!(out, "\r›[RENAME] a -> b");
}

#[test]
fn clean_tree_text() {
    let mut s = Status::new();
    s.branch = "main".to_string();
    s.head = "abc123 first commit".to_string();
    let text = render(&theme(), &s, &Vec::new());
    assert_eq!(
        text,
        "\rOn branch <bold>main<reset>\n<dim>\r\nabc123<reset> first commit\n\r\n<yellow>nothing to commit, working tree clean<fg>"
    );
}

#[test]
fn tree_text_with_runs() {
    let mut s = Status::new();
    s.branch = "dev".to_string();
    let mut m = FileDiff::new("m.rs", DiffType::Modified);
    m.diff.push(hunk(&["@@ -1 +1 @@"]));
    s.diffs = vec![FileDiff::new("u.txt", DiffType::Untracked), m];
    s.count_untracked = 1;
    s.count_unstaged = 1;
    assert!(!wants_content(&s, 0));
    let text = render(&theme(), &s, &vec![None, None]);
    assert_eq!(
        text,
        "\rOn branch <bold>dev<reset>\n\r\n<yellow>Untracked files:<color>\n<rev>\r    \r›u.txt<reset>\n\r\n<yellow>Unstaged changes:<color>\n\r    \r›m.rs<reset>\n"
    );
}

#[test]
fn bare_carriage_return_at_end_of_content_stays() {
    let mut f = FileDiff::new("cr.txt", DiffType::Untracked);
    f.expanded = true;
    let mut out = String::new();
    put_file(&mut out, &theme(), &f, true, &Some("a\r\nb\r".to_string()));
    assert_eq!(out, "\r⌄cr.txt\r\n<reset><green>+a\r\n+b\r");
}

#[test]
fn head_words_are_joined_by_single_spaces() {
    let mut s = Status::new();
    s.branch = "main".to_string();
    s.head = " abc123  fix\tthe   parser ".to_string();
    let text = render(&theme(), &s, &Vec::new());
    assert!(text.starts_with(
        "\rOn branch <bold>main<reset>\n<dim>\r\nabc123<reset> fix the parser\n"
    ));
}

#[test]
fn only_the_selected_file_highlights_a_hunk() {
    let mut a = FileDiff::new("a.rs", DiffType::Modified);
    a.diff.push(hunk(&["@@ -1 +1 @@"]));
    a.expanded = true;
    a.cursor = 1;
    let mut out = String::new();
    put_file(&mut out, &theme(), &a, false, &None);
    assert_eq!(out, "\r⌄a.rs<reset>\r\n<blue>›@@ -1 +1 @@<reset>");
    let mut out = String::new();
    put_file(&mut out, &theme(), &a, true, &None);
    assert_eq!(out, "\r⌄a.rs<reset><rev>\r\n<blue>›@@ -1 +1 @@<reset>");
}

#[test]
fn default_tree_is_empty() {
    let s = Status::default();
    assert!(s.diffs.is_empty());
    assert_eq!(s.cursor, 0);
    assert_eq!(s.count_untracked + s.count_unstaged + s.count_staged, 0);
    assert!(format!("{:?}", s).starts_with("Status"));
}
