//! The text of the tree, with the style sequences of a theme embedded.
use vstd::prelude::*;
use crate::model::{FileDiff, Hunk, Status};
use crate::report::DiffType;
use crate::text::{chars_of, lines_of, split_lines, split_words, string_of, views, words_of};

verus! {

/// The style sequences that the text embeds.
pub struct Theme {
    pub blue: String,
    pub dark_green: String,
    pub dark_red: String,
    pub yellow: String,
    /// Sets the foreground back to the default.
    pub reset_fg: String,
    /// Sets all colors back to the default.
    pub reset_color: String,
    pub bold: String,
    pub dim: String,
    /// Ends all attributes.
    pub reset_attr: String,
    pub reverse: String,
}

/// The glyph before an expandable node.
pub open spec fn marker(expanded: bool) -> Seq<char> {
    if expanded {
        "⌄"@
    } else {
        "›"@
    }
}

/// The color of a diff line, by its first character.
pub open spec fn line_color(th: &Theme, line: Seq<char>) -> Seq<char> {
    if line.len() > 0 && line[0] == '+' {
        th.dark_green@
    } else if line.len() > 0 && line[0] == '-' {
        th.dark_red@
    } else {
        th.reset_fg@
    }
}

/// `s[i..]` with `reset` after each ` @@`.
pub open spec fn mark_from(s: Seq<char>, reset: Seq<char>, i: int) -> Seq<char>
    decreases s.len() - i,
{
    if i < 0 || i >= s.len() {
        Seq::empty()
    } else if i + 3 <= s.len() && s.subrange(i, i + 3) == " @@"@ {
        " @@"@ + reset + mark_from(s, reset, i + 3)
    } else {
        seq![s[i]] + mark_from(s, reset, i + 1)
    }
}

/// The lines `1..n` of a hunk, each on a row of its color.
pub open spec fn hunk_body(th: &Theme, lines: Seq<Seq<char>>, n: int) -> Seq<char>
    decreases n,
{
    if n <= 1 || n > lines.len() {
        Seq::empty()
    } else {
        hunk_body(th, lines, n - 1) + "\r\n"@ + line_color(th, lines[n - 1]) + lines[n - 1]
    }
}

/// A hunk: its header, and its other lines when expanded.
pub open spec fn hunk_text(th: &Theme, h: &Hunk) -> Seq<char> {
    let lines = h.diffs@.map_values(|l: String| l@);
    "\r\n"@ + th.blue@ + marker(h.expanded) + (if lines.len() > 0 {
        mark_from(lines[0], th.reset_attr@, 0)
    } else {
        Seq::empty()
    }) + (if h.expanded {
        hunk_body(th, lines, lines.len() as int)
    } else {
        Seq::empty()
    })
}

/// The first `n` hunks of a file; in the selected file, the hunk under the
/// local cursor in reverse video.
pub open spec fn file_hunks(th: &Theme, f: &FileDiff, selected: bool, n: int) -> Seq<char>
    decreases n,
{
    if n <= 0 || n > f.diff.len() {
        Seq::empty()
    } else {
        file_hunks(th, f, selected, n - 1) + th.reset_attr@ + (if selected && n == f.cursor {
            th.reverse@
        } else {
            Seq::empty()
        }) + hunk_text(th, &f.diff@[n - 1])
    }
}

/// The first `n` lines joined so that each reads as an added line.
pub open spec fn joined(lines: Seq<Seq<char>>, n: int) -> Seq<char>
    decreases n,
{
    if n <= 0 || n > lines.len() {
        Seq::empty()
    } else if n == 1 {
        lines[0]
    } else {
        joined(lines, n - 1) + "\r\n+"@ + lines[n - 1]
    }
}

/// The tag that a rename or a deletion carries.
pub open spec fn kind_tag(kind: DiffType) -> Seq<char> {
    match kind {
        DiffType::Renamed => "[RENAME] "@,
        DiffType::Deleted => "[DELETE] "@,
        _ => Seq::empty(),
    }
}

/// A file: its marker, tag and path; when expanded, its hunks (the one under
/// the local cursor highlighted only in the selected file), or where it has
/// none the given content of the file as added lines.
#[verifier::opaque]
pub open spec fn file_text(th: &Theme, f: &FileDiff, selected: bool, content: Option<Seq<char>>) -> Seq<
    char,
> {
    "\r"@ + marker(f.expanded) + kind_tag(f.kind) + f.path@ + (if !f.expanded {
        Seq::empty()
    } else if f.diff.len() == 0 {
        match content {
            Some(c) => "\r\n"@ + th.reset_attr@ + th.dark_green@ + "+"@ + joined(
                lines_of(c),
                lines_of(c).len() as int,
            ),
            None => Seq::empty(),
        }
    } else {
        file_hunks(th, f, selected, f.diff.len() as int)
    })
}

/// The heading of a run, before the file at index `i`.
pub open spec fn section_heading(th: &Theme, s: &Status, i: int) -> Seq<char> {
    if i == 0 && s.count_untracked != 0 {
        "\r\n"@ + th.yellow@ + "Untracked files:"@ + th.reset_color@ + "\n"@
    } else if i == s.count_untracked && s.count_unstaged != 0 {
        "\r\n"@ + th.yellow@ + "Unstaged changes:"@ + th.reset_color@ + "\n"@
    } else if i == s.count_untracked + s.count_unstaged {
        "\r\n"@ + th.yellow@ + "Staged changes:"@ + th.reset_color@ + "\n"@
    } else {
        Seq::empty()
    }
}

pub open spec fn content_view(c: Option<String>) -> Option<Seq<char>> {
    match c {
        Some(s) => Some(s@),
        None => None,
    }
}

/// The rows of the first `n` files, the selected one in reverse video.
pub open spec fn status_files(th: &Theme, s: &Status, contents: Seq<Option<String>>, n: int) -> Seq<
    char,
>
    decreases n,
{
    if n <= 0 || n > s.diffs.len() {
        Seq::empty()
    } else {
        status_files(th, s, contents, n - 1) + status_row(th, s, contents, n - 1)
    }
}

/// The row of the file at `i`, after the heading of its run where it opens one.
pub open spec fn status_row(th: &Theme, s: &Status, contents: Seq<Option<String>>, i: int) -> Seq<
    char,
> {
    let f = s.diffs@[i];
    section_heading(th, s, i) + (if f.cursor == 0 && s.cursor == i {
        th.reverse@
    } else {
        Seq::empty()
    }) + "\r    "@ + file_text(th, &f, s.cursor == i, content_view(contents[i])) + th.reset_attr@ + "\n"@
}

/// The words `1..n`, each after one space.
pub open spec fn later_words(ws: Seq<Seq<char>>, n: int) -> Seq<char>
    decreases n,
{
    if n <= 1 || n > ws.len() {
        Seq::empty()
    } else {
        later_words(ws, n - 1) + " "@ + ws[n - 1]
    }
}

/// The latest commit: its first word (the abbreviated hash) dimmed, then
/// each later word after a single space.
pub open spec fn head_text(th: &Theme, head: Seq<char>) -> Seq<char> {
    if head.len() == 0 {
        Seq::empty()
    } else {
        let ws = words_of(head);
        th.dim@ + "\r\n"@ + (if ws.len() > 0 {
            ws[0]
        } else {
            Seq::empty()
        }) + th.reset_attr@ + later_words(ws, ws.len() as int) + "\n"@
    }
}

/// The branch, the latest commit, and a note when nothing changed.
pub open spec fn status_top(th: &Theme, s: &Status) -> Seq<char> {
    "\rOn branch "@ + th.bold@ + s.branch@ + th.reset_attr@ + "\n"@ + head_text(th, s.head@) + (
    if s.diffs.len() == 0 {
        "\r\n"@ + th.yellow@ + "nothing to commit, working tree clean"@ + th.reset_fg@
    } else {
        Seq::empty()
    })
}

/// The whole tree as text.
pub open spec fn status_text(th: &Theme, s: &Status, contents: Seq<Option<String>>) -> Seq<char> {
    status_top(th, s) + status_files(th, s, contents, s.diffs.len() as int)
}

/// Appends `s` to `out`.
fn put(out: &mut String, s: &str)
    ensures
        final(out)@ == old(out)@ + s@,
{
    out.append(s);
}

/// Appends the header line with `reset` after each ` @@`.
fn put_header(out: &mut String, line: &String, reset: &String)
    ensures
        final(out)@ == old(out)@ + mark_from(line@, reset@, 0),
{
    let cs = chars_of(line.as_str());
    let ghost base = out@;
    let mut i: usize = 0;
    while i < cs.len()
        invariant
            i <= cs.len(),
            cs@ == line@,
            out@ + mark_from(cs@, reset@, i as int) == base + mark_from(cs@, reset@, 0),
        decreases cs.len() - i,
    {
        let ghost before = out@;
        if cs.len() >= 3 && i <= cs.len() - 3 && cs[i] == ' ' && cs[i + 1] == '@' && cs[i + 2] == '@' {
            proof {
                reveal_strlit(" @@");
                assert(cs@.subrange(i as int, i + 3) =~= " @@"@);
            }
            put(out, " @@");
            put(out, reset.as_str());
            assert(before + mark_from(cs@, reset@, i as int) =~= out@ + mark_from(cs@, reset@, i + 3));
            i = i + 3;
        } else {
            proof {
                reveal_strlit(" @@");
                if i + 3 <= cs.len() {
                    if cs@.subrange(i as int, i + 3) == " @@"@ {
                        assert(cs@.subrange(i as int, i + 3)[0] == cs@[i as int]);
                        assert(cs@.subrange(i as int, i + 3)[1] == cs@[i + 1]);
                        assert(cs@.subrange(i as int, i + 3)[2] == cs@[i + 2]);
                    }
                }
            }
            let one = string_of(&cs.as_slice()[i..i + 1]);
            assert(one@ =~= seq![cs@[i as int]]);
            put(out, one.as_str());
            assert(before + mark_from(cs@, reset@, i as int) =~= out@ + mark_from(cs@, reset@, i + 1));
            i = i + 1;
        }
    }
    assert(out@ =~= out@ + mark_from(cs@, reset@, i as int));
}

/// Appends a hunk.
pub fn put_hunk(out: &mut String, th: &Theme, h: &Hunk)
    ensures
        final(out)@ == old(out)@ + hunk_text(th, h),
{
    let ghost lines = h.diffs@.map_values(|l: String| l@);
    let ghost base = out@;
    put(out, "\r\n");
    put(out, th.blue.as_str());
    if h.expanded {
        put(out, "⌄");
    } else {
        put(out, "›");
    }
    if h.diffs.len() > 0 {
        put_header(out, &h.diffs[0], &th.reset_attr);
    }
    let ghost head = out@;
    assert(head =~= base + "\r\n"@ + th.blue@ + marker(h.expanded) + (if lines.len() > 0 {
        mark_from(lines[0], th.reset_attr@, 0)
    } else {
        Seq::empty()
    }));
    if h.expanded && h.diffs.len() > 0 {
        let mut i: usize = 1;
        assert(hunk_body(th, lines, 1) =~= Seq::<char>::empty());
        while i < h.diffs.len()
            invariant
                1 <= i <= h.diffs.len(),
                lines == h.diffs@.map_values(|l: String| l@),
                out@ =~= head + hunk_body(th, lines, i as int),
            decreases h.diffs.len() - i,
        {
            let line = &h.diffs[i];
            put(out, "\r\n");
            let cs = chars_of(line.as_str());
            if cs.len() > 0 && cs[0] == '+' {
                put(out, th.dark_green.as_str());
            } else if cs.len() > 0 && cs[0] == '-' {
                put(out, th.dark_red.as_str());
            } else {
                put(out, th.reset_fg.as_str());
            }
            put(out, line.as_str());
            i = i + 1;
        }
    } else {
        if h.expanded {
            assert(lines.len() == 0);
            assert(hunk_body(th, lines, lines.len() as int) =~= Seq::<char>::empty());
        }
        assert(out@ =~= head + Seq::<char>::empty());
    }
}

/// Appends lines joined so that each reads as an added line.
fn put_joined(out: &mut String, lines: &Vec<Vec<char>>)
    ensures
        final(out)@ == old(out)@ + joined(views(lines@), lines.len() as int),
{
    let ghost ls = views(lines@);
    let ghost base = out@;
    let mut i: usize = 0;
    while i < lines.len()
        invariant
            i <= lines.len(),
            ls == views(lines@),
            out@ =~= base + joined(ls, i as int),
        decreases lines.len() - i,
    {
        if i > 0 {
            put(out, "\r\n+");
        }
        let s = string_of(lines[i].as_slice());
        put(out, s.as_str());
        i = i + 1;
    }
}

/// Appends a file row, with its hunks or its content when expanded.
pub fn put_file(out: &mut String, th: &Theme, f: &FileDiff, selected: bool, content: &Option<String>)
    ensures
        final(out)@ == old(out)@ + file_text(th, f, selected, content_view(*content)),
{
    reveal(file_text);
    let ghost base = out@;
    put(out, "\r");
    if f.expanded {
        put(out, "⌄");
    } else {
        put(out, "›");
    }
    match f.kind {
        DiffType::Renamed => put(out, "[RENAME] "),
        DiffType::Deleted => put(out, "[DELETE] "),
        _ => {},
    }
    put(out, f.path.as_str());
    let ghost head = out@;
    assert(head =~= base + "\r"@ + marker(f.expanded) + kind_tag(f.kind) + f.path@);
    if !f.expanded {
        assert(out@ =~= head + Seq::<char>::empty());
    } else if f.diff.len() == 0 {
        match content {
            Some(c) => {
                put(out, "\r\n");
                put(out, th.reset_attr.as_str());
                put(out, th.dark_green.as_str());
                put(out, "+");
                let lines = split_lines(&chars_of(c.as_str()));
                put_joined(out, &lines);
                assert(out@ =~= head + ("\r\n"@ + th.reset_attr@ + th.dark_green@ + "+"@ + joined(
                    lines_of(c@),
                    lines_of(c@).len() as int,
                )));
            },
            None => {
                assert(out@ =~= head + Seq::<char>::empty());
            },
        }
    } else {
        let mut i: usize = 0;
        while i < f.diff.len()
            invariant
                i <= f.diff.len(),
                out@ =~= head + file_hunks(th, f, selected, i as int),
            decreases f.diff.len() - i,
        {
            put(out, th.reset_attr.as_str());
            if selected && i + 1 == f.cursor {
                put(out, th.reverse.as_str());
            }
            put_hunk(out, th, &f.diff[i]);
            i = i + 1;
        }
    }
}

/// Whether the text of the file at `i` shows the file's content, which the
/// caller reads: an expanded file without hunks.
pub fn wants_content(s: &Status, i: usize) -> (r: bool)
    requires
        i < s.diffs.len(),
    ensures
        r == (s.diffs@[i as int].expanded && s.diffs@[i as int].diff.len() == 0),
{
    s.diffs[i].expanded && s.diffs[i].diff.len() == 0
}

/// Appends the latest commit, where there is one.
fn put_head(out: &mut String, th: &Theme, head: &String)
    ensures
        final(out)@ == old(out)@ + head_text(th, head@),
{
    let hs = chars_of(head.as_str());
    if hs.len() == 0 {
        assert(out@ =~= out@ + Seq::<char>::empty());
        return;
    }
    let ws = split_words(&hs);
    let ghost wv = views(ws@);
    put(out, th.dim.as_str());
    put(out, "\r\n");
    if ws.len() > 0 {
        let w = string_of(ws[0].as_slice());
        put(out, w.as_str());
    }
    put(out, th.reset_attr.as_str());
    let ghost base = out@;
    assert(later_words(wv, 1) =~= Seq::<char>::empty());
    let mut i: usize = 1;
    while i < ws.len()
        invariant
            1 <= i,
            i <= ws.len() || ws.len() == 0,
            wv == views(ws@),
            out@ =~= base + later_words(wv, i as int),
        decreases ws.len() - i,
    {
        put(out, " ");
        let w = string_of(ws[i].as_slice());
        put(out, w.as_str());
        i = i + 1;
    }
    if ws.len() == 0 {
        assert(later_words(wv, 0) =~= Seq::<char>::empty());
    }
    put(out, "\n");
}

/// Appends the row of the file at `i`.
fn put_row(out: &mut String, th: &Theme, s: &Status, contents: &Vec<Option<String>>, i: usize)
    requires
        i < s.diffs.len(),
        contents.len() == s.diffs.len(),
    ensures
        final(out)@ == old(out)@ + status_row(th, s, contents@, i as int),
{
    let ghost before = out@;
    if i == 0 && s.count_untracked != 0 {
        put_heading(out, th, "Untracked files:");
    } else if i == s.count_untracked && s.count_unstaged != 0 {
        put_heading(out, th, "Unstaged changes:");
    } else if s.count_untracked <= i && i - s.count_untracked == s.count_unstaged {
        put_heading(out, th, "Staged changes:");
    }
    assert(out@ =~= before + section_heading(th, s, i as int));
    let ghost mid = out@;
    if s.diffs[i].cursor == 0 && s.cursor == i {
        put(out, th.reverse.as_str());
    }
    put(out, "\r    ");
    put_file(out, th, &s.diffs[i], s.cursor == i, &contents[i]);
    put(out, th.reset_attr.as_str());
    put(out, "\n");
    assert(out@ =~= mid + (if s.diffs@[i as int].cursor == 0 && s.cursor == i {
        th.reverse@
    } else {
        Seq::empty()
    }) + "\r    "@ + file_text(th, &s.diffs@[i as int], s.cursor == i, content_view(contents@[i as int]))
        + th.reset_attr@ + "\n"@);
}

/// Appends the heading of a run.
fn put_heading(out: &mut String, th: &Theme, title: &str)
    ensures
        final(out)@ == old(out)@ + "\r\n"@ + th.yellow@ + title@ + th.reset_color@ + "\n"@,
{
    put(out, "\r\n");
    put(out, th.yellow.as_str());
    put(out, title);
    put(out, th.reset_color.as_str());
    put(out, "\n");
}

/// The whole tree as text; `contents[i]` is what the file at `i` holds,
/// where it was read.
pub fn render(th: &Theme, s: &Status, contents: &Vec<Option<String>>) -> (r: String)
    requires
        contents.len() == s.diffs.len(),
    ensures
        r@ == status_text(th, s, contents@),
{
    let mut out = String::new();
    put(&mut out, "\rOn branch ");
    put(&mut out, th.bold.as_str());
    put(&mut out, s.branch.as_str());
    put(&mut out, th.reset_attr.as_str());
    put(&mut out, "\n");
    put_head(&mut out, th, &s.head);
    if s.diffs.len() == 0 {
        put(&mut out, "\r\n");
        put(&mut out, th.yellow.as_str());
        put(&mut out, "nothing to commit, working tree clean");
        put(&mut out, th.reset_fg.as_str());
    }
    let ghost top = out@;
    assert(top =~= status_top(th, s));
    let mut i: usize = 0;
    while i < s.diffs.len()
        invariant
            i <= s.diffs.len(),
            contents.len() == s.diffs.len(),
            out@ =~= top + status_files(th, s, contents@, i as int),
        decreases s.diffs.len() - i,
    {
        put_row(&mut out, th, s, contents, i);
        i = i + 1;
    }
    out
}

} // verus!
