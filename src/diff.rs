//! Parsing of a unified-diff stream into the hunks of each file.
use vstd::prelude::*;
use crate::text::{
    chars_of, find, find_from, has_prefix, lemma_find_in_bounds, lines_of, split_lines,
    starts_with, string_of, views,
};

verus! {

/// The hunks of one file in a diff stream, in order; each hunk is its lines,
/// the `@@` header first.
pub struct FilePatch {
    pub path: String,
    pub hunks: Vec<Vec<String>>,
}

/// The lines of a hunk, as character sequences.
pub open spec fn lines_view(h: Vec<String>) -> Seq<Seq<char>> {
    h@.map_values(|l: String| l@)
}

/// The hunks of a file, as character sequences.
pub open spec fn hunks_view(hs: Seq<Vec<String>>) -> Seq<Seq<Seq<char>>> {
    hs.map_values(|h: Vec<String>| lines_view(h))
}

/// A file path together with its hunks.
pub type PatchView = (Seq<char>, Seq<Seq<Seq<char>>>);

impl View for FilePatch {
    type V = PatchView;

    open spec fn view(&self) -> PatchView {
        (self.path@, hunks_view(self.hunks@))
    }
}

/// The views of a sequence of file patches.
pub open spec fn patches_view(ps: Seq<FilePatch>) -> Seq<PatchView> {
    ps.map_values(|p: FilePatch| p@)
}

/// The marker that opens the block of a new file.
pub open spec fn file_marker() -> Seq<char> {
    seq!['d', 'i', 'f', 'f', ' ', '-', '-', 'g', 'i', 't', ' ']
}

/// The marker that opens a hunk.
pub open spec fn hunk_marker() -> Seq<char> {
    seq!['@', '@']
}

/// What separates the old and the new path in a file header.
pub open spec fn new_path_marker() -> Seq<char> {
    seq![' ', 'b', '/']
}

/// The path that a file header names: what follows the first ` b/`, or the
/// whole remainder of the header where there is none.
pub open spec fn header_path(line: Seq<char>) -> Seq<char> {
    let rest = line.subrange(file_marker().len() as int, line.len() as int);
    match find_from(rest, new_path_marker(), 0) {
        Some(k) => rest.subrange(k + 3, rest.len() as int),
        None => rest,
    }
}

/// The effect of one line on the files parsed so far: a file header opens a
/// new file; a hunk header opens a hunk in the last file; any other line goes
/// to the last hunk of the last file, and is dropped where there is none.
pub open spec fn diff_step(acc: Seq<PatchView>, line: Seq<char>) -> Seq<PatchView> {
    if starts_with(line, file_marker()) {
        acc.push((header_path(line), Seq::empty()))
    } else if acc.len() == 0 {
        acc
    } else if starts_with(line, hunk_marker()) {
        let f = acc.last();
        acc.update(acc.len() - 1, (f.0, f.1.push(seq![line])))
    } else if acc.last().1.len() == 0 {
        acc
    } else {
        let f = acc.last();
        let h = f.1.last();
        acc.update(acc.len() - 1, (f.0, f.1.update(f.1.len() - 1, h.push(line))))
    }
}

/// The files parsed from `lines[i..]`, given those parsed before.
pub open spec fn diff_from(lines: Seq<Seq<char>>, i: int, acc: Seq<PatchView>) -> Seq<PatchView>
    decreases lines.len() - i,
{
    if i < 0 || i >= lines.len() {
        acc
    } else {
        diff_from(lines, i + 1, diff_step(acc, lines[i]))
    }
}

/// The files of a diff stream, in the order of the stream.
pub open spec fn diff_of(text: Seq<char>) -> Seq<PatchView> {
    diff_from(lines_of(text), 0, Seq::empty())
}

/// Parsing a text twice gives the same files and hunks: what `parse_diff`
/// returns depends on the text alone.
pub proof fn lemma_parse_diff_deterministic(text: Seq<char>, first: Seq<FilePatch>, second: Seq<FilePatch>)
    requires
        patches_view(first) == diff_of(text),
        patches_view(second) == diff_of(text),
    ensures
        patches_view(first) == patches_view(second),
        first.len() == second.len(),
        forall|i: int| 0 <= i < first.len() ==> (#[trigger] first[i])@ == second[i]@,
{
    assert(patches_view(first).len() == first.len());
    assert(patches_view(second).len() == second.len());
    assert forall|i: int| 0 <= i < first.len() implies (#[trigger] first[i])@ == second[i]@ by {
        assert(patches_view(first)[i] == first[i]@);
        assert(patches_view(second)[i] == second[i]@);
    }
}

/// Parses a unified-diff stream into the hunks of each file, in order.
pub fn parse_diff(text: &str) -> (r: Vec<FilePatch>)
    ensures
        patches_view(r@) == diff_of(text@),
{
    let cs = chars_of(text);
    let lines = split_lines(&cs);
    let ghost ls = lines_of(text@);
    let file_mark: Vec<char> = vec!['d', 'i', 'f', 'f', ' ', '-', '-', 'g', 'i', 't', ' '];
    let hunk_mark: Vec<char> = vec!['@', '@'];
    assert(file_mark@ =~= file_marker());
    assert(hunk_mark@ =~= hunk_marker());
    let mut files: Vec<FilePatch> = Vec::new();
    assert(patches_view(files@) =~= Seq::<PatchView>::empty());
    let mut i: usize = 0;
    while i < lines.len()
        invariant
            i <= lines.len(),
            views(lines@) == ls,
            file_mark@ == file_marker(),
            hunk_mark@ == hunk_marker(),
            diff_from(ls, i as int, patches_view(files@)) == diff_from(ls, 0, Seq::empty()),
        decreases lines.len() - i,
    {
        let line = &lines[i];
        assert(line@ == ls[i as int]);
        let ghost before = patches_view(files@);
        if has_prefix(line, &file_mark) {
            let path = header_path_of(line);
            let p = FilePatch { path, hunks: Vec::new() };
            assert(p@ =~= (header_path(line@), Seq::<Seq<Seq<char>>>::empty()));
            files.push(p);
            assert(patches_view(files@) =~= diff_step(before, line@));
        } else if files.len() > 0 {
            let mut f = files.pop().unwrap();
            let ghost rest = files@;
            let ghost f_old = f@;
            assert(before =~= patches_view(rest).push(f_old));
            if has_prefix(line, &hunk_mark) {
                let mut h: Vec<String> = Vec::new();
                h.push(string_of(line.as_slice()));
                assert(lines_view(h) =~= seq![line@]);
                let ghost hs = f.hunks@;
                f.hunks.push(h);
                assert(hunks_view(f.hunks@) =~= hunks_view(hs).push(seq![line@]));
                assert(f@ == (f_old.0, f_old.1.push(seq![line@])));
                files.push(f);
            } else if f.hunks.len() > 0 {
                let mut h = f.hunks.pop().unwrap();
                let ghost hs = f.hunks@;
                let ghost hv = lines_view(h);
                h.push(string_of(line.as_slice()));
                assert(lines_view(h) =~= hv.push(line@));
                f.hunks.push(h);
                assert(hunks_view(f.hunks@) =~= hunks_view(hs).push(hv.push(line@)));
                assert(hunks_view(hs).push(hv) =~= f_old.1);
                assert(f@ == (f_old.0, f_old.1.update(f_old.1.len() - 1, f_old.1.last().push(line@))));
                files.push(f);
            } else {
                files.push(f);
            }
            assert(patches_view(files@) =~= patches_view(rest).push(f@));
            assert(patches_view(files@) =~= diff_step(before, line@));
        }
        i = i + 1;
    }
    files
}

/// The path named by a file header.
fn header_path_of(line: &Vec<char>) -> (r: String)
    requires
        starts_with(line@, file_marker()),
    ensures
        r@ == header_path(line@),
{
    assert(file_marker().len() == 11);
    let rest: Vec<char> = slice_from(line, 11);
    let mark: Vec<char> = vec![' ', 'b', '/'];
    assert(mark@ =~= new_path_marker());
    match find(&rest, &mark, 0) {
        Some(k) => {
            proof {
                lemma_find_in_bounds(rest@, mark@, 0);
            }
            let p = slice_from(&rest, k + 3);
            let r = string_of(p.as_slice());
            assert(rest@ == line@.subrange(11, line@.len() as int));
            assert(find_from(rest@, new_path_marker(), 0) == Some(k as int));
            assert(r@ == rest@.subrange(k + 3, rest@.len() as int));
            assert(r@ == header_path(line@));
            r
        },
        None => string_of(rest.as_slice()),
    }
}

/// The characters of `v` from position `start` on.
fn slice_from(v: &Vec<char>, start: usize) -> (r: Vec<char>)
    requires
        start <= v.len(),
    ensures
        r@ == v@.subrange(start as int, v.len() as int),
{
    let mut r: Vec<char> = Vec::new();
    let mut i: usize = start;
    while i < v.len()
        invariant
            start <= i <= v.len(),
            r@ == v@.subrange(start as int, i as int),
        decreases v.len() - i,
    {
        r.push(v[i]);
        i = i + 1;
    }
    r
}

} // verus!
