//! Parsing of the sectioned status report into its lists of changed paths.
use vstd::prelude::*;
use crate::text::{
    chars_of, find, find_from, has_prefix, lemma_find_in_bounds, lines_of, skip_blanks, split_lines, starts_with,
    string_of, trim_start, views,
};

verus! {

/// How a path has changed.
#[derive(Clone, Copy, Debug, PartialEq, Eq, Structural)]
pub enum DiffType {
    Modified,
    Created,
    Untracked,
    Renamed,
    Deleted,
}

/// Why a status report could not be read.
#[derive(Clone, Copy, Debug, PartialEq, Eq, Structural)]
pub enum ParseError {
    /// The report does not begin with `On branch `.
    MissingBranch,
    /// An entry of a staged or unstaged section has a label that is not known.
    UnknownPrefix,
}

/// One changed path of a status report.
pub struct Entry {
    pub path: String,
    pub kind: DiffType,
}

/// A path and how it changed.
pub type EntryView = (Seq<char>, DiffType);

impl View for Entry {
    type V = EntryView;

    open spec fn view(&self) -> EntryView {
        (self.path@, self.kind)
    }
}

/// The views of a sequence of entries.
pub open spec fn entries_view(v: Seq<Entry>) -> Seq<EntryView> {
    v.map_values(|e: Entry| e@)
}

/// The branch and the three lists of a status report.
pub struct StatusReport {
    pub branch: String,
    pub untracked: Vec<Entry>,
    pub unstaged: Vec<Entry>,
    pub staged: Vec<Entry>,
}

/// Branch, untracked, unstaged and staged entries.
pub type ReportView = (Seq<char>, Seq<EntryView>, Seq<EntryView>, Seq<EntryView>);

impl View for StatusReport {
    type V = ReportView;

    open spec fn view(&self) -> ReportView {
        (
            self.branch@,
            entries_view(self.untracked@),
            entries_view(self.unstaged@),
            entries_view(self.staged@),
        )
    }
}

/// The section of the report that a line belongs to.
#[derive(Clone, Copy, Debug, PartialEq, Eq, Structural)]
pub enum Section {
    Outside,
    Untracked,
    Unstaged,
    Staged,
}

/// Section, lines still to discard, and the three lists read so far.
pub type ScanState = (Section, nat, Seq<EntryView>, Seq<EntryView>, Seq<EntryView>);

pub open spec fn branch_prefix() -> Seq<char> {
    "On branch "@
}

pub open spec fn untracked_header() -> Seq<char> {
    "Untracked files:"@
}

pub open spec fn staged_header() -> Seq<char> {
    "Changes to be committed:"@
}

pub open spec fn unstaged_header() -> Seq<char> {
    "Changes not staged for commit:"@
}

pub open spec fn label_separator() -> Seq<char> {
    "  "@
}

/// The change kind that an entry label stands for.
pub open spec fn kind_of_label(label: Seq<char>) -> Option<DiffType> {
    if label == "new file:"@ {
        Some(DiffType::Created)
    } else if label == "modified:"@ {
        Some(DiffType::Modified)
    } else if label == "renamed:"@ {
        Some(DiffType::Renamed)
    } else if label == "deleted:"@ {
        Some(DiffType::Deleted)
    } else {
        None
    }
}

/// An entry of a staged or unstaged section, leading whitespace dropped: a
/// label ending at the first two spaces, then the path; a line without two
/// spaces has no label and is an untracked path.
pub open spec fn entry_of(line: Seq<char>) -> Result<EntryView, ParseError> {
    let t = trim_start(line);
    match find_from(t, label_separator(), 0) {
        None => Ok((t, DiffType::Untracked)),
        Some(k) => match kind_of_label(t.subrange(0, k)) {
            None => Err(ParseError::UnknownPrefix),
            Some(kind) => Ok((trim_start(t.subrange(k, t.len() as int)), kind)),
        },
    }
}

/// The effect of one line of the report after the branch line.
pub open spec fn scan_step(st: ScanState, line: Seq<char>) -> Result<ScanState, ParseError> {
    let (sec, skip, u, un, s) = st;
    if skip > 0 {
        Ok((sec, (skip - 1) as nat, u, un, s))
    } else if sec == Section::Outside {
        if line == untracked_header() {
            Ok((Section::Untracked, 1, u, un, s))
        } else if line == staged_header() {
            Ok((Section::Staged, 2, u, un, s))
        } else if line == unstaged_header() {
            Ok((Section::Unstaged, 2, u, un, s))
        } else {
            Ok(st)
        }
    } else if line.len() == 0 {
        Ok((Section::Outside, 0, u, un, s))
    } else if sec == Section::Untracked {
        Ok((sec, 0, u.push((trim_start(line), DiffType::Untracked)), un, s))
    } else {
        match entry_of(line) {
            Err(e) => Err(e),
            Ok(e) => if sec == Section::Unstaged {
                Ok((sec, 0, u, un.push(e), s))
            } else {
                Ok((sec, 0, u, un, s.push(e)))
            },
        }
    }
}

/// The state after the lines `lines[i..]`, or the first error among them.
pub open spec fn scan_from(lines: Seq<Seq<char>>, i: int, st: ScanState) -> Result<
    ScanState,
    ParseError,
>
    decreases lines.len() - i,
{
    if i < 0 || i >= lines.len() {
        Ok(st)
    } else {
        match scan_step(st, lines[i]) {
            Err(e) => Err(e),
            Ok(next) => scan_from(lines, i + 1, next),
        }
    }
}

/// What a status report holds: its first line names the branch; the
/// sections that follow give the three lists.
pub open spec fn report_of(text: Seq<char>) -> Result<ReportView, ParseError> {
    let ls = lines_of(text);
    if ls.len() == 0 || !starts_with(ls[0], branch_prefix()) {
        Err(ParseError::MissingBranch)
    } else {
        match scan_from(ls, 1, (Section::Outside, 0, Seq::empty(), Seq::empty(), Seq::empty())) {
            Err(e) => Err(e),
            Ok(st) => Ok(
                (ls[0].subrange(branch_prefix().len() as int, ls[0].len() as int), st.2, st.3, st.4),
            ),
        }
    }
}

/// Whether two character sequences are equal.
fn same_chars(a: &Vec<char>, b: &Vec<char>) -> (r: bool)
    ensures
        r == (a@ == b@),
{
    if a.len() != b.len() {
        return false;
    }
    let r = has_prefix(a, b);
    if r {
        assert(a@ =~= a@.subrange(0, b@.len() as int));
    } else {
        proof {
            if a@ == b@ {
                assert(a@.subrange(0, b@.len() as int) =~= b@);
            }
        }
    }
    r
}

/// The characters of `v` in `[lo, hi)`.
fn slice_chars(v: &Vec<char>, lo: usize, hi: usize) -> (r: Vec<char>)
    requires
        lo <= hi <= v.len(),
    ensures
        r@ == v@.subrange(lo as int, hi as int),
{
    let mut r: Vec<char> = Vec::new();
    let mut i: usize = lo;
    while i < hi
        invariant
            lo <= i <= hi <= v.len(),
            r@ == v@.subrange(lo as int, i as int),
        decreases hi - i,
    {
        r.push(v[i]);
        i = i + 1;
    }
    r
}

/// `v` without its leading blanks.
fn trimmed(v: &Vec<char>) -> (r: Vec<char>)
    ensures
        r@ == trim_start(v@),
{
    let k = skip_blanks(v);
    slice_chars(v, k, v.len())
}

/// Reads one entry of a staged or unstaged section.
pub fn parse_entry(line: &Vec<char>) -> (r: Result<Entry, ParseError>)
    ensures
        match r {
            Ok(e) => entry_of(line@) == Ok::<EntryView, ParseError>(e@),
            Err(e) => entry_of(line@) == Err::<EntryView, ParseError>(e),
        },
{
    let t = trimmed(line);
    let sep = chars_of("  ");
    match find(&t, &sep, 0) {
        None => Ok(Entry { path: string_of(t.as_slice()), kind: DiffType::Untracked }),
        Some(k) => {
            proof {
                lemma_find_in_bounds(t@, sep@, 0);
            }
            let label = slice_chars(&t, 0, k);
            let rest = slice_chars(&t, k, t.len());
            let kind = if same_chars(&label, &chars_of("new file:")) {
                DiffType::Created
            } else if same_chars(&label, &chars_of("modified:")) {
                DiffType::Modified
            } else if same_chars(&label, &chars_of("renamed:")) {
                DiffType::Renamed
            } else if same_chars(&label, &chars_of("deleted:")) {
                DiffType::Deleted
            } else {
                return Err(ParseError::UnknownPrefix);
            };
            let path = trimmed(&rest);
            Ok(Entry { path: string_of(path.as_slice()), kind })
        },
    }
}

/// Reads a status report: the branch from its first line, then the
/// untracked, unstaged and staged entries of its sections.
pub fn parse_status(text: &str) -> (r: Result<StatusReport, ParseError>)
    ensures
        match r {
            Ok(rep) => report_of(text@) == Ok::<ReportView, ParseError>(rep@),
            Err(e) => report_of(text@) == Err::<ReportView, ParseError>(e),
        },
{
    let cs = chars_of(text);
    let lines = split_lines(&cs);
    let ghost ls = lines_of(text@);
    assert(views(lines@) == ls);
    let prefix = chars_of("On branch ");
    if lines.len() == 0 || !has_prefix(&lines[0], &prefix) {
        return Err(ParseError::MissingBranch);
    }
    assert(lines[0]@ == ls[0]);
    assert(starts_with(ls[0], branch_prefix()));
    let branch_chars = slice_chars(&lines[0], prefix.len(), lines[0].len());
    let branch = string_of(branch_chars.as_slice());
    let h_untracked = chars_of("Untracked files:");
    let h_staged = chars_of("Changes to be committed:");
    let h_unstaged = chars_of("Changes not staged for commit:");
    let mut sec = Section::Outside;
    let mut skip: usize = 0;
    let mut untracked: Vec<Entry> = Vec::new();
    let mut unstaged: Vec<Entry> = Vec::new();
    let mut staged: Vec<Entry> = Vec::new();
    let ghost init: ScanState = (Section::Outside, 0, Seq::empty(), Seq::empty(), Seq::empty());
    assert(entries_view(untracked@) =~= Seq::<EntryView>::empty());
    let mut i: usize = 1;
    while i < lines.len()
        invariant
            1 <= i <= lines.len(),
            views(lines@) == ls,
            ls.len() > 0,
            ls == lines_of(text@),
            init == (Section::Outside, 0nat, Seq::<EntryView>::empty(), Seq::<EntryView>::empty(), Seq::<EntryView>::empty()),
            starts_with(ls[0], branch_prefix()),
            h_untracked@ == untracked_header(),
            h_staged@ == staged_header(),
            h_unstaged@ == unstaged_header(),
            skip <= 2,
            scan_from(ls, i as int, (sec, skip as nat, entries_view(untracked@), entries_view(unstaged@), entries_view(staged@)))
                == scan_from(ls, 1, init),
        decreases lines.len() - i,
    {
        let line = &lines[i];
        assert(line@ == ls[i as int]);
        let ghost u0 = entries_view(untracked@);
        let ghost un0 = entries_view(unstaged@);
        let ghost s0 = entries_view(staged@);
        if skip > 0 {
            skip = skip - 1;
        } else if sec == Section::Outside {
            if same_chars(line, &h_untracked) {
                sec = Section::Untracked;
                skip = 1;
            } else if same_chars(line, &h_staged) {
                sec = Section::Staged;
                skip = 2;
            } else if same_chars(line, &h_unstaged) {
                sec = Section::Unstaged;
                skip = 2;
            }
        } else if line.len() == 0 {
            sec = Section::Outside;
        } else if sec == Section::Untracked {
            let p = trimmed(line);
            let e = Entry { path: string_of(p.as_slice()), kind: DiffType::Untracked };
            untracked.push(e);
            assert(entries_view(untracked@) =~= u0.push((trim_start(line@), DiffType::Untracked)));
        } else {
            match parse_entry(line) {
                Err(e) => {
                    let ghost st: ScanState = (sec, skip as nat, u0, un0, s0);
                    assert(scan_step(st, line@) == Err::<ScanState, ParseError>(e));
                    assert(scan_from(ls, i as int, st) == Err::<ScanState, ParseError>(e));
                    return Err(e);
                },
                Ok(e) => {
                    if sec == Section::Unstaged {
                        unstaged.push(e);
                        assert(entries_view(unstaged@) =~= un0.push(e@));
                    } else {
                        staged.push(e);
                        assert(entries_view(staged@) =~= s0.push(e@));
                    }
                },
            }
        }
        i = i + 1;
    }
    Ok(StatusReport { branch, untracked, unstaged, staged })
}

} // verus!
