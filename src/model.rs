//! The tree of changed files and hunks, its cursors, and the plans of the
//! staging commands that the cursor selects.
use vstd::prelude::*;
use crate::diff::{diff_of, hunks_view, lines_view, parse_diff, patches_view, FilePatch, PatchView};
use crate::text::{chars_of, string_of};
use crate::report::{
    entries_view, parse_status, report_of, DiffType, Entry, EntryView, ParseError, ReportView,
};

verus! {

/// A node of the tree that can be expanded and collapsed.
pub trait Expand: Sized {
    /// Whether the node shows its contents.
    spec fn is_expanded(&self) -> bool;

    /// The node with its flag flipped and all else kept.
    spec fn toggled(&self) -> Self;

    fn toggle_expand(&mut self)
        ensures
            *final(self) == old(self).toggled(),
            final(self).is_expanded() == !old(self).is_expanded(),
    ;

    fn expanded(&self) -> (r: bool)
        ensures
            r == self.is_expanded(),
    ;

    /// Toggling a node twice gives back the node it was.
    proof fn lemma_toggle_twice(&self)
        ensures
            self.toggled().toggled() == *self,
            self.toggled().is_expanded() == !self.is_expanded(),
    ;
}

/// One block of a diff: its lines, the `@@` header first.
#[derive(Debug)]
pub struct Hunk {
    pub diffs: Vec<String>,
    pub expanded: bool,
}

impl Hunk {
    pub fn new(diffs: Vec<String>) -> (r: Hunk)
        ensures
            r.diffs == diffs,
            !r.expanded,
    {
        Hunk { diffs, expanded: false }
    }
}

impl Expand for Hunk {
    open spec fn is_expanded(&self) -> bool {
        self.expanded
    }

    open spec fn toggled(&self) -> Hunk {
        Hunk { diffs: self.diffs, expanded: !self.expanded }
    }

    fn toggle_expand(&mut self) {
        self.expanded = !self.expanded;
    }

    fn expanded(&self) -> (r: bool) {
        self.expanded
    }

    proof fn lemma_toggle_twice(&self) {
    }
}

/// The lines of each hunk, as character sequences.
pub open spec fn hunk_lines(hs: Seq<Hunk>) -> Seq<Seq<Seq<char>>> {
    hs.map_values(|h: Hunk| lines_view(h.diffs))
}

/// One changed path, with its hunks and its local cursor: 0 selects the
/// path itself, `i` the hunk `i - 1`.
#[derive(Debug)]
pub struct FileDiff {
    pub path: String,
    pub expanded: bool,
    pub diff: Vec<Hunk>,
    pub cursor: usize,
    pub kind: DiffType,
}

/// Path, kind and the lines of each hunk.
pub type FileView = (Seq<char>, DiffType, Seq<Seq<Seq<char>>>);

impl FileDiff {
    /// The number of rows the file shows: itself, and its hunks when
    /// expanded.
    pub open spec fn rows(&self) -> nat {
        if self.expanded {
            (self.diff.len() + 1) as nat
        } else {
            1
        }
    }

    /// The local cursor is on one of the rows.
    pub open spec fn wf(&self) -> bool {
        self.cursor < self.rows()
    }

    pub open spec fn file_view(&self) -> FileView {
        (self.path@, self.kind, hunk_lines(self.diff@))
    }

    /// Just built or refreshed: collapsed, on its own row, hunks collapsed.
    pub open spec fn is_fresh(&self) -> bool {
        &&& !self.expanded
        &&& self.cursor == 0
        &&& forall|j: int| 0 <= j < self.diff.len() ==> !(#[trigger] self.diff@[j]).expanded
    }

    /// The file with its local cursor at `n`.
    pub open spec fn with_cursor(&self, n: usize) -> FileDiff {
        FileDiff {
            path: self.path,
            expanded: self.expanded,
            diff: self.diff,
            cursor: n,
            kind: self.kind,
        }
    }

    /// `f` is this file with its selected hunk toggled.
    pub open spec fn hunk_toggled(&self, f: FileDiff) -> bool {
        let k = self.cursor - 1;
        &&& f.path == self.path
        &&& f.expanded == self.expanded
        &&& f.cursor == self.cursor
        &&& f.kind == self.kind
        &&& f.diff@ == self.diff@.update(k, self.diff@[k].toggled())
    }

    /// The file after a move up: one row higher, or unchanged on the first.
    pub open spec fn moved_up(&self) -> FileDiff {
        if self.cursor > 0 {
            self.with_cursor((self.cursor - 1) as usize)
        } else {
            *self
        }
    }

    pub fn new(path: &str, kind: DiffType) -> (r: FileDiff)
        ensures
            r.path@ == path@,
            r.kind == kind,
            r.diff@.len() == 0,
            r.is_fresh(),
            r.wf(),
    {
        FileDiff { path: path.to_owned(), expanded: false, diff: Vec::new(), cursor: 0, kind }
    }

    /// Moves the local cursor up one row; fails on the first row.
    pub fn up(&mut self) -> (r: Result<(), ()>)
        ensures
            r is Err <==> old(self).cursor == 0,
            *final(self) == old(self).moved_up(),
    {
        if self.cursor == 0 {
            return Err(());
        }
        self.cursor = self.cursor - 1;
        Ok(())
    }

    /// Moves the local cursor down one row; fails on the last row.
    pub fn down(&mut self) -> (r: Result<(), ()>)
        requires
            old(self).wf(),
        ensures
            r is Err <==> old(self).cursor + 1 >= old(self).rows(),
            r is Err ==> *final(self) == *old(self),
            r is Ok ==> *final(self) == old(self).with_cursor((old(self).cursor + 1) as usize),
    {
        let last: usize = if self.expanded {
            self.diff.len()
        } else {
            0
        };
        if self.cursor >= last {
            return Err(());
        }
        self.cursor = self.cursor + 1;
        Ok(())
    }

    /// The number of rows the file shows.
    pub fn len(&self) -> (r: usize)
        requires
            self.diff.len() < usize::MAX,
        ensures
            r == self.rows(),
    {
        if self.expanded {
            self.diff.len() + 1
        } else {
            1
        }
    }
}

impl Expand for FileDiff {
    open spec fn is_expanded(&self) -> bool {
        self.expanded
    }

    open spec fn toggled(&self) -> FileDiff {
        FileDiff {
            path: self.path,
            expanded: !self.expanded,
            diff: self.diff,
            cursor: self.cursor,
            kind: self.kind,
        }
    }

    fn toggle_expand(&mut self) {
        self.expanded = !self.expanded;
    }

    fn expanded(&self) -> (r: bool) {
        self.expanded
    }

    proof fn lemma_toggle_twice(&self) {
    }
}

/// The views of a sequence of files.
pub open spec fn files_view(fs: Seq<FileDiff>) -> Seq<FileView> {
    fs.map_values(|f: FileDiff| f.file_view())
}

/// The hunks of the first file of `ps[i..]` with the given path; none where
/// no file has it.
pub open spec fn lookup_from(ps: Seq<PatchView>, path: Seq<char>, i: int) -> Seq<Seq<Seq<char>>>
    decreases ps.len() - i,
{
    if i < 0 || i >= ps.len() {
        Seq::empty()
    } else if ps[i].0 == path {
        ps[i].1
    } else {
        lookup_from(ps, path, i + 1)
    }
}

/// The hunks that a diff holds for a path.
pub open spec fn hunks_of_path(ps: Seq<PatchView>, path: Seq<char>) -> Seq<Seq<Seq<char>>> {
    lookup_from(ps, path, 0)
}

/// Whether an entry before `i` has the path of entry `i`.
pub open spec fn path_seen_before(es: Seq<EntryView>, i: int) -> bool {
    exists|j: int| 0 <= j < i && (#[trigger] es[j]).0 == es[i].0
}

/// The files of a list of entries. The first entry with a path gets the
/// hunks that the diff holds for it; a later entry with the same path gets
/// none.
pub open spec fn merged(es: Seq<EntryView>, ps: Seq<PatchView>) -> Seq<FileView> {
    Seq::new(
        es.len(),
        |i: int|
            (es[i].0, es[i].1, if path_seen_before(es, i) {
                Seq::empty()
            } else {
                hunks_of_path(ps, es[i].0)
            }),
    )
}

/// `s[i..]` without its leading quotes.
pub open spec fn drop_lead_quotes(s: Seq<char>, i: int) -> Seq<char>
    decreases s.len() - i,
{
    if 0 <= i < s.len() && s[i] == '"' {
        drop_lead_quotes(s, i + 1)
    } else {
        s.subrange(i, s.len() as int)
    }
}

/// `s[..j]` without its trailing quotes.
pub open spec fn drop_trail_quotes(s: Seq<char>, j: int) -> Seq<char>
    decreases j,
{
    if 0 < j <= s.len() && s[j - 1] == '"' {
        drop_trail_quotes(s, j - 1)
    } else {
        s.subrange(0, j)
    }
}

/// The summary of the latest commit: the log line without its quotes.
pub open spec fn head_of(log: Seq<char>) -> Seq<char> {
    let t = drop_lead_quotes(log, 0);
    drop_trail_quotes(t, t.len() as int)
}

/// Whether a staging command adds to the index or takes out of it.
#[derive(Clone, Copy, Debug, PartialEq, Eq, Structural)]
pub enum Stage {
    Add,
    Reset,
}

impl Stage {
    pub open spec fn word_spec(&self) -> Seq<char> {
        match self {
            Stage::Add => "add"@,
            Stage::Reset => "reset"@,
        }
    }

    /// The subcommand of the tool.
    pub fn word(&self) -> (r: String)
        ensures
            r@ == self.word_spec(),
    {
        match self {
            Stage::Add => "add".to_owned(),
            Stage::Reset => "reset".to_owned(),
        }
    }
}

/// What the tool is to be run with.
pub enum GitAction {
    /// Run it with these arguments and wait for it.
    Run(Vec<String>),
    /// Run it with these arguments and answer its prompts with these lines,
    /// in order, each ended by a newline; then wait for it.
    Patch(Vec<String>, Vec<String>),
}

/// A run of the tool, as character sequences.
pub enum ActionView {
    Run(Seq<Seq<char>>),
    Patch(Seq<Seq<char>>, Seq<Seq<char>>),
}

/// The views of a vector of strings.
pub open spec fn strings_view(v: Vec<String>) -> Seq<Seq<char>> {
    v@.map_values(|s: String| s@)
}

impl View for GitAction {
    type V = ActionView;

    open spec fn view(&self) -> ActionView {
        match self {
            GitAction::Run(a) => ActionView::Run(strings_view(*a)),
            GitAction::Patch(a, b) => ActionView::Patch(strings_view(*a), strings_view(*b)),
        }
    }
}

pub open spec fn action_opt_view(a: Option<GitAction>) -> Option<ActionView> {
    match a {
        Some(x) => Some(x@),
        None => None,
    }
}

/// The answers that select hunk `n - 1` in patch mode: `n - 1` declines,
/// then one accept.
pub open spec fn answers(n: nat) -> Seq<Seq<char>> {
    Seq::new(n, |i: int| if i + 1 < n { "n"@ } else { "y"@ })
}

/// The root of the tree: branch, latest commit, and the changed files in
/// three runs (untracked, unstaged, staged), with the selected file.
#[derive(Debug)]
pub struct Status {
    pub branch: String,
    pub head: String,
    pub diffs: Vec<FileDiff>,
    pub count_untracked: usize,
    pub count_unstaged: usize,
    pub count_staged: usize,
    pub cursor: usize,
}

impl Default for Status {
    /// An empty tree, as `Status::new` gives.
    fn default() -> (r: Status)
        ensures
            r.wf(),
            r.diffs@.len() == 0,
            r.branch@.len() == 0,
            r.head@.len() == 0,
            r.cursor == 0,
            r.count_untracked == 0,
            r.count_unstaged == 0,
            r.count_staged == 0,
    {
        Status::new()
    }
}

impl Status {
    /// The runs cover the files, the cursor is on a file when there is one,
    /// and each local cursor is on a row of its file.
    pub open spec fn wf(&self) -> bool {
        &&& self.count_untracked + self.count_unstaged + self.count_staged == self.diffs.len()
        &&& (self.diffs.len() > 0 ==> self.cursor < self.diffs.len())
        &&& forall|i: int| 0 <= i < self.diffs.len() ==> (#[trigger] self.diffs@[i]).wf()
    }

    /// Branch, latest commit and run lengths are those of `o`.
    pub open spec fn keeps_header(&self, o: Status) -> bool {
        &&& self.branch == o.branch
        &&& self.head == o.head
        &&& self.count_untracked == o.count_untracked
        &&& self.count_unstaged == o.count_unstaged
        &&& self.count_staged == o.count_staged
    }

    /// A move up: within the selected file, else to the file above, whose
    /// local cursor then moves up once.
    pub open spec fn after_up(&self) -> (Seq<FileDiff>, usize) {
        let c = self.cursor;
        let fs = self.diffs@;
        if fs.len() == 0 {
            (fs, c)
        } else if fs[c as int].cursor > 0 {
            (fs.update(c as int, fs[c as int].moved_up()), c)
        } else if c == 0 {
            (fs, c)
        } else {
            (fs.update(c - 1, fs[c - 1].moved_up()), (c - 1) as usize)
        }
    }

    /// A move down: within the selected file, else to the first row of the
    /// file below; nothing on the last row of the last file.
    pub open spec fn after_down(&self) -> (Seq<FileDiff>, usize) {
        let c = self.cursor;
        let fs = self.diffs@;
        if fs.len() == 0 {
            (fs, c)
        } else if fs[c as int].cursor + 1 < fs[c as int].rows() {
            (fs.update(c as int, fs[c as int].with_cursor((fs[c as int].cursor + 1) as usize)), c)
        } else if c + 1 < fs.len() {
            (fs.update(c + 1, fs[c + 1].with_cursor(0)), (c + 1) as usize)
        } else {
            (fs, c)
        }
    }

    /// `fs` are the files after a toggle of the focused node: the selected
    /// file on its own row, else the selected hunk.
    pub open spec fn expanded_to(&self, fs: Seq<FileDiff>) -> bool {
        let c = self.cursor as int;
        let old_fs = self.diffs@;
        if old_fs.len() == 0 {
            fs == old_fs
        } else if old_fs[c].cursor == 0 {
            fs == old_fs.update(c, old_fs[c].toggled())
        } else {
            &&& fs.len() == old_fs.len()
            &&& forall|i: int| 0 <= i < fs.len() && i != c ==> fs[i] == old_fs[i]
            &&& old_fs[c].hunk_toggled(fs[c])
        }
    }

    /// The run of the tool that a staging command takes at the cursor: the
    /// whole file on its own row, else patch mode answered up to the
    /// selected hunk; nothing without files.
    pub open spec fn planned(&self, command: Stage) -> Option<ActionView> {
        if self.diffs.len() == 0 {
            None
        } else {
            let f = self.diffs@[self.cursor as int];
            if f.cursor == 0 {
                Some(
                    ActionView::Run(
                        match command {
                            Stage::Add => seq!["add"@, f.path@],
                            Stage::Reset => if f.kind == DiffType::Deleted {
                                seq!["reset"@, "HEAD"@, f.path@]
                            } else {
                                seq!["reset"@, f.path@]
                            },
                        },
                    ),
                )
            } else {
                Some(
                    ActionView::Patch(
                        seq![command.word_spec(), "-p"@, f.path@],
                        answers(f.cursor as nat),
                    ),
                )
            }
        }
    }

    /// An empty tree, to be filled by `fetch`.
    pub fn new() -> (r: Status)
        ensures
            r.wf(),
            r.diffs@.len() == 0,
            r.branch@.len() == 0,
            r.head@.len() == 0,
            r.cursor == 0,
            r.count_untracked == 0,
            r.count_unstaged == 0,
            r.count_staged == 0,
    {
        Status {
            branch: String::new(),
            head: String::new(),
            diffs: Vec::new(),
            count_untracked: 0,
            count_unstaged: 0,
            count_staged: 0,
            cursor: 0,
        }
    }

    /// Rebuilds the tree from the tool's outputs: the status report, the
    /// diff of the working tree, the diff of the index, and the latest log
    /// line. Untracked files get no hunks; unstaged and staged files get
    /// those that their diff holds for their path. Files and flags are
    /// fresh; the cursor is kept, moved onto the last file if past it. A
    /// report that cannot be read leaves the tree as it was.
    pub fn fetch(&mut self, status_text: &str, diff_text: &str, cached_text: &str, log_text: &str) -> (r:
        Result<(), ParseError>)
        ensures
            match report_of(status_text@) {
                Err(e) => r == Err::<(), ParseError>(e) && *final(self) == *old(self),
                Ok(rep) => {
                    &&& r is Ok
                    &&& final(self).wf()
                    &&& final(self).branch@ == rep.0
                    &&& final(self).head@ == head_of(log_text@)
                    &&& final(self).count_untracked == rep.1.len()
                    &&& final(self).count_unstaged == rep.2.len()
                    &&& final(self).count_staged == rep.3.len()
                    &&& files_view(final(self).diffs@) == merged(rep.1, Seq::empty()) + merged(
                        rep.2,
                        diff_of(diff_text@),
                    ) + merged(rep.3, diff_of(cached_text@))
                    &&& forall|i: int|
                        0 <= i < final(self).diffs.len() ==> (#[trigger] final(self).diffs@[i]).is_fresh()
                    &&& final(self).cursor == if final(self).diffs.len() > 0 && old(self).cursor
                        >= final(self).diffs.len() {
                        (final(self).diffs.len() - 1) as usize
                    } else {
                        old(self).cursor
                    }
                },
            },
    {
        let report = match parse_status(status_text) {
            Ok(rep) => rep,
            Err(e) => {
                return Err(e);
            },
        };
        let unstaged_patches = parse_diff(diff_text);
        let staged_patches = parse_diff(cached_text);
        let no_patches: Vec<FilePatch> = Vec::new();
        assert(patches_view(no_patches@) =~= Seq::<PatchView>::empty());
        let mut untracked = files_of(&report.untracked, &no_patches);
        let mut unstaged = files_of(&report.unstaged, &unstaged_patches);
        let mut staged = files_of(&report.staged, &staged_patches);
        let ghost (vu, vn, vs) = (untracked@, unstaged@, staged@);
        self.branch = report.branch;
        self.head = head_from_log(log_text);
        self.count_untracked = untracked.len();
        self.count_unstaged = unstaged.len();
        self.count_staged = staged.len();
        untracked.append(&mut unstaged);
        untracked.append(&mut staged);
        self.diffs = untracked;
        assert(self.diffs@ =~= vu + vn + vs);
        assert(files_view(self.diffs@) =~= files_view(vu) + files_view(vn) + files_view(vs));
        assert forall|i: int| 0 <= i < self.diffs.len() implies (#[trigger] self.diffs@[i]).is_fresh()
            && self.diffs@[i].wf() by {
            if i < vu.len() {
                assert(self.diffs@[i] == vu[i]);
            } else if i < vu.len() + vn.len() {
                assert(self.diffs@[i] == vn[i - vu.len()]);
            } else {
                assert(self.diffs@[i] == vs[i - vu.len() - vn.len()]);
            }
        }
        if self.diffs.len() > 0 && self.cursor >= self.diffs.len() {
            self.cursor = self.diffs.len() - 1;
        }
        Ok(())
    }

    /// The run of the tool that stages or unstages what the cursor selects.
    fn stage_or_unstage(&self, command: Stage) -> (r: Option<GitAction>)
        requires
            self.wf(),
        ensures
            action_opt_view(r) == self.planned(command),
    {
        if self.diffs.len() == 0 {
            return None;
        }
        let file = &self.diffs[self.cursor];
        if file.cursor == 0 {
            let args: Vec<String> = match command {
                Stage::Add => {
                    let a = vec!["add".to_owned(), file.path.clone()];
                    assert(strings_view(a) =~= seq!["add"@, file.path@]);
                    a
                },
                Stage::Reset => match file.kind {
                    DiffType::Deleted => {
                        let a = vec!["reset".to_owned(), "HEAD".to_owned(), file.path.clone()];
                        assert(strings_view(a) =~= seq!["reset"@, "HEAD"@, file.path@]);
                        a
                    },
                    _ => {
                        let a = vec!["reset".to_owned(), file.path.clone()];
                        assert(strings_view(a) =~= seq!["reset"@, file.path@]);
                        a
                    },
                },
            };
            Some(GitAction::Run(args))
        } else {
            let args: Vec<String> = vec![command.word(), "-p".to_owned(), file.path.clone()];
            let replies = patch_answers(file.cursor);
            let r = GitAction::Patch(args, replies);
            assert(strings_view(args) =~= seq![command.word_spec(), "-p"@, file.path@]);
            Some(r)
        }
    }

    /// The run that stages the selected file or hunk; `None` without files.
    pub fn stage(&self) -> (r: Option<GitAction>)
        requires
            self.wf(),
        ensures
            action_opt_view(r) == self.planned(Stage::Add),
    {
        self.stage_or_unstage(Stage::Add)
    }

    /// The run that unstages the selected file or hunk; `None` without files.
    pub fn unstage(&self) -> (r: Option<GitAction>)
        requires
            self.wf(),
        ensures
            action_opt_view(r) == self.planned(Stage::Reset),
    {
        self.stage_or_unstage(Stage::Reset)
    }

    /// Toggles expand on the selected diff item.
    pub fn expand(&mut self)
        requires
            old(self).wf(),
        ensures
            final(self).wf(),
            final(self).keeps_header(*old(self)),
            final(self).cursor == old(self).cursor,
            old(self).expanded_to(final(self).diffs@),
    {
        if self.diffs.len() == 0 {
            return;
        }
        let c = self.cursor;
        if self.diffs[c].cursor == 0 {
            self.diffs[c].toggle_expand();
        } else {
            let k = self.diffs[c].cursor - 1;
            self.diffs[c].diff[k].toggle_expand();
        }
    }

    /// Move the cursor up one
    pub fn up(&mut self)
        requires
            old(self).wf(),
        ensures
            final(self).wf(),
            final(self).keeps_header(*old(self)),
            final(self).diffs@ == old(self).after_up().0,
            final(self).cursor == old(self).after_up().1,
    {
        if self.diffs.len() == 0 {
            return;
        }
        let c = self.cursor;
        if self.diffs[c].up().is_err() {
            if c > 0 {
                self.cursor = c - 1;
                let _ = self.diffs[c - 1].up();
            }
        }
        assert(self.diffs@ =~= old(self).after_up().0);
    }

    /// Move the cursor down one
    pub fn down(&mut self)
        requires
            old(self).wf(),
        ensures
            final(self).wf(),
            final(self).keeps_header(*old(self)),
            final(self).diffs@ == old(self).after_down().0,
            final(self).cursor == old(self).after_down().1,
    {
        if self.diffs.len() == 0 {
            return;
        }
        let c = self.cursor;
        if self.diffs[c].down().is_err() {
            if c + 1 < self.diffs.len() {
                self.cursor = c + 1;
                self.diffs[c + 1].cursor = 0;
            }
        }
        assert(self.diffs@ =~= old(self).after_down().0);
    }
}

/// The lines that answer patch mode up to hunk `n - 1`.
pub fn patch_answers(n: usize) -> (r: Vec<String>)
    requires
        n > 0,
    ensures
        strings_view(r) == answers(n as nat),
{
    let mut r: Vec<String> = Vec::new();
    let mut i: usize = 0;
    while i + 1 < n
        invariant
            i < n,
            strings_view(r) =~= Seq::new(i as nat, |j: int| "n"@),
        decreases n - i,
    {
        let ghost before = strings_view(r);
        r.push("n".to_owned());
        assert(strings_view(r) =~= before.push("n"@));
        i = i + 1;
    }
    let ghost before = strings_view(r);
    r.push("y".to_owned());
    assert(strings_view(r) =~= before.push("y"@));
    assert(strings_view(r) =~= answers(n as nat));
    r
}

/// In a well-formed tree the top-level cursor is on a file, when there is
/// one, and each local cursor is at most the number of hunks of its file.
/// Every way of building a tree (`new`, `fetch`) gives a well-formed one and
/// every move (`up`, `down`, `expand`) keeps it so.
pub proof fn lemma_cursor_bounds(s: Status)
    requires
        s.wf(),
    ensures
        s.diffs.len() > 0 ==> s.cursor < s.diffs.len(),
        forall|i: int| 0 <= i < s.diffs.len() ==> (#[trigger] s.diffs@[i]).cursor <= s.diffs@[i].diff.len(),
{
    assert forall|i: int| 0 <= i < s.diffs.len() implies (#[trigger] s.diffs@[i]).cursor <= s.diffs@[i].diff.len() by {
        assert(s.diffs@[i].wf());
    }
}

/// After a fetch the three runs cover the files, and in order the untracked,
/// unstaged and staged entries of the report occupy them.
pub proof fn lemma_fetch_partition(s: Status, rep: ReportView, unstaged: Seq<PatchView>, staged: Seq<PatchView>)
    requires
        s.count_untracked == rep.1.len(),
        s.count_unstaged == rep.2.len(),
        s.count_staged == rep.3.len(),
        files_view(s.diffs@) == merged(rep.1, Seq::empty()) + merged(rep.2, unstaged) + merged(rep.3, staged),
    ensures
        s.count_untracked + s.count_unstaged + s.count_staged == s.diffs.len(),
        forall|i: int| 0 <= i < s.count_untracked ==> {
            &&& (#[trigger] s.diffs@[i]).path@ == rep.1[i].0
            &&& s.diffs@[i].kind == rep.1[i].1
            &&& s.diffs@[i].diff.len() == 0
        },
        forall|i: int| s.count_untracked <= i < s.count_untracked + s.count_unstaged ==> {
            &&& (#[trigger] s.diffs@[i]).path@ == rep.2[i - s.count_untracked].0
            &&& s.diffs@[i].kind == rep.2[i - s.count_untracked].1
        },
        forall|i: int| s.count_untracked + s.count_unstaged <= i < s.diffs.len() ==> {
            &&& (#[trigger] s.diffs@[i]).path@ == rep.3[i - s.count_untracked - s.count_unstaged].0
            &&& s.diffs@[i].kind == rep.3[i - s.count_untracked - s.count_unstaged].1
        },
{
    let fv = files_view(s.diffs@);
    let a = merged(rep.1, Seq::empty());
    let b = merged(rep.2, unstaged);
    let c = merged(rep.3, staged);
    assert(fv.len() == s.diffs.len());
    assert forall|i: int| 0 <= i < s.count_untracked implies {
        &&& (#[trigger] s.diffs@[i]).path@ == rep.1[i].0
        &&& s.diffs@[i].kind == rep.1[i].1
        &&& s.diffs@[i].diff.len() == 0
    } by {
        assert(fv[i] == a[i]);
        assert(hunk_lines(s.diffs@[i].diff@).len() == s.diffs@[i].diff.len());
    }
    assert forall|i: int| s.count_untracked <= i < s.count_untracked + s.count_unstaged implies {
        &&& (#[trigger] s.diffs@[i]).path@ == rep.2[i - s.count_untracked].0
        &&& s.diffs@[i].kind == rep.2[i - s.count_untracked].1
    } by {
        assert(fv[i] == (a + b)[i]);
        assert(fv[i] == b[i - a.len()]);
    }
    assert forall|i: int| s.count_untracked + s.count_unstaged <= i < s.diffs.len() implies {
        &&& (#[trigger] s.diffs@[i]).path@ == rep.3[i - s.count_untracked - s.count_unstaged].0
        &&& s.diffs@[i].kind == rep.3[i - s.count_untracked - s.count_unstaged].1
    } by {
        assert(fv[i] == c[i - (a + b).len()]);
    }
}

/// After a fetch, the first unstaged entry with a path holds, line for line,
/// the hunks that the working-tree diff has for that path, and the first
/// staged entry with a path those that the index diff has for it.
pub proof fn lemma_fetch_attaches_hunks(
    s: Status,
    rep: ReportView,
    unstaged: Seq<PatchView>,
    staged: Seq<PatchView>,
    i: int,
)
    requires
        s.count_untracked == rep.1.len(),
        s.count_unstaged == rep.2.len(),
        s.count_staged == rep.3.len(),
        files_view(s.diffs@) == merged(rep.1, Seq::empty()) + merged(rep.2, unstaged) + merged(rep.3, staged),
        s.count_untracked <= i < s.diffs.len(),
    ensures
        i < s.count_untracked + s.count_unstaged && !path_seen_before(rep.2, i - s.count_untracked)
            ==> hunk_lines(s.diffs@[i].diff@) == hunks_of_path(unstaged, rep.2[i - s.count_untracked].0),
        i >= s.count_untracked + s.count_unstaged && !path_seen_before(
            rep.3,
            i - s.count_untracked - s.count_unstaged,
        ) ==> hunk_lines(s.diffs@[i].diff@) == hunks_of_path(
            staged,
            rep.3[i - s.count_untracked - s.count_unstaged].0,
        ),
{
    let fv = files_view(s.diffs@);
    let a = merged(rep.1, Seq::empty());
    let b = merged(rep.2, unstaged);
    let c = merged(rep.3, staged);
    assert(fv.len() == s.diffs.len());
    assert(fv[i] == s.diffs@[i].file_view());
    if i < s.count_untracked + s.count_unstaged {
        assert(fv[i] == (a + b)[i]);
        assert(fv[i] == b[i - a.len()]);
    } else {
        assert(fv[i] == c[i - (a + b).len()]);
    }
}

/// A copy of the lines of a hunk.
fn copy_lines(v: &Vec<String>) -> (r: Vec<String>)
    ensures
        lines_view(r) == lines_view(*v),
{
    let mut r: Vec<String> = Vec::new();
    let mut i: usize = 0;
    while i < v.len()
        invariant
            i <= v.len(),
            lines_view(r) =~= lines_view(*v).subrange(0, i as int),
        decreases v.len() - i,
    {
        let ghost before = lines_view(r);
        r.push(v[i].clone());
        assert(lines_view(r) =~= before.push(v@[i as int]@));
        i = i + 1;
    }
    assert(lines_view(*v).subrange(0, i as int) =~= lines_view(*v));
    r
}

/// Collapsed hunks with the given lines.
fn copy_hunks(hs: &Vec<Vec<String>>) -> (r: Vec<Hunk>)
    ensures
        hunk_lines(r@) == hunks_view(hs@),
        forall|j: int| 0 <= j < r.len() ==> !(#[trigger] r@[j]).expanded,
{
    let mut r: Vec<Hunk> = Vec::new();
    let mut i: usize = 0;
    while i < hs.len()
        invariant
            i <= hs.len(),
            hunk_lines(r@) =~= hunks_view(hs@).subrange(0, i as int),
            forall|j: int| 0 <= j < r.len() ==> !(#[trigger] r@[j]).expanded,
        decreases hs.len() - i,
    {
        let ghost before = hunk_lines(r@);
        r.push(Hunk::new(copy_lines(&hs[i])));
        assert(hunk_lines(r@) =~= before.push(lines_view(hs@[i as int])));
        i = i + 1;
    }
    assert(hunks_view(hs@).subrange(0, i as int) =~= hunks_view(hs@));
    r
}

/// The collapsed hunks that the first file of `patches` with this path has.
fn hunks_for(patches: &Vec<FilePatch>, path: &String) -> (r: Vec<Hunk>)
    ensures
        hunk_lines(r@) == hunks_of_path(patches_view(patches@), path@),
        forall|j: int| 0 <= j < r.len() ==> !(#[trigger] r@[j]).expanded,
{
    let ghost pv = patches_view(patches@);
    let mut i: usize = 0;
    while i < patches.len()
        invariant
            i <= patches.len(),
            pv == patches_view(patches@),
            lookup_from(pv, path@, i as int) == lookup_from(pv, path@, 0),
        decreases patches.len() - i,
    {
        if patches[i].path == *path {
            return copy_hunks(&patches[i].hunks);
        }
        i = i + 1;
    }
    let r: Vec<Hunk> = Vec::new();
    assert(hunk_lines(r@) =~= Seq::<Seq<Seq<char>>>::empty());
    r
}

/// Whether an entry before `i` has the path of entry `i`.
fn seen_before(entries: &Vec<Entry>, i: usize) -> (r: bool)
    requires
        i < entries.len(),
    ensures
        r == path_seen_before(entries_view(entries@), i as int),
{
    let ghost es = entries_view(entries@);
    let mut j: usize = 0;
    while j < i
        invariant
            j <= i < entries.len(),
            es == entries_view(entries@),
            forall|k: int| 0 <= k < j ==> (#[trigger] es[k]).0 != es[i as int].0,
        decreases i - j,
    {
        if entries[j].path == entries[i].path {
            assert(es[j as int].0 == es[i as int].0);
            return true;
        }
        j = j + 1;
    }
    false
}

/// Fresh files for the entries; the first entry with a path gets the hunks
/// of the first file of `patches` with that path.
fn files_of(entries: &Vec<Entry>, patches: &Vec<FilePatch>) -> (r: Vec<FileDiff>)
    ensures
        files_view(r@) == merged(entries_view(entries@), patches_view(patches@)),
        forall|j: int| 0 <= j < r.len() ==> (#[trigger] r@[j]).is_fresh() && r@[j].wf(),
{
    let ghost target = merged(entries_view(entries@), patches_view(patches@));
    let mut r: Vec<FileDiff> = Vec::new();
    let mut i: usize = 0;
    while i < entries.len()
        invariant
            i <= entries.len(),
            target == merged(entries_view(entries@), patches_view(patches@)),
            files_view(r@) =~= target.subrange(0, i as int),
            forall|j: int| 0 <= j < r.len() ==> (#[trigger] r@[j]).is_fresh() && r@[j].wf(),
        decreases entries.len() - i,
    {
        let e = &entries[i];
        let mut f = FileDiff::new(e.path.as_str(), e.kind);
        if !seen_before(entries, i) {
            f.diff = hunks_for(patches, &e.path);
        }
        assert(hunk_lines(f.diff@) =~= target[i as int].2);
        let ghost before = files_view(r@);
        r.push(f);
        assert(files_view(r@) =~= before.push(target[i as int]));
        i = i + 1;
    }
    assert(target.subrange(0, i as int) =~= target);
    r
}

/// The summary of the latest commit, read from the log line.
pub fn head_from_log(log: &str) -> (r: String)
    ensures
        r@ == head_of(log@),
{
    let cs = chars_of(log);
    let mut lo: usize = 0;
    while lo < cs.len() && cs[lo] == '"'
        invariant
            lo <= cs.len(),
            drop_lead_quotes(cs@, lo as int) == drop_lead_quotes(cs@, 0),
        decreases cs.len() - lo,
    {
        lo = lo + 1;
    }
    let ghost t = drop_lead_quotes(cs@, 0);
    assert(t =~= cs@.subrange(lo as int, cs.len() as int));
    let mut hi: usize = cs.len();
    while hi > lo && cs[hi - 1] == '"'
        invariant
            lo <= hi <= cs.len(),
            t =~= cs@.subrange(lo as int, cs.len() as int),
            drop_trail_quotes(t, hi - lo) == drop_trail_quotes(t, t.len() as int),
        decreases hi,
    {
        hi = hi - 1;
    }
    assert(drop_trail_quotes(t, hi - lo) =~= cs@.subrange(lo as int, hi as int));
    string_of(&cs.as_slice()[lo..hi])
}

} // verus!
