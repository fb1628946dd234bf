//! The Git changes panel's decisions: when it exists, what it says in place of
//! a list, and how a diff line is cut into the rows it is drawn in.

use vstd::prelude::*;
use crate::members::{toggle, turned_over};
use crate::text::{chars_of, decimal, push_chars, push_str, same_text, string_of};

verus! {

/// A half-open run of byte offsets, `start..end`.
pub struct Span {
    pub start: usize,
    pub end: usize,
}

/// The part of a highlighted run `source` that falls in a drawn row
/// `segment`, counted from the row's start; none where they do not overlap.
pub open spec fn clipped(source: Span, segment: Span) -> Option<(int, int)> {
    let start = if source.start >= segment.start { source.start } else { segment.start };
    let end = if source.end <= segment.end { source.end } else { segment.end };
    if start < end {
        Some((start - segment.start, end - segment.start))
    } else {
        None
    }
}

/// Highlighting for a drawn row: the run `source` cut to `segment` and moved
/// to the row's own offsets.
pub fn clipped_range(source: &Span, segment: &Span) -> (r: Option<Span>)
    ensures
        match clipped(*source, *segment) {
            None => r is None,
            Some((a, b)) => r matches Some(s) && s.start == a && s.end == b,
        },
{
    let start = if source.start >= segment.start { source.start } else { segment.start };
    let end = if source.end <= segment.end { source.end } else { segment.end };
    if start < end {
        Some(Span { start: start - segment.start, end: end - segment.start })
    } else {
        None
    }
}

/// The row boundaries of a line `len` bytes long that wraps at `starts`: the
/// start, each wrap, the end.
pub open spec fn bounds(starts: Seq<usize>, len: usize) -> Seq<usize> {
    seq![0usize] + starts + seq![len]
}

/// The rows a line is drawn in: one between each pair of neighbouring bounds.
pub fn segments(starts: &Vec<usize>, len: usize) -> (rows: Vec<Span>)
    ensures
        rows.len() == starts.len() + 1,
        forall|k: int|
            0 <= k < rows.len() ==> #[trigger] rows@[k].start == bounds(starts@, len)[k]
                && rows@[k].end == bounds(starts@, len)[k + 1],
{
    let ghost b = bounds(starts@, len);
    let mut rows: Vec<Span> = Vec::new();
    let mut previous: usize = 0;
    let mut i: usize = 0;
    while i < starts.len()
        invariant
            b == bounds(starts@, len),
            i <= starts.len(),
            rows.len() == i,
            previous == b[i as int],
            forall|k: int|
                0 <= k < i ==> #[trigger] rows@[k].start == b[k] && rows@[k].end == b[k + 1],
        decreases starts.len() - i,
    {
        rows.push(Span { start: previous, end: starts[i] });
        previous = starts[i];
        i += 1;
    }
    rows.push(Span { start: previous, end: len });
    rows
}

/// The widest line number of a diff: the greatest of `numbers`, and at
/// least one.
pub open spec fn widest(numbers: Seq<usize>) -> nat
    decreases numbers.len(),
{
    if numbers.len() == 0 {
        1
    } else {
        let rest = widest(numbers.drop_last());
        if numbers.last() > rest {
            numbers.last() as nat
        } else {
            rest
        }
    }
}

/// How many digits the number columns are sized for: those of the widest
/// number, and never fewer than two.
pub fn number_digits(numbers: &Vec<usize>) -> (d: usize)
    ensures
        d == if decimal(widest(numbers@)).len() < 2 {
            2
        } else {
            decimal(widest(numbers@)).len()
        },
{
    let mut most: usize = 1;
    let mut i: usize = 0;
    while i < numbers.len()
        invariant
            i <= numbers.len(),
            most == widest(numbers@.take(i as int)),
        decreases numbers.len() - i,
    {
        assert(numbers@.take(i + 1).drop_last() =~= numbers@.take(i as int));
        if numbers[i] > most {
            most = numbers[i];
        }
        i += 1;
    }
    assert(numbers@.take(numbers.len() as int) =~= numbers@);
    let mut digits: Vec<char> = Vec::new();
    crate::text::push_decimal(&mut digits, most as u64);
    if digits.len() < 2 {
        2
    } else {
        digits.len()
    }
}

/// Every drawn row of the visible lines `rows`, in order: each line's index
/// with each of its segments.
pub open spec fn drawn(rows: Seq<usize>, wrapped: Seq<Seq<Span>>) -> Seq<(usize, Span)>
    decreases rows.len(),
{
    if rows.len() == 0 {
        Seq::empty()
    } else {
        drawn(rows.drop_last(), wrapped) + wrapped[rows.last() as int].map_values(
            |s: Span| (rows.last(), s),
        )
    }
}

/// The rows the diff list draws: for each visible line, in order, its
/// wrapped segments.
pub fn visual_rows(rows: &Vec<usize>, wrapped: &Vec<Vec<Span>>) -> (out: Vec<(usize, Span)>)
    requires
        forall|k: int| 0 <= k < rows.len() ==> #[trigger] rows@[k] < wrapped.len(),
    ensures
        out@ == drawn(rows@, wrapped@.map_values(|w: Vec<Span>| w@)),
{
    let ghost ws = wrapped@.map_values(|w: Vec<Span>| w@);
    let mut out: Vec<(usize, Span)> = Vec::new();
    let mut i: usize = 0;
    while i < rows.len()
        invariant
            ws == wrapped@.map_values(|w: Vec<Span>| w@),
            i <= rows.len(),
            forall|k: int| 0 <= k < rows.len() ==> #[trigger] rows@[k] < wrapped.len(),
            out@ == drawn(rows@.take(i as int), ws),
        decreases rows.len() - i,
    {
        let ix = rows[i];
        let line = &wrapped[ix];
        assert(ws[ix as int] == line@);
        let ghost before = out@;
        let mut j: usize = 0;
        while j < line.len()
            invariant
                j <= line.len(),
                out@ == before + line@.take(j as int).map_values(|s: Span| (ix, s)),
            decreases line.len() - j,
        {
            let s = &line[j];
            out.push((ix, Span { start: s.start, end: s.end }));
            j += 1;
            assert(line@.take(j as int).map_values(|s: Span| (ix, s)) =~= line@.take(
                j - 1,
            ).map_values(|s: Span| (ix, s)).push((ix, line@[j - 1])));
        }
        assert(line@.take(line.len() as int) =~= line@);
        assert(rows@.take(i + 1).drop_last() =~= rows@.take(i as int));
        assert(rows@.take(i + 1).last() == ix);
        i += 1;
    }
    assert(rows@.take(rows.len() as int) =~= rows@);
    out
}

/// What the panel says in place of a list of files: the last error; that it
/// is still loading; that the directory is not in a repository; that there is
/// nothing to show.
pub open spec fn message_of(error: Option<Seq<char>>, ready: bool, repository: bool, count: nat) -> Option<
    Seq<char>,
> {
    match error {
        Some(e) => Some(e),
        None => if !ready {
            Some("Loading Git changes…"@)
        } else if !repository {
            Some("This directory is not in a Git repository."@)
        } else if count == 0 {
            Some("Working tree clean"@)
        } else {
            None
        },
    }
}

/// See [`message_of`].
pub fn message(error: Option<&str>, ready: bool, repository: bool, count: usize) -> (m: Option<
    String,
>)
    ensures
        match message_of(
            match error {
                Some(e) => Some(e@),
                None => None,
            },
            ready,
            repository,
            count as nat,
        ) {
            Some(t) => m matches Some(s) && s@ == t,
            None => m is None,
        },
{
    match error {
        Some(e) => Some(e.to_owned()),
        None => if !ready {
            Some("Loading Git changes…".to_owned())
        } else if !repository {
            Some("This directory is not in a Git repository.".to_owned())
        } else if count == 0 {
            Some("Working tree clean".to_owned())
        } else {
            None
        },
    }
}

/// A changed file as listed: its path, after its old path where it was moved.
pub fn file_label(path: &str, moved_from: Option<&str>) -> (s: String)
    ensures
        moved_from is None ==> s@ == path@,
        moved_from matches Some(o) ==> s@ == o@ + " → "@ + path@,
{
    match moved_from {
        None => path.to_owned(),
        Some(o) => {
            let mut out = chars_of(o);
            push_str(&mut out, " → ");
            push_chars(&mut out, &chars_of(path));
            string_of(&out)
        },
    }
}

/// What becomes of the panel when the window changes.
pub enum PanelChange {
    /// A panel on this directory takes the old one's place.
    Open(String),
    /// The panel goes.
    Close,
    /// The panel stays as it is.
    Keep,
}

/// The panel exists while it is open over a chat with a session, on that
/// session's directory: `current` is the directory of the panel there is.
pub fn sync(open: bool, chat: bool, session: Option<&str>, current: Option<&str>) -> (c: PanelChange)
    ensures
        !(open && chat && session is Some) ==> c is Close,
        open && chat && session is Some ==> match current {
            Some(d) if d@ == session->0@ => c is Keep,
            _ => c matches PanelChange::Open(dir) && dir@ == session->0@,
        },
{
    if !(open && chat) {
        return PanelChange::Close;
    }
    match session {
        None => PanelChange::Close,
        Some(cwd) => match current {
            Some(d) => if same_text(d, cwd) {
                PanelChange::Keep
            } else {
                PanelChange::Open(cwd.to_owned())
            },
            None => PanelChange::Open(cwd.to_owned()),
        },
    }
}

/// Whether the panel is open after its toggle: it turns over a chat only.
pub fn toggled(open: bool, chat: bool) -> (b: bool)
    ensures
        b == if chat { !open } else { open },
{
    if chat {
        !open
    } else {
        open
    }
}

/// The folded hunks after a hunk's header is clicked: a folded one opens, an
/// open one folds. No other hunk changes.
pub fn fold_hunk(collapsed: &mut Vec<String>, key: &str)
    ensures
        turned_over(old(collapsed)@, final(collapsed)@, key@),
{
    toggle(collapsed, key);
}

/// A changed file as the panel tells one from another: its path, and the
/// name of the area it changed in.
pub struct FileKey {
    pub path: String,
    pub area: String,
}

/// Whether `a` and `b` name the same change.
pub open spec fn same_key(a: FileKey, b: FileKey) -> bool {
    a.path@ == b.path@ && a.area@ == b.area@
}

/// Whether `files` lists the change `key`.
pub open spec fn listed(files: Seq<FileKey>, key: FileKey) -> bool {
    exists|j: int| 0 <= j < files.len() && #[trigger] same_key(files[j], key)
}

/// Which file a fresh status shows: the one shown before where it is still
/// listed (the first such), else the first listed, else none.
pub fn reselect(files: &Vec<FileKey>, selected: Option<&FileKey>) -> (pick: Option<usize>)
    ensures
        pick is None <==> files.len() == 0,
        pick matches Some(i) ==> i < files.len(),
        match (pick, selected) {
            (Some(i), Some(s)) => listed(files@, *s) ==> same_key(files@[i as int], *s) && forall|
                j: int,
            | 0 <= j < i ==> !#[trigger] same_key(files@[j], *s),
            _ => true,
        },
        pick matches Some(i) ==> i == 0 || (selected matches Some(s) && listed(files@, *s)),
{
    match selected {
        Some(s) => {
            let mut i: usize = 0;
            while i < files.len()
                invariant
                    selected == Some(s),
                    i <= files.len(),
                    forall|j: int| 0 <= j < i ==> !#[trigger] same_key(files@[j], *s),
                decreases files.len() - i,
            {
                if same_text(files[i].path.as_str(), s.path.as_str()) && same_text(
                    files[i].area.as_str(),
                    s.area.as_str(),
                ) {
                    assert(same_key(files@[i as int], *s));
                    return Some(i);
                }
                i += 1;
            }
        },
        None => {},
    }
    if files.len() > 0 {
        Some(0)
    } else {
        None
    }
}

/// The Git changes panel's state: its directory, the last error, whether a
/// status is being read and whether one ever was, what the last status held,
/// and the hunks folded shut.
pub struct Changes {
    pub cwd: String,
    pub error: Option<String>,
    pub loading: bool,
    pub ready: bool,
    pub repository: bool,
    pub count: usize,
    pub collapsed: Vec<String>,
}

impl Changes {
    /// The panel for `cwd`, its first status under way.
    pub fn new(cwd: String) -> (c: Self)
        ensures
            c.cwd == cwd,
            c.error is None,
            c.loading,
            !c.ready,
            !c.repository,
            c.count == 0,
            c.collapsed@.len() == 0,
    {
        Changes {
            cwd,
            error: None,
            loading: true,
            ready: false,
            repository: false,
            count: 0,
            collapsed: Vec::new(),
        }
    }

    /// Start reading the status afresh: a read under way is replaced by this
    /// one. The refresh button goes through here.
    pub fn refresh(&mut self)
        ensures
            final(self).loading,
            final(self).cwd == old(self).cwd,
            final(self).error == old(self).error,
            final(self).ready == old(self).ready,
            final(self).repository == old(self).repository,
            final(self).count == old(self).count,
            final(self).collapsed == old(self).collapsed,
    {
        self.loading = true;
    }

    /// The poll's tick: start a read unless one is under way already;
    /// whether one was started.
    pub fn poll(&mut self) -> (started: bool)
        ensures
            started == !old(self).loading,
            final(self).loading,
            final(self).cwd == old(self).cwd,
            final(self).error == old(self).error,
            final(self).ready == old(self).ready,
            final(self).repository == old(self).repository,
            final(self).count == old(self).count,
            final(self).collapsed == old(self).collapsed,
    {
        if self.loading {
            return false;
        }
        self.refresh();
        true
    }

    /// A file's row was clicked; `other` is whether it is another file than
    /// the one shown. Another file drops the folds, which were the old one's,
    /// and reads the status afresh for it; the file shown changes nothing.
    pub fn select(&mut self, other: bool)
        ensures
            other ==> final(self).loading && final(self).collapsed@.len() == 0
                && final(self).cwd == old(self).cwd && final(self).error == old(self).error
                && final(self).ready == old(self).ready && final(self).repository == old(
                self,
            ).repository && final(self).count == old(self).count,
            !other ==> *final(self) == *old(self),
    {
        if other {
            self.collapsed = Vec::new();
            self.refresh();
        }
    }

    /// Take in a read of the status: whether the directory is in a
    /// repository, how many files changed, and whether the file shown is
    /// another than before (whose folds then no longer apply); or the error,
    /// which empties the panel.
    pub fn loaded(&mut self, result: Result<(bool, usize, bool), String>)
        ensures
            !final(self).loading,
            final(self).ready,
            final(self).cwd == old(self).cwd,
            match result {
                Ok((repository, count, other)) => {
                    &&& final(self).repository == repository
                    &&& final(self).count == count
                    &&& final(self).error is None
                    &&& other ==> final(self).collapsed@.len() == 0
                    &&& !other ==> final(self).collapsed == old(self).collapsed
                },
                Err(e) => {
                    &&& final(self).error == Some(e)
                    &&& !final(self).repository
                    &&& final(self).count == 0
                    &&& final(self).collapsed == old(self).collapsed
                },
            },
    {
        self.loading = false;
        self.ready = true;
        match result {
            Ok((repository, count, other)) => {
                if other {
                    self.collapsed = Vec::new();
                }
                self.repository = repository;
                self.count = count;
                self.error = None;
            },
            Err(e) => {
                self.error = Some(e);
                self.repository = false;
                self.count = 0;
            },
        }
    }

    /// What the panel says in place of its list; see [`message_of`].
    pub fn notice(&self) -> (m: Option<String>)
        ensures
            match message_of(
                match self.error {
                    Some(e) => Some(e@),
                    None => None,
                },
                self.ready,
                self.repository,
                self.count as nat,
            ) {
                Some(t) => m matches Some(s) && s@ == t,
                None => m is None,
            },
    {
        let error = match &self.error {
            Some(e) => Some(e.as_str()),
            None => None,
        };
        message(error, self.ready, self.repository, self.count)
    }
}

} // verus!
