//! The right-hand panel beside a session: whether it is up, how wide it is,
//! and what of it is written down between runs.
//!
//! Widths are `f32` pixels on screen and on disk. Here they are carried as
//! their IEEE-754 bit patterns (`f32::to_bits`), and only ever classified and
//! compared — never computed with — so nothing about them is rounded.

use vstd::prelude::*;
use std::collections::HashMap;
use crate::paths::{file_name, file_name_of, join, joined_path};

verus! {

broadcast use vstd::std_specs::hash::group_hash_axioms;

/// The exponent field of an `f32`.
pub open spec fn exponent(bits: u32) -> u32 {
    (bits >> 23u32) & 0xffu32
}

/// Whether the `f32` with these bits is finite: neither infinite nor NaN.
pub open spec fn finite(bits: u32) -> bool {
    exponent(bits) != 0xffu32
}

/// Where a finite `f32` falls on the number line, as an integer that orders
/// the way the numbers do: its magnitude's bits, negated for a negative one.
/// `-0.0` and `0.0` both fall at 0.
pub open spec fn rank(bits: u32) -> int {
    let magnitude = (bits & 0x7fff_ffffu32) as int;
    if bits >> 31u32 == 0 {
        magnitude
    } else {
        -magnitude
    }
}

fn rank_of(bits: u32) -> (r: i64)
    ensures
        r == rank(bits),
{
    let magnitude = (bits & 0x7fff_ffffu32) as i64;
    if bits >> 31u32 == 0 {
        magnitude
    } else {
        -magnitude
    }
}

fn is_finite(bits: u32) -> (b: bool)
    ensures
        b == finite(bits),
{
    (bits >> 23u32) & 0xffu32 != 0xffu32
}

/// `200.0_f32`: the narrowest a dragged panel width is kept at.
pub const MIN_WIDTH: u32 = 0x4348_0000;

/// `140.0_f32` and `600.0_f32`: the bounds a file tree's width is held to.
pub const FILES_MIN: u32 = 0x430c_0000;

pub const FILES_MAX: u32 = 0x4416_0000;

/// `220.0_f32`: the file tree's width where none worth keeping was saved.
pub const FILES_DEFAULT: u32 = 0x435c_0000;

/// The name of the file the panels are written to.
pub const FILE: &'static str = "right-panels.json";

/// Where the panels are written: [`FILE`] in the settings directory, or
/// nowhere where there is no settings directory.
pub fn path(dir: Option<String>) -> (p: Option<String>)
    ensures
        p is Some <==> dir is Some,
        p matches Some(p) ==> p@ == joined_path(dir->0@, FILE@),
{
    match dir {
        None => None,
        Some(dir) => Some(join(dir.as_str(), FILE)),
    }
}

/// The file tree's width brought back from `saved`; see
/// [`restored_files_width`].
pub open spec fn files_width_of(saved: u32) -> u32 {
    if !finite(saved) {
        FILES_DEFAULT
    } else if rank(saved) < rank(FILES_MIN) {
        FILES_MIN
    } else if rank(saved) > rank(FILES_MAX) {
        FILES_MAX
    } else {
        saved
    }
}

/// A saved file tree's width, as it is brought back: held between
/// [`FILES_MIN`] and [`FILES_MAX`], or [`FILES_DEFAULT`] where what was saved
/// is not a finite number.
pub fn restored_files_width(saved: u32) -> (w: u32)
    ensures
        w == files_width_of(saved),
        !finite(saved) ==> w == FILES_DEFAULT,
        finite(saved) && rank(saved) < rank(FILES_MIN) ==> w == FILES_MIN,
        finite(saved) && rank(saved) > rank(FILES_MAX) ==> w == FILES_MAX,
        finite(saved) && rank(FILES_MIN) <= rank(saved) <= rank(FILES_MAX) ==> w == saved,
{
    assert(FILES_MIN & 0x7fff_ffffu32 == FILES_MIN && FILES_MIN >> 31u32 == 0 && FILES_MAX
        & 0x7fff_ffffu32 == FILES_MAX && FILES_MAX >> 31u32 == 0) by (bit_vector);
    if !is_finite(saved) {
        FILES_DEFAULT
    } else if rank_of(saved) < rank_of(FILES_MIN) {
        FILES_MIN
    } else if rank_of(saved) > rank_of(FILES_MAX) {
        FILES_MAX
    } else {
        saved
    }
}

/// Whether a saved panel width is one to bring back: a finite number of at
/// least [`MIN_WIDTH`].
pub open spec fn keeps_width(bits: u32) -> bool {
    finite(bits) && rank(bits) >= rank(MIN_WIDTH)
}

/// The window's memory of the panel, as values.
pub struct PanelMemory {
    pub width: Option<u32>,
    pub open: bool,
    pub about: Option<u64>,
    pub shown: Map<u64, bool>,
}

/// The width kept of one saved last run.
pub open spec fn restored_width(saved_width: Option<u32>) -> Option<u32> {
    match saved_width {
        Some(w) => if keeps_width(w) {
            Some(w)
        } else {
            None
        },
        None => None,
    }
}

/// The memory after the panel is put up or down for the session in front.
pub open spec fn opened(m: PanelMemory, open: bool, active: Option<u64>) -> PanelMemory {
    let about = match m.about {
        Some(id) => Some(id),
        None => active,
    };
    PanelMemory {
        width: m.width,
        open,
        about,
        shown: match about {
            Some(id) => m.shown.insert(id, open),
            None => m.shown,
        },
    }
}

/// The memory after the window moves to `active`, with `saved` what was
/// written down for it last run.
pub open spec fn followed(m: PanelMemory, active: Option<u64>, saved: Option<bool>) -> PanelMemory {
    if m.about == active {
        m
    } else {
        let kept = match m.about {
            Some(prev) => m.shown.insert(prev, m.open),
            None => m.shown,
        };
        match active {
            Some(id) => if kept.contains_key(id) {
                PanelMemory { width: m.width, open: kept[id], about: active, shown: kept }
            } else {
                let open = match saved {
                    Some(b) => b,
                    None => false,
                };
                PanelMemory { width: m.width, open, about: active, shown: kept.insert(id, open) }
            },
            None => PanelMemory { width: m.width, open: false, about: active, shown: kept },
        }
    }
}

/// The window's memory of the panel: how wide it was dragged, whether it is
/// up, which session that answer is about, and what each session left it at.
pub struct Cydonia {
    /// The dragged width, as `f32` bits; nothing until the split is dragged.
    pub changes_width: Option<u32>,
    pub changes_open: bool,
    /// The session `changes_open` is about.
    pub changes_for: Option<u64>,
    /// What each session seen this run left the panel at.
    pub changes_shown: HashMap<u64, bool>,
}

impl View for Cydonia {
    type V = PanelMemory;

    open spec fn view(&self) -> PanelMemory {
        PanelMemory {
            width: self.changes_width,
            open: self.changes_open,
            about: self.changes_for,
            shown: self.changes_shown@,
        }
    }
}

impl Cydonia {
    /// A window that has not yet read or decided anything about the panel.
    pub fn new() -> (c: Self)
        ensures
            c@ == (PanelMemory { width: None, open: false, about: None, shown: Map::empty() }),
    {
        Cydonia {
            changes_width: None,
            changes_open: false,
            changes_for: None,
            changes_shown: HashMap::new(),
        }
    }

    /// Bring back the width written down last run, where it is one worth
    /// keeping: a finite number of at least [`MIN_WIDTH`].
    pub fn restore_panel_layout(&mut self, saved_width: Option<u32>)
        ensures
            final(self)@ == (PanelMemory { width: restored_width(saved_width), ..old(self)@ }),
    {
        self.changes_width = match saved_width {
            Some(w) => if is_finite(w) && rank_of(w) >= rank_of(MIN_WIDTH) {
                Some(w)
            } else {
                None
            },
            None => None,
        };
    }

    /// The width the layout is written down with: the one the panel has now,
    /// and none where it has none (which is then left out of the file).
    pub fn width_to_save(&self) -> (w: Option<u32>)
        ensures
            w == self@.width,
    {
        self.changes_width
    }

    /// Put the panel up or down for the session in front, and remember that
    /// for it. `active` is the session in front, which the answer is about
    /// where no session was being followed yet.
    pub fn set_changes_open(&mut self, open: bool, active: Option<u64>)
        ensures
            final(self)@ == opened(old(self)@, open, active),
    {
        self.changes_open = open;
        if self.changes_for.is_none() {
            self.changes_for = active;
        }
        if let Some(id) = self.changes_for {
            self.changes_shown.insert(id, open);
        }
    }

    /// Carry the panel from one session to the next. `active` is the session
    /// being shown, or nothing where no chat is in front; `saved` is whether
    /// that session's panel was up when the last run wrote it down, read
    /// only for a session not yet seen this run.
    pub fn follow_changes(&mut self, active: Option<u64>, saved: Option<bool>)
        ensures
            final(self)@ == followed(old(self)@, active, saved),
    {
        if self.changes_for == active {
            return;
        }
        if let Some(previous) = self.changes_for {
            self.changes_shown.insert(previous, self.changes_open);
        }
        self.changes_open = match active {
            Some(id) => match self.changes_shown.get(&id) {
                Some(open) => *open,
                None => {
                    let open = match saved {
                        Some(b) => b,
                        None => false,
                    };
                    self.changes_shown.insert(id, open);
                    open
                },
            },
            None => false,
        };
        self.changes_for = active;
    }
}

/// A width written down reads back as it was: a window whose width was
/// written with [`Cydonia::width_to_save`] and restored from what was
/// written has the width it was written with, held to one worth keeping; a
/// window that had none has none; and a restored width, written and restored
/// again, is unchanged.
pub proof fn lemma_saved_width_reads_back(m: PanelMemory)
    ensures
        restored_width(m.width) == match m.width {
            Some(w) => if keeps_width(w) {
                Some(w)
            } else {
                None
            },
            None => None,
        },
        m.width is None ==> restored_width(m.width) is None,
        (m.width matches Some(w) && keeps_width(w)) ==> restored_width(m.width) == m.width,
        restored_width(restored_width(m.width)) == restored_width(m.width),
{
}

/// A session keeps its own panel: leave it for another session and come
/// back, and the panel is as it was left there, whatever was saved for either.
pub proof fn lemma_panel_follows_session(
    m: PanelMemory,
    a: u64,
    b: u64,
    saved_b: Option<bool>,
    saved_a: Option<bool>,
)
    requires
        a != b,
        m.about == Some(a),
    ensures
        followed(followed(m, Some(b), saved_b), Some(a), saved_a).open == m.open,
{
    let m1 = followed(m, Some(b), saved_b);
    assert(m1.shown.contains_key(a));
    assert(m1.shown[a] == m.open);
}

/// Putting the panel up or down is remembered for the session it is about:
/// move to another session and back, and it is as it was put.
pub proof fn lemma_panel_choice_kept(
    m: PanelMemory,
    open: bool,
    a: u64,
    b: u64,
    saved_b: Option<bool>,
    saved_a: Option<bool>,
)
    requires
        a != b,
        m.about == Some(a),
    ensures
        followed(followed(opened(m, open, Some(a)), Some(b), saved_b), Some(a), saved_a).open
            == open,
{
    lemma_panel_follows_session(opened(m, open, Some(a)), a, b, saved_b, saved_a);
}

/// What one of the panel's tabs holds.
pub enum Content {
    /// The session's Git changes.
    Review,
    /// A terminal.
    Terminal,
    /// A file, by its path.
    File(String),
}

/// Whether the tab `id` holds the changes, going by `contents`.
pub open spec fn holds_review(contents: Map<usize, Content>, id: usize) -> bool {
    contents.contains_key(id) && contents[id] is Review
}

/// Whether the tab `id` holds the file at `path`, going by `contents`.
pub open spec fn holds_file(contents: Map<usize, Content>, id: usize, path: Seq<char>) -> bool {
    contents.contains_key(id) && (contents[id] matches Content::File(p) && p@ == path)
}

/// The name a tab holding `content` is shown by; see [`Panel::tab_title`].
pub open spec fn tab_name_of(content: Content, directory: Seq<char>) -> Seq<char> {
    match content {
        Content::Review => "Review"@,
        Content::Terminal => match file_name_of(directory) {
            Some(n) => n,
            None => directory,
        },
        Content::File(p) => match file_name_of(p@) {
            Some(n) => n,
            None => Seq::empty(),
        },
    }
}

/// A tab as it was written down: the changes, a terminal in the directory it
/// was in (where that is still a directory; none where it is gone), or a file
/// by its path.
pub enum SavedTab {
    Review,
    Terminal(Option<String>),
    File(String),
}

/// A panel as it was written down: its tabs in strip order, which of them
/// was in front, whether the file tree was open and how wide (`f32` bits).
pub struct SavedPanel {
    pub tabs: Vec<SavedTab>,
    pub active: Option<usize>,
    pub files_open: bool,
    pub files_width: u32,
}

/// What opening one saved tab again did: the tab it brought to the front,
/// whether that tab is new (for the strip to open) or one already there,
/// and, for a terminal, the directory it starts in.
pub struct RestoreStep {
    pub id: usize,
    pub opened: bool,
    pub directory: Option<String>,
}

/// The saved tabs opened again, one step each in order, and the tab to put
/// in front at the end: the one the saved active tab came to, where it was
/// one of them.
pub struct Restored {
    pub steps: Vec<RestoreStep>,
    pub active: Option<usize>,
}

/// Whether `step` is what opening `tab` again comes to in a panel on `cwd`
/// whose tabs are now `contents`, having held `before`: a tab that holds what
/// the saved one held; a terminal always new, starting in its saved directory
/// or else in `cwd`; a new tab one that was not there before.
pub open spec fn restores(
    before: Map<usize, Content>,
    contents: Map<usize, Content>,
    tab: SavedTab,
    step: RestoreStep,
    cwd: Seq<char>,
) -> bool {
    &&& contents.contains_key(step.id)
    &&& step.opened ==> !before.contains_key(step.id)
    &&& match tab {
        SavedTab::Review => contents[step.id] is Review && step.directory is None,
        SavedTab::Terminal(d) => step.opened && contents[step.id] is Terminal && (
        step.directory matches Some(x) && x@ == match d {
            Some(y) => y@,
            None => cwd,
        }),
        SavedTab::File(p) => (contents[step.id] matches Content::File(q) && q@ == p@)
            && step.directory is None,
    }
}

/// Where the focus goes once the panel settles: into the terminal or the
/// file in front, else onto the panel itself.
pub enum FocusOn {
    Terminal,
    File,
    Panel,
}

/// Which tab comes to the front.
pub enum Front {
    /// One already open, by id.
    Activate(usize),
    /// One just made, by id: the strip is to open it.
    Opened(usize),
}

/// How a request to close a tab is answered.
pub enum Closing {
    /// The file in it has unsaved edits: the tab comes to the front and asks
    /// before it goes.
    Ask,
    /// It goes.
    Remove,
}

/// What the panel's menu picked.
pub enum Chosen {
    Review,
    Terminal,
    Files,
    Nothing,
}

/// A session's right-hand panel: its directory and project, the file tree
/// beside it (whether open, how wide as `f32` bits), what each tab holds by
/// id, the next id, whether the menu is up, the tab waiting on an answer
/// before it closes, and whether the focus is to follow a file just opened.
///
/// The order of the tabs and which one is in front are the tab strip's; the
/// methods that depend on the order are handed it.
pub struct Panel {
    pub cwd: String,
    pub project_root: String,
    pub files_open: bool,
    pub files_width: u32,
    pub contents: HashMap<usize, Content>,
    pub next_id: usize,
    pub menu: bool,
    pub closing: Option<usize>,
    pub focus_pending: bool,
    /// The tabs saved last run, waiting to be opened again.
    pub restore_pending: Option<SavedPanel>,
}

/// Every tab's id is below the next to be given.
pub open spec fn ids_wf(contents: Map<usize, Content>, next_id: usize) -> bool {
    forall|k: usize| #[trigger] contents.contains_key(k) ==> k < next_id
}

impl Panel {
    pub open spec fn wf(&self) -> bool {
        ids_wf(self.contents@, self.next_id)
    }

    /// A panel on `cwd`, its project rooted there too, with no tabs and the
    /// file tree closed at its default width.
    pub fn new(cwd: String) -> (p: Self)
        ensures
            p.wf(),
            p.cwd@ == cwd@,
            p.project_root@ == cwd@,
            !p.files_open,
            p.files_width == FILES_DEFAULT,
            p.contents@ == Map::<usize, Content>::empty(),
            p.next_id == 0,
            !p.menu,
            p.closing is None,
            !p.focus_pending,
            p.restore_pending is None,
    {
        let project_root = cwd.as_str().to_owned();
        Panel {
            cwd,
            project_root,
            files_open: false,
            files_width: FILES_DEFAULT,
            contents: HashMap::new(),
            next_id: 0,
            menu: false,
            closing: None,
            focus_pending: false,
            restore_pending: None,
        }
    }

    /// Give `content` a tab of its own; its id, which no tab held before.
    fn push(&mut self, content: Content) -> (id: usize)
        requires
            old(self).wf(),
            old(self).next_id < usize::MAX,
        ensures
            final(self).wf(),
            id == old(self).next_id,
            !old(self).contents@.contains_key(id),
            final(self).next_id == id + 1,
            final(self).contents@ == old(self).contents@.insert(id, content),
            final(self).cwd == old(self).cwd,
            final(self).project_root == old(self).project_root,
            final(self).files_open == old(self).files_open,
            final(self).files_width == old(self).files_width,
            final(self).menu == old(self).menu,
            final(self).closing == old(self).closing,
            final(self).focus_pending == old(self).focus_pending,
            final(self).restore_pending == old(self).restore_pending,
    {
        let id = self.next_id;
        self.next_id = id + 1;
        self.contents.insert(id, content);
        id
    }

    /// Whether the tab `id` holds the changes.
    fn is_review(&self, id: usize) -> (b: bool)
        ensures
            b == holds_review(self.contents@, id),
    {
        match self.contents.get(&id) {
            Some(content) => match content {
                Content::Review => true,
                _ => false,
            },
            None => false,
        }
    }

    /// Whether the tab `id` holds the file at `path`.
    fn is_file(&self, id: usize, path: &str) -> (b: bool)
        ensures
            b == holds_file(self.contents@, id, path@),
    {
        match self.contents.get(&id) {
            Some(content) => match content {
                Content::File(p) => crate::text::same_text(p.as_str(), path),
                _ => false,
            },
            None => false,
        }
    }

    /// Bring the changes to the front: the first tab in `order` that holds
    /// them, or a new one.
    pub fn review(&mut self, order: &Vec<usize>) -> (front: Front)
        requires
            old(self).wf(),
            old(self).next_id < usize::MAX,
        ensures
            final(self).wf(),
            final(self).next_id <= old(self).next_id + 1,
            final(self).focus_pending == old(self).focus_pending,
            final(self).cwd == old(self).cwd,
            final(self).project_root == old(self).project_root,
            final(self).files_open == old(self).files_open,
            final(self).files_width == old(self).files_width,
            final(self).menu == old(self).menu,
            final(self).closing == old(self).closing,
            final(self).restore_pending == old(self).restore_pending,
            match front {
                Front::Activate(id) => final(self).contents@ == old(self).contents@
                    && final(self).next_id == old(self).next_id && exists|k: int|
                    0 <= k < order.len() && #[trigger] order@[k] == id && holds_review(
                        old(self).contents@,
                        id,
                    ) && forall|j: int|
                        0 <= j < k ==> !holds_review(old(self).contents@, #[trigger] order@[j]),
                Front::Opened(id) => id == old(self).next_id && !old(self).contents@.contains_key(
                    id,
                ) && final(self).contents@ == old(self).contents@.insert(id, Content::Review)
                    && forall|j: int|
                    0 <= j < order.len() ==> !holds_review(old(self).contents@, #[trigger] order@[j]),
            },
    {
        let mut k: usize = 0;
        while k < order.len()
            invariant
                self.wf(),
                self.contents@ == old(self).contents@,
                self.next_id == old(self).next_id,
                self.next_id < usize::MAX,
                self.focus_pending == old(self).focus_pending,
                self.cwd == old(self).cwd,
                self.project_root == old(self).project_root,
                self.files_open == old(self).files_open,
                self.files_width == old(self).files_width,
                self.menu == old(self).menu,
                self.closing == old(self).closing,
                self.restore_pending == old(self).restore_pending,
                k <= order.len(),
                forall|j: int| 0 <= j < k ==> !holds_review(old(self).contents@, #[trigger] order@[j]),
            decreases order.len() - k,
        {
            if self.is_review(order[k]) {
                assert(order@[k as int] == order[k as int]);
                return Front::Activate(order[k]);
            }
            k += 1;
        }
        let id = self.push(Content::Review);
        Front::Opened(id)
    }

    /// Bring the file at `path` to the front: the first tab in `order` that
    /// holds it, or a new one. The focus is to follow it.
    pub fn open_file(&mut self, order: &Vec<usize>, path: String) -> (front: Front)
        requires
            old(self).wf(),
            old(self).next_id < usize::MAX,
        ensures
            final(self).wf(),
            final(self).next_id <= old(self).next_id + 1,
            final(self).cwd == old(self).cwd,
            final(self).project_root == old(self).project_root,
            final(self).files_open == old(self).files_open,
            final(self).files_width == old(self).files_width,
            final(self).menu == old(self).menu,
            final(self).closing == old(self).closing,
            final(self).restore_pending == old(self).restore_pending,
            final(self).focus_pending,
            match front {
                Front::Activate(id) => final(self).contents@ == old(self).contents@
                    && final(self).next_id == old(self).next_id && exists|k: int|
                    0 <= k < order.len() && #[trigger] order@[k] == id && holds_file(
                        old(self).contents@,
                        id,
                        path@,
                    ) && forall|j: int|
                        0 <= j < k ==> !holds_file(old(self).contents@, #[trigger] order@[j], path@),
                Front::Opened(id) => id == old(self).next_id && !old(self).contents@.contains_key(
                    id,
                ) && final(self).contents@ == old(self).contents@.insert(id, Content::File(path))
                    && forall|j: int|
                    0 <= j < order.len() ==> !holds_file(old(self).contents@, #[trigger] order@[j], path@),
            },
    {
        self.focus_pending = true;
        let mut k: usize = 0;
        while k < order.len()
            invariant
                self.wf(),
                self.contents@ == old(self).contents@,
                self.next_id == old(self).next_id,
                self.next_id < usize::MAX,
                self.focus_pending,
                self.cwd == old(self).cwd,
                self.project_root == old(self).project_root,
                self.files_open == old(self).files_open,
                self.files_width == old(self).files_width,
                self.menu == old(self).menu,
                self.closing == old(self).closing,
                self.restore_pending == old(self).restore_pending,
                k <= order.len(),
                forall|j: int| 0 <= j < k ==> !holds_file(old(self).contents@, #[trigger] order@[j], path@),
            decreases order.len() - k,
        {
            if self.is_file(order[k], path.as_str()) {
                return Front::Activate(order[k]);
            }
            k += 1;
        }
        let id = self.push(Content::File(path));
        Front::Opened(id)
    }

    /// Give a new terminal a tab; its id.
    pub fn terminal(&mut self) -> (id: usize)
        requires
            old(self).wf(),
            old(self).next_id < usize::MAX,
        ensures
            final(self).wf(),
            final(self).next_id == id + 1,
            final(self).focus_pending == old(self).focus_pending,
            final(self).cwd == old(self).cwd,
            final(self).project_root == old(self).project_root,
            final(self).files_open == old(self).files_open,
            final(self).files_width == old(self).files_width,
            final(self).menu == old(self).menu,
            final(self).closing == old(self).closing,
            final(self).restore_pending == old(self).restore_pending,
            id == old(self).next_id,
            !old(self).contents@.contains_key(id),
            final(self).contents@ == old(self).contents@.insert(id, Content::Terminal),
    {
        self.push(Content::Terminal)
    }

    /// Forget the tab `id` once the strip has let it go (`closed`): a tab
    /// waiting on an answer that goes stops waiting.
    pub fn remove(&mut self, id: usize, closed: bool)
        requires
            old(self).wf(),
        ensures
            final(self).wf(),
            final(self).next_id == old(self).next_id,
            !closed ==> final(self).contents@ == old(self).contents@ && final(self).closing
                == old(self).closing,
            closed ==> final(self).contents@ == old(self).contents@.remove(id),
            closed ==> final(self).closing == if old(self).closing == Some(id) {
                None
            } else {
                old(self).closing
            },
    {
        if !closed {
            return;
        }
        self.contents.remove(&id);
        if self.closing == Some(id) {
            self.closing = None;
        }
    }

    /// What the strip shows of a tab holding `content`, and its tooltip: for
    /// the changes, `Review` for both; for a terminal, the last component of
    /// its directory `directory` (the whole of it where it has none) and the
    /// directory; for a file, the last component of its path (nothing where it
    /// has none) and the path. Several tabs can share a name, which is why the
    /// tooltip is the whole path.
    pub fn tab_title(content: &Content, directory: &str) -> (t: (String, String))
        ensures
            t.0@ == tab_name_of(*content, directory@),
            t.1@ == match *content {
                Content::Review => "Review"@,
                Content::Terminal => directory@,
                Content::File(p) => p@,
            },
    {
        match content {
            Content::Review => ("Review".to_owned(), "Review".to_owned()),
            Content::Terminal => {
                let name = match file_name(directory) {
                    Some(n) => n,
                    None => directory.to_owned(),
                };
                (name, directory.to_owned())
            },
            Content::File(p) => {
                let name = match file_name(p.as_str()) {
                    Some(n) => n,
                    None => String::new(),
                };
                (name, p.as_str().to_owned())
            },
        }
    }

    /// Open the tabs written down last run again, once: each in its order as
    /// the panel's own buttons would (the changes and a file brought forward
    /// where a tab already holds them, a terminal always new); then the tab
    /// that was in front comes to the front, the file tree takes its saved
    /// width and opens if it was open, and no focus is left to follow a file.
    /// `order` is the strip's order now. Nothing where nothing waits.
    pub fn restore_tabs(&mut self, order: &Vec<usize>) -> (r: Option<Restored>)
        requires
            old(self).wf(),
            old(self).restore_pending matches Some(s) ==> old(self).next_id + s.tabs.len()
                < usize::MAX,
        ensures
            final(self).wf(),
            old(self).restore_pending is None ==> r is None && *final(self) == *old(self),
            old(self).restore_pending matches Some(saved) ==> {
                &&& r matches Some(restored) && restored.steps.len() == saved.tabs.len() && (
                forall|i: int|
                    0 <= i < saved.tabs.len() ==> restores(
                        old(self).contents@,
                        final(self).contents@,
                        #[trigger] saved.tabs@[i],
                        restored.steps@[i],
                        old(self).cwd@,
                    )) && restored.active == match saved.active {
                    Some(k) => if k < saved.tabs.len() {
                        Some(restored.steps@[k as int].id)
                    } else {
                        None
                    },
                    None => None,
                }
                &&& forall|k: usize|
                    #[trigger] old(self).contents@.contains_key(k) ==> final(self).contents@.contains_key(
                        k,
                    ) && final(self).contents@[k] == old(self).contents@[k]
                &&& final(self).restore_pending is None
                &&& final(self).files_width == files_width_of(saved.files_width)
                &&& final(self).files_open == (old(self).files_open || saved.files_open)
                &&& !final(self).focus_pending
                &&& final(self).cwd == old(self).cwd
                &&& final(self).closing == old(self).closing
            },
    {
        let saved = match self.restore_pending.take() {
            Some(s) => s,
            None => return None,
        };
        let ghost start = self.contents@;
        let mut order: Vec<usize> = order.clone();
        let mut steps: Vec<RestoreStep> = Vec::new();
        let mut active: Option<usize> = None;
        let mut i: usize = 0;
        while i < saved.tabs.len()
            invariant
                self.wf(),
                self.restore_pending is None,
                self.next_id + (saved.tabs.len() - i) < usize::MAX,
                i <= saved.tabs.len(),
                steps.len() == i,
                self.cwd == old(self).cwd,
                self.closing == old(self).closing,
                self.files_open == old(self).files_open,
                start == old(self).contents@,
                forall|k: usize|
                    #[trigger] start.contains_key(k) ==> self.contents@.contains_key(k)
                        && self.contents@[k] == start[k],
                forall|j: int|
                    0 <= j < i ==> restores(
                        start,
                        self.contents@,
                        #[trigger] saved.tabs@[j],
                        steps@[j],
                        old(self).cwd@,
                    ),
                active == match saved.active {
                    Some(k) => if k < i {
                        Some(steps@[k as int].id)
                    } else {
                        None
                    },
                    None => None,
                },
            decreases saved.tabs.len() - i,
        {
            let ghost before = self.contents@;
            let step = match &saved.tabs[i] {
                SavedTab::Review => match self.review(&order) {
                    Front::Activate(id) => RestoreStep { id, opened: false, directory: None },
                    Front::Opened(id) => {
                        order.push(id);
                        RestoreStep { id, opened: true, directory: None }
                    },
                },
                SavedTab::Terminal(d) => {
                    let directory = match d {
                        Some(dir) => dir.clone(),
                        None => self.cwd.clone(),
                    };
                    let id = self.terminal();
                    order.push(id);
                    RestoreStep { id, opened: true, directory: Some(directory) }
                },
                SavedTab::File(p) => match self.open_file(&order, p.clone()) {
                    Front::Activate(id) => RestoreStep { id, opened: false, directory: None },
                    Front::Opened(id) => {
                        order.push(id);
                        RestoreStep { id, opened: true, directory: None }
                    },
                },
            };
            proof {
                assert forall|k: usize| #[trigger] before.contains_key(k) implies self.contents@.contains_key(k)
                    && self.contents@[k] == before[k] by {
                    if step.opened {
                        assert(k != step.id);
                    }
                }
                assert forall|j: int| 0 <= j < i implies restores(
                    start,
                    self.contents@,
                    #[trigger] saved.tabs@[j],
                    steps@[j],
                    old(self).cwd@,
                ) by {
                    assert(restores(start, before, saved.tabs@[j], steps@[j], old(self).cwd@));
                    assert(before.contains_key(steps@[j].id));
                }
            }
            if saved.active == Some(i) {
                active = Some(step.id);
            }
            steps.push(step);
            i += 1;
        }
        self.files_width = restored_files_width(saved.files_width);
        if saved.files_open {
            self.files();
        }
        self.focus_pending = false;
        Some(Restored { steps, active })
    }

    /// The render's first step: where the focus is to follow a tab just
    /// brought to the front, it is taken, once.
    pub fn take_focus(&mut self) -> (focus: bool)
        ensures
            focus == old(self).focus_pending,
            !final(self).focus_pending,
            final(self).contents@ == old(self).contents@,
            final(self).next_id == old(self).next_id,
            final(self).closing == old(self).closing,
            final(self).files_open == old(self).files_open,
    {
        let focus = self.focus_pending;
        self.focus_pending = false;
        focus
    }

    /// What the focus goes to, with `front` what the tab in front holds.
    pub fn focus_on(front: Option<&Content>) -> (f: FocusOn)
        ensures
            match front {
                Some(Content::Terminal) => f is Terminal,
                Some(Content::File(_)) => f is File,
                _ => f is Panel,
            },
    {
        match front {
            Some(Content::Terminal) => FocusOn::Terminal,
            Some(Content::File(_)) => FocusOn::File,
            _ => FocusOn::Panel,
        }
    }

    /// Answer a request to close the tab `id`: one whose file has unsaved
    /// edits (`dirty`) waits on an answer, anything else goes.
    pub fn close(&mut self, id: usize, dirty: bool) -> (c: Closing)
        ensures
            final(self).contents@ == old(self).contents@,
            final(self).next_id == old(self).next_id,
            dirty ==> c is Ask && final(self).closing == Some(id),
            !dirty ==> c is Remove && final(self).closing == old(self).closing,
    {
        if dirty {
            self.closing = Some(id);
            Closing::Ask
        } else {
            Closing::Remove
        }
    }

    /// Answer the panel's menu at row `index`: the changes, a terminal, or
    /// the files. The menu goes down whatever was picked.
    pub fn pick(&mut self, index: usize) -> (c: Chosen)
        ensures
            !final(self).menu,
            final(self).contents@ == old(self).contents@,
            final(self).next_id == old(self).next_id,
            index == 0 ==> c is Review,
            index == 1 ==> c is Terminal,
            index == 2 ==> c is Files,
            index > 2 ==> c is Nothing,
    {
        self.menu = false;
        match index {
            0 => Chosen::Review,
            1 => Chosen::Terminal,
            2 => Chosen::Files,
            _ => Chosen::Nothing,
        }
    }

    /// Open the file tree beside the tabs.
    pub fn files(&mut self)
        ensures
            final(self).files_open,
            final(self).cwd == old(self).cwd,
            final(self).closing == old(self).closing,
            final(self).files_width == old(self).files_width,
            final(self).restore_pending == old(self).restore_pending,
            final(self).focus_pending == old(self).focus_pending,
            final(self).contents@ == old(self).contents@,
            final(self).next_id == old(self).next_id,
    {
        self.files_open = true;
    }

    /// Open or close the file tree; whether it is open now.
    pub fn toggle_files(&mut self) -> (open: bool)
        ensures
            open == final(self).files_open,
            final(self).files_open == !old(self).files_open,
            final(self).contents@ == old(self).contents@,
            final(self).next_id == old(self).next_id,
    {
        self.files_open = !self.files_open;
        self.files_open
    }

    /// Whether stepping through the tabs does anything: it takes two.
    pub fn cycles(&self, tabs: usize) -> (b: bool)
        ensures
            b == (tabs >= 2),
    {
        tabs >= 2
    }
}

} // verus!
