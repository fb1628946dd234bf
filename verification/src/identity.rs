//! A board's name and the key its cards carry: asked for before a board is
//! made, and edited together afterwards, because the key is derived from the
//! name.
//!
//! Nothing here is filed until it is confirmed: the question and the panel
//! hold what was typed, and dismissing either leaves the project as it was.

use vstd::prelude::*;
use crate::text::{is_blank, lemma_trim_empty, same_text, trim, trim_of};

verus! {

/// The name a board is filed under: what was typed, trimmed, or `unnamed`
/// where nothing but whitespace was.
pub open spec fn filed_name_of(typed: Seq<char>, unnamed: Seq<char>) -> Seq<char> {
    if trim_of(typed).len() == 0 {
        unnamed
    } else {
        trim_of(typed)
    }
}

/// The name a board is filed under, and the one its key is derived from:
/// `typed` trimmed, or `unnamed` for a board left without one.
pub fn filed_name(typed: &str, unnamed: &str) -> (name: String)
    ensures
        name@ == filed_name_of(typed@, unnamed@),
{
    proof {
        lemma_trim_empty(typed@);
    }
    if is_blank(typed) {
        unnamed.to_owned()
    } else {
        trim(typed)
    }
}

/// A board asked for and not yet made.
pub struct Making {
    /// The project it lands in: the one whose `+` raised the question.
    pub project: usize,
    /// What the name field holds.
    pub name: String,
    /// What the key field holds.
    pub key: String,
    /// The key as last derived from the name. While the key field still
    /// holds it the key follows the name; once typed over, it stays put.
    pub derived: String,
    /// Why Create was last refused, which keeps the question open.
    pub error: Option<String>,
}

/// The question after the name came to `derived`.
pub open spec fn followed(m: Making, derived: String) -> Making {
    if m.key@ == m.derived@ {
        Making { key: derived, derived, ..m }
    } else {
        m
    }
}

impl Making {
    /// The question raised for `project`, its name empty and its key field
    /// opening on `derived`: the key an unnamed board would take there.
    pub fn new(project: usize, derived: String) -> (m: Self)
        ensures
            m.project == project,
            m.name@ == Seq::<char>::empty(),
            m.key@ == derived@,
            m.derived@ == derived@,
            m.error is None,
    {
        let key = derived.clone();
        Making { project, name: String::new(), key, derived, error: None }
    }

    /// Whether the key still follows the name.
    pub fn follows(&self) -> (b: bool)
        ensures
            b == (self.key@ == self.derived@),
    {
        same_text(self.key.as_str(), self.derived.as_str())
    }

    /// The name was typed in and `derived` is the key it comes to: the key
    /// field takes it, unless the key was typed over.
    pub fn follow_key(&mut self, derived: String)
        ensures
            *final(self) == followed(*old(self), derived),
    {
        if self.follows() {
            self.key = derived.clone();
            self.derived = derived;
        }
    }

    /// What Create files: the project, the name as [`filed_name`] takes it,
    /// and the key trimmed.
    pub fn filed(&self, unnamed: &str) -> (f: (usize, String, String))
        ensures
            f.0 == self.project,
            f.1@ == filed_name_of(self.name@, unnamed@),
            f.2@ == trim_of(self.key@),
    {
        (self.project, filed_name(self.name.as_str(), unnamed), trim(self.key.as_str()))
    }

    /// Create was refused for `why`: the question stays, holding what was
    /// typed, and says so.
    pub fn refused(&mut self, why: String)
        ensures
            final(self).error == Some(why),
            final(self).project == old(self).project,
            final(self).name == old(self).name,
            final(self).key == old(self).key,
            final(self).derived == old(self).derived,
    {
        self.error = Some(why);
    }
}

/// The key follows the name for as long as it is left alone, and a key typed
/// over stays as it was typed, whatever the name becomes.
pub proof fn lemma_typed_key_stays(m: Making, d1: String, d2: String)
    ensures
        m.key@ == m.derived@ ==> followed(m, d1).key == d1 && followed(followed(m, d1), d2).key
            == d2,
        m.key@ != m.derived@ ==> followed(followed(m, d1), d2).key == m.key,
{
}

/// A board's identity, open for editing.
pub struct BoardInfo {
    /// Which board, by id.
    pub board: String,
    pub name: String,
    pub key: String,
    /// Why Save was last refused, which keeps the panel open.
    pub error: Option<String>,
}

/// The identity panel: the one open, if any, and whether the press now ending
/// went down on the name of the board it is open on.
pub struct InfoPanel {
    pub info: Option<BoardInfo>,
    pub pressed: bool,
}

/// Whether the panel is open on `board`.
pub open spec fn open_on(info: Option<BoardInfo>, board: Seq<char>) -> bool {
    info matches Some(i) && i.board@ == board
}

impl InfoPanel {
    /// No panel open.
    pub fn new() -> (p: Self)
        ensures
            p.info is None,
            !p.pressed,
    {
        InfoPanel { info: None, pressed: false }
    }

    /// A press went down on `board`'s name: note whether it is the board the
    /// panel is open on, which this press is then shutting.
    pub fn press(&mut self, board: &str)
        ensures
            *final(self) == pressed_on(*old(self), board@),
    {
        self.pressed = match &self.info {
            Some(i) => same_text(i.board.as_str(), board),
            None => false,
        };
    }

    /// The press came up on `board`'s name: shut the panel where one is open
    /// or this press shut it; else open it on `board`, seeded with what the
    /// board is called now (`found`), where the board is still there.
    pub fn toggle(&mut self, board: &str, found: Option<(String, String)>)
        ensures
            toggled(*old(self), board@, found, *final(self)),
    {
        let shut = self.pressed;
        self.pressed = false;
        if shut || self.info.is_some() {
            self.info = None;
            return;
        }
        match found {
            Some((name, key)) => {
                self.info = Some(BoardInfo { board: board.to_owned(), name, key, error: None });
            },
            None => {},
        }
    }

    /// The panel for `board`, where it is the one open.
    pub fn shown_for(&self, board: &str) -> (i: Option<&BoardInfo>)
        ensures
            open_on(self.info, board@) ==> i == Some(&self.info->0),
            !open_on(self.info, board@) ==> i is None,
    {
        match &self.info {
            Some(i) => if same_text(i.board.as_str(), board) {
                Some(i)
            } else {
                None
            },
            None => None,
        }
    }

    /// What Save files: the board, and its name and key trimmed.
    pub fn filed(&self) -> (f: Option<(String, String, String)>)
        ensures
            self.info is None ==> f is None,
            self.info matches Some(i) ==> f matches Some((b, n, k)) && b@ == i.board@ && n@
                == trim_of(i.name@) && k@ == trim_of(i.key@),
    {
        match &self.info {
            Some(i) => Some(
                (i.board.as_str().to_owned(), trim(i.name.as_str()), trim(i.key.as_str())),
            ),
            None => None,
        }
    }

    /// Save was filed: the panel shuts. Refused for `why`: it stays, holding
    /// what was typed, and says so.
    pub fn saved(&mut self, outcome: Result<(), String>)
        ensures
            final(self).pressed == old(self).pressed,
            outcome is Ok ==> final(self).info is None,
            outcome matches Err(why) ==> match old(self).info {
                None => final(self).info is None,
                Some(i) => final(self).info == Some(BoardInfo { error: Some(why), ..i }),
            },
    {
        match outcome {
            Ok(()) => self.info = None,
            Err(why) => {
                let info = self.info.take();
                match info {
                    Some(i) => {
                        self.info = Some(BoardInfo { error: Some(why), ..i });
                    },
                    None => {},
                }
            },
        }
    }

    /// Dismissed: the panel shuts and nothing is filed.
    pub fn dismiss(&mut self)
        ensures
            final(self).info is None,
            final(self).pressed == old(self).pressed,
    {
        self.info = None;
    }
}

/// The panel after a press went down on `board`'s name.
pub open spec fn pressed_on(p: InfoPanel, board: Seq<char>) -> InfoPanel {
    InfoPanel { pressed: open_on(p.info, board), ..p }
}

/// Whether `after` is the panel once the press came up on `board`'s name,
/// with `found` what the board is called now, where it is still there.
pub open spec fn toggled(
    before: InfoPanel,
    board: Seq<char>,
    found: Option<(String, String)>,
    after: InfoPanel,
) -> bool {
    &&& !after.pressed
    &&& before.pressed || before.info is Some ==> after.info is None
    &&& !before.pressed && before.info is None ==> match found {
        None => after.info is None,
        Some((name, key)) => after.info matches Some(i) && i.board@ == board && i.name == name
            && i.key == key && i.error is None,
    }
}

/// A click on the name of the board whose panel is open shuts it, and a click
/// on a board's name with no panel open opens the panel on that board.
pub proof fn lemma_click_toggles_panel(
    p: InfoPanel,
    board: Seq<char>,
    found: Option<(String, String)>,
    after: InfoPanel,
)
    requires
        toggled(pressed_on(p, board), board, found, after),
    ensures
        open_on(p.info, board) ==> after.info is None,
        p.info is None && found is Some ==> open_on(after.info, board),
{
}

} // verus!
