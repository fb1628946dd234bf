//! The formatting bar over a selection in an article: which marks it offers
//! and lights, the chords it prints, and the link field's life.

use vstd::prelude::*;
use crate::text::{chars_of, string_of, trim_chars, trim_of};

verus! {

/// A mark a run of text can carry.
pub enum Mark {
    Bold,
    Italic,
    Strike,
    Code,
    /// A link, which is its URL.
    Link(String),
}

/// Whether two marks are the same.
pub open spec fn same_mark(a: Mark, b: Mark) -> bool {
    match (a, b) {
        (Mark::Bold, Mark::Bold) => true,
        (Mark::Italic, Mark::Italic) => true,
        (Mark::Strike, Mark::Strike) => true,
        (Mark::Code, Mark::Code) => true,
        (Mark::Link(x), Mark::Link(y)) => x@ == y@,
        _ => false,
    }
}

/// Whether `marks` hold `m`.
pub open spec fn carries(marks: Seq<Mark>, m: Mark) -> bool {
    exists|i: int| 0 <= i < marks.len() && #[trigger] same_mark(marks[i], m)
}

/// One of the bar's mark buttons: its mark, its name in the tooltip, and
/// whether the selection carries the mark throughout.
pub struct Format {
    pub mark: Mark,
    pub label: &'static str,
    pub lit: bool,
}

fn carries_mark(marks: &Vec<Mark>, m: &Mark) -> (b: bool)
    ensures
        b == carries(marks@, *m),
{
    let mut i: usize = 0;
    while i < marks.len()
        invariant
            i <= marks.len(),
            forall|j: int| 0 <= j < i ==> !#[trigger] same_mark(marks@[j], *m),
        decreases marks.len() - i,
    {
        let same = match (&marks[i], m) {
            (Mark::Bold, Mark::Bold) => true,
            (Mark::Italic, Mark::Italic) => true,
            (Mark::Strike, Mark::Strike) => true,
            (Mark::Code, Mark::Code) => true,
            (Mark::Link(x), Mark::Link(y)) => crate::text::same_text(x.as_str(), y.as_str()),
            _ => false,
        };
        if same {
            assert(same_mark(marks@[i as int], *m));
            return true;
        }
        i += 1;
    }
    false
}

/// The marks the bar offers, in order: bold, italic, strikethrough, code,
/// each lit where the selection carries it throughout (`marks`). Code is
/// named a code block where the selection spans lines (`fenceable`).
pub fn formats(fenceable: bool, marks: &Vec<Mark>) -> (out: Vec<Format>)
    ensures
        out.len() == 4,
        out@[0].mark is Bold && out@[0].label == "Bold" && out@[0].lit == carries(marks@, Mark::Bold),
        out@[1].mark is Italic && out@[1].label == "Italic" && out@[1].lit == carries(
            marks@,
            Mark::Italic,
        ),
        out@[2].mark is Strike && out@[2].label == "Strikethrough" && out@[2].lit == carries(
            marks@,
            Mark::Strike,
        ),
        out@[3].mark is Code && out@[3].label == (if fenceable {
            "Code block"
        } else {
            "Code"
        }) && out@[3].lit == carries(marks@, Mark::Code),
{
    let code: &'static str = if fenceable {
        "Code block"
    } else {
        "Code"
    };
    let mut out: Vec<Format> = Vec::new();
    out.push(Format { lit: carries_mark(marks, &Mark::Bold), mark: Mark::Bold, label: "Bold" });
    out.push(
        Format { lit: carries_mark(marks, &Mark::Italic), mark: Mark::Italic, label: "Italic" },
    );
    out.push(
        Format {
            lit: carries_mark(marks, &Mark::Strike),
            mark: Mark::Strike,
            label: "Strikethrough",
        },
    );
    out.push(Format { lit: carries_mark(marks, &Mark::Code), mark: Mark::Code, label: code });
    out
}

/// The chord that reaches a mark from the keyboard, for the tooltip: italic
/// and strikethrough have theirs; bold's and code's belong to other
/// commands here, so none is printed for them.
pub fn keystroke(mark: &Mark) -> (k: Option<&'static str>)
    ensures
        *mark is Italic ==> k == Some("⌘I"),
        *mark is Strike ==> k == Some("⇧⌘X"),
        !(*mark is Italic || *mark is Strike) ==> k is None,
{
    match mark {
        Mark::Italic => Some("⌘I"),
        Mark::Strike => Some("⇧⌘X"),
        _ => None,
    }
}

/// The link the selection carries throughout, if it carries one: the first
/// among `marks`.
pub fn link(marks: &Vec<Mark>) -> (url: Option<&String>)
    ensures
        match url {
            Some(u) => exists|i: int|
                #![trigger marks@[i]]
                0 <= i < marks.len() && (marks@[i] matches Mark::Link(v) && v == *u) && forall|
                    j: int,
                | 0 <= j < i ==> !(#[trigger] marks@[j] is Link),
            None => forall|i: int| 0 <= i < marks.len() ==> !(#[trigger] marks@[i] is Link),
        },
{
    let mut i: usize = 0;
    while i < marks.len()
        invariant
            i <= marks.len(),
            forall|j: int| 0 <= j < i ==> !(#[trigger] marks@[j] is Link),
        decreases marks.len() - i,
    {
        match &marks[i] {
            Mark::Link(u) => {
                return Some(u);
            },
            _ => {},
        }
        i += 1;
    }
    None
}

/// The bar's state: whether the pointer is choosing a run, and the link
/// field where it is up, with the link it replaces if it changes one.
pub struct Ribbon {
    pub selecting: bool,
    pub linking: Option<Option<String>>,
}

impl Ribbon {
    /// A bar at rest.
    pub fn new() -> (r: Self)
        ensures
            !r.selecting,
            r.linking is None,
    {
        Ribbon { selecting: false, linking: None }
    }

    /// Note whether the pointer is choosing a run; whether that changed.
    pub fn set_selecting(&mut self, selecting: bool) -> (changed: bool)
        ensures
            changed == (old(self).selecting != selecting),
            final(self).selecting == selecting,
            final(self).linking == old(self).linking,
    {
        if self.selecting != selecting {
            self.selecting = selecting;
            true
        } else {
            false
        }
    }

    /// Put the bar back to rest: the link field drops what was typed, the
    /// pointer is no longer choosing. Whether a field was up, to be cleared.
    pub fn rest(&mut self) -> (cleared: bool)
        ensures
            cleared == old(self).linking is Some,
            final(self).linking is None,
            !final(self).selecting,
    {
        let cleared = self.linking.is_some();
        self.linking = None;
        self.selecting = false;
        cleared
    }

    /// Put the link field up, over the link the run carries if any: what the
    /// field starts out holding.
    pub fn open_link(&mut self, replacing: Option<String>) -> (held: String)
        ensures
            final(self).linking == Some(replacing),
            final(self).selecting == old(self).selecting,
            held@ == match replacing {
                Some(r) => r@,
                None => Seq::<char>::empty(),
            },
    {
        let held = match &replacing {
            Some(r) => r.as_str().to_owned(),
            None => String::new(),
        };
        self.linking = Some(replacing);
        held
    }

    /// File what the field holds: the marks to toggle on the run, in order —
    /// the old link off, then the new one on unless the field is blank. None
    /// where no field was up.
    pub fn confirm_link(&mut self, typed: &str) -> (toggles: Option<Vec<Mark>>)
        ensures
            final(self).linking is None,
            final(self).selecting == old(self).selecting,
            old(self).linking is None ==> toggles is None,
            old(self).linking matches Some(replacing) ==> toggles matches Some(t) && t@.len() == (
            if replacing is Some {
                1int
            } else {
                0int
            }) + (if trim_of(typed@).len() > 0 {
                1int
            } else {
                0int
            }) && (replacing matches Some(r) ==> (t@[0] matches Mark::Link(u) && u@ == r@)) && (
            trim_of(typed@).len() > 0 ==> (t@.last() matches Mark::Link(u) && u@ == trim_of(
                typed@,
            ))),
    {
        let linking = match self.linking.take() {
            Some(l) => l,
            None => {
                return None;
            },
        };
        let url = trim_chars(&chars_of(typed));
        let mut toggles: Vec<Mark> = Vec::new();
        match linking {
            Some(old_url) => toggles.push(Mark::Link(old_url)),
            None => {},
        }
        if url.len() > 0 {
            toggles.push(Mark::Link(string_of(&url)));
        }
        Some(toggles)
    }

    /// Drop the link field, leaving the run as it was; whether one was up.
    pub fn dismiss_link(&mut self) -> (was: bool)
        ensures
            was == old(self).linking is Some,
            final(self).linking is None,
            final(self).selecting == old(self).selecting,
    {
        let was = self.linking.is_some();
        self.linking = None;
        was
    }
}

/// The blocks a turn of block kind reaches: every one from the block the
/// selection starts in to the one it ends in.
pub fn turned_blocks(start: usize, end: usize) -> (blocks: Vec<usize>)
    requires
        start <= end,
        end < usize::MAX,
    ensures
        blocks.len() == end - start + 1,
        forall|i: int| 0 <= i < blocks.len() ==> #[trigger] blocks@[i] == start + i,
{
    let mut blocks: Vec<usize> = Vec::new();
    let mut ix = start;
    while ix <= end
        invariant
            end < usize::MAX,
            start <= ix <= end + 1,
            blocks.len() == ix - start,
            forall|i: int| 0 <= i < blocks.len() ==> #[trigger] blocks@[i] == start + i,
        decreases end + 1 - ix,
    {
        blocks.push(ix);
        ix += 1;
    }
    blocks
}

} // verus!
