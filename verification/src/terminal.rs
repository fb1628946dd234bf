//! The terminal panel's decisions: its tabs, which shell it starts, how a
//! tab is labelled, and what an Option-key press sends.

use vstd::prelude::*;
use crate::arrangement::step_target;
use crate::paths::{file_name, file_name_of};
use crate::text::{chars_of, same_text};

verus! {

/// The shell started where the environment names none.
pub const DEFAULT_SHELL: &'static str = "/bin/zsh";

/// The shell a terminal starts: the one `SHELL` names, unless it names
/// nothing or the empty string. It starts as a login shell.
pub fn shell_program(variable: Option<String>) -> (s: String)
    ensures
        (variable matches Some(v) && v@.len() > 0) ==> s == variable->0,
        !(variable matches Some(v) && v@.len() > 0) ==> s@ == DEFAULT_SHELL@,
{
    match variable {
        Some(v) => if !v.as_str().is_empty() {
            v
        } else {
            DEFAULT_SHELL.to_owned()
        },
        None => DEFAULT_SHELL.to_owned(),
    }
}

/// A terminal tab's label: the last component of its directory, or the whole
/// path where it has none.
pub fn directory_label(directory: &str) -> (s: String)
    ensures
        s@ == match file_name_of(directory@) {
            Some(n) => n,
            None => directory@,
        },
{
    match file_name(directory) {
        Some(n) => n,
        None => directory.to_owned(),
    }
}

/// What std's `str::to_uppercase` makes of a text: each character mapped by
/// Unicode's uppercase rules, a function of the text alone.
pub uninterp spec fn uppercase(s: Seq<char>) -> Seq<char>;

/// `s` in upper case.
///
/// Wraps std's `str::to_uppercase`; its result is named, not spelled out:
/// Unicode's case tables take pages.
#[verifier::external_body]
pub(crate) fn to_uppercase(s: &str) -> (out: String)
    ensures
        out@ == uppercase(s@),
{
    s.to_uppercase()
}

/// The character a key press sends to the shell. With Option held and
/// Control not, a one-character key sends Meta with the key itself, shifted
/// where Shift is held, never the alternate character the platform typed;
/// otherwise the typed character `typed` goes as it is.
pub fn sent_char(key: &str, typed: Option<&str>, alt: bool, control: bool, shift: bool) -> (c:
    Option<String>)
    ensures
        alt && !control && key@.len() == 1 ==> (c matches Some(t) && t@ == if shift {
            uppercase(key@)
        } else {
            key@
        }),
        !(alt && !control && key@.len() == 1) ==> match typed {
            Some(t) => c matches Some(s) && s@ == t@,
            None => c is None,
        },
{
    let chars = chars_of(key);
    if alt && !control && chars.len() == 1 {
        if shift {
            Some(to_uppercase(key))
        } else {
            Some(key.to_owned())
        }
    } else {
        match typed {
            Some(t) => Some(t.to_owned()),
            None => None,
        }
    }
}

/// The panel's tabs, as numbers: each tab's number in the order they stand,
/// the number of the tab in front, and the number the next tab gets.
pub struct TerminalPanel {
    pub ids: Vec<usize>,
    pub active: usize,
    pub next_id: usize,
}

/// The tabs' numbers rise from left to right, each below the next to be
/// given, and the tab in front is one of them while there are any.
pub open spec fn tabs_wf(ids: Seq<usize>, active: usize, next_id: usize) -> bool {
    &&& forall|i: int, j: int| 0 <= i < j < ids.len() ==> ids[i] < ids[j]
    &&& forall|i: int| 0 <= i < ids.len() ==> #[trigger] ids[i] < next_id
    &&& ids.len() > 0 ==> ids.contains(active)
}

/// Where `id` stands among `ids`.
pub open spec fn place(ids: Seq<usize>, id: usize) -> int {
    choose|i: int| 0 <= i < ids.len() && ids[i] == id
}

/// The tab in front after stepping `step` tabs along from `active`, wrapping
/// at the ends.
pub open spec fn cycled(ids: Seq<usize>, active: usize, step: int) -> usize {
    ids[(place(ids, active) + step) % (ids.len() as int)]
}

/// The numbers left when the tab `id` closes.
pub open spec fn without(ids: Seq<usize>, id: usize) -> Seq<usize> {
    ids.remove(place(ids, id))
}

/// How a tab's closing went.
pub enum Closed {
    /// No tab has that number.
    Missing,
    /// It was the last tab: the panel is empty.
    Emptied,
    /// It closed; `front` is the tab now in front where that changed.
    Left { front: Option<usize> },
}

impl TerminalPanel {
    pub open spec fn wf(&self) -> bool {
        tabs_wf(self.ids@, self.active, self.next_id)
    }

    /// A panel with its first tab in front.
    pub fn new() -> (t: Self)
        ensures
            t.wf(),
            t.ids@ == seq![1usize],
            t.active == 1,
            t.next_id == 2,
    {
        let mut ids: Vec<usize> = Vec::new();
        ids.push(1);
        let t = TerminalPanel { ids, active: 1, next_id: 2 };
        assert(t.ids@[0] == 1);
        t
    }

    /// Open a tab at the end and bring it to the front; its number.
    pub fn add(&mut self) -> (id: usize)
        requires
            old(self).wf(),
            old(self).next_id < usize::MAX,
        ensures
            final(self).wf(),
            id == old(self).next_id,
            final(self).ids@ == old(self).ids@.push(id),
            final(self).active == id,
            final(self).next_id == id + 1,
    {
        let id = self.next_id;
        self.ids.push(id);
        self.active = id;
        self.next_id = id + 1;
        assert(self.ids@[self.ids@.len() - 1] == id);
        id
    }

    /// Where `id` stands, if it is a tab.
    fn position(&self, id: usize) -> (p: Option<usize>)
        requires
            self.wf(),
        ensures
            match p {
                Some(i) => i < self.ids.len() && self.ids@[i as int] == id && i == place(
                    self.ids@,
                    id,
                ),
                None => !self.ids@.contains(id),
            },
    {
        let mut i: usize = 0;
        while i < self.ids.len()
            invariant
                self.wf(),
                i <= self.ids.len(),
                forall|j: int| 0 <= j < i ==> self.ids@[j] != id,
            decreases self.ids.len() - i,
        {
            if self.ids[i] == id {
                proof {
                    let k = place(self.ids@, id);
                    assert(self.ids@[i as int] == id);
                    assert(0 <= k < self.ids.len() && self.ids@[k] == id);
                    if k < i {
                        assert(self.ids@[k] < self.ids@[i as int]);
                    } else if k > i {
                        assert(self.ids@[i as int] < self.ids@[k]);
                    }
                }
                return Some(i);
            }
            i += 1;
        }
        None
    }

    /// Step `step` tabs along from the one in front, wrapping at the ends,
    /// where there are two tabs or more: the tab now in front, for the focus.
    pub fn cycle(&mut self, step: isize) -> (front: Option<usize>)
        requires
            old(self).wf(),
        ensures
            final(self).wf(),
            final(self).ids == old(self).ids,
            final(self).next_id == old(self).next_id,
            old(self).ids.len() < 2 ==> front is None && final(self).active == old(self).active,
            old(self).ids.len() >= 2 ==> front == Some(final(self).active) && final(self).active
                == cycled(old(self).ids@, old(self).active, step as int),
    {
        if self.ids.len() < 2 {
            return None;
        }
        let at = match self.position(self.active) {
            Some(i) => i,
            None => 0,
        };
        proof {
            assert(self.ids@.contains(self.active));
        }
        let next = match step_target(at, step, self.ids.len()) {
            Some(n) => n,
            None => 0,
        };
        self.active = self.ids[next];
        Some(self.active)
    }

    /// Close the tab `id`. Where it was in front, the tab that took its place
    /// comes to the front, or the one before it where it was the last.
    pub fn close(&mut self, id: usize) -> (c: Closed)
        requires
            old(self).wf(),
        ensures
            final(self).wf(),
            final(self).next_id == old(self).next_id,
            !old(self).ids@.contains(id) ==> c is Missing && final(self).ids == old(self).ids
                && final(self).active == old(self).active,
            old(self).ids@.contains(id) ==> final(self).ids@ == without(old(self).ids@, id),
            old(self).ids@.contains(id) && old(self).ids.len() == 1 ==> c is Emptied,
            old(self).ids@.contains(id) && old(self).ids.len() > 1 && old(self).active != id ==> (c
                matches Closed::Left { front } && front is None) && final(self).active == old(self).active,
            old(self).ids@.contains(id) && old(self).ids.len() > 1 && old(self).active == id ==> {
                let at = place(old(self).ids@, id);
                let left = without(old(self).ids@, id);
                let k = if at < left.len() {
                    at
                } else {
                    left.len() - 1
                };
                &&& final(self).active == left[k]
                &&& c matches Closed::Left { front } && front == Some(left[k])
            },
    {
        let index = match self.position(id) {
            Some(i) => i,
            None => {
                return Closed::Missing;
            },
        };
        let ghost before = self.ids@;
        self.ids.remove(index);
        assert(self.ids@ =~= before.remove(index as int));
        proof {
            assert forall|i: int, j: int| 0 <= i < j < self.ids@.len() implies self.ids@[i]
                < self.ids@[j] by {
                if i < index {
                    if j < index {
                    } else {
                        assert(self.ids@[j] == before[j + 1]);
                    }
                } else {
                    assert(self.ids@[i] == before[i + 1]);
                    assert(self.ids@[j] == before[j + 1]);
                }
            }
            assert forall|i: int| 0 <= i < self.ids@.len() implies #[trigger] self.ids@[i]
                < self.next_id by {
                if i >= index {
                    assert(self.ids@[i] == before[i + 1]);
                }
            }
        }
        if self.ids.len() == 0 {
            return Closed::Emptied;
        }
        if self.active == id {
            let k = if index < self.ids.len() {
                index
            } else {
                self.ids.len() - 1
            };
            self.active = self.ids[k];
            assert(self.ids@[k as int] == self.active);
            Closed::Left { front: Some(self.active) }
        } else {
            proof {
                let a = choose|i: int| 0 <= i < before.len() && before[i] == self.active;
                if a < index {
                    assert(self.ids@[a] == self.active);
                } else {
                    assert(a != index);
                    assert(self.ids@[a - 1] == self.active);
                }
            }
            Closed::Left { front: None }
        }
    }
}

/// Stepping back undoes a step: where there are two tabs or more, stepping
/// `step` tabs along and then `-step` brings the same tab to the front.
pub proof fn lemma_cycle_back(ids: Seq<usize>, active: usize, next_id: usize, step: int)
    requires
        tabs_wf(ids, active, next_id),
        ids.len() >= 2,
    ensures
        cycled(ids, cycled(ids, active, step), -step) == active,
{
    let n = ids.len() as int;
    let p = place(ids, active);
    assert(ids.contains(active));
    assert(0 <= p < n && ids[p] == active);
    let q = (p + step) % n;
    let there = ids[q];
    let p2 = place(ids, there);
    assert(0 <= q < n) by {
        vstd::arithmetic::div_mod::lemma_mod_bound(p + step, n);
    }
    assert(0 <= p2 < n && ids[p2] == there);
    assert(p2 == q) by {
        if p2 < q {
            assert(ids[p2] < ids[q]);
        } else if p2 > q {
            assert(ids[q] < ids[p2]);
        }
    }
    assert((q - step) % n == p) by {
        vstd::arithmetic::div_mod::lemma_sub_mod_noop(p + step, step, n);
        vstd::arithmetic::div_mod::lemma_small_mod(p as nat, n as nat);
        vstd::arithmetic::div_mod::lemma_mod_twice(p + step, n);
        vstd::arithmetic::div_mod::lemma_sub_mod_noop(q, step, n);
    }
}

/// Closing a tab just opened gives back the tabs there were.
pub proof fn lemma_add_then_close(ids: Seq<usize>, active: usize, next_id: usize)
    requires
        tabs_wf(ids, active, next_id),
    ensures
        without(ids.push(next_id), next_id) == ids,
{
    let grown = ids.push(next_id);
    let k = place(grown, next_id);
    assert(grown[ids.len() as int] == next_id);
    assert(0 <= k < grown.len() && grown[k] == next_id);
    if k < ids.len() {
        assert(ids[k] < next_id);
    }
    assert(grown.remove(k) =~= ids);
}


/// A terminal's state beside its emulator: the directory its shell is in,
/// the line shown where the shell could not start, and whether the shell is
/// still running.
pub struct Terminal {
    pub directory: String,
    pub status: Option<String>,
    pub running: bool,
}

/// The line a terminal shows where its shell could not start.
pub open spec fn failed_text(error: Seq<char>) -> Seq<char> {
    "Could not start terminal: "@ + error
}

impl Terminal {
    /// A terminal in `directory` whose shell started, or did not.
    pub fn new(directory: String, started: Result<(), String>) -> (t: Self)
        ensures
            t.directory == directory,
            t.running == started is Ok,
            match started {
                Ok(()) => t.status is None,
                Err(e) => t.status matches Some(m) && m@ == failed_text(e@),
            },
    {
        match started {
            Ok(()) => Terminal { directory, status: None, running: true },
            Err(e) => {
                let mut line = chars_of("Could not start terminal: ");
                crate::text::push_chars(&mut line, &chars_of(e.as_str()));
                Terminal { directory, status: Some(crate::text::string_of(&line)), running: false }
            },
        }
    }

    /// Take in the directory the shell is in now, where it can be read:
    /// whether it moved, and the tab's label with it.
    pub fn moved(&mut self, now: Option<String>) -> (changed: bool)
        ensures
            final(self).status == old(self).status,
            final(self).running == old(self).running,
            changed == (now matches Some(d) && d@ != old(self).directory@),
            changed ==> final(self).directory == now->0,
            !changed ==> final(self).directory == old(self).directory,
    {
        match now {
            Some(d) => if same_text(d.as_str(), self.directory.as_str()) {
                false
            } else {
                self.directory = d;
                true
            },
            None => false,
        }
    }

    /// The shell has ended: its tab is to close.
    pub fn exited(&mut self)
        ensures
            !final(self).running,
            final(self).directory == old(self).directory,
            final(self).status == old(self).status,
    {
        self.running = false;
    }

    /// Whether bytes are passed to the shell: some to send, and a shell to
    /// take them.
    pub fn sends(&self, bytes: &Vec<u8>) -> (b: bool)
        ensures
            b == (bytes.len() > 0 && self.running),
    {
        bytes.len() > 0 && self.running
    }
}

/// What a terminal panel tells its owner when its last tab has closed.
pub struct Empty;

} // verus!
