//! The composer: the field a message is written in, what waits to go with
//! it, and the `/` that opens the agent's commands.
//!
//! The field itself is the toolkit's; here it is its text and where its caret
//! stands, counted in characters.

use vstd::prelude::*;
use std::collections::HashMap;
use crate::activity::Activity;
use crate::switches::{
    current_position, id_of, id_view, option_pairs, set_to, set_to_text, switch_view, value_name,
    value_of, Switch, SwitchId, SUBMENU_ROWS,
};
use crate::text::{same_text, 
    blank, chars_of, is_blank, is_whitespace, is_ws, lines, lines_of, push_chars, push_str,
    slice_chars, string_of, trim_chars, trim_of,
};

verus! {

broadcast use vstd::std_specs::hash::group_hash_axioms;

/// Where a session's things are kept while another is in front: one slot per
/// session, and one past them all for the composer with no session.
pub open spec fn slot(session: Option<u64>) -> u128 {
    match session {
        Some(id) => id as u128,
        None => 0x1_0000_0000_0000_0000u128,
    }
}

fn slot_of(session: Option<u64>) -> (s: u128)
    ensures
        s == slot(session),
{
    match session {
        Some(id) => id as u128,
        None => 0x1_0000_0000_0000_0000u128,
    }
}

/// The composer's state, with `A` what a picture waiting to be sent is.
pub struct Composer<A> {
    /// What the field holds.
    pub content: String,
    /// Where the field's caret stands, in characters.
    pub caret: usize,
    /// The session the composer is writing into; nothing before one is made.
    pub session: Option<u64>,
    /// What was typed with no session behind it, kept while one is in front.
    pub local_draft: String,
    /// Pictures waiting in sessions that are not in front, by [`slot`].
    pub saved_attachments: HashMap<u128, Vec<A>>,
    /// Pictures pasted or dropped, sent with the next message.
    pub attachments: Vec<A>,
    /// What was picked out of the transcript to answer.
    pub quote: Option<String>,
    /// Quotes waiting in sessions that are not in front, by [`slot`].
    pub saved_quotes: HashMap<u128, String>,
    /// Which picture is open in the lightbox.
    pub preview: Option<usize>,
    /// Where the `/` being typed stands, while the command picker is up.
    pub command: Option<usize>,
    /// Whether the agent advertises any command at all.
    pub has_commands: bool,
    /// Whether a turn is in flight.
    pub streaming: bool,
    /// Whether the session tools are on offer.
    pub tools: bool,
    pub activity_open: bool,
    /// The agent menu, the session tools' menu, and whether a submenu of the
    /// agent menu hangs open.
    pub menu: bool,
    pub tools_menu: bool,
    pub submenu: bool,
    /// The switch whose options are open as a list of their own.
    pub picking: Option<usize>,
    /// What `/` offers: each command the agent advertises, as `/name`.
    pub commands: Vec<String>,
    /// The agents on offer, by name, and the one the session runs on.
    pub agents: Vec<String>,
    pub agent: Option<usize>,
    /// What the live session can be switched between.
    pub switches: Vec<Switch>,
    /// Context spent and the context's size, where the agent counts them.
    pub usage: Option<(u64, u64)>,
    /// What the session has in flight, and whether the row over the field is
    /// ticking once a second to keep its clock current.
    pub activity: Option<Activity>,
    pub ticking: bool,
    /// What the empty field says.
    pub placeholder: String,
}

/// What a session switch leaves behind and brings in.
pub struct Shelf<A> {
    pub session: Option<u64>,
    pub local_draft: Seq<char>,
    pub content: Seq<char>,
    pub attachments: Vec<A>,
    pub saved_attachments: Map<u128, Vec<A>>,
    pub quote: Option<String>,
    pub saved_quotes: Map<u128, String>,
}

impl<A> Composer<A> {
    /// Nothing of the session in front is also parked: what `new` makes,
    /// what `set_session` keeps, and what every edit keeps (see
    /// [`lemma_edits_keep_wf`]).
    pub open spec fn wf(&self) -> bool {
        shelved_apart(self.shelf())
    }

    pub open spec fn shelf(&self) -> Shelf<A> {
        Shelf {
            session: self.session,
            local_draft: self.local_draft@,
            content: self.content@,
            attachments: self.attachments,
            saved_attachments: self.saved_attachments@,
            quote: self.quote,
            saved_quotes: self.saved_quotes@,
        }
    }
}

/// Whether `after` keeps what `before` holds beside the session in front:
/// the same session, the draft kept for the composer with none, and what is
/// parked for every other session.
pub open spec fn keeps_shelf<A>(before: Shelf<A>, after: Shelf<A>) -> bool {
    &&& after.session == before.session
    &&& after.local_draft == before.local_draft
    &&& after.saved_attachments == before.saved_attachments
    &&& after.saved_quotes == before.saved_quotes
}

/// Nothing of the session in front is also on the shelf: what it holds is in
/// the composer itself.
pub open spec fn shelved_apart<A>(s: Shelf<A>) -> bool {
    &&& !s.saved_attachments.contains_key(slot(s.session))
    &&& !s.saved_quotes.contains_key(slot(s.session))
}

/// The shelf once the composer moves to `id`, with `draft` what that session
/// had typed into it.
pub open spec fn switched<A>(s: Shelf<A>, id: Option<u64>, draft: Seq<char>, emptied: Vec<A>) -> Shelf<A> {
    if s.session == id {
        s
    } else {
        let local = if s.session is None {
            s.content
        } else {
            s.local_draft
        };
        let parked = s.saved_attachments.insert(slot(s.session), s.attachments);
        let quotes = match s.quote {
            Some(q) => s.saved_quotes.insert(slot(s.session), q),
            None => s.saved_quotes,
        };
        Shelf {
            session: id,
            local_draft: local,
            content: if id is None {
                local
            } else {
                draft
            },
            attachments: if parked.contains_key(slot(id)) {
                parked[slot(id)]
            } else {
                emptied
            },
            saved_attachments: parked.remove(slot(id)),
            quote: if quotes.contains_key(slot(id)) {
                Some(quotes[slot(id)])
            } else {
                None
            },
            saved_quotes: quotes.remove(slot(id)),
        }
    }
}

/// Where the command picker opens: at the `/` that begins the text, while
/// the agent has commands and nothing but a word stands between it and the
/// caret.
pub open spec fn command_at(content: Seq<char>, caret: nat, has_commands: bool) -> Option<usize> {
    let caret = if caret < content.len() {
        caret
    } else {
        content.len()
    };
    if content.len() > 0 && content[0] == '/' && has_commands && (forall|i: int|
        1 <= i < caret ==> !is_ws(#[trigger] content[i])) {
        Some(0)
    } else {
        None
    }
}

/// What stands between the opening `/` and the caret.
pub open spec fn query_of(content: Seq<char>, caret: nat) -> Seq<char> {
    let end = if caret < content.len() {
        caret
    } else {
        content.len()
    };
    if end >= 1 {
        content.subrange(1, end as int)
    } else {
        Seq::empty()
    }
}

/// The message as sent: the quote as a blockquote above it, every line of it
/// marked, or the message alone.
pub open spec fn quoted_text(quote: Option<Seq<char>>, message: Seq<char>) -> Seq<char> {
    match quote {
        None => message,
        Some(q) => marked_lines(lines_of(q)) + "\n\n"@ + message,
    }
}

/// One line of a quote, marked: `>` alone for a blank one, so the quote is
/// not broken in two.
pub open spec fn marked(line: Seq<char>) -> Seq<char> {
    if blank(line) {
        ">"@
    } else {
        "> "@ + line
    }
}

/// The lines, each marked, with a newline between each two.
pub open spec fn marked_lines(ls: Seq<Seq<char>>) -> Seq<char>
    decreases ls.len(),
{
    if ls.len() == 0 {
        Seq::empty()
    } else if ls.len() == 1 {
        marked(ls[0])
    } else {
        marked_lines(ls.drop_last()) + "\n"@ + marked(ls.last())
    }
}

fn push_marked(out: &mut Vec<char>, line: &Vec<char>)
    ensures
        final(out)@ == old(out)@ + marked(line@),
{
    let mut blank_line = true;
    let mut i: usize = 0;
    while i < line.len()
        invariant
            i <= line.len(),
            blank_line == (forall|j: int| 0 <= j < i ==> is_ws(#[trigger] line@[j])),
        decreases line.len() - i,
    {
        if !is_whitespace(line[i]) {
            blank_line = false;
        }
        i += 1;
    }
    if blank_line {
        push_str(out, ">");
    } else {
        push_str(out, "> ");
        push_chars(out, line);
    }
}

/// What goes to the agent: the quote as markdown above the message, every
/// line of it marked, blank ones included; or the message alone.
pub fn quoted(quote: Option<String>, message: &str) -> (out: String)
    ensures
        out@ == quoted_text(
            match quote {
                Some(q) => Some(q@),
                None => None,
            },
            message@,
        ),
{
    match quote {
        None => {
            let m = chars_of(message);
            string_of(&m)
        },
        Some(q) => {
            let qc = chars_of(q.as_str());
            let ls = lines(&qc);
            let ghost want = lines_of(q@);
            let mut out: Vec<char> = Vec::new();
            let mut k: usize = 0;
            while k < ls.len()
                invariant
                    k <= ls.len(),
                    ls@.map_values(|l: Vec<char>| l@) == want,
                    out@ == marked_lines(want.take(k as int)),
                decreases ls.len() - k,
            {
                assert(want[k as int] == ls@[k as int]@);
                assert(want.take(k + 1).drop_last() =~= want.take(k as int));
                if k > 0 {
                    push_str(&mut out, "\n");
                }
                push_marked(&mut out, &ls[k]);
                k += 1;
                assert(k == 1 ==> want.take(1) =~= seq![want[0]]);
            }
            assert(want.take(ls.len() as int) =~= want);
            push_str(&mut out, "\n\n");
            push_str(&mut out, message);
            string_of(&out)
        },
    }
}

/// The field once the picked command `picked` is taken in place of the
/// `/word` typed into `content`: the command and a space, then whatever stood
/// after the caret (held to the field's end).
pub open spec fn accepted(content: Seq<char>, caret: usize, picked: Seq<char>) -> Seq<char> {
    picked + seq![' '] + content.subrange(
        if caret < content.len() {
            caret as int
        } else {
            content.len() as int
        },
        content.len() as int,
    )
}

impl<A> Composer<A> {
    /// A composer with nothing in it, writing into no session.
    pub fn new() -> (c: Self)
        ensures
            c.wf(),
            c.content@ == Seq::<char>::empty(),
            c.session is None,
            c.attachments@.len() == 0,
            c.quote is None,
            c.saved_attachments@ == Map::<u128, Vec<A>>::empty(),
            c.saved_quotes@ == Map::<u128, String>::empty(),
            c.command is None,
            !c.menu && !c.tools_menu && !c.submenu && c.picking is None,
            c.preview is None,
            c.tools,
            !c.streaming,
            c.commands@.len() == 0 && c.agents@.len() == 0 && c.agent is None,
            c.switches@.len() == 0 && c.usage is None,
            shelved_apart(c.shelf()),
    {
        Composer {
            content: String::new(),
            caret: 0,
            session: None,
            local_draft: String::new(),
            saved_attachments: HashMap::new(),
            attachments: Vec::new(),
            quote: None,
            saved_quotes: HashMap::new(),
            preview: None,
            command: None,
            has_commands: false,
            streaming: false,
            tools: true,
            activity_open: false,
            menu: false,
            tools_menu: false,
            submenu: false,
            picking: None,
            commands: Vec::new(),
            agents: Vec::new(),
            agent: None,
            switches: Vec::new(),
            usage: None,
            activity: None,
            ticking: false,
            placeholder: String::new(),
        }
    }

    /// The session the composer is writing into.
    pub fn session(&self) -> (s: Option<u64>)
        ensures
            s == self.session,
    {
        self.session
    }

    /// Put `text` in the field, with the caret after it.
    fn set_content(&mut self, text: String)
        ensures
            final(self).content == text,
            final(self).caret == text@.len(),
            final(self).session == old(self).session,
            final(self).local_draft == old(self).local_draft,
            final(self).attachments == old(self).attachments,
            final(self).saved_attachments == old(self).saved_attachments,
            final(self).quote == old(self).quote,
            final(self).saved_quotes == old(self).saved_quotes,
            final(self).preview == old(self).preview,
            final(self).has_commands == old(self).has_commands,
            final(self).command == old(self).command,
            final(self).activity_open == old(self).activity_open,
    {
        let chars = chars_of(text.as_str());
        self.caret = chars.len();
        self.content = text;
    }

    /// Read the command picker off the text: open at a `/` that begins it,
    /// while the agent has commands and no whitespace stands between the `/`
    /// and the caret.
    pub fn reread(&mut self)
        ensures
            final(self).command == command_at(
                old(self).content@,
                old(self).caret as nat,
                old(self).has_commands,
            ),
            final(self).content == old(self).content,
            final(self).caret == old(self).caret,
            final(self).session == old(self).session,
            final(self).local_draft == old(self).local_draft,
            final(self).attachments == old(self).attachments,
            final(self).saved_attachments == old(self).saved_attachments,
            final(self).quote == old(self).quote,
            final(self).saved_quotes == old(self).saved_quotes,
            final(self).preview == old(self).preview,
            final(self).has_commands == old(self).has_commands,
            final(self).activity_open == old(self).activity_open,
    {
        let chars = chars_of(self.content.as_str());
        let caret = if self.caret < chars.len() {
            self.caret
        } else {
            chars.len()
        };
        let mut word = true;
        let mut i: usize = 1;
        while i < caret
            invariant
                1 <= i,
                caret <= chars.len(),
                word == (forall|j: int| 1 <= j < i && j < caret ==> !is_ws(#[trigger] chars@[j])),
            decreases caret - i,
        {
            if is_whitespace(chars[i]) {
                word = false;
            }
            i += 1;
        }
        self.command = if chars.len() > 0 && chars[0] == '/' && self.has_commands && word {
            Some(0)
        } else {
            None
        };
    }

    /// What the command picker is narrowed by: the text between the `/` and
    /// the caret, while the picker is up.
    pub fn command_query(&self) -> (q: Option<String>)
        ensures
            self.command is None ==> q is None,
            self.command is Some && self.content@.len() > 0 ==> (q matches Some(q) && q@
                == query_of(self.content@, self.caret as nat)),
    {
        if self.command.is_none() {
            return None;
        }
        let chars = chars_of(self.content.as_str());
        if chars.len() == 0 {
            return None;
        }
        let caret = if self.caret < chars.len() {
            self.caret
        } else {
            chars.len()
        };
        if caret < 1 {
            let none: Vec<char> = Vec::new();
            return Some(string_of(&none));
        }
        let q = slice_chars(&chars, 1, caret);
        Some(string_of(&q))
    }

    /// Move the composer to session `id`, keeping what the one it leaves was
    /// holding — its pictures and its quote, and what was typed with no
    /// session behind it — and bringing out what `id` left. `draft` is what
    /// session `id` had typed.
    pub fn set_session(&mut self, id: Option<u64>, draft: &str)
        ensures
            exists|emptied: Vec<A>|
                final(self).shelf() == switched(old(self).shelf(), id, draft@, emptied) && (
                emptied@.len() == 0),
            old(self).session != id ==> {
                &&& final(self).preview is None
                &&& !final(self).activity_open
                &&& final(self).caret == final(self).content@.len()
                &&& final(self).command == command_at(
                    final(self).content@,
                    final(self).caret as nat,
                    final(self).has_commands,
                )
            },
            final(self).has_commands == old(self).has_commands,
            old(self).session != id ==> shelved_apart(final(self).shelf()),
            old(self).wf() ==> final(self).wf(),
            old(self).session == id ==> final(self).shelf() == old(self).shelf(),
    {
        if self.session == id {
            let witness: Vec<A> = Vec::new();
            assert(self.shelf() == switched(old(self).shelf(), id, draft@, witness));
            return;
        }
        if self.session.is_none() {
            self.local_draft = self.content.clone();
        }
        let from = slot_of(self.session);
        let mut held: Vec<A> = Vec::new();
        std::mem::swap(&mut held, &mut self.attachments);
        self.saved_attachments.insert(from, held);
        let mut quote: Option<String> = None;
        std::mem::swap(&mut quote, &mut self.quote);
        if let Some(q) = quote {
            self.saved_quotes.insert(from, q);
        }
        self.session = id;
        self.activity_open = false;
        let to = slot_of(id);
        let ghost parked = self.saved_attachments@;
        let emptied: Vec<A> = Vec::new();
        let ghost e = emptied;
        self.attachments = match self.saved_attachments.remove(&to) {
            Some(v) => v,
            None => emptied,
        };
        self.quote = self.saved_quotes.remove(&to);
        self.preview = None;
        let text = if id.is_none() {
            self.local_draft.clone()
        } else {
            draft.to_owned()
        };
        self.set_content(text);
        self.reread();
        assert(self.shelf() == switched(old(self).shelf(), id, draft@, e));
    }

    /// Bring a queued message back into the field to be edited: its text
    /// ahead of whatever is being typed, and its pictures ahead of those
    /// waiting.
    pub fn restore_queued(&mut self, text: &str, pictures: Vec<A>)
        ensures
            keeps_shelf(old(self).shelf(), final(self).shelf()),
            final(self).content@ == (if text@.len() == 0 {
                old(self).content@
            } else if old(self).content@.len() == 0 {
                text@
            } else {
                text@ + "\n\n"@ + old(self).content@
            }),
            final(self).attachments@ == pictures@ + old(self).attachments@,
            final(self).preview is None,
            final(self).caret == final(self).content@.len(),
            final(self).command == command_at(
                final(self).content@,
                final(self).caret as nat,
                final(self).has_commands,
            ),
            final(self).session == old(self).session,
            final(self).quote == old(self).quote,
    {
        let mut waiting: Vec<A> = Vec::new();
        std::mem::swap(&mut waiting, &mut self.attachments);
        let mut all = pictures;
        all.append(&mut waiting);
        self.attachments = all;
        self.preview = None;
        let draft = chars_of(self.content.as_str());
        let restored = chars_of(text);
        let content = if restored.len() == 0 {
            string_of(&draft)
        } else if draft.len() == 0 {
            string_of(&restored)
        } else {
            let mut out = restored;
            push_str(&mut out, "\n\n");
            push_chars(&mut out, &draft);
            string_of(&out)
        };
        self.set_content(content);
        self.reread();
    }

    /// Whether there is nothing to send: no picture, and nothing in the field
    /// but whitespace.
    pub fn is_empty(&self) -> (b: bool)
        ensures
            b == (self.attachments@.len() == 0 && blank(self.content@)),
    {
        self.attachments.len() == 0 && is_blank(self.content.as_str())
    }

    /// Answer `text`: it waits above the message, trimmed, in place of any
    /// quote before it. Nothing but whitespace is no quote.
    pub fn quote(&mut self, text: &str)
        ensures
            keeps_shelf(old(self).shelf(), final(self).shelf()),
            trim_of(text@).len() == 0 ==> final(self).quote == old(self).quote,
            trim_of(text@).len() > 0 ==> (final(self).quote matches Some(q) && q@ == trim_of(
                text@,
            )),
            final(self).content == old(self).content,
            final(self).attachments == old(self).attachments,
    {
        let chars = chars_of(text);
        let t = trim_chars(&chars);
        if t.len() == 0 {
            return;
        }
        self.quote = Some(string_of(&t));
    }

    /// Take the picked command in place of the `/word` typed: the command and
    /// a space, then whatever stood after the caret.
    pub fn accept(&mut self, picked: &str)
        ensures
            keeps_shelf(old(self).shelf(), final(self).shelf()),
            final(self).content@ == accepted(old(self).content@, old(self).caret, picked@),
            final(self).command is None,
            final(self).attachments == old(self).attachments,
            final(self).quote == old(self).quote,
    {
        let chars = chars_of(self.content.as_str());
        let caret = if self.caret < chars.len() {
            self.caret
        } else {
            chars.len()
        };
        let mut out = chars_of(picked);
        out.push(' ');
        let rest = slice_chars(&chars, caret, chars.len());
        push_chars(&mut out, &rest);
        assert(out@ =~= picked@ + seq![' '] + self.content@.subrange(caret as int, chars.len() as int));
        let text = string_of(&out);
        self.set_content(text);
        self.command = None;
    }

    /// Enter. While the picker is up with a row lit, that row's command is
    /// taken; otherwise the message goes, with its quote and its pictures,
    /// unless there is nothing to send. `lit` is the command the picker has
    /// lit, if any.
    pub fn submit(&mut self, lit: Option<&str>) -> (sent: Option<(String, Vec<A>)>)
        ensures
            keeps_shelf(old(self).shelf(), final(self).shelf()),
            old(self).command is Some && lit is Some ==> {
                &&& sent is None
                &&& final(self).content@ == accepted(old(self).content@, old(self).caret, lit->0@)
                &&& final(self).command is None
                &&& final(self).attachments == old(self).attachments
                &&& final(self).quote == old(self).quote
            },
            !(old(self).command is Some && lit is Some) && blank(old(self).content@)
                && old(self).attachments@.len() == 0 ==> {
                &&& sent is None
                &&& *final(self) == *old(self)
            },
            !(old(self).command is Some && lit is Some) && !(blank(old(self).content@)
                && old(self).attachments@.len() == 0) ==> {
                &&& sent matches Some((text, pictures)) && text@ == quoted_text(
                    match old(self).quote {
                        Some(q) => Some(q@),
                        None => None,
                    },
                    old(self).content@,
                ) && pictures == old(self).attachments
                &&& final(self).content@.len() == 0
                &&& final(self).quote is None
                &&& final(self).attachments@.len() == 0
                &&& final(self).command is None
            },
    {
        if self.command.is_some() {
            if let Some(picked) = lit {
                self.accept(picked);
                return None;
            }
        }
        if is_blank(self.content.as_str()) && self.attachments.len() == 0 {
            return None;
        }
        let mut content = String::new();
        std::mem::swap(&mut content, &mut self.content);
        self.caret = 0;
        self.command = None;
        let mut quote: Option<String> = None;
        std::mem::swap(&mut quote, &mut self.quote);
        let mut pictures: Vec<A> = Vec::new();
        std::mem::swap(&mut pictures, &mut self.attachments);
        Some((quoted(quote, content.as_str()), pictures))
    }

    /// Escape: back out of whatever is happening, outermost first — the open
    /// picture, the tools' menu, a submenu, the agent menu or its list of
    /// options, the command picker — and, with nothing left to close, say the
    /// turn in flight should be cancelled, which is what `true` means.
    pub fn dismiss(&mut self) -> (cancel: bool)
        ensures
            keeps_shelf(old(self).shelf(), final(self).shelf()),
            old(self).preview is Some ==> !cancel && final(self).preview is None
                && final(self).tools_menu == old(self).tools_menu,
            old(self).preview is None && old(self).tools_menu ==> !cancel
                && !final(self).tools_menu && final(self).submenu == old(self).submenu,
            old(self).preview is None && !old(self).tools_menu && old(self).submenu ==> !cancel
                && !final(self).submenu && final(self).menu == old(self).menu,
            old(self).preview is None && !old(self).tools_menu && !old(self).submenu && (
            old(self).menu || old(self).picking is Some) ==> !cancel && !final(self).menu
                && final(self).picking is None && final(self).command == old(self).command,
            old(self).preview is None && !old(self).tools_menu && !old(self).submenu
                && !old(self).menu && old(self).picking is None ==> final(self).command is None
                && cancel == old(self).command is None,
            final(self).content == old(self).content,
            final(self).attachments == old(self).attachments,
    {
        if self.preview.is_some() {
            self.preview = None;
            false
        } else if self.tools_menu {
            self.tools_menu = false;
            false
        } else if self.submenu {
            self.submenu = false;
            false
        } else if self.menu || self.picking.is_some() {
            self.close_menu();
            false
        } else {
            let was = self.command.is_none();
            self.command = None;
            was
        }
    }

    /// Shut the agent menu, whatever submenu it had down, and any list of
    /// options open in its place.
    pub fn close_menu(&mut self)
        ensures
            keeps_shelf(old(self).shelf(), final(self).shelf()),
            !final(self).menu && !final(self).submenu && final(self).picking is None,
            final(self).command == old(self).command,
            final(self).content == old(self).content,
            final(self).attachments == old(self).attachments,
            final(self).preview == old(self).preview,
            final(self).tools_menu == old(self).tools_menu,
            final(self).switches == old(self).switches,
    {
        self.menu = false;
        self.submenu = false;
        self.picking = None;
    }
}

/// What choosing a row of the agent menu comes to.
pub enum Picked {
    /// A long switch: its options open as a list of their own, scrolled to
    /// where the value it is on stands among them.
    List { row: usize, at: Option<usize> },
    /// Set the switch to the option: the switch's request and the option's id.
    Setting(SwitchId, String),
    /// Nothing to set.
    Nothing,
}

/// Where a list of `sw`'s options is scrolled to: the first of them that is
/// the value it is on, or nowhere where none is.
pub open spec fn scrolled_to(sw: Switch, at: Option<usize>) -> bool {
    match at {
        Some(k) => k < sw.options@.len() && sw.current is Some && sw.options@[k as int].id@
            == sw.current->0@ && forall|j: int|
            0 <= j < k ==> (#[trigger] sw.options@[j]).id@ != sw.current->0@,
        None => sw.current is None || forall|j: int|
            0 <= j < sw.options@.len() ==> (#[trigger] sw.options@[j]).id@ != sw.current->0@,
    }
}

impl<A> Composer<A> {
    /// A row of the agent menu chosen, by its path: one row for a switch whose
    /// options open as a list of their own, a row and an option to set that
    /// switch. Either shuts the menu; a path of any other length is no choice.
    pub fn pick_row(&mut self, path: &Vec<usize>) -> (picked: Picked)
        ensures
            keeps_shelf(old(self).shelf(), final(self).shelf()),
            path@.len() == 1 ==> {
                &&& !final(self).menu && !final(self).submenu
                &&& final(self).picking == Some(path@[0])
                &&& match picked {
                    Picked::List { row, at } => row == path@[0] && if row < old(
                        self,
                    ).switches@.len() {
                        scrolled_to(old(self).switches@[row as int], at)
                    } else {
                        at is None
                    },
                    _ => false,
                }
            },
            path@.len() == 2 ==> {
                &&& !final(self).menu && !final(self).submenu && final(self).picking is None
                &&& if path@[0] < old(self).switches@.len() && path@[1] < old(
                    self,
                ).switches@[path@[0] as int].options@.len() {
                    picked matches Picked::Setting(id, option) && id_view(id) == id_view(
                        old(self).switches@[path@[0] as int].id,
                    ) && option@ == old(self).switches@[path@[0] as int].options@[path@[1] as int].id@
                } else {
                    picked is Nothing
                }
            },
            path@.len() != 1 && path@.len() != 2 ==> picked is Nothing && final(self).menu
                == old(self).menu && final(self).submenu == old(self).submenu
                && final(self).picking == old(self).picking,
            final(self).switches == old(self).switches,
            final(self).command == old(self).command,
            final(self).content == old(self).content,
            final(self).attachments == old(self).attachments,
            final(self).preview == old(self).preview,
            final(self).tools_menu == old(self).tools_menu,
    {
        if path.len() == 1 {
            let row = path[0];
            self.close_menu();
            self.picking = Some(row);
            let at = if row < self.switches.len() {
                current_position(&self.switches[row])
            } else {
                None
            };
            return Picked::List { row, at };
        }
        if path.len() != 2 {
            return Picked::Nothing;
        }
        let row = path[0];
        let at = path[1];
        self.close_menu();
        if row < self.switches.len() && at < self.switches[row].options.len() {
            let switch = &self.switches[row];
            Picked::Setting(id_of(switch), switch.options[at].id.clone())
        } else {
            Picked::Nothing
        }
    }
}

/// A composer keeps each session's own: move it to another session and back,
/// and the pictures and the quote it was holding are there again.
pub proof fn lemma_session_round_trip<A>(
    s: Shelf<A>,
    b: Option<u64>,
    draft_b: Seq<char>,
    draft_a: Seq<char>,
    e1: Vec<A>,
    e2: Vec<A>,
)
    requires
        s.session != b,
        shelved_apart(s),
    ensures
        ({
            let back = switched(switched(s, b, draft_b, e1), s.session, draft_a, e2);
            &&& back.attachments == s.attachments
            &&& back.quote == s.quote
            &&& back.session == s.session
        }),
{
    let a = s.session;
    assert(slot(a) != slot(b)) by {
        match (a, b) {
            (Some(x), Some(y)) => {},
            _ => {},
        }
    }
    let s1 = switched(s, b, draft_b, e1);
    assert(s1.saved_attachments.contains_key(slot(a)));
    assert(s1.saved_attachments[slot(a)] == s.attachments);
    match s.quote {
        Some(q) => {
            assert(s1.saved_quotes.contains_key(slot(a)));
        },
        None => {
            assert(!s1.saved_quotes.contains_key(slot(a)));
        },
    }
}

/// An edit that keeps the shelf keeps a composer well formed.
pub proof fn lemma_edits_keep_wf<A>(before: Shelf<A>, after: Shelf<A>)
    requires
        shelved_apart(before),
        keeps_shelf(before, after),
    ensures
        shelved_apart(after),
{
}

/// A composer keeps each session's own, whatever is done in between: from
/// any well-formed composer (which every composer is: [`Composer::new`] makes
/// one, and `set_session` and every edit keep it so), leave a session for
/// another, edit there as much as you like (anything that
/// keeps the shelf, as every edit of the composer does), and come back; the
/// pictures and the quote it was holding are there again, and the field holds
/// the draft it comes back with, or what was typed with no session.
pub proof fn lemma_session_round_trip_edited<A>(
    s: Shelf<A>,
    b: Option<u64>,
    draft_b: Seq<char>,
    e1: Vec<A>,
    t: Shelf<A>,
    draft_a: Seq<char>,
    e2: Vec<A>,
)
    requires
        s.session != b,
        shelved_apart(s),
        keeps_shelf(switched(s, b, draft_b, e1), t),
    ensures
        ({
            let back = switched(t, s.session, draft_a, e2);
            &&& back.session == s.session
            &&& back.attachments == s.attachments
            &&& back.quote == s.quote
            &&& back.content == if s.session is None {
                s.content
            } else {
                draft_a
            }
        }),
{
    let a = s.session;
    assert(slot(a) != slot(b)) by {
        match (a, b) {
            (Some(x), Some(y)) => {},
            _ => {},
        }
    }
    let s1 = switched(s, b, draft_b, e1);
    assert(t.saved_attachments.contains_key(slot(a)));
    assert(t.saved_attachments[slot(a)] == s.attachments);
    match s.quote {
        Some(q) => {
            assert(t.saved_quotes.contains_key(slot(a)));
        },
        None => {
            assert(!t.saved_quotes.contains_key(slot(a)));
        },
    }
}

/// Coming back to the composer with no session brings back what was typed
/// there, whatever was typed into the session in between.
pub proof fn lemma_local_draft_kept<A>(
    s: Shelf<A>,
    b: u64,
    draft_b: Seq<char>,
    draft_none: Seq<char>,
    e1: Vec<A>,
    e2: Vec<A>,
)
    requires
        s.session is None,
    ensures
        switched(switched(s, Some(b), draft_b, e1), None, draft_none, e2).content == s.content,
{
}

/// What the image crate reads as a picture's pixel size from its bytes: the
/// width and height the header gives, for the built-in format the bytes'
/// signature names.
pub uninterp spec fn image_size_of(bytes: Seq<u8>) -> Option<(u32, u32)>;

/// The pixel size a picture's header gives.
///
/// Wraps the image crate: `guess_format` on the bytes, which matches them
/// against the built-in signatures only, then `ImageReader::with_format`
/// over them with that format and `into_dimensions`; either failure reads as
/// none. A built-in format goes to the crate's own decoder and consults no
/// hook a process can register, so the size is a function of the bytes
/// alone; it is named, not spelled out.
#[verifier::external_body]
fn header_size(bytes: &[u8]) -> (r: Option<(u32, u32)>)
    ensures
        r == image_size_of(bytes@),
{
    let format = image::guess_format(bytes).ok()?;
    image::ImageReader::with_format(std::io::Cursor::new(bytes), format).into_dimensions().ok()
}

/// A pasted picture's pixel size, read from its header, to lay its preview
/// out by.
pub fn dimensions(bytes: &Vec<u8>) -> (r: Option<(u32, u32)>)
    ensures
        r == image_size_of(bytes@),
{
    header_size(bytes.as_slice())
}

/// Whether two lists of texts say the same, text for text.
pub open spec fn same_texts(a: Seq<String>, b: Seq<String>) -> bool {
    a.len() == b.len() && forall|i: int| 0 <= i < a.len() ==> #[trigger] a[i]@ == b[i]@
}

fn texts_equal(a: &Vec<String>, b: &Vec<String>) -> (same: bool)
    ensures
        same == same_texts(a@, b@),
{
    if a.len() != b.len() {
        return false;
    }
    let mut i: usize = 0;
    while i < a.len()
        invariant
            a.len() == b.len(),
            i <= a.len(),
            forall|j: int| 0 <= j < i ==> #[trigger] a@[j]@ == b@[j]@,
        decreases a.len() - i,
    {
        if !same_text(a[i].as_str(), b[i].as_str()) {
            assert(a@[i as int]@ != b@[i as int]@);
            return false;
        }
        i += 1;
    }
    true
}

/// The picker's label for the command `name`: `/name`.
pub open spec fn command_label(name: Seq<char>) -> Seq<char> {
    seq!['/'] + name
}

/// Whether two lists of switches say the same.
pub open spec fn same_switches(a: Seq<Switch>, b: Seq<Switch>) -> bool {
    a.len() == b.len() && forall|i: int| 0 <= i < a.len() ==> #[trigger] switch_view(a[i]) == switch_view(b[i])
}

fn switch_equal(a: &Switch, b: &Switch) -> (same: bool)
    ensures
        same == (switch_view(*a) == switch_view(*b)),
{
    let ids = match (&a.id, &b.id) {
        (SwitchId::Mode, SwitchId::Mode) => true,
        (SwitchId::Config(x), SwitchId::Config(y)) => same_text(x.as_str(), y.as_str()),
        _ => false,
    };
    if !ids {
        return false;
    }
    if !same_text(a.name.as_str(), b.name.as_str()) {
        return false;
    }
    let currents = match (&a.current, &b.current) {
        (Some(x), Some(y)) => same_text(x.as_str(), y.as_str()),
        (None, None) => true,
        _ => false,
    };
    if !currents {
        return false;
    }
    if a.options.len() != b.options.len() {
        assert(option_pairs(a.options@).len() != option_pairs(b.options@).len());
        return false;
    }
    let mut i: usize = 0;
    while i < a.options.len()
        invariant
            a.options.len() == b.options.len(),
            i <= a.options.len(),
            forall|j: int|
                0 <= j < i ==> #[trigger] option_pairs(a.options@)[j] == option_pairs(b.options@)[j],
        decreases a.options.len() - i,
    {
        if !same_text(a.options[i].id.as_str(), b.options[i].id.as_str()) || !same_text(
            a.options[i].name.as_str(),
            b.options[i].name.as_str(),
        ) {
            assert(option_pairs(a.options@)[i as int] != option_pairs(b.options@)[i as int]);
            return false;
        }
        i += 1;
    }
    assert(option_pairs(a.options@) =~= option_pairs(b.options@));
    true
}

impl<A> Composer<A> {
    /// Offer the session tools, or not; whether that changed.
    pub fn set_tools(&mut self, tools: bool) -> (changed: bool)
        ensures
            keeps_shelf(old(self).shelf(), final(self).shelf()),
            changed == (old(self).tools != tools),
            final(self).tools == tools,
            final(self).content == old(self).content,
            final(self).attachments == old(self).attachments,
    {
        let changed = self.tools != tools;
        self.tools = tools;
        changed
    }

    /// Note whether a turn is in flight; whether that changed.
    pub fn set_streaming(&mut self, streaming: bool) -> (changed: bool)
        ensures
            keeps_shelf(old(self).shelf(), final(self).shelf()),
            changed == (old(self).streaming != streaming),
            final(self).streaming == streaming,
            final(self).content == old(self).content,
            final(self).attachments == old(self).attachments,
    {
        let changed = self.streaming != streaming;
        self.streaming = streaming;
        changed
    }

    /// Take in the context spent, as `(used, size)`; whether it changed.
    pub fn set_usage(&mut self, usage: Option<(u64, u64)>) -> (changed: bool)
        ensures
            keeps_shelf(old(self).shelf(), final(self).shelf()),
            changed == (old(self).usage != usage),
            final(self).usage == usage,
            final(self).content == old(self).content,
    {
        let same = match (self.usage, usage) {
            (Some(held), Some(next)) => held.0 == next.0 && held.1 == next.1,
            (None, None) => true,
            _ => false,
        };
        self.usage = usage;
        !same
    }

    /// Take in the commands the agent advertises, by name. Where they
    /// changed, `/` offers each as `/name` and any open picker closes.
    /// Whether they changed.
    pub fn set_commands(&mut self, names: &Vec<String>) -> (changed: bool)
        ensures
            keeps_shelf(old(self).shelf(), final(self).shelf()),
            changed == !(old(self).commands.len() == names.len() && forall|i: int|
                0 <= i < names.len() ==> #[trigger] old(self).commands@[i]@ == command_label(names@[i]@)),
            final(self).commands.len() == names.len(),
            forall|i: int|
                0 <= i < names.len() ==> #[trigger] final(self).commands@[i]@ == command_label(names@[i]@),
            final(self).has_commands == (names.len() > 0),
            changed ==> final(self).command is None,
            !changed ==> final(self).command == old(self).command,
            final(self).content == old(self).content,
    {
        let mut labels: Vec<String> = Vec::new();
        let mut i: usize = 0;
        while i < names.len()
            invariant
                i <= names.len(),
                labels.len() == i,
                forall|j: int| 0 <= j < i ==> #[trigger] labels@[j]@ == command_label(names@[j]@),
            decreases names.len() - i,
        {
            let mut label = chars_of("/");
            proof {
                reveal_strlit("/");
            }
            push_chars(&mut label, &chars_of(names[i].as_str()));
            labels.push(string_of(&label));
            i += 1;
        }
        let changed = !texts_equal(&self.commands, &labels);
        self.has_commands = names.len() > 0;
        if changed {
            self.commands = labels;
            self.command = None;
        }
        changed
    }

    /// Take in the agents on offer and the one the session runs on. Where
    /// either changed, the agent menu closes. Whether they changed.
    pub fn set_agents(&mut self, agents: Vec<String>, current: Option<usize>) -> (changed: bool)
        ensures
            keeps_shelf(old(self).shelf(), final(self).shelf()),
            changed == !(same_texts(old(self).agents@, agents@) && old(self).agent == current),
            same_texts(final(self).agents@, agents@),
            final(self).agent == current,
            changed ==> !final(self).menu && !final(self).submenu && final(self).picking is None,
            !changed ==> final(self).menu == old(self).menu,
            final(self).content == old(self).content,
    {
        if texts_equal(&self.agents, &agents) && self.agent == current {
            return false;
        }
        self.close_menu();
        self.agents = agents;
        self.agent = current;
        true
    }

    /// Take in what the session can be switched between; whether it changed.
    /// An open submenu is left as it is.
    pub fn set_switches(&mut self, switches: Vec<Switch>) -> (changed: bool)
        ensures
            keeps_shelf(old(self).shelf(), final(self).shelf()),
            changed == !same_switches(old(self).switches@, switches@),
            final(self).switches == switches,
            final(self).menu == old(self).menu,
            final(self).content == old(self).content,
    {
        let mut same = self.switches.len() == switches.len();
        let mut i: usize = 0;
        while same && i < switches.len()
            invariant
                same ==> self.switches.len() == switches.len(),
                same ==> forall|j: int| 0 <= j < i ==> #[trigger] switch_view(self.switches@[j]) == switch_view(switches@[j]),
                !same ==> !same_switches(self.switches@, switches@),
                i <= switches.len(),
            decreases switches.len() - i,
        {
            if !switch_equal(&self.switches[i], &switches[i]) {
                same = false;
            }
            i += 1;
        }
        self.switches = switches;
        !same
    }
}

/// Whether two activities say the same.
pub open spec fn same_activity(a: Activity, b: Activity) -> bool {
    &&& a.label@ == b.label@
    &&& a.since == b.since
    &&& a.last_event == b.last_event
    &&& a.tools.len() == b.tools.len()
    &&& forall|i: int|
        0 <= i < a.tools.len() ==> (#[trigger] a.tools@[i]).0@ == b.tools@[i].0@ && a.tools@[i].1@
            == b.tools@[i].1@
    &&& (match (a.permission, b.permission) {
        (Some(x), Some(y)) => x@ == y@,
        (None, None) => true,
        _ => false,
    })
    &&& a.disconnected == b.disconnected
    &&& a.reconnectable == b.reconnectable
}

/// Whether two optional activities say the same.
pub open spec fn same_in_flight(a: Option<Activity>, b: Option<Activity>) -> bool {
    match (a, b) {
        (Some(x), Some(y)) => same_activity(x, y),
        (None, None) => true,
        _ => false,
    }
}

fn activity_equal(a: &Activity, b: &Activity) -> (same: bool)
    ensures
        same == same_activity(*a, *b),
{
    if !same_text(a.label.as_str(), b.label.as_str()) || a.since != b.since || a.last_event
        != b.last_event || a.disconnected != b.disconnected || a.reconnectable != b.reconnectable
        || a.tools.len() != b.tools.len() {
        return false;
    }
    let permissions = match (&a.permission, &b.permission) {
        (Some(x), Some(y)) => same_text(x.as_str(), y.as_str()),
        (None, None) => true,
        _ => false,
    };
    if !permissions {
        return false;
    }
    let mut i: usize = 0;
    while i < a.tools.len()
        invariant
            a.tools.len() == b.tools.len(),
            i <= a.tools.len(),
            forall|j: int|
                0 <= j < i ==> (#[trigger] a.tools@[j]).0@ == b.tools@[j].0@ && a.tools@[j].1@
                    == b.tools@[j].1@,
        decreases a.tools.len() - i,
    {
        if !same_text(a.tools[i].0.as_str(), b.tools[i].0.as_str()) || !same_text(
            a.tools[i].1.as_str(),
            b.tools[i].1.as_str(),
        ) {
            return false;
        }
        i += 1;
    }
    true
}

impl<A> Composer<A> {
    /// Take in what the session has in flight. Where it changed, the row's
    /// clock ticks while something runs on a connection still there, and the
    /// row's details close once nothing is in flight. Whether it changed.
    pub fn set_activity(&mut self, activity: Option<Activity>) -> (changed: bool)
        ensures
            keeps_shelf(old(self).shelf(), final(self).shelf()),
            changed == !same_in_flight(old(self).activity, activity),
            !changed ==> final(self).activity == old(self).activity && final(self).ticking == old(
                self,
            ).ticking && final(self).activity_open == old(self).activity_open,
            changed ==> final(self).activity == activity && final(self).ticking == (
            activity matches Some(a) && !a.disconnected),
            changed && activity is None ==> !final(self).activity_open,
            changed && activity is Some ==> final(self).activity_open == old(self).activity_open,
            final(self).content == old(self).content,
    {
        let same = match (&self.activity, &activity) {
            (Some(x), Some(y)) => activity_equal(x, y),
            (None, None) => true,
            _ => false,
        };
        if same {
            return false;
        }
        let ticking = match &activity {
            Some(a) => !a.disconnected,
            None => false,
        };
        let none = activity.is_none();
        self.activity = activity;
        self.ticking = ticking;
        if none {
            self.activity_open = false;
        }
        true
    }
}

/// One row of the agent menu for a switch: its name with the value it is on;
/// whether it opens its options as a list of their own (too many to drop as
/// a submenu); and its options by name, each ticked where it is the value.
pub struct MenuRow {
    pub label: String,
    pub list: bool,
    pub options: Vec<(String, bool)>,
}

/// The rows the agent menu gives the switches, in order; see [`MenuRow`].
pub fn menu_items(switches: &Vec<Switch>) -> (rows: Vec<MenuRow>)
    ensures
        rows.len() == switches.len(),
        forall|k: int|
            0 <= k < switches.len() ==> {
                let s = #[trigger] switches@[k];
                let r = rows@[k];
                &&& r.label@ == set_to_text(s.name@, value_name(s))
                &&& r.list == (s.options.len() > SUBMENU_ROWS)
                &&& r.options.len() == s.options.len()
                &&& forall|j: int|
                    0 <= j < s.options.len() ==> (#[trigger] r.options@[j]).0@ == s.options@[j].name@
                        && r.options@[j].1 == (s.current matches Some(c) && c@ == s.options@[j].id@)
            },
{
    let mut rows: Vec<MenuRow> = Vec::new();
    let mut k: usize = 0;
    while k < switches.len()
        invariant
            k <= switches.len(),
            rows.len() == k,
            forall|m: int|
                0 <= m < k ==> {
                    let s = #[trigger] switches@[m];
                    let r = rows@[m];
                    &&& r.label@ == set_to_text(s.name@, value_name(s))
                    &&& r.list == (s.options.len() > SUBMENU_ROWS)
                    &&& r.options.len() == s.options.len()
                    &&& forall|j: int|
                        0 <= j < s.options.len() ==> (#[trigger] r.options@[j]).0@ == s.options@[j].name@
                            && r.options@[j].1 == (s.current matches Some(c) && c@ == s.options@[j].id@)
                },
        decreases switches.len() - k,
    {
        let s = &switches[k];
        let mut options: Vec<(String, bool)> = Vec::new();
        let mut j: usize = 0;
        while j < s.options.len()
            invariant
                j <= s.options.len(),
                options.len() == j,
                forall|i: int|
                    0 <= i < j ==> (#[trigger] options@[i]).0@ == s.options@[i].name@ && options@[i].1
                        == (s.current matches Some(c) && c@ == s.options@[i].id@),
            decreases s.options.len() - j,
        {
            let checked = match &s.current {
                Some(c) => same_text(c.as_str(), s.options[j].id.as_str()),
                None => false,
            };
            options.push((s.options[j].name.as_str().to_owned(), checked));
            j += 1;
        }
        let label = set_to(s.name.as_str(), value_of(s));
        rows.push(MenuRow { label, list: s.options.len() > SUBMENU_ROWS, options });
        k += 1;
    }
    rows
}

impl<A> Composer<A> {
    /// Say `text` in the empty field.
    pub fn set_placeholder(&mut self, text: &str)
        ensures
            keeps_shelf(old(self).shelf(), final(self).shelf()),
            final(self).placeholder@ == text@,
            final(self).content == old(self).content,
            final(self).attachments == old(self).attachments,
    {
        self.placeholder = text.to_owned();
    }
}

/// The picker reads only what stands before the caret: whatever follows
/// it, whitespace included, leaves the picker as the text up to the caret
/// would; and a `/` opening a single word up to the caret opens it, while
/// the agent has commands.
pub proof fn lemma_picker_reads_before_caret(before: Seq<char>, after: Seq<char>, has_commands: bool)
    requires
        before.len() >= 1,
    ensures
        command_at(before + after, before.len() as nat, has_commands) == command_at(
            before,
            before.len() as nat,
            has_commands,
        ),
        before[0] == '/' && has_commands && (forall|i: int|
            1 <= i < before.len() ==> !is_ws(#[trigger] before[i])) ==> command_at(
            before + after,
            before.len() as nat,
            has_commands,
        ) == Some(0usize),
{
    let all = before + after;
    assert forall|i: int| 0 <= i < before.len() implies #[trigger] all[i] == before[i] by {}
    assert(all[0] == before[0]);
    if before[0] == '/' && has_commands && (forall|i: int|
        1 <= i < before.len() ==> !is_ws(#[trigger] before[i])) {
        assert forall|i: int| 1 <= i < before.len() implies !is_ws(#[trigger] all[i]) by {
            assert(all[i] == before[i]);
        }
    }
    if (forall|i: int| 1 <= i < before.len() ==> !is_ws(#[trigger] all[i])) {
        assert forall|i: int| 1 <= i < before.len() implies !is_ws(#[trigger] before[i]) by {
            assert(all[i] == before[i]);
        }
    }
    if (forall|i: int| 1 <= i < before.len() ==> !is_ws(#[trigger] before[i])) {
        assert forall|i: int| 1 <= i < before.len() implies !is_ws(#[trigger] all[i]) by {
            assert(all[i] == before[i]);
        }
    }
}

} // verus!
