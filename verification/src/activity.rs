//! What the composer says about a turn in flight: the line over the field, and
//! the tools it opens onto.

use vstd::prelude::*;
use crate::chat::{
    is_running_tool, last_question, last_user, lemma_last_user_bounds, ChatItem, ChatSession,
    Connection, ToolStatus,
};
use crate::text::{
    chars_of, decimal, digit_char, one_line_chars, one_line_of, push_chars, push_decimal, push_str,
    string_of, two_digits,
};

verus! {

/// How much of a tool's output the activity keeps: its last this-many
/// characters.
pub const TAIL: usize = 2000;

/// A turn in flight, as the composer reports it.
#[derive(Clone, Debug)]
pub struct Activity {
    pub label: String,
    /// When what is running began.
    pub since: u64,
    /// When the agent was last heard from.
    pub last_event: u64,
    /// Each running tool: its title, and the tail of what it printed.
    pub tools: Vec<(String, String)>,
    /// The title of the permission request waiting, if one is.
    pub permission: Option<String>,
    pub disconnected: bool,
    pub reconnectable: bool,
}

pub open spec fn tool_label(item: ChatItem) -> Seq<char> {
    match item {
        ChatItem::Tool { label, .. } => label@,
        _ => Seq::empty(),
    }
}

pub open spec fn tool_output(item: ChatItem) -> Seq<char> {
    match item {
        ChatItem::Tool { output, .. } => output@,
        _ => Seq::empty(),
    }
}

pub open spec fn tool_started(item: ChatItem) -> Option<u64> {
    match item {
        ChatItem::Tool { started, .. } => started,
        _ => None,
    }
}

/// The tools running in the turn in flight: those since the last question,
/// and none at all while no turn is streaming.
pub open spec fn running_of(chat: ChatSession) -> Seq<ChatItem> {
    if chat.streaming {
        chat.items@.subrange(last_user(chat.items@), chat.items@.len() as int).filter(
            |item: ChatItem| is_running_tool(item),
        )
    } else {
        Seq::empty()
    }
}

/// The earliest start noted among `tools`.
pub open spec fn earliest(tools: Seq<ChatItem>) -> Option<u64>
    decreases tools.len(),
{
    if tools.len() == 0 {
        None
    } else {
        let rest = earliest(tools.drop_last());
        match (rest, tool_started(tools.last())) {
            (Some(a), Some(b)) => Some(if b < a { b } else { a }),
            (None, s) => s,
            (r, None) => r,
        }
    }
}

/// The last `n` characters of `s`, or all of it.
pub open spec fn tail(s: Seq<char>, n: nat) -> Seq<char> {
    if s.len() <= n {
        s
    } else {
        s.subrange(s.len() - n, s.len() as int)
    }
}

/// Whether there is anything in flight to report.
pub open spec fn active(chat: ChatSession) -> bool {
    chat.streaming || chat.connection == Connection::Connecting || chat.connection
        == Connection::Lost || chat.permission is Some
}

/// The line the activity reads as.
pub open spec fn activity_label(chat: ChatSession) -> Seq<char> {
    let running = running_of(chat);
    if chat.connection == Connection::Lost {
        "Connection lost"@
    } else if chat.permission is Some {
        "Needs your approval"@
    } else if chat.connection == Connection::Connecting {
        "Connecting…"@
    } else if running.len() == 1 {
        "Running "@ + one_line_of(tool_label(running[0]))
    } else if running.len() > 1 {
        "Running "@ + decimal(running.len()) + " tools"@
    } else {
        "Working…"@
    }
}

/// When the activity is counted from: the connection's last sign of life
/// while connecting, else the earliest running tool, else the turn, else the
/// last sign of life.
pub open spec fn activity_since(chat: ChatSession) -> u64 {
    if chat.connection == Connection::Connecting {
        chat.last_activity
    } else {
        match earliest(running_of(chat)) {
            Some(t) => t,
            None => match chat.turn_started {
                Some(t) => t,
                None => chat.last_activity,
            },
        }
    }
}

impl Activity {
    /// Whether this is the activity `chat` reports.
    pub open spec fn reports(self, chat: ChatSession) -> bool {
        let running = running_of(chat);
        &&& self.label@ == activity_label(chat)
        &&& self.since == activity_since(chat)
        &&& self.last_event == chat.last_activity
        &&& self.tools@.len() == running.len()
        &&& forall|k: int|
            0 <= k < running.len() ==> (#[trigger] self.tools@[k]).0@ == tool_label(running[k])
                && self.tools@[k].1@ == tail(tool_output(running[k]), TAIL as nat)
        &&& (self.permission is Some <==> chat.permission is Some)
        &&& (self.permission is Some ==> self.permission->0@ == chat.permission->0@)
        &&& self.disconnected == (chat.connection == Connection::Lost)
        &&& self.reconnectable == (self.disconnected && chat.resumable)
    }

    /// What `chat` has in flight, or nothing where it is idle, connected and
    /// asking nothing.
    pub fn of(chat: &ChatSession) -> (r: Option<Self>)
        ensures
            r is Some <==> active(*chat),
            r matches Some(a) ==> a.reports(*chat),
    {
        let disconnected = match chat.connection {
            Connection::Lost => true,
            _ => false,
        };
        let connecting = match chat.connection {
            Connection::Connecting => true,
            _ => false,
        };
        if !chat.streaming && !connecting && !disconnected && chat.permission.is_none() {
            return None;
        }
        let start = last_question(&chat.items);
        proof {
            lemma_last_user_bounds(chat.items@);
        }
        let ghost items = chat.items@;
        let ghost pred = |item: ChatItem| is_running_tool(item);
        let mut tools: Vec<(String, String)> = Vec::new();
        let mut first: usize = 0;
        let mut count: usize = 0;
        let mut early: Option<u64> = None;
        let ghost mut run: Seq<ChatItem> = Seq::empty();
        if chat.streaming {
            let mut i = start;
            assert(items.subrange(start as int, start as int).filter(pred) =~= Seq::<
                ChatItem,
            >::empty()) by {
                reveal_with_fuel(Seq::<ChatItem>::filter, 1);
            }
            while i < chat.items.len()
                invariant
                    start <= i <= chat.items.len(),
                    items == chat.items@,
                    pred == (|item: ChatItem| is_running_tool(item)),
                    start as int == last_user(items),
                    run == items.subrange(start as int, i as int).filter(pred),
                    count == run.len(),
                    count <= i - start,
                    tools@.len() == run.len(),
                    forall|k: int|
                        0 <= k < run.len() ==> (#[trigger] tools@[k]).0@ == tool_label(run[k])
                            && tools@[k].1@ == tail(tool_output(run[k]), TAIL as nat),
                    early == earliest(run),
                    run.len() > 0 ==> first < items.len() && items[first as int] == run[0],
                decreases chat.items.len() - i,
            {
                let ghost before = run;
                proof {
                    assert(items.subrange(start as int, i + 1).drop_last() =~= items.subrange(
                        start as int,
                        i as int,
                    ));
                    assert(items.subrange(start as int, i + 1).last() == items[i as int]);
                    reveal_with_fuel(Seq::<ChatItem>::filter, 1);
                    assert(items.subrange(start as int, i + 1).filter(pred) == if pred(
                        items[i as int],
                    ) {
                        before.push(items[i as int])
                    } else {
                        before
                    });
                }
                let is_run = match &chat.items[i] {
                    ChatItem::Tool { status, .. } => match status {
                        ToolStatus::Running => true,
                        _ => false,
                    },
                    _ => false,
                };
                assert(is_run == pred(items[i as int]));
                if is_run {
                    if let ChatItem::Tool { label, output, started, .. } = &chat.items[i] {
                        if count == 0 {
                            first = i;
                        }
                        tools.push((label.clone(), tail_of(output, TAIL)));
                        early = match (early, *started) {
                            (Some(a), Some(b)) => Some(if b < a { b } else { a }),
                            (None, s) => s,
                            (r, None) => r,
                        };
                        proof {
                            run = before.push(items[i as int]);
                            assert(run.drop_last() =~= before);
                            assert forall|k: int| 0 <= k < run.len() implies (#[trigger] tools@[k]).0@
                                == tool_label(run[k]) && tools@[k].1@ == tail(
                                tool_output(run[k]),
                                TAIL as nat,
                            ) by {
                                if k < before.len() {
                                    assert(run[k] == before[k]);
                                }
                            }
                        }
                        count += 1;
                    }
                }
                i += 1;
            }
        } else {
            assert(run =~= running_of(*chat));
        }
        let label = if disconnected {
            "Connection lost".to_owned()
        } else if chat.permission.is_some() {
            "Needs your approval".to_owned()
        } else if connecting {
            "Connecting…".to_owned()
        } else if count == 1 {
            let mut out: Vec<char> = Vec::new();
            push_str(&mut out, "Running ");
            if let ChatItem::Tool { label, .. } = &chat.items[first] {
                let words = chars_of(label.as_str());
                let line = one_line_chars(&words);
                push_chars(&mut out, &line);
            }
            string_of(&out)
        } else if count > 1 {
            let mut out: Vec<char> = Vec::new();
            push_str(&mut out, "Running ");
            push_decimal(&mut out, count as u64);
            push_str(&mut out, " tools");
            string_of(&out)
        } else {
            "Working…".to_owned()
        };
        let since = if connecting {
            chat.last_activity
        } else {
            match early {
                Some(t) => t,
                None => match chat.turn_started {
                    Some(t) => t,
                    None => chat.last_activity,
                },
            }
        };
        let permission = match &chat.permission {
            Some(title) => Some(title.clone()),
            None => None,
        };
        proof {
            if chat.streaming {
                assert(items.subrange(start as int, items.len() as int) =~= items.subrange(
                    last_user(items),
                    items.len() as int,
                ));
            }
        }
        Some(
            Activity {
                label,
                since,
                last_event: chat.last_activity,
                tools,
                permission,
                disconnected,
                reconnectable: disconnected && chat.resumable,
            },
        )
    }
}

/// The last `n` characters of `s`, or all of it.
pub fn tail_of(s: &String, n: usize) -> (out: String)
    ensures
        out@ == tail(s@, n as nat),
{
    let chars = chars_of(s.as_str());
    if chars.len() <= n {
        return string_of(&chars);
    }
    let mut kept: Vec<char> = Vec::new();
    let from = chars.len() - n;
    let mut i = from;
    while i < chars.len()
        invariant
            from <= i <= chars.len(),
            kept@ == chars@.subrange(from as int, i as int),
        decreases chars.len() - i,
    {
        kept.push(chars[i]);
        i += 1;
        assert(kept@ =~= chars@.subrange(from as int, i as int));
    }
    string_of(&kept)
}

/// A stretch of seconds, as the activity row prints it: `42s`, or `3m 07s`.
pub open spec fn elapsed_text(seconds: nat) -> Seq<char> {
    if seconds < 60 {
        decimal(seconds) + "s"@
    } else {
        decimal(seconds / 60) + "m "@ + two_digits(seconds % 60) + "s"@
    }
}

/// How long something has been going, in whole seconds: `42s`, or `3m 07s`
/// from a minute on.
pub fn elapsed(seconds: u64) -> (out: String)
    ensures
        out@ == elapsed_text(seconds as nat),
{
    let mut out: Vec<char> = Vec::new();
    if seconds < 60 {
        push_decimal(&mut out, seconds);
        push_str(&mut out, "s");
    } else {
        push_decimal(&mut out, seconds / 60);
        push_str(&mut out, "m ");
        let rest = seconds % 60;
        if rest < 10 {
            out.push('0');
            push_decimal(&mut out, rest);
            assert(decimal(rest as nat) =~= seq![digit_char(rest as nat)]);
        } else {
            push_decimal(&mut out, rest);
        }
        push_str(&mut out, "s");
    }
    let r = string_of(&out);
    assert(r@ =~= elapsed_text(seconds as nat));
    r
}


/// How long the agent can be quiet before the row says so, in milliseconds.
pub const QUIET: u64 = 30_000;

/// What the activity row shows at one moment.
#[derive(Clone, Debug)]
pub struct ActivityRow {
    /// The glyph at its head: `!` for something that needs a person.
    pub alert: bool,
    pub label: String,
    /// How long it has been going, and how long since the agent spoke; nothing
    /// for a lost connection, which has no clock worth reading.
    pub timing: Option<String>,
    /// Whether pressing the row reconnects rather than opening it.
    pub reconnect: bool,
    /// Whether the details hang open under it.
    pub details: bool,
}

/// Whole seconds from `from` to `now`, none where `now` is the earlier.
pub open spec fn seconds_between(from: u64, now: u64) -> nat {
    if now <= from {
        0
    } else {
        ((now - from) / 1000) as nat
    }
}

fn seconds_since(from: u64, now: u64) -> (s: u64)
    ensures
        s as nat == seconds_between(from, now),
{
    if now <= from {
        0
    } else {
        (now - from) / 1000
    }
}

/// The row's label: the activity's own, except that an agent quiet for
/// [`QUIET`] with nothing to name is said to be waited on.
pub open spec fn row_label(a: Activity, now: u64) -> Seq<char> {
    if now >= a.last_event && now - a.last_event >= QUIET && a.label@ == "Working…"@ {
        "Waiting for an update…"@
    } else {
        a.label@
    }
}

/// The row's timing: how long it has run, and how long the agent has been
/// quiet once that passes [`QUIET`] with nothing waiting on a person.
pub open spec fn row_timing(a: Activity, now: u64) -> Seq<char> {
    let run = elapsed_text(seconds_between(a.since, now));
    if now >= a.last_event && now - a.last_event >= QUIET && !a.disconnected
        && a.permission is None {
        run + " · last activity "@ + elapsed_text(seconds_between(a.last_event, now)) + " ago"@
    } else {
        run
    }
}

impl Activity {
    /// What the row over the composer shows at `now`, with its details open
    /// or not.
    pub fn row(&self, now: u64, open: bool) -> (r: ActivityRow)
        ensures
            r.alert == (self.disconnected || self.permission is Some),
            r.label@ == row_label(*self, now),
            r.timing is Some <==> !self.disconnected,
            r.timing matches Some(t) ==> t@ == row_timing(*self, now),
            r.reconnect == self.reconnectable,
            r.details == (open && !self.disconnected),
    {
        let quiet = now >= self.last_event && now - self.last_event >= QUIET;
        let working = "Working…".to_owned();
        let label = if quiet && self.label == working {
            "Waiting for an update…".to_owned()
        } else {
            self.label.clone()
        };
        let timing = if self.disconnected {
            None
        } else {
            let run = elapsed(seconds_since(self.since, now));
            if quiet && self.permission.is_none() {
                let mut out = chars_of(run.as_str());
                push_str(&mut out, " · last activity ");
                let gap = elapsed(seconds_since(self.last_event, now));
                let gap_chars = chars_of(gap.as_str());
                push_chars(&mut out, &gap_chars);
                push_str(&mut out, " ago");
                Some(string_of(&out))
            } else {
                Some(run)
            }
        };
        ActivityRow {
            alert: self.disconnected || self.permission.is_some(),
            label,
            timing,
            reconnect: self.reconnectable,
            details: open && !self.disconnected,
        }
    }
}

/// Whether a once-a-second tick should be running for `activity`: while
/// something is in flight on a connection that is still there.
pub fn ticking(activity: &Option<Activity>) -> (b: bool)
    ensures
        b == (activity matches Some(a) && !a.disconnected),
{
    match activity {
        Some(a) => !a.disconnected,
        None => false,
    }
}

} // verus!
