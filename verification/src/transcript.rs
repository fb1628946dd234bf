//! The transcript: each turn is its question, the work it took, and the
//! answer — prose the agent addressed to you is the answer wherever it falls,
//! and tool calls and thoughts are the work.

use vstd::prelude::*;
use std::hash::Hash;
use std::hash::Hasher;
use crate::chat::{ChatItem, is_user, last_question, last_user, lemma_last_user_bounds};
use crate::runs::{cut_runs, cuts};
use crate::text::{
    chars_of, decimal, one_line_chars, one_line_of, push_decimal, push_str, slice_chars,
    string_of, trim_chars, trim_end_of, trim_of, trimmed_end_len, is_whitespace, is_ws, two_digits,
};

verus! {

/// Work rather than answer: what the agent did, as against what it said.
pub open spec fn interim(item: ChatItem) -> bool {
    item is Tool || item is Thinking
}

pub open spec fn is_tool(item: ChatItem) -> bool {
    item is Tool
}

/// How many tool calls stand in `from..to`.
pub open spec fn tools_in(items: Seq<ChatItem>, from: int, to: int) -> nat
    decreases to - from,
{
    if to <= from {
        0
    } else {
        tools_in(items, from, to - 1) + if is_tool(items[to - 1]) {
            1nat
        } else {
            0nat
        }
    }
}

/// Where a turn's body starts: after its question, where it opens on one.
pub open spec fn body_start(items: Seq<ChatItem>, start: int) -> int {
    start + if is_user(items[start]) {
        1int
    } else {
        0int
    }
}

/// One run of a turn's body: all work, or all answer.
#[derive(Clone, Copy, Debug)]
pub struct ZoneRun {
    pub start: usize,
    pub end: usize,
    /// Whether the run is work — tool calls and thoughts — to be folded
    /// under a header.
    pub work: bool,
    /// How many tool calls the run holds.
    pub steps: usize,
}

fn interim_flags(items: &Vec<ChatItem>) -> (flags: Vec<bool>)
    ensures
        flags@.len() == items@.len(),
        forall|i: int| 0 <= i < items@.len() ==> flags@[i] == interim(#[trigger] items@[i]),
{
    let mut flags: Vec<bool> = Vec::new();
    let mut i: usize = 0;
    while i < items.len()
        invariant
            i <= items.len(),
            flags@.len() == i,
            forall|j: int| 0 <= j < i ==> flags@[j] == interim(#[trigger] items@[j]),
        decreases items.len() - i,
    {
        let w = match &items[i] {
            ChatItem::Tool { .. } => true,
            ChatItem::Thinking { .. } => true,
            _ => false,
        };
        flags.push(w);
        i += 1;
    }
    flags
}

fn tool_flags(items: &Vec<ChatItem>) -> (flags: Vec<bool>)
    ensures
        flags@.len() == items@.len(),
        forall|i: int| 0 <= i < items@.len() ==> flags@[i] == is_tool(#[trigger] items@[i]),
{
    let mut flags: Vec<bool> = Vec::new();
    let mut i: usize = 0;
    while i < items.len()
        invariant
            i <= items.len(),
            flags@.len() == i,
            forall|j: int| 0 <= j < i ==> flags@[j] == is_tool(#[trigger] items@[j]),
        decreases items.len() - i,
    {
        let w = match &items[i] {
            ChatItem::Tool { .. } => true,
            _ => false,
        };
        flags.push(w);
        i += 1;
    }
    flags
}

fn count_tools(items: &Vec<ChatItem>, from: usize, to: usize) -> (n: usize)
    requires
        from <= to <= items.len(),
    ensures
        n == tools_in(items@, from as int, to as int),
{
    let mut n: usize = 0;
    let mut i = from;
    while i < to
        invariant
            from <= i <= to <= items.len(),
            n == tools_in(items@, from as int, i as int),
            n <= i - from,
        decreases to - i,
    {
        if let ChatItem::Tool { .. } = &items[i] {
            n += 1;
        }
        i += 1;
    }
    n
}

/// The body of the turn `start..end` cut into runs: maximal runs of work and
/// of answer, in the order they happened, with how many tool calls each
/// holds. The question a turn opens on is not part of its body.
pub fn zone_runs(items: &Vec<ChatItem>, start: usize, end: usize) -> (runs: Vec<ZoneRun>)
    requires
        start < end <= items.len(),
    ensures
        cuts(
            items@.map_values(|item: ChatItem| interim(item)),
            body_start(items@, start as int),
            end as int,
            runs@.map_values(|r: ZoneRun| (r.start, r.end)),
        ),
        forall|k: int|
            0 <= k < runs@.len() ==> (#[trigger] runs@[k]).work == interim(items@[runs@[k].start as int])
                && runs@[k].steps == tools_in(items@, runs@[k].start as int, runs@[k].end as int),
{
    let flags = interim_flags(items);
    assert(flags@ =~= items@.map_values(|item: ChatItem| interim(item)));
    let first = match &items[start] {
        ChatItem::User(_) => start + 1,
        _ => start,
    };
    let cut = cut_runs(&flags, first, end);
    let mut runs: Vec<ZoneRun> = Vec::new();
    let mut k: usize = 0;
    while k < cut.len()
        invariant
            k <= cut.len(),
            cuts(flags@, first as int, end as int, cut@),
            end <= items.len(),
            flags@.len() == items@.len(),
            forall|i: int| 0 <= i < items@.len() ==> flags@[i] == interim(#[trigger] items@[i]),
            runs@.len() == k,
            forall|j: int| 0 <= j < k ==> (#[trigger] runs@[j]).start == cut@[j].0 && runs@[j].end == cut@[j].1,
            forall|j: int|
                0 <= j < k ==> (#[trigger] runs@[j]).work == interim(items@[runs@[j].start as int])
                    && runs@[j].steps == tools_in(items@, runs@[j].start as int, runs@[j].end as int),
        decreases cut.len() - k,
    {
        let (s, e) = cut[k];
        assert(cut@[k as int].0 < cut@[k as int].1);
        assert(s >= first) by {
            if k > 0 {
                assert forall|j: int| 0 <= j < k implies cut@[j].0 >= first by {
                    lemma_cut_bounds(flags@, first as int, end as int, cut@, j);
                }
            }
            lemma_cut_bounds(flags@, first as int, end as int, cut@, k as int);
        }
        proof {
            lemma_cut_bounds(flags@, first as int, end as int, cut@, k as int);
        }
        let steps = count_tools(items, s, e);
        runs.push(ZoneRun { start: s, end: e, work: flags[s], steps });
        k += 1;
    }
    assert(runs@.map_values(|r: ZoneRun| (r.start, r.end)) =~= cut@);
    runs
}

/// Every run lies within the stretch it cuts.
pub proof fn lemma_cut_bounds(kinds: Seq<bool>, from: int, to: int, runs: Seq<(usize, usize)>, k: int)
    requires
        cuts(kinds, from, to, runs),
        0 <= k < runs.len(),
    ensures
        from <= runs[k].0 < runs[k].1 <= to,
    decreases k + (runs.len() - k),
{
    lemma_cut_low(kinds, from, to, runs, k);
    lemma_cut_high(kinds, from, to, runs, k);
}

proof fn lemma_cut_low(kinds: Seq<bool>, from: int, to: int, runs: Seq<(usize, usize)>, k: int)
    requires
        cuts(kinds, from, to, runs),
        0 <= k < runs.len(),
    ensures
        from <= runs[k].0,
    decreases k,
{
    if k > 0 {
        lemma_cut_low(kinds, from, to, runs, k - 1);
        assert(runs[k - 1].0 < runs[k - 1].1);
        assert(runs[k - 1].1 == runs[k].0);
    }
}

proof fn lemma_cut_high(kinds: Seq<bool>, from: int, to: int, runs: Seq<(usize, usize)>, k: int)
    requires
        cuts(kinds, from, to, runs),
        0 <= k < runs.len(),
    ensures
        runs[k].1 <= to,
    decreases runs.len() - k,
{
    if k < runs.len() - 1 {
        lemma_cut_high(kinds, from, to, runs, k + 1);
        assert(runs[k + 1].0 < runs[k + 1].1);
        assert(runs[k].1 == runs[k + 1].0);
    }
}

/// The boxes a run of work is drawn in: maximal runs of tool calls, boxed
/// together, and of thoughts between them.
pub fn work_boxes(items: &Vec<ChatItem>, start: usize, end: usize) -> (boxes: Vec<(usize, usize)>)
    requires
        start <= end <= items.len(),
    ensures
        cuts(items@.map_values(|item: ChatItem| is_tool(item)), start as int, end as int, boxes@),
{
    let flags = tool_flags(items);
    assert(flags@ =~= items@.map_values(|item: ChatItem| is_tool(item)));
    cut_runs(&flags, start, end)
}

/// What a run of work's header says.
pub open spec fn work_label_text(steps: nat) -> Seq<char> {
    if steps == 0 {
        "Thought"@
    } else if steps == 1 {
        "Worked · 1 step"@
    } else {
        "Worked · "@ + decimal(steps) + " steps"@
    }
}

/// What a run of work's header says: how many steps it took, or that it was
/// only thought.
pub fn work_label(steps: usize) -> (s: String)
    ensures
        s@ == work_label_text(steps as nat),
{
    if steps == 0 {
        "Thought".to_owned()
    } else if steps == 1 {
        "Worked · 1 step".to_owned()
    } else {
        let mut out: Vec<char> = Vec::new();
        push_str(&mut out, "Worked · ");
        push_decimal(&mut out, steps as u64);
        push_str(&mut out, " steps");
        string_of(&out)
    }
}

/// Whether a run of work follows the turn as it streams: the last run of the
/// turn in flight.
pub fn live_run(running: bool, run_end: usize, turn_end: usize) -> (b: bool)
    ensures
        b == (running && run_end == turn_end),
{
    running && run_end == turn_end
}

/// The items to keep what was laid out for: the turns `shown` with two more
/// either side, as a span of items. `turns` are the turns' item ranges, in
/// order; `len` is how many items there are.
pub open spec fn cached_span(turns: Seq<(usize, usize)>, len: nat, shown: (usize, usize)) -> (int, int) {
    let start = if shown.0 >= 2 {
        shown.0 - 2
    } else {
        0
    };
    let end = if shown.1 + 2 < turns.len() {
        shown.1 + 2
    } else {
        turns.len() as int
    };
    let last = if end >= 1 {
        end - 1
    } else {
        0
    };
    (
        if start < turns.len() {
            turns[start].0 as int
        } else {
            len as int
        },
        if last < turns.len() {
            turns[last].1 as int
        } else {
            len as int
        },
    )
}

/// Retain nearby turns so small scrolls can reuse their layout: the items of
/// the turns shown and two either side.
pub fn turns_for_cache(turns: &Vec<(usize, usize)>, len: usize, shown: (usize, usize)) -> (span: (usize, usize))
    requires
        shown.1 + 2 <= usize::MAX,
    ensures
        (span.0 as int, span.1 as int) == cached_span(turns@, len as nat, shown),
{
    let start = if shown.0 >= 2 {
        shown.0 - 2
    } else {
        0
    };
    let end = if shown.1 + 2 < turns.len() {
        shown.1 + 2
    } else {
        turns.len()
    };
    let last = if end >= 1 {
        end - 1
    } else {
        0
    };
    (
        if start < turns.len() {
            turns[start].0
        } else {
            len
        },
        if last < turns.len() {
            turns[last].1
        } else {
            len
        },
    )
}

/// Where the rail's reading mark stands: the turn a press on the rail asked
/// for, while that turn exists and the list has not moved off where the
/// press left it; otherwise the first turn on screen. `selected` is the
/// turn pressed and whether the list is still where it was left.
pub fn reading_turn(count: usize, showing_start: usize, selected: Option<(usize, bool)>) -> (r: (
    usize,
    bool,
))
    ensures
        (match selected {
            Some((turn, still)) if turn < count && still => r == (turn, true),
            _ => r == (if showing_start < count {
                showing_start
            } else if count >= 1 {
                (count - 1) as usize
            } else {
                0usize
            }, false),
        }),
{
    if let Some((turn, still)) = selected {
        if turn < count && still {
            return (turn, true);
        }
    }
    let at = if showing_start < count {
        showing_start
    } else if count >= 1 {
        count - 1
    } else {
        0
    };
    (at, false)
}

/// A turn's age, in the coarsest unit that still says something.
pub open spec fn since_text(seconds: nat) -> Seq<char> {
    if seconds < 60 {
        decimal(seconds) + "s"@
    } else {
        decimal(seconds / 60) + "m "@ + decimal(seconds % 60) + "s"@
    }
}

/// A turn's age: `42s`, or `3m 7s` from a minute on.
pub fn since(seconds: u64) -> (s: String)
    ensures
        s@ == since_text(seconds as nat),
{
    let mut out: Vec<char> = Vec::new();
    if seconds < 60 {
        push_decimal(&mut out, seconds);
        push_str(&mut out, "s");
    } else {
        push_decimal(&mut out, seconds / 60);
        push_str(&mut out, "m ");
        push_decimal(&mut out, seconds % 60);
        push_str(&mut out, "s");
    }
    let r = string_of(&out);
    assert(r@ =~= since_text(seconds as nat));
    r
}


/// How far a title's head — the word that names the call — may run before the
/// rest of the line has to start truncating.
pub const HEAD_MAX: usize = 24;

/// How long a one-lined title may run before the full text is worth opening.
pub const TITLE_MAX: usize = 72;

/// Where the first whitespace in `s` stands, or its length.
pub open spec fn first_ws(s: Seq<char>) -> int
    decreases s.len(),
{
    if s.len() == 0 {
        0
    } else if is_ws(s[0]) {
        0
    } else {
        1 + first_ws(s.drop_first())
    }
}

proof fn lemma_first_ws_bound(s: Seq<char>)
    ensures
        0 <= first_ws(s) <= s.len(),
    decreases s.len(),
{
    if s.len() > 0 && !is_ws(s[0]) {
        lemma_first_ws_bound(s.drop_first());
    }
}

fn first_whitespace(s: &Vec<char>, end: usize) -> (i: usize)
    requires
        end <= s.len(),
    ensures
        i == first_ws(s@.take(end as int)),
{
    let mut i: usize = 0;
    while i < end && !is_whitespace(s[i])
        invariant
            i <= end <= s.len(),
            first_ws(s@.take(end as int)) == i + first_ws(s@.subrange(i as int, end as int)),
        decreases end - i,
    {
        assert(s@.subrange(i as int, end as int).drop_first() =~= s@.subrange(i + 1, end as int));
        i += 1;
    }
    assert(s@.subrange(0, end as int) =~= s@.take(end as int));
    i
}

/// A tool's title, as a row one line tall takes it.
pub struct Title {
    /// The head that names the call.
    pub name: String,
    /// The rest of the line, which truncates beside it.
    pub rest: Option<String>,
    /// The whole text, where the one line lost something.
    pub full: Option<String>,
}

/// The one line a title is read as.
pub open spec fn title_line(label: Seq<char>) -> Seq<char> {
    one_line_of(trim_of(label))
}

/// Where the title's head ends.
pub open spec fn title_head(label: Seq<char>) -> int {
    let line = title_line(label);
    let cut = if line.len() > HEAD_MAX {
        HEAD_MAX as int
    } else {
        line.len() as int
    };
    first_ws(line.take(cut))
}

/// A tool's title, as a row one line tall can take it: the head that names
/// the call, the rest that truncates beside it, and the whole text when the
/// one line lost something — a shell script arrives as its own title,
/// newlines and all.
pub fn title(label: &str) -> (t: Title)
    ensures
        t.name@ == title_line(label@).take(title_head(label@)),
        ({
            let rest = trim_of(title_line(label@).subrange(
                title_head(label@),
                title_line(label@).len() as int,
            ));
            &&& (t.rest is Some <==> rest.len() > 0)
            &&& t.rest matches Some(r) ==> r@ == rest
        }),
        ({
            let line = title_line(label@);
            let lost = line != trim_of(label@) || line.len() > TITLE_MAX;
            &&& (t.full is Some <==> lost)
            &&& t.full matches Some(f) ==> f@ == trim_of(label@)
        }),
{
    let chars = chars_of(label);
    let trimmed = trim_chars(&chars);
    let line = one_line_chars(&trimmed);
    let cut = if line.len() > HEAD_MAX {
        HEAD_MAX
    } else {
        line.len()
    };
    let head = first_whitespace(&line, cut);
    proof {
        lemma_first_ws_bound(line@.take(cut as int));
    }
    let name = slice_chars(&line, 0, head);
    assert(name@ =~= line@.take(head as int));
    let after = slice_chars(&line, head, line.len());
    let rest = trim_chars(&after);
    let mut same = line.len() == trimmed.len();
    let mut i: usize = 0;
    while same && i < line.len()
        invariant
            i <= line.len(),
            same ==> line.len() == trimmed.len(),
            same ==> forall|j: int| 0 <= j < i ==> line@[j] == trimmed@[j],
            !same ==> line@ != trimmed@,
        decreases line.len() - i,
    {
        if line[i] != trimmed[i] {
            same = false;
        }
        i += 1;
    }
    if same {
        assert(line@ =~= trimmed@);
    }
    let lost = !same || line.len() > TITLE_MAX;
    Title {
        name: string_of(&name),
        rest: if rest.len() > 0 {
            Some(string_of(&rest))
        } else {
            None
        },
        full: if lost {
            Some(string_of(&trimmed))
        } else {
            None
        },
    }
}

/// `text` on one line, cut to `max` characters and ellipsized.
pub open spec fn clipped_text(text: Seq<char>, max: nat) -> Seq<char> {
    let line = one_line_of(text);
    if line.len() > max {
        trim_end_of(line.take(max as int)) + "…"@
    } else {
        line
    }
}

/// `text` on one line, cut to `max` characters and ellipsized where it runs
/// longer.
pub fn clipped(text: &str, max: usize) -> (out: String)
    ensures
        out@ == clipped_text(text@, max as nat),
{
    let chars = chars_of(text);
    let line = one_line_chars(&chars);
    if line.len() > max {
        let head = slice_chars(&line, 0, max);
        let keep = trimmed_end_len(&head);
        let mut out = slice_chars(&head, 0, keep);
        assert(out@ =~= head@.take(keep as int));
        assert(head@ =~= line@.take(max as int));
        push_str(&mut out, "…");
        string_of(&out)
    } else {
        string_of(&line)
    }
}

/// What a turn in flight is called while it has nothing to show yet.
pub const WORKING: [&'static str; 40] = [
    "Thinking",
    "Brewing",
    "Cultivating",
    "Simmering",
    "Percolating",
    "Distilling",
    "Weaving",
    "Conjuring",
    "Steeping",
    "Fermenting",
    "Crystallizing",
    "Synthesizing",
    "Composing",
    "Pondering",
    "Unraveling",
    "Forging",
    "Kindling",
    "Gathering",
    "Polishing",
    "Assembling",
    "Decoding",
    "Untangling",
    "Refining",
    "Shaping",
    "Hatching",
    "Coalescing",
    "Contemplating",
    "Illuminating",
    "Molding",
    "Calibrating",
    "Churning",
    "Marinating",
    "Incubating",
    "Digesting",
    "Sprouting",
    "Condensing",
    "Mulling",
    "Concocting",
    "Ruminating",
    "Orchestrating",
];

/// The word of [`WORKING`] a question with this hash gets.
pub open spec fn word_for(hash: u64) -> Seq<char> {
    WORKING@[(hash % 40) as int]@
}

/// Which of [`WORKING`] a question with this hash gets.
pub fn verb_at(hash: u64) -> (w: &'static str)
    ensures
        w@ == word_for(hash),
{
    WORKING[(hash % 40) as usize]
}

/// Whether the turn at `index` of `count` is the one running: the last, while
/// the session streams.
pub fn turn_running(streaming: bool, index: usize, count: usize) -> (b: bool)
    ensures
        b == (streaming && index + 1 == count),
{
    streaming && index < count && index + 1 == count
}

/// Whether a running turn shows the working line under it: while it has
/// nothing but its question to show.
pub fn working_shown(running: bool, turn_len: usize) -> (b: bool)
    ensures
        b == (running && turn_len <= 1),
{
    running && turn_len <= 1
}

/// The line over a forked session, naming where it was forked from: the
/// source's title, or `session` where it has none.
pub fn fork_label(title: &str) -> (s: String)
    ensures
        s@ == "Forked from "@ + if title@.len() == 0 {
            "session"@
        } else {
            title@
        },
{
    let mut out: Vec<char> = Vec::new();
    push_str(&mut out, "Forked from ");
    let chars = chars_of(title);
    if chars.len() == 0 {
        push_str(&mut out, "session");
    } else {
        push_str(&mut out, title);
    }
    string_of(&out)
}

/// What std's `DefaultHasher`, made fresh by `new`, finishes at once `str`'s
/// `Hash` has fed it `question`.
pub uninterp spec fn question_hash(question: Seq<char>) -> u64;

/// The question, as a number to pick with.
///
/// Wraps std's `Hash for str` fed to a fresh `DefaultHasher`. Its contract
/// names the number and says nothing of it beyond that it is the one that
/// text comes to: std documents that every `DefaultHasher` made by `new` is
/// the same hasher, and leaves its algorithm unspecified.
#[verifier::external_body]
fn asked_hash(question: &str) -> (h: u64)
    ensures
        h == question_hash(question@),
{
    let mut hash = std::collections::hash_map::DefaultHasher::new();
    question.hash(&mut hash);
    hash.finish()
}

/// Which word a turn gets: one of [`WORKING`], picked by the question's own
/// hash, so the same question keeps its word for as long as it is on screen.
pub fn verb(question: &str) -> (w: &'static str)
    ensures
        w@ == word_for(question_hash(question@)),
{
    verb_at(asked_hash(question))
}

/// The text a turn in flight picks its word by: the last question asked, or
/// nothing in a session never asked anything.
pub fn last_asked(items: &Vec<ChatItem>) -> (q: Option<&String>)
    ensures
        q matches Some(t) ==> exists|k: int|
            0 <= k < items@.len() && items@[k] == ChatItem::User(*t) && forall|j: int|
                k < j < items@.len() ==> !is_user(#[trigger] items@[j]),
        q is None ==> forall|j: int| 0 <= j < items@.len() ==> !is_user(#[trigger] items@[j]),
{
    let mut i = items.len();
    while i > 0
        invariant
            i <= items.len(),
            forall|j: int| i <= j < items@.len() ==> !is_user(#[trigger] items@[j]),
        decreases i,
    {
        if let ChatItem::User(t) = &items[i - 1] {
            return Some(t);
        }
        i -= 1;
    }
    None
}

/// The last question's text, or nothing where nothing was asked.
pub open spec fn asked_of(items: Seq<ChatItem>) -> Seq<char> {
    if items.len() > 0 {
        match items[last_user(items)] {
            ChatItem::User(t) => t@,
            _ => Seq::empty(),
        }
    } else {
        Seq::empty()
    }
}

/// The text an orb is picked by: the item the turn in flight opened at (the
/// last question, or the first item where nothing was asked), where it holds
/// text; nothing otherwise.
pub open spec fn opened_at_text(items: Seq<ChatItem>) -> Seq<char> {
    if items.len() > 0 {
        match items[last_user(items)] {
            ChatItem::User(t) => t@,
            ChatItem::Agent(t) => t@,
            ChatItem::Notice { text } => text@,
            _ => Seq::empty(),
        }
    } else {
        Seq::empty()
    }
}

/// The word a session's turn in flight shows: the one its last question
/// picks, or the one the empty text picks in a session never asked anything.
pub fn working_word(items: &Vec<ChatItem>) -> (w: &'static str)
    ensures
        w@ == word_for(question_hash(asked_of(items@))),
{
    proof {
        reveal_strlit("");
        lemma_last_user_bounds(items@);
    }
    assert(""@ =~= Seq::<char>::empty());
    let at = last_question(items);
    if at < items.len() {
        match &items[at] {
            ChatItem::User(t) => verb(t.as_str()),
            _ => verb(""),
        }
    } else {
        verb("")
    }
}

/// How many shapes a working orb can take.
pub const ORB_SHAPES: usize = 12;

/// The orb shape a text with this hash gets.
pub open spec fn orb_shape(hash: u64) -> usize {
    (hash % 12) as usize
}

/// Which orb shape a text with this hash wears.
pub fn orb_at(hash: u64) -> (shape: usize)
    ensures
        shape == orb_shape(hash),
        shape < ORB_SHAPES,
{
    (hash % 12) as usize
}

/// Which orb shape a turn wears, picked off the question's hash the same way
/// its word is, so the sidebar and the transcript show the same shape.
pub fn orb_for(asked: &str) -> (shape: usize)
    ensures
        shape == orb_shape(question_hash(asked@)),
        shape < ORB_SHAPES,
{
    orb_at(asked_hash(asked))
}

/// Which orb shape a session's turn in flight wears: the one the text it
/// opened at picks.
pub fn orb_of(items: &Vec<ChatItem>) -> (shape: usize)
    ensures
        shape == orb_shape(question_hash(opened_at_text(items@))),
{
    proof {
        reveal_strlit("");
        lemma_last_user_bounds(items@);
    }
    assert(""@ =~= Seq::<char>::empty());
    let at = last_question(items);
    if at < items.len() {
        match &items[at] {
            ChatItem::User(t) => orb_for(t.as_str()),
            ChatItem::Agent(t) => orb_for(t.as_str()),
            ChatItem::Notice { text } => orb_for(text.as_str()),
            _ => orb_for(""),
        }
    } else {
        orb_for("")
    }
}

/// What the pointer did over an item's text: went down, starting the
/// selection `S`; moved, extending the held selection to `S`; came up.
pub enum Pointer<S> {
    Down(S),
    Move(S),
    Up,
}

/// Which item's text is selected and what of it (one at a time), and
/// whether the pointer is down dragging it.
pub struct State<S> {
    pub selection: Option<(usize, S)>,
    pub dragging: bool,
}

impl<S> State<S> {
    /// Nothing selected.
    pub fn new() -> (st: Self)
        ensures
            st.selection is None,
            !st.dragging,
    {
        State { selection: None, dragging: false }
    }

    /// What item `ix` has selected, if it holds the selection.
    pub fn selection(&self, ix: usize) -> (s: Option<&S>)
        ensures
            match self.selection {
                Some((item, held)) => if item == ix {
                    s == Some(&held)
                } else {
                    s is None
                },
                None => s is None,
            },
    {
        match &self.selection {
            Some((item, held)) => if *item == ix {
                Some(held)
            } else {
                None
            },
            None => None,
        }
    }

    /// Whether the pointer is dragging the head of item `ix`'s selection.
    pub fn dragging_in(&self, ix: usize) -> (b: bool)
        ensures
            b == (self.dragging && (self.selection matches Some((item, _)) && item == ix)),
    {
        self.dragging && self.selection(ix).is_some()
    }

    /// Answer the pointer over item `ix`: a press starts a selection there and
    /// drops whatever another item held; a move drags the head of the
    /// selection `ix` holds, and is ignored elsewhere; letting go stops the
    /// drag.
    pub fn point(&mut self, ix: usize, pointer: Pointer<S>)
        ensures
            match pointer {
                Pointer::Down(s) => final(self).selection == Some((ix, s)) && final(self).dragging,
                Pointer::Move(s) => final(self).dragging == old(self).dragging && if (old(
                    self,
                ).selection matches Some((item, _)) && item == ix) {
                    final(self).selection == Some((ix, s))
                } else {
                    final(self).selection == old(self).selection
                },
                Pointer::Up => !final(self).dragging && final(self).selection == old(self).selection,
            },
    {
        match pointer {
            Pointer::Down(s) => {
                self.selection = Some((ix, s));
                self.dragging = true;
            },
            Pointer::Move(s) => {
                let holds = match &self.selection {
                    Some((item, _)) => *item == ix,
                    None => false,
                };
                if holds {
                    self.selection = Some((ix, s));
                }
            },
            Pointer::Up => {
                self.dragging = false;
            },
        }
    }

    /// Which item the bar over a selection stands by: none while the pointer
    /// is still choosing, none where nothing is selected, and none for a
    /// selection that collapsed to a caret (`collapsed`).
    pub fn selection_perch(&self, collapsed: bool) -> (ix: Option<usize>)
        ensures
            self.dragging ==> ix is None,
            !self.dragging ==> match self.selection {
                Some((item, _)) => if collapsed {
                    ix is None
                } else {
                    ix == Some(item)
                },
                None => ix is None,
            },
    {
        if self.dragging {
            return None;
        }
        match &self.selection {
            Some((item, _)) => if collapsed {
                None
            } else {
                Some(*item)
            },
            None => None,
        }
    }

    /// Drop the selection, and the bar over it with it.
    pub fn clear_selection(&mut self)
        ensures
            final(self).selection is None,
            !final(self).dragging,
    {
        self.selection = None;
        self.dragging = false;
    }
}

/// What a copy puts on the clipboard: the selected text, or nothing where a
/// press collapsed without a drag and so selected nothing.
pub fn copied(text: String) -> (c: Option<String>)
    ensures
        text@.len() == 0 ==> c is None,
        text@.len() > 0 ==> c == Some(text),
{
    if text.as_str().is_empty() {
        None
    } else {
        Some(text)
    }
}

/// The wall clock at `t` seconds past a midnight, as a clock shows it: the
/// hour from 1 to 12 unpadded, a colon, the minute in two digits, a space,
/// and `AM` or `PM`.
pub open spec fn clock_spec(t: int) -> Seq<char> {
    let d = t % 86400;
    let h = d / 3600;
    let m = (d % 3600) / 60;
    clock_text(if h % 12 == 0 { 12 } else { (h % 12) as nat }, m as nat, h >= 12)
}

/// The hour `h` and minute `m` as a clock shows them, after noon or not.
pub open spec fn clock_text(h: nat, m: nat, pm: bool) -> Seq<char> {
    decimal(h) + seq![':'] + two_digits(m) + seq![' '] + if pm {
        seq!['P', 'M']
    } else {
        seq!['A', 'M']
    }
}

/// What a clock `offset` seconds east of UTC shows at `seconds` past the
/// epoch.
pub open spec fn clock_of(seconds: int, offset: int) -> Seq<char> {
    clock_spec(seconds + offset)
}

/// What a clock `offset` seconds east of UTC shows at `seconds` past the
/// epoch: `3:07 PM`.
pub fn clock_at(seconds: u64, offset: i32) -> (t: String)
    ensures
        t@ == clock_of(seconds as int, offset as int),
{
    let shifted: u128 = (seconds as i128 + offset as i128 + 2_160_000_000i128) as u128;
    let day: u128 = shifted % 86400;
    assert(day == (seconds + offset) % 86400);
    let h: u128 = day / 3600;
    let m: u128 = (day % 3600) / 60;
    let h12: u128 = if h % 12 == 0 {
        12
    } else {
        h % 12
    };
    let mut out: Vec<char> = Vec::new();
    push_decimal(&mut out, h12 as u64);
    out.push(':');
    if m < 10 {
        out.push('0');
    }
    push_decimal(&mut out, m as u64);
    out.push(' ');
    if h >= 12 {
        out.push('P');
    } else {
        out.push('A');
    }
    out.push('M');
    proof {
        let mm = m as nat;
        if mm < 10 {
            assert(seq!['0'] + decimal(mm) =~= two_digits(mm));
        }
        assert(out@ =~= clock_text(h12 as nat, mm, h >= 12));
    }
    string_of(&out)
}

/// The last moment the clock under a message is promised for: the end of
/// the year 9999, in seconds since the epoch.
pub const CLOCK_LAST: u64 = 253_402_300_799;

/// How far east of UTC this machine's clock stands at a moment given as
/// seconds since the epoch, in seconds.
///
/// Wraps chrono: `DateTime::from_timestamp`, then `with_timezone(&Local)`,
/// its `offset()` and `FixedOffset::local_minus_utc`. chrono documents
/// `from_timestamp` as giving a time for every count of seconds in its range,
/// which runs to the year 262142, so every moment from the epoch to
/// [`CLOCK_LAST`] is read; and a `FixedOffset` is documented to lie strictly
/// within a day either way. Which offset is not stated: it turns on the
/// machine's time zone.
#[verifier::external_body]
fn local_offset(seconds: i64) -> (r: Option<i32>)
    ensures
        0 <= seconds <= CLOCK_LAST ==> r is Some,
        r matches Some(off) ==> -86400 < off < 86400,
{
    chrono::DateTime::from_timestamp(seconds, 0)
        .map(|time| time.with_timezone(&chrono::Local).offset().local_minus_utc())
}

/// When a message was sent, as the clock under it shows it: for every moment
/// up to [`CLOCK_LAST`], the clock at that moment in the machine's own zone,
/// some offset within a day of UTC; nothing for a moment past what a signed
/// count of seconds holds.
pub fn sent_time(seconds: u64) -> (t: Option<String>)
    ensures
        seconds <= CLOCK_LAST ==> t is Some,
        seconds > i64::MAX ==> t is None,
        t matches Some(text) ==> exists|off: int|
            -86400 < off < 86400 && text@ == #[trigger] clock_of(seconds as int, off),
{
    if seconds > 0x7fff_ffff_ffff_ffff {
        return None;
    }
    match local_offset(seconds as i64) {
        Some(off) => {
            let text = clock_at(seconds, off);
            assert(text@ == clock_of(seconds as int, off as int));
            Some(text)
        },
        None => None,
    }
}

} // verus!
