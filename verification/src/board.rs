//! The board pane's decisions: what the one card field writes, where a
//! dropped card lands, and what the find field leaves of a lane.

use vstd::prelude::*;
use crate::text::{
    blank, chars_of, contains, contains_text, is_blank, lowercase, lines, lines_of, push_decimal,
    push_str, same_text, string_of, to_lowercase, trim_chars, trim_of, decimal,
};

verus! {

/// Which end of a lane a card being written lands at.
#[derive(Clone, Copy, PartialEq, Eq, Debug, Structural)]
pub enum Place {
    Top,
    End,
}

/// What the field is attached to, by id, never by position.
#[derive(Clone, Debug)]
pub enum Editing {
    /// A card being written, to land at this end of this column.
    New(Place, String),
    /// A card being rewritten.
    Card(String),
}

/// How the work on a card is going, said in a word.
#[derive(Clone, Copy, PartialEq, Eq, Debug, Structural)]
pub enum Status {
    Busy,
    Blocked,
    Done,
}

/// What filing the field does to the board.
#[derive(Clone, Debug)]
pub enum BoardWrite {
    /// Nothing: an empty card is not a card.
    Nothing,
    /// A new card at the head of a lane.
    Prepend { column: String, text: String },
    /// A new card at the end of a lane.
    Add { column: String, text: String },
    /// The card, emptied, goes.
    Remove { card: String },
    /// The card takes the new text.
    Rewrite { card: String, text: String },
}

/// What filing `at` with the field holding `field` writes, as values: the
/// kind of write (0 nothing, 1 prepend, 2 add, 3 remove, 4 rewrite), what it
/// is aimed at, and the text.
pub open spec fn commit_spec(at: Editing, field: Seq<char>) -> (int, Seq<char>, Seq<char>) {
    let text = trim_of(field);
    match at {
        Editing::New(place, column) => if text.len() == 0 {
            (0, Seq::empty(), Seq::empty())
        } else if place == Place::Top {
            (1, column@, text)
        } else {
            (2, column@, text)
        },
        Editing::Card(id) => if text.len() == 0 {
            (3, id@, Seq::empty())
        } else {
            (4, id@, text)
        },
    }
}

pub open spec fn write_view(w: BoardWrite) -> (int, Seq<char>, Seq<char>) {
    match w {
        BoardWrite::Nothing => (0, Seq::empty(), Seq::empty()),
        BoardWrite::Prepend { column, text } => (1, column@, text@),
        BoardWrite::Add { column, text } => (2, column@, text@),
        BoardWrite::Remove { card } => (3, card@, Seq::empty()),
        BoardWrite::Rewrite { card, text } => (4, card@, text@),
    }
}

/// What filing the open field writes: the trimmed text as a new card at the
/// end it was opened at, or in place of the card it was opened on — and an
/// emptied field writes no new card and takes an existing one off.
pub fn commit_write(at: Editing, field: &str) -> (w: BoardWrite)
    ensures
        write_view(w) == commit_spec(at, field@),
{
    let chars = chars_of(field);
    let t = trim_chars(&chars);
    if t.len() == 0 {
        return match at {
            Editing::New(..) => BoardWrite::Nothing,
            Editing::Card(id) => BoardWrite::Remove { card: id },
        };
    }
    let text = string_of(&t);
    match at {
        Editing::New(place, column) => match place {
            Place::Top => BoardWrite::Prepend { column, text },
            Place::End => BoardWrite::Add { column, text },
        },
        Editing::Card(id) => BoardWrite::Rewrite { card: id, text },
    }
}

/// Whether an edit a re-read could have overtaken still points at something:
/// the column a card is being written into, or the card being rewritten.
pub fn edit_alive(at: &Editing, has_column: bool, has_card: bool) -> (alive: bool)
    ensures
        alive == (match *at {
            Editing::New(..) => has_column,
            Editing::Card(_) => has_card,
        }),
{
    match at {
        Editing::New(..) => has_column,
        Editing::Card(_) => has_card,
    }
}

/// Whether opening `at` pins the lane to its end: only a card written at the
/// foot of a lane asks to be taken there.
pub fn follows_lane(at: &Editing) -> (b: bool)
    ensures
        b == (*at matches Editing::New(place, _) && place == Place::End),
{
    match at {
        Editing::New(Place::End, _) => true,
        _ => false,
    }
}

/// Where a card in the air would land: the lane, and the card it would go in
/// front of, nothing being the end of the lane.
#[derive(Clone, Debug)]
pub struct Landing {
    pub column: String,
    pub before: Option<String>,
}

/// Where a card carried over a card (or a list row) lands: in front of that
/// card where the pointer is in its upper half, else in front of whatever is
/// under it, `next`, none being the end of the lane.
pub fn landing_over(column: &str, card: &str, next: Option<&str>, upper: bool) -> (l: Landing)
    ensures
        l.column@ == column@,
        upper ==> (l.before matches Some(b) && b@ == card@),
        !upper ==> match next {
            Some(n) => l.before matches Some(b) && b@ == n@,
            None => l.before is None,
        },
{
    let before = if upper {
        Some(card.to_owned())
    } else {
        match next {
            Some(n) => Some(n.to_owned()),
            None => None,
        }
    };
    Landing { column: column.to_owned(), before }
}

/// What a card offers on its hover row: the session it was handed to, to
/// open, while that session is live; and to be handed to an agent, only where
/// it has no live session and no status tag. Both go with sessions: with
/// them off, a card offers neither.
pub fn card_offers(sessions: bool, live: Option<u64>, status: Option<Status>) -> (o: (
    Option<u64>,
    bool,
))
    ensures
        o.0 == if sessions {
            live
        } else {
            None
        },
        o.1 == (sessions && live is None && status is None),
{
    let open = if sessions {
        live
    } else {
        None
    };
    (open, sessions && live.is_none() && status.is_none())
}

/// Where a dropped card goes.
#[derive(Clone, Debug)]
pub enum Move {
    /// Within its own board, to this lane, in front of this card or at the
    /// end.
    Within { card: String, column: String, before: Option<String> },
    /// Onto another board, where it is a new card at the end of this lane.
    Carry { card: String, column: String },
}

/// Where a card dropped on `column` of the board at `at` goes, having left
/// the board at `from`: in front of the card the aim named where the aim was
/// on this lane, else at its end; and carried as a new card where it crosses
/// boards.
pub fn drop_move(
    card: String,
    from: (usize, usize),
    at: (usize, usize),
    column: &str,
    aim: Option<Landing>,
) -> (m: Move)
    ensures
        from == at ==> (m matches Move::Within { card: c, column: col, before } && c == card
            && col@ == column@ && (match aim {
            Some(l) => if l.column@ == column@ {
                before == l.before
            } else {
                before is None
            },
            None => before is None,
        })),
        from != at ==> (m matches Move::Carry { card: c, column: col } && c == card && col@
            == column@),
{
    let before = match aim {
        Some(landing) => if same_text(landing.column.as_str(), column) {
            landing.before
        } else {
            None
        },
        None => None,
    };
    if from.0 == at.0 && from.1 == at.1 {
        Move::Within { card, column: column.to_owned(), before }
    } else {
        Move::Carry { card, column: column.to_owned() }
    }
}

/// Whether the card in the air would land at the end of `column`.
pub fn aimed_at(dragging: bool, aim: &Option<Landing>, column: &str) -> (b: bool)
    ensures
        b == (dragging && (aim matches Some(l) && l.column@ == column@ && l.before is None)),
{
    if !dragging {
        return false;
    }
    match aim {
        Some(l) => same_text(l.column.as_str(), column) && l.before.is_none(),
        None => false,
    }
}

/// Whether a card answers the find query: the query, trimmed and in lower
/// case, stands in its text or its handle in lower case. An empty query
/// leaves every card standing.
pub open spec fn matches_query(text: Seq<char>, handle: Option<Seq<char>>, query: Seq<char>) -> bool {
    let q = lowercase(trim_of(query));
    q.len() == 0 || contains_text(lowercase(text), q) || (handle matches Some(h)
        && contains_text(lowercase(h), q))
}

/// Does this card answer the query? Matched against what a card is named by:
/// its handle, and its text.
pub fn card_matches(text: &str, handle: Option<&str>, query: &str) -> (b: bool)
    ensures
        b == matches_query(text@, match handle {
            Some(h) => Some(h@),
            None => None,
        }, query@),
{
    let qc = chars_of(query);
    let qt = trim_chars(&qc);
    let qs = string_of(&qt);
    let q = to_lowercase(qs.as_str());
    let needle = chars_of(q.as_str());
    if needle.len() == 0 {
        return true;
    }
    let lower = to_lowercase(text);
    let hay = chars_of(lower.as_str());
    if contains(&hay, &needle) {
        return true;
    }
    match handle {
        Some(h) => {
            let hl = to_lowercase(h);
            let hh = chars_of(hl.as_str());
            contains(&hh, &needle)
        },
        None => false,
    }
}

/// A card as the find field reads it.
pub struct CardRef<'a> {
    pub id: &'a str,
    pub text: &'a str,
    pub handle: Option<&'a str>,
}

/// The ids of the cards in a lane that answer the query, in the lane's order.
pub fn lane_cards(cards: &Vec<CardRef>, query: &str) -> (shown: Vec<String>)
    ensures
        shown@.map_values(|s: String| s@) == cards@.filter(
            |c: CardRef| matches_query(c.text@, match c.handle {
                Some(h) => Some(h@),
                None => None,
            }, query@),
        ).map_values(|c: CardRef| c.id@),
{
    let ghost pred = |c: CardRef| matches_query(c.text@, match c.handle {
        Some(h) => Some(h@),
        None => None,
    }, query@);
    let mut shown: Vec<String> = Vec::new();
    let mut i: usize = 0;
    assert(cards@.take(0).filter(pred) =~= Seq::<CardRef>::empty()) by {
        reveal_with_fuel(Seq::<CardRef>::filter, 1);
    }
    while i < cards.len()
        invariant
            i <= cards.len(),
            pred == (|c: CardRef| matches_query(c.text@, match c.handle {
                Some(h) => Some(h@),
                None => None,
            }, query@)),
            shown@.map_values(|s: String| s@) == cards@.take(i as int).filter(pred).map_values(
                |c: CardRef| c.id@,
            ),
        decreases cards.len() - i,
    {
        let c = &cards[i];
        let ghost before = cards@.take(i as int).filter(pred);
        proof {
            assert(cards@.take(i + 1).drop_last() =~= cards@.take(i as int));
            assert(cards@.take(i + 1).last() == cards@[i as int]);
            reveal_with_fuel(Seq::<CardRef>::filter, 1);
            assert(cards@.take(i + 1).filter(pred) == if pred(cards@[i as int]) {
                before.push(cards@[i as int])
            } else {
                before
            });
        }
        if card_matches(c.text, c.handle, query) {
            let ghost was = shown@;
            shown.push(c.id.to_owned());
            assert(shown@.map_values(|s: String| s@) =~= was.map_values(|s: String| s@).push(
                c.id@,
            ));
            assert(before.push(cards@[i as int]).map_values(|c: CardRef| c.id@) =~= before.map_values(
                |c: CardRef| c.id@,
            ).push(c.id@));
        }
        i += 1;
    }
    assert(cards@.take(cards.len() as int) =~= cards@);
    shown
}

/// A lane's count: how many cards it holds, or how many of them the query
/// left of how many it holds.
pub open spec fn tally_text(held: nat, shown: nat) -> Seq<char> {
    if shown == held {
        decimal(held)
    } else {
        decimal(shown) + "/"@ + decimal(held)
    }
}

/// A lane's count, as its header shows it: `12`, or `3/12` while the find
/// field has narrowed it.
pub fn tally(held: usize, shown: usize) -> (s: String)
    ensures
        s@ == tally_text(held as nat, shown as nat),
{
    let mut out: Vec<char> = Vec::new();
    if shown == held {
        push_decimal(&mut out, held as u64);
    } else {
        push_decimal(&mut out, shown as u64);
        push_str(&mut out, "/");
        push_decimal(&mut out, held as u64);
    }
    string_of(&out)
}

/// Whether a lane folded shut stays shut: it opens for a query narrowing the
/// board, and for the field writing a card into it.
pub fn folded(collapsed: bool, query: &str, writing: bool) -> (b: bool)
    ensures
        b == (collapsed && blank(query@) && !writing),
{
    collapsed && is_blank(query) && !writing
}

/// Which ways a lane at `at` among `lanes` can be stepped: back, and on.
pub fn lane_steps(at: usize, lanes: usize) -> (steps: (bool, bool))
    ensures
        steps == (at > 0, at + 1 < lanes),
{
    (at > 0, at < lanes && lanes - at > 1)
}

/// Whether a lane can be deleted: only while it holds no card at all.
pub fn deletable(held: usize) -> (b: bool)
    ensures
        b == (held == 0),
{
    held == 0
}

/// The statuses a chip is drawn for: the ones with no motion of their own.
pub fn resting(status: Option<Status>) -> (r: Option<Status>)
    ensures
        r == (match status {
            Some(Status::Busy) => None,
            s => s,
        }),
{
    match status {
        Some(Status::Busy) => None,
        s => s,
    }
}

/// What spins on a card.
#[derive(Clone, Copy, PartialEq, Eq, Debug, Structural)]
pub enum Spin {
    /// The run of the session it was handed to.
    Session,
    /// A run somebody tagged it with, with no session in this window.
    Tagged,
    /// Nothing: the card is at rest.
    Still,
}

/// What spins on a card: its session's run while one streams, else a busy
/// tag, else nothing.
pub fn card_spin(session_streaming: bool, status: Option<Status>) -> (s: Spin)
    ensures
        session_streaming ==> s == Spin::Session,
        !session_streaming && status == Some(Status::Busy) ==> s == Spin::Tagged,
        !session_streaming && status != Some(Status::Busy) ==> s == Spin::Still,
{
    if session_streaming {
        Spin::Session
    } else {
        match status {
            Some(Status::Busy) => Spin::Tagged,
            _ => Spin::Still,
        }
    }
}

/// The first line of `text` with anything on it, trimmed — what a row of the
/// list shows of a card.
pub open spec fn first_line_text(ls: Seq<Seq<char>>) -> Seq<char>
    decreases ls.len(),
{
    if ls.len() == 0 {
        Seq::empty()
    } else if trim_of(ls[0]).len() > 0 {
        trim_of(ls[0])
    } else {
        first_line_text(ls.drop_first())
    }
}

/// The card's first line, which is what a row of the list shows of it.
pub fn first_line(text: &str) -> (s: String)
    ensures
        s@ == first_line_text(lines_of(text@)),
{
    let chars = chars_of(text);
    let ls = lines(&chars);
    let ghost all = lines_of(text@);
    let mut k: usize = 0;
    assert(all.skip(0) =~= all);
    while k < ls.len()
        invariant
            k <= ls.len(),
            ls@.map_values(|l: Vec<char>| l@) == all,
            all == lines_of(text@),
            first_line_text(all) == first_line_text(all.skip(k as int)),
        decreases ls.len() - k,
    {
        let t = trim_chars(&ls[k]);
        assert(all.skip(k as int)[0] == ls@[k as int]@);
        assert(all.skip(k as int).len() > 0);
        if t.len() > 0 {
            assert(first_line_text(all.skip(k as int)) == trim_of(ls@[k as int]@));
            return string_of(&t);
        }
        assert(all.skip(k as int).drop_first() =~= all.skip(k + 1));
        k += 1;
    }
    assert(all.skip(ls.len() as int).len() == 0);
    let none: Vec<char> = Vec::new();
    string_of(&none)
}

/// The find field does not see the query's case, nor the whitespace around
/// it: two queries that trim and lower-case alike (`Login` and ` login `)
/// find the same cards.
pub proof fn lemma_query_case_blind(
    text: Seq<char>,
    handle: Option<Seq<char>>,
    q1: Seq<char>,
    q2: Seq<char>,
)
    requires
        lowercase(trim_of(q1)) == lowercase(trim_of(q2)),
    ensures
        matches_query(text, handle, q1) == matches_query(text, handle, q2),
{
}

} // verus!
