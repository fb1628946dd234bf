//! The question asked before a delete: where the thing lives on disk and what
//! is said about losing it.

use vstd::prelude::*;
use crate::text::{chars_of, decimal, push_decimal, push_str, string_of};

verus! {

/// The sentence every delete ends on.
pub const UNDONE: &'static str = "This cannot be undone.";

/// What a delete is aimed at, as far as what goes with it goes.
pub enum Doomed {
    /// A session, and the record it is filed under once it has had a turn.
    Session { record: Option<String> },
    /// A board, and its id where it is found.
    Board { id: Option<String> },
    /// An article, and the name of the folder it is kept in where it has one.
    Article { folder: Option<String> },
    /// A table, and how many rows it has where it is found.
    Table { rows: Option<usize> },
    /// A project or an archive: nothing on disk to point at.
    Other,
}

/// A delete asked for and not yet agreed to: what to call it, where it lives
/// (nothing where it has no place on disk), and the sentence under it.
pub struct Confirming {
    pub label: String,
    pub goes: Option<String>,
    pub note: String,
}

/// Where the doomed thing lives, under `.cydonia/`, and what to say about
/// losing it; `database` is the file the tables are kept in.
pub open spec fn goes_spec(doomed: Doomed, database: Seq<char>) -> (Option<Seq<char>>, Seq<char>) {
    match doomed {
        Doomed::Session { record } => match record {
            Some(r) => (Some(".cydonia/sessions/"@ + r@ + ".json"@), UNDONE@),
            None => (None, "It has had no turn, so nothing on disk goes with it. "@ + UNDONE@),
        },
        Doomed::Board { id } => match id {
            Some(i) => (Some(".cydonia/boards/"@ + i@ + ".toml"@), UNDONE@),
            None => (None, UNDONE@),
        },
        Doomed::Article { folder } => match folder {
            Some(f) => (Some(".cydonia/articles/"@ + f@ + "/"@), UNDONE@),
            None => (None, UNDONE@),
        },
        Doomed::Table { rows } => (
            Some(".cydonia/"@ + database),
            "Its "@ + decimal(
                match rows {
                    Some(n) => n as nat,
                    None => 0,
                },
            ) + " rows are dropped; the database stays. "@ + UNDONE@,
        ),
        Doomed::Other => (None, UNDONE@),
    }
}

/// `before`, `middle` and `after` run together.
fn framed(before: &str, middle: &str, after: &str) -> (s: String)
    ensures
        s@ == before@ + middle@ + after@,
{
    let mut out = chars_of(before);
    push_str(&mut out, middle);
    push_str(&mut out, after);
    string_of(&out)
}

/// `before` and `after` run together.
fn paired(before: &str, after: &str) -> (s: String)
    ensures
        s@ == before@ + after@,
{
    let mut out = chars_of(before);
    push_str(&mut out, after);
    string_of(&out)
}

/// See [`goes_spec`].
pub fn goes_with(doomed: &Doomed, database: &str) -> (r: (Option<String>, String))
    ensures
        (match r.0 {
            Some(p) => Some(p@),
            None => None,
        }) == goes_spec(*doomed, database@).0,
        r.1@ == goes_spec(*doomed, database@).1,
{
    match doomed {
        Doomed::Session { record } => match record {
            Some(r) => (Some(framed(".cydonia/sessions/", r.as_str(), ".json")), UNDONE.to_owned()),
            None => (
                None,
                paired("It has had no turn, so nothing on disk goes with it. ", UNDONE),
            ),
        },
        Doomed::Board { id } => match id {
            Some(i) => (Some(framed(".cydonia/boards/", i.as_str(), ".toml")), UNDONE.to_owned()),
            None => (None, UNDONE.to_owned()),
        },
        Doomed::Article { folder } => match folder {
            Some(f) => (Some(framed(".cydonia/articles/", f.as_str(), "/")), UNDONE.to_owned()),
            None => (None, UNDONE.to_owned()),
        },
        Doomed::Table { rows } => {
            let n: usize = match rows {
                Some(n) => *n,
                None => 0,
            };
            let mut note = chars_of("Its ");
            push_decimal(&mut note, n as u64);
            push_str(&mut note, " rows are dropped; the database stays. ");
            push_str(&mut note, UNDONE);
            (Some(paired(".cydonia/", database)), string_of(&note))
        },
        Doomed::Other => (None, UNDONE.to_owned()),
    }
}

/// The question for a delete: `label` names it.
pub fn ask(label: String, doomed: &Doomed, database: &str) -> (c: Confirming)
    ensures
        c.label == label,
        (match c.goes {
            Some(p) => Some(p@),
            None => None,
        }) == goes_spec(*doomed, database@).0,
        c.note@ == goes_spec(*doomed, database@).1,
{
    let (goes, note) = goes_with(doomed, database);
    Confirming { label, goes, note }
}

/// The question for one card, which has no file of its own: it lives inside
/// its board's.
pub fn ask_card(label: String) -> (c: Confirming)
    ensures
        c.label == label,
        c.goes is None,
        c.note@ == UNDONE@,
{
    Confirming { label, goes: None, note: UNDONE.to_owned() }
}

/// The dialog's title.
pub fn title(label: &str) -> (s: String)
    ensures
        s@ == "Delete "@ + label@ + "?"@,
{
    framed("Delete ", label, "?")
}

} // verus!
