//! The article pane's decisions about where the caret goes and which way a
//! document is edited.

use vstd::prelude::*;

verus! {

/// Where the caret goes in an article just opened.
#[derive(Clone, Copy, PartialEq, Eq, Debug, Structural)]
pub enum Caret {
    /// Its title field: a page with no name is asking to be given one.
    Title,
    /// Its document: a named page is asking to be written in.
    Body,
    /// Nowhere: there is neither to put it in.
    Nowhere,
}

/// Where the caret goes in an article just opened: the title where the page
/// is unnamed and has its field, else the document where it has an editor.
pub fn opened_caret(unnamed: bool, has_field: bool, has_editor: bool) -> (c: Caret)
    ensures
        unnamed && has_field ==> c == Caret::Title,
        !(unnamed && has_field) && has_editor ==> c == Caret::Body,
        !(unnamed && has_field) && !has_editor ==> c == Caret::Nowhere,
{
    if unnamed && has_field {
        Caret::Title
    } else if has_editor {
        Caret::Body
    } else {
        Caret::Nowhere
    }
}

/// How a document is edited.
#[derive(Clone, Copy, PartialEq, Eq, Debug, Structural)]
pub enum Mode {
    /// As blocks, the way it reads.
    Blocks,
    /// As the markdown it spells.
    Source,
}

/// The way a document is edited after Plain text is toggled, where there is
/// a document: `plain` is whether it is edited as markdown now.
pub fn toggled_mode(plain: Option<bool>) -> (m: Option<Mode>)
    ensures
        plain == Some(true) ==> m == Some(Mode::Blocks),
        plain == Some(false) ==> m == Some(Mode::Source),
        plain is None ==> m is None,
{
    match plain {
        Some(true) => Some(Mode::Blocks),
        Some(false) => Some(Mode::Source),
        None => None,
    }
}

/// Whether the caret goes back into the document after a re-read replaced
/// it: while an article is showing and has an editor, and never off the title
/// while someone is typing a name.
pub fn refocus_body(showing_article: bool, titling: bool, has_editor: bool) -> (b: bool)
    ensures
        b == (showing_article && has_editor && !titling),
{
    showing_article && has_editor && !titling
}

} // verus!
