//! The image strip under a message: where each picture is read from, which
//! one is in front, and when the large preview is up.

use vstd::prelude::*;
use crate::paths::{join, joined_path};

verus! {

/// Whether the url crate's `Url::parse` reads a text as an absolute URL.
pub uninterp spec fn url_parses(text: Seq<char>) -> bool;

/// The URL the url crate parses a text to, written out again: its
/// serialization.
pub uninterp spec fn url_serialized(text: Seq<char>) -> Seq<char>;

/// The local file path the url crate's `Url::to_file_path` gives for the URL
/// a text parses to, read back as text; none where it gives none.
pub uninterp spec fn url_file_path_of(text: Seq<char>) -> Option<Seq<char>>;

/// `text` read as an absolute URL and written out again.
///
/// Wraps `url::Url::parse`, then `Url::as_str`, the URL's serialization.
/// The parse succeeds exactly on the texts it can read as an absolute URL,
/// and both what it accepts and what it writes are functions of the text
/// alone; they are named, not spelled out.
#[verifier::external_body]
fn url_text(text: &str) -> (r: Option<String>)
    ensures
        r is Some <==> url_parses(text@),
        r matches Some(shown) ==> shown@ == url_serialized(text@),
{
    url::Url::parse(text).ok().map(|u| u.as_str().to_owned())
}

/// The local file a URL written `text` names, as a path.
///
/// Wraps `url::Url::parse`, then `Url::to_file_path`, read back as text
/// (lossily, where the decoded path is not UTF-8). `to_file_path` reads the
/// parsed URL's host and path by the path rules of the platform the library
/// is built for, so for a given build the result is a function of the text
/// alone; it is named, not spelled out. Nothing comes of a text that does not
/// parse.
#[verifier::external_body]
fn url_file_path(text: &str) -> (r: Option<String>)
    ensures
        match r {
            Some(path) => url_file_path_of(text@) == Some(path@) && url_parses(text@),
            None => url_file_path_of(text@) is None,
        },
{
    url::Url::parse(text).ok()?.to_file_path().ok().map(|path| path.to_string_lossy().into_owned())
}

/// Where a picture is read from.
pub enum ImageSource {
    /// A file on this machine.
    Local(String),
    /// A URL fetched over the network.
    Remote(String),
}

/// Where the picture written `text` in a message is read from, given what
/// reading it as a URL gave: where it is a URL, the file it names or else
/// the URL itself; where it is not, a path taken from the session's folder
/// `cwd`.
pub fn source_from(parsed: Option<(Option<String>, String)>, text: &str, cwd: &str) -> (s:
    ImageSource)
    ensures
        match parsed {
            Some((Some(path), _)) => s matches ImageSource::Local(p) && p@ == path@,
            Some((None, shown)) => s matches ImageSource::Remote(u) && u@ == shown@,
            None => s matches ImageSource::Local(p) && p@ == joined_path(cwd@, text@),
        },
{
    match parsed {
        Some((Some(path), _)) => ImageSource::Local(path),
        Some((None, shown)) => ImageSource::Remote(shown),
        None => ImageSource::Local(join(cwd, text)),
    }
}

/// Where the picture written `text` in a message is read from; see
/// [`source_from`]. What is not a URL is a path from `cwd`; a URL is the file
/// it names where it names one, else the URL itself.
pub fn image_source(text: &str, cwd: &str) -> (s: ImageSource)
    ensures
        !url_parses(text@) ==> (s matches ImageSource::Local(p) && p@ == joined_path(cwd@, text@)),
        url_parses(text@) ==> match url_file_path_of(text@) {
            Some(path) => s matches ImageSource::Local(p) && p@ == path,
            None => s matches ImageSource::Remote(u) && u@ == url_serialized(text@),
        },
{
    let parsed = match url_text(text) {
        Some(shown) => Some((url_file_path(text), shown)),
        None => None,
    };
    source_from(parsed, text, cwd)
}

/// What a press on the strip came to, read off how far it was dragged.
pub enum Swipe {
    /// Dragged left past the threshold: the next picture.
    Next,
    /// Dragged right past the threshold: the one before.
    Previous,
    /// Let go where it went down.
    Tap,
    /// Moved, but not far enough to turn.
    Stay,
}

/// The strip's state: how many pictures, which is in front, whether the
/// large preview is up, and whether a press is under way.
pub struct Gallery {
    pub count: usize,
    pub selected: usize,
    pub preview: bool,
    pub pressed: bool,
}

impl Gallery {
    /// A strip of `count` pictures, the first in front.
    pub fn new(count: usize) -> (g: Self)
        ensures
            g.count == count,
            g.selected == 0,
            !g.preview,
            !g.pressed,
    {
        Gallery { count, selected: 0, preview: false, pressed: false }
    }

    /// A press went down on the strip.
    pub fn press(&mut self)
        ensures
            final(self).pressed,
            final(self).count == old(self).count,
            final(self).selected == old(self).selected,
            final(self).preview == old(self).preview,
    {
        self.pressed = true;
    }

    /// The press came up as `swipe`; a tap opens the preview where `open`
    /// says the strip may. Whether the preview opened (and takes the focus).
    pub fn finish(&mut self, swipe: Swipe, open: bool) -> (opened: bool)
        requires
            old(self).count > 0,
            old(self).selected < old(self).count,
        ensures
            !final(self).pressed,
            final(self).count == old(self).count,
            final(self).selected < final(self).count,
            !old(self).pressed ==> !opened && final(self).selected == old(self).selected
                && final(self).preview == old(self).preview,
            old(self).pressed ==> match swipe {
                Swipe::Next => !opened && final(self).selected == if old(self).selected + 1 < old(self).count {
                    old(self).selected + 1
                } else {
                    old(self).count - 1
                } && final(self).preview == old(self).preview,
                Swipe::Previous => !opened && final(self).selected == if old(self).selected > 0 {
                    old(self).selected - 1
                } else {
                    0
                } && final(self).preview == old(self).preview,
                Swipe::Tap => opened == open && final(self).selected == old(self).selected
                    && final(self).preview == (old(self).preview || open),
                Swipe::Stay => !opened && final(self).selected == old(self).selected
                    && final(self).preview == old(self).preview,
            },
    {
        if !self.pressed {
            return false;
        }
        self.pressed = false;
        match swipe {
            Swipe::Next => {
                self.selected = if self.selected + 1 < self.count {
                    self.selected + 1
                } else {
                    self.count - 1
                };
                false
            },
            Swipe::Previous => {
                self.selected = if self.selected > 0 {
                    self.selected - 1
                } else {
                    0
                };
                false
            },
            Swipe::Tap => {
                if open {
                    self.preview = true;
                }
                open
            },
            Swipe::Stay => false,
        }
    }

    /// Close the preview; any press under way is dropped.
    pub fn close(&mut self)
        ensures
            !final(self).preview,
            !final(self).pressed,
            final(self).count == old(self).count,
            final(self).selected == old(self).selected,
    {
        self.preview = false;
        self.pressed = false;
    }

    /// Whether the large preview is up.
    pub fn is_preview_open(&self) -> (b: bool)
        ensures
            b == self.preview,
    {
        self.preview
    }
}

} // verus!
