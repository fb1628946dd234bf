//! A small text file held for editing: which bytes may be opened in place,
//! when a save may go ahead, and how line endings survive the round trip.

use vstd::prelude::*;
use vstd::utf8::{decode_utf8, valid_utf8};
use crate::paths::{file_name, file_name_of, strip_prefix, stripped_of};
use crate::text::{chars_of, decimal, push_chars, push_decimal, push_str, same_text, string_of};

verus! {

/// The largest file, in bytes, that is read or written in place: 256 KiB.
pub const LIMIT: u64 = 262144;

/// Why a file could not be read or saved.
pub enum FileError {
    /// The path names something other than a regular file.
    NotFile,
    /// The file is over [`LIMIT`] bytes.
    TooLarge,
    /// The file holds a NUL byte.
    Binary,
    /// The bytes are not UTF-8; the decoder's own account.
    NotText(String),
    /// What is on disk is no longer what was last read or saved.
    Changed,
    /// The text to save is over [`LIMIT`] bytes.
    TooLargeToSave,
    /// The system refused; its own account.
    Io(String),
}

impl FileError {
    /// What the editor says of it.
    pub fn message(&self) -> (s: String)
        ensures
            *self matches FileError::NotText(m) ==> s@ == m@,
            *self matches FileError::Io(m) ==> s@ == m@,
            (*self is NotFile) ==> s@ == "Choose a regular file"@,
            (*self is TooLarge) ==> s@ == "Files larger than 256 KiB must be opened externally"@,
            (*self is Binary) ==> s@ == "Binary files must be opened externally"@,
            (*self is Changed) ==> s@ == "File changed on disk. Reload or overwrite to continue."@,
            (*self is TooLargeToSave) ==> s@
                == "Files larger than 256 KiB must be edited externally"@,
    {
        match self {
            FileError::NotFile => "Choose a regular file".to_owned(),
            FileError::TooLarge => "Files larger than 256 KiB must be opened externally".to_owned(),
            FileError::Binary => "Binary files must be opened externally".to_owned(),
            FileError::NotText(m) => m.as_str().to_owned(),
            FileError::Changed => "File changed on disk. Reload or overwrite to continue.".to_owned(),
            FileError::TooLargeToSave => "Files larger than 256 KiB must be edited externally".to_owned(),
            FileError::Io(m) => m.as_str().to_owned(),
        }
    }
}

/// The text that `bytes` spell in UTF-8, or the decoder's account of why they
/// do not.
///
/// Wraps std's `String::from_utf8`, which accepts exactly the well-formed
/// UTF-8 sequences and decodes them character by character.
#[verifier::external_body]
pub(crate) fn utf8_text(bytes: Vec<u8>) -> (r: Result<String, String>)
    ensures
        r is Ok <==> valid_utf8(bytes@),
        r matches Ok(s) ==> s@ == decode_utf8(bytes@),
{
    String::from_utf8(bytes).map_err(|error| error.to_string())
}

/// The mark between two steps of a breadcrumb.
pub open spec fn crumb_mark() -> Seq<char> {
    seq![' ', ' ', '\u{203a}', ' ', ' ']
}

/// A path with each `/` shown as a breadcrumb's mark.
pub open spec fn crumbs(s: Seq<char>) -> Seq<char>
    decreases s.len(),
{
    if s.len() == 0 {
        s
    } else {
        crumbs(s.drop_last()) + if s.last() == '/' {
            crumb_mark()
        } else {
            seq![s.last()]
        }
    }
}

/// What the file's toolbar shows of where it is: the project's name (or its
/// whole root path where that has no last component), then the file's path
/// under the root (or its whole path where it is not under it), each step
/// set off by the mark.
pub open spec fn breadcrumb_of(path: Seq<char>, root: Seq<char>) -> Seq<char> {
    let rest = match stripped_of(path, root) {
        Some(r) => r,
        None => path,
    };
    let name = match file_name_of(root) {
        Some(n) => n,
        None => root,
    };
    name + crumb_mark() + crumbs(rest)
}

/// The breadcrumb over the file at `path` in the project at `root`; see
/// [`breadcrumb_of`].
pub fn breadcrumb(path: &str, root: &str) -> (s: String)
    ensures
        s@ == breadcrumb_of(path@, root@),
{
    let rest = match strip_prefix(path, root) {
        Some(r) => r,
        None => path.to_owned(),
    };
    let name = match file_name(root) {
        Some(n) => n,
        None => root.to_owned(),
    };
    let mut out = chars_of(name.as_str());
    let mark: Vec<char> = vec![' ', ' ', '\u{203a}', ' ', ' '];
    assert(mark@ =~= crumb_mark());
    push_chars(&mut out, &mark);
    let chars = chars_of(rest.as_str());
    let ghost head = out@;
    let mut i: usize = 0;
    while i < chars.len()
        invariant
            i <= chars.len(),
            mark@ == crumb_mark(),
            out@ == head + crumbs(chars@.take(i as int)),
        decreases chars.len() - i,
    {
        assert(chars@.take(i + 1).drop_last() =~= chars@.take(i as int));
        if chars[i] == '/' {
            push_chars(&mut out, &mark);
        } else {
            out.push(chars[i]);
        }
        assert(out@ =~= head + crumbs(chars@.take(i + 1)));
        i += 1;
    }
    assert(chars@.take(chars.len() as int) =~= chars@);
    string_of(&out)
}

/// Whether `bytes` hold a NUL.
pub fn has_nul(bytes: &Vec<u8>) -> (b: bool)
    ensures
        b == bytes@.contains(0u8),
{
    let mut i: usize = 0;
    while i < bytes.len()
        invariant
            i <= bytes.len(),
            forall|j: int| 0 <= j < i ==> bytes@[j] != 0u8,
        decreases bytes.len() - i,
    {
        if bytes[i] == 0 {
            assert(bytes@[i as int] == 0u8);
            return true;
        }
        i += 1;
    }
    false
}

/// The text of a file: `is_file` says whether the path names a regular file,
/// `read` is what reading it gave (at most one byte past [`LIMIT`] need be
/// read). Only a regular file's bytes are looked at.
pub fn text_from(is_file: bool, read: Result<Vec<u8>, String>) -> (r: Result<String, FileError>)
    ensures
        !is_file ==> r is Err && r->Err_0 is NotFile,
        is_file ==> match read {
            Err(m) => r is Err && (r->Err_0 matches FileError::Io(e) && e@ == m@),
            Ok(bytes) => if bytes.len() > LIMIT {
                r is Err && r->Err_0 is TooLarge
            } else if bytes@.contains(0u8) {
                r is Err && r->Err_0 is Binary
            } else if !valid_utf8(bytes@) {
                r is Err && r->Err_0 is NotText
            } else {
                r matches Ok(s) && s@ == decode_utf8(bytes@)
            },
        },
{
    if !is_file {
        return Err(FileError::NotFile);
    }
    match read {
        Err(m) => Err(FileError::Io(m)),
        Ok(bytes) => {
            if bytes.len() as u64 > LIMIT {
                Err(FileError::TooLarge)
            } else if has_nul(&bytes) {
                Err(FileError::Binary)
            } else {
                match utf8_text(bytes) {
                    Ok(s) => Ok(s),
                    Err(m) => Err(FileError::NotText(m)),
                }
            }
        },
    }
}

/// Whether a save may go ahead: unless `overwrite`, the file on disk
/// (`on_disk`, read just now) must still be `saved`; and `source` must fit in
/// [`LIMIT`] bytes. A failed read stops the save with its own error.
pub fn may_write(
    overwrite: bool,
    on_disk: Option<Result<String, FileError>>,
    saved: &str,
    source: &str,
) -> (r: Result<(), FileError>)
    requires
        !overwrite ==> on_disk is Some,
    ensures
        !overwrite && (on_disk->0 is Err) ==> r is Err && r->Err_0 == on_disk->0->Err_0,
        !overwrite && (on_disk->0 matches Ok(text) && text@ != saved@) ==> r is Err
            && r->Err_0 is Changed,
        (overwrite || (on_disk->0 matches Ok(text) && text@ == saved@)) ==> if source.len() > LIMIT {
            r is Err && r->Err_0 is TooLargeToSave
        } else {
            r is Ok
        },
{
    if !overwrite {
        match on_disk {
            Some(Err(e)) => return Err(e),
            Some(Ok(text)) => {
                if !same_text(text.as_str(), saved) {
                    return Err(FileError::Changed);
                }
            },
            None => {},
        }
    }
    if source.len() as u64 > LIMIT {
        Err(FileError::TooLargeToSave)
    } else {
        Ok(())
    }
}

/// The name of the file a save is written to before it takes the file's
/// place: `.cydonia-save-`, the process, a hyphen, the save's number.
pub fn temporary_name(process: u32, sequence: u64) -> (s: String)
    ensures
        s@ == ".cydonia-save-"@ + decimal(process as nat) + "-"@ + decimal(sequence as nat),
{
    let mut out: Vec<char> = Vec::new();
    push_str(&mut out, ".cydonia-save-");
    push_decimal(&mut out, process as u64);
    push_str(&mut out, "-");
    push_decimal(&mut out, sequence);
    string_of(&out)
}

/// `s` with every line break a line feed: a carriage return and the line feed
/// after it become one line feed, and a carriage return alone becomes one.
pub open spec fn normalized_of(s: Seq<char>) -> Seq<char>
    decreases s.len(),
{
    if s.len() == 0 {
        s
    } else if s[0] == '\r' && s.len() > 1 && s[1] == '\n' {
        seq!['\n'] + normalized_of(s.subrange(2, s.len() as int))
    } else if s[0] == '\r' {
        seq!['\n'] + normalized_of(s.subrange(1, s.len() as int))
    } else {
        seq![s[0]] + normalized_of(s.subrange(1, s.len() as int))
    }
}

/// `s` with each line feed written as `with`.
pub open spec fn lf_as(s: Seq<char>, with: Seq<char>) -> Seq<char>
    decreases s.len(),
{
    if s.len() == 0 {
        s
    } else if s[0] == '\n' {
        with + lf_as(s.subrange(1, s.len() as int), with)
    } else {
        seq![s[0]] + lf_as(s.subrange(1, s.len() as int), with)
    }
}

/// Whether a carriage return and a line feed stand together somewhere in `s`.
pub open spec fn has_crlf(s: Seq<char>) -> bool {
    exists|i: int| 0 <= i && i + 1 < s.len() && #[trigger] s[i] == '\r' && s[i + 1] == '\n'
}

/// Whether some line feed in `s` has no carriage return before it.
pub open spec fn has_bare_lf(s: Seq<char>) -> bool {
    exists|i: int| 0 <= i < s.len() && #[trigger] s[i] == '\n' && (i == 0 || s[i - 1] != '\r')
}

/// The line endings a file was saved with, given back to text edited with
/// line feeds: where every line feed of `saved` follows a carriage return,
/// each becomes a pair; where `saved` breaks lines with carriage returns
/// alone, each becomes one; otherwise `source` stays as it is.
pub open spec fn line_endings_of(source: Seq<char>, saved: Seq<char>) -> Seq<char> {
    if has_crlf(saved) && !has_bare_lf(saved) {
        lf_as(source, seq!['\r', '\n'])
    } else if saved.contains('\r') && !saved.contains('\n') {
        lf_as(source, seq!['\r'])
    } else {
        source
    }
}

/// `source` with every line break a line feed.
pub fn normalized(source: &str) -> (out: String)
    ensures
        out@ == normalized_of(source@),
{
    let cs = chars_of(source);
    let n = cs.len();
    let mut out: Vec<char> = Vec::new();
    let mut i: usize = 0;
    assert(cs@.subrange(0, n as int) =~= cs@);
    assert(out@ + normalized_of(cs@) =~= normalized_of(cs@));
    while i < n
        invariant
            n == cs.len(),
            cs@ == source@,
            i <= n,
            out@ + normalized_of(cs@.subrange(i as int, n as int)) == normalized_of(cs@),
        decreases n - i,
    {
        let ghost rest = cs@.subrange(i as int, n as int);
        if cs[i] == '\r' && i + 1 < n && cs[i + 1] == '\n' {
            assert(rest.subrange(2, rest.len() as int) =~= cs@.subrange(i + 2, n as int));
            out.push('\n');
            i += 2;
        } else if cs[i] == '\r' {
            assert(rest.subrange(1, rest.len() as int) =~= cs@.subrange(i + 1, n as int));
            out.push('\n');
            i += 1;
        } else {
            assert(rest.subrange(1, rest.len() as int) =~= cs@.subrange(i + 1, n as int));
            out.push(cs[i]);
            i += 1;
        }
        assert(out@ + normalized_of(cs@.subrange(i as int, n as int)) =~= normalized_of(cs@));
    }
    assert(cs@.subrange(n as int, n as int) =~= Seq::<char>::empty());
    assert(out@ =~= normalized_of(cs@));
    string_of(&out)
}

fn lf_as_chars(cs: &Vec<char>, with: &Vec<char>) -> (out: Vec<char>)
    ensures
        out@ == lf_as(cs@, with@),
{
    let n = cs.len();
    let mut out: Vec<char> = Vec::new();
    let mut i: usize = 0;
    assert(cs@.subrange(0, n as int) =~= cs@);
    assert(out@ + lf_as(cs@, with@) =~= lf_as(cs@, with@));
    while i < n
        invariant
            n == cs.len(),
            i <= n,
            out@ + lf_as(cs@.subrange(i as int, n as int), with@) == lf_as(cs@, with@),
        decreases n - i,
    {
        let ghost rest = cs@.subrange(i as int, n as int);
        let ghost before = out@;
        assert(rest.subrange(1, rest.len() as int) =~= cs@.subrange(i + 1, n as int));
        if cs[i] == '\n' {
            push_chars(&mut out, with);
            assert(before + (with@ + lf_as(cs@.subrange(i + 1, n as int), with@)) =~= out@
                + lf_as(cs@.subrange(i + 1, n as int), with@));
        } else {
            out.push(cs[i]);
            assert(before + (seq![cs@[i as int]] + lf_as(cs@.subrange(i + 1, n as int), with@))
                =~= out@ + lf_as(cs@.subrange(i + 1, n as int), with@));
        }
        i += 1;
    }
    assert(cs@.subrange(n as int, n as int) =~= Seq::<char>::empty());
    assert(out@ =~= out@ + lf_as(cs@.subrange(n as int, n as int), with@));
    out
}

/// Whether `cs` holds `c`.
fn holds(cs: &Vec<char>, c: char) -> (b: bool)
    ensures
        b == cs@.contains(c),
{
    let mut i: usize = 0;
    while i < cs.len()
        invariant
            i <= cs.len(),
            forall|j: int| 0 <= j < i ==> cs@[j] != c,
        decreases cs.len() - i,
    {
        if cs[i] == c {
            assert(cs@[i as int] == c);
            return true;
        }
        i += 1;
    }
    false
}

/// Whether `cs` has a carriage return and line feed together, and whether it
/// has a line feed with no carriage return before it.
fn pairs_and_bare(cs: &Vec<char>) -> (r: (bool, bool))
    ensures
        r.0 == has_crlf(cs@),
        r.1 == has_bare_lf(cs@),
{
    let mut pair = false;
    let mut bare = false;
    let mut i: usize = 0;
    while i < cs.len()
        invariant
            i <= cs.len(),
            pair == exists|j: int|
                0 <= j && j + 1 < i && #[trigger] cs@[j] == '\r' && cs@[j + 1]
                    == '\n',
            bare == exists|j: int|
                0 <= j < i && #[trigger] cs@[j] == '\n' && (j == 0 || cs@[j - 1] != '\r'),
        decreases cs.len() - i,
    {
        if cs[i] == '\n' {
            if i == 0 || cs[i - 1] != '\r' {
                assert(cs@[i as int] == '\n');
                bare = true;
            } else {
                assert(cs@[i - 1] == '\r' && cs@[(i - 1) + 1] == '\n');
                pair = true;
            }
        }
        i += 1;
    }
    (pair, bare)
}

/// `source`, edited with line feeds, written back with the line endings that
/// `saved` had.
pub fn line_endings(source: &str, saved: &str) -> (out: String)
    ensures
        out@ == line_endings_of(source@, saved@),
{
    let kept = chars_of(saved);
    let (pair, bare) = pairs_and_bare(&kept);
    let cs = chars_of(source);
    if pair && !bare {
        let mut with: Vec<char> = Vec::new();
        with.push('\r');
        with.push('\n');
        assert(with@ =~= seq!['\r', '\n']);
        string_of(&lf_as_chars(&cs, &with))
    } else if holds(&kept, '\r') && !holds(&kept, '\n') {
        let mut with: Vec<char> = Vec::new();
        with.push('\r');
        assert(with@ =~= seq!['\r']);
        string_of(&lf_as_chars(&cs, &with))
    } else {
        string_of(&cs)
    }
}

/// Normalizing takes every carriage return away.
pub proof fn lemma_normalized_has_no_cr(s: Seq<char>)
    ensures
        !normalized_of(s).contains('\r'),
    decreases s.len(),
{
    if s.len() > 0 {
        let rest = if s[0] == '\r' && s.len() > 1 && s[1] == '\n' {
            s.subrange(2, s.len() as int)
        } else {
            s.subrange(1, s.len() as int)
        };
        lemma_normalized_has_no_cr(rest);
        let head = if s[0] == '\r' { '\n' } else { s[0] };
        assert(normalized_of(s) =~= seq![head] + normalized_of(rest));
        assert forall|i: int| 0 <= i < normalized_of(s).len() implies normalized_of(s)[i] != '\r' by {
            if i > 0 {
                assert(normalized_of(s)[i] == normalized_of(rest)[i - 1]);
            }
        }
    }
}

proof fn lemma_lf_as_no_cr_head(s: Seq<char>)
    requires
        !s.contains('\r'),
        s.len() > 0,
    ensures
        lf_as(s, seq!['\r'])[0] != '\n',
        lf_as(s, seq!['\r']).len() > 0,
{
    assert(s[0] != '\r');
}

/// Line endings survive a round trip: text with no carriage return, written
/// back with any file's line endings and read in again, is the same text.
pub proof fn lemma_line_endings_round_trip(source: Seq<char>, saved: Seq<char>)
    requires
        !source.contains('\r'),
    ensures
        normalized_of(line_endings_of(source, saved)) == source,
{
    lemma_crlf_round_trip(source);
    lemma_cr_round_trip(source);
    lemma_plain_round_trip(source);
}

proof fn lemma_plain_round_trip(s: Seq<char>)
    requires
        !s.contains('\r'),
    ensures
        normalized_of(s) == s,
    decreases s.len(),
{
    if s.len() > 0 {
        let rest = s.subrange(1, s.len() as int);
        assert(!rest.contains('\r')) by {
            if rest.contains('\r') {
                let k = choose|k: int| 0 <= k < rest.len() && rest[k] == '\r';
                assert(s[k + 1] == '\r');
            }
        }
        assert(s[0] != '\r');
        lemma_plain_round_trip(rest);
        assert(s =~= seq![s[0]] + rest);
    }
}

proof fn lemma_crlf_round_trip(s: Seq<char>)
    requires
        !s.contains('\r'),
    ensures
        normalized_of(lf_as(s, seq!['\r', '\n'])) == s,
    decreases s.len(),
{
    if s.len() > 0 {
        let rest = s.subrange(1, s.len() as int);
        assert(!rest.contains('\r')) by {
            if rest.contains('\r') {
                let k = choose|k: int| 0 <= k < rest.len() && rest[k] == '\r';
                assert(s[k + 1] == '\r');
            }
        }
        assert(s[0] != '\r');
        lemma_crlf_round_trip(rest);
        let tail = lf_as(rest, seq!['\r', '\n']);
        if s[0] == '\n' {
            let w = seq!['\r', '\n'] + tail;
            assert(w.subrange(2, w.len() as int) =~= tail);
            assert(normalized_of(w) == seq!['\n'] + normalized_of(tail));
        } else {
            let w = seq![s[0]] + tail;
            assert(w.subrange(1, w.len() as int) =~= tail);
            assert(normalized_of(w) == seq![s[0]] + normalized_of(tail));
        }
        assert(s =~= seq![s[0]] + rest);
    }
}

proof fn lemma_cr_round_trip(s: Seq<char>)
    requires
        !s.contains('\r'),
    ensures
        normalized_of(lf_as(s, seq!['\r'])) == s,
    decreases s.len(),
{
    if s.len() > 0 {
        let rest = s.subrange(1, s.len() as int);
        assert(!rest.contains('\r')) by {
            if rest.contains('\r') {
                let k = choose|k: int| 0 <= k < rest.len() && rest[k] == '\r';
                assert(s[k + 1] == '\r');
            }
        }
        assert(s[0] != '\r');
        lemma_cr_round_trip(rest);
        let tail = lf_as(rest, seq!['\r']);
        if s[0] == '\n' {
            let w = seq!['\r'] + tail;
            if rest.len() > 0 {
                lemma_lf_as_no_cr_head(rest);
                assert(w[1] == tail[0]);
            }
            assert(w.subrange(1, w.len() as int) =~= tail);
            assert(normalized_of(w) == seq!['\n'] + normalized_of(tail));
        } else {
            let w = seq![s[0]] + tail;
            assert(w.subrange(1, w.len() as int) =~= tail);
            assert(normalized_of(w) == seq![s[0]] + normalized_of(tail));
        }
        assert(s =~= seq![s[0]] + rest);
    }
}

/// What the editor says while the file on disk has moved on under edits.
pub const CHANGED_NOTICE: &'static str =
    "File changed on disk. Reload discards your edits; overwrite saves your version.";

/// An open file's state beside its text field: the text last read or saved,
/// whether it has been read at all, whether a read is under way, the last
/// error, whether the disk moved on under unsaved edits, and whether a
/// Markdown file shows rendered.
///
/// The field's own content is handed in where a decision needs it; where a
/// method returns text, the caller puts that text in the field.
pub struct FileView {
    pub saved: String,
    pub ready: bool,
    pub loading: bool,
    pub error: Option<String>,
    pub changed: bool,
    pub preview: bool,
}

/// Whether the field's `content` differs from what was last read or saved.
pub open spec fn is_dirty(st: FileView, content: Seq<char>) -> bool {
    st.ready && content != normalized_of(st.saved@)
}

/// What a save writes: nothing before the file was read; the field's content
/// in the file's line endings where it was edited; the saved text otherwise.
pub open spec fn save_text(st: FileView, content: Seq<char>) -> Option<Seq<char>> {
    if !st.ready {
        None
    } else if is_dirty(st, content) {
        Some(line_endings_of(content, st.saved@))
    } else {
        Some(st.saved@)
    }
}

impl FileView {
    /// A file about to be read for the first time.
    pub fn new() -> (st: Self)
        ensures
            st.saved@ == Seq::<char>::empty(),
            !st.ready,
            st.loading,
            st.error is None,
            !st.changed,
            st.preview,
    {
        FileView {
            saved: String::new(),
            ready: false,
            loading: true,
            error: None,
            changed: false,
            preview: true,
        }
    }

    /// Whether the field's `content` holds unsaved edits.
    pub fn dirty(&self, content: &str) -> (b: bool)
        ensures
            b == is_dirty(*self, content@),
    {
        if !self.ready {
            return false;
        }
        let plain = normalized(self.saved.as_str());
        !same_text(content, plain.as_str())
    }

    /// Take in a read of the file. A first read, or one while nothing is
    /// edited, is shown: the text comes back for the field where it differs
    /// from what was shown. A read under edits only marks whether the disk
    /// moved on. A failed read is kept as the error.
    pub fn receive(&mut self, result: Result<String, String>, content: &str) -> (shown: Option<
        String,
    >)
        ensures
            !final(self).loading,
            final(self).preview == old(self).preview,
            match result {
                Err(e) => {
                    &&& shown is None
                    &&& final(self).error == Some(e)
                    &&& final(self).saved == old(self).saved
                    &&& final(self).ready == old(self).ready
                    &&& final(self).changed == old(self).changed
                },
                Ok(source) => {
                    &&& final(self).ready
                    &&& if !is_dirty(*old(self), content@) {
                        &&& final(self).saved@ == source@
                        &&& !final(self).changed
                        &&& final(self).error is None
                        &&& if !old(self).ready || old(self).saved@ != source@ {
                            shown matches Some(t) && t@ == source@
                        } else {
                            shown is None
                        }
                    } else {
                        &&& shown is None
                        &&& final(self).saved == old(self).saved
                        &&& final(self).error == old(self).error
                        &&& final(self).changed == (source@ != old(self).saved@)
                    }
                },
            },
    {
        self.loading = false;
        let dirty = self.dirty(content);
        match result {
            Err(e) => {
                self.error = Some(e);
                None
            },
            Ok(source) => {
                let mut shown = None;
                if !dirty {
                    if !self.ready || !same_text(self.saved.as_str(), source.as_str()) {
                        shown = Some(source.as_str().to_owned());
                        self.saved = source;
                    }
                    self.changed = false;
                    self.error = None;
                } else {
                    self.changed = !same_text(source.as_str(), self.saved.as_str());
                }
                self.ready = true;
                shown
            },
        }
    }

    /// What a save writes, if anything: see [`save_text`].
    pub fn save_source(&self, content: &str) -> (out: Option<String>)
        ensures
            match save_text(*self, content@) {
                None => out is None,
                Some(t) => out matches Some(o) && o@ == t,
            },
    {
        if !self.ready {
            None
        } else if self.dirty(content) {
            Some(line_endings(content, self.saved.as_str()))
        } else {
            Some(self.saved.as_str().to_owned())
        }
    }

    /// Take in how writing `source` went; whether it was saved.
    pub fn save(&mut self, source: String, outcome: Result<(), String>) -> (ok: bool)
        ensures
            ok == outcome is Ok,
            final(self).ready == old(self).ready,
            final(self).loading == old(self).loading,
            final(self).preview == old(self).preview,
            ok ==> final(self).saved == source && !final(self).changed && final(self).error is None,
            outcome matches Err(e) ==> final(self).error == Some(e) && final(self).saved
                == old(self).saved && final(self).changed == old(self).changed,
    {
        match outcome {
            Ok(()) => {
                self.saved = source;
                self.changed = false;
                self.error = None;
                true
            },
            Err(e) => {
                self.error = Some(e);
                false
            },
        }
    }

    /// Take in a read asked for to drop the edits: its text, for the field,
    /// becomes what is saved.
    pub fn reload(&mut self, result: Result<String, String>) -> (shown: Option<String>)
        ensures
            final(self).loading == old(self).loading,
            final(self).preview == old(self).preview,
            match result {
                Ok(source) => {
                    &&& shown matches Some(t) && t@ == source@
                    &&& final(self).saved == source
                    &&& final(self).ready
                    &&& !final(self).changed
                    &&& final(self).error is None
                },
                Err(e) => {
                    &&& shown is None
                    &&& final(self).error == Some(e)
                    &&& final(self).saved == old(self).saved
                    &&& final(self).ready == old(self).ready
                    &&& final(self).changed == old(self).changed
                },
            },
    {
        match result {
            Ok(source) => {
                let shown = source.as_str().to_owned();
                self.saved = source;
                self.ready = true;
                self.changed = false;
                self.error = None;
                Some(shown)
            },
            Err(e) => {
                self.error = Some(e);
                None
            },
        }
    }

    /// The line over the text: the last error, or that the disk moved on.
    pub fn notice(&self) -> (n: Option<String>)
        ensures
            match self.error {
                Some(e) => n matches Some(t) && t@ == e@,
                None => if self.changed {
                    n matches Some(t) && t@ == CHANGED_NOTICE@
                } else {
                    n is None
                },
            },
    {
        match &self.error {
            Some(e) => Some(e.as_str().to_owned()),
            None => if self.changed {
                Some(CHANGED_NOTICE.to_owned())
            } else {
                None
            },
        }
    }

    /// Switch a Markdown file between rendered and source; whether it now
    /// shows rendered.
    pub fn toggle_preview(&mut self) -> (preview: bool)
        ensures
            preview == final(self).preview,
            final(self).preview == !old(self).preview,
            final(self).saved == old(self).saved,
            final(self).ready == old(self).ready,
            final(self).error == old(self).error,
            final(self).changed == old(self).changed,
            final(self).loading == old(self).loading,
    {
        self.preview = !self.preview;
        self.preview
    }
}

/// What a save writes is clean once saved: where the field holds no carriage
/// return, after writing [`save_text`] the field no longer differs from what
/// is saved.
pub proof fn lemma_saved_is_clean(st: FileView, content: Seq<char>, written: FileView)
    requires
        st.ready,
        !content.contains('\r'),
        written.ready,
        written.saved@ == save_text(st, content)->0,
    ensures
        !is_dirty(written, content),
{
    if is_dirty(st, content) {
        lemma_line_endings_round_trip(content, st.saved@);
    }
}

} // verus!
