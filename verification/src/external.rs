//! Opening a file outside the app: with an application, the desktop's
//! default, a terminal, or its folder.

use vstd::prelude::*;
use vstd::utf8::{decode_utf8, valid_utf8};
use crate::file::utf8_text;
use crate::paths::{parent, parent_of};
use crate::text::{chars_of, push_str, string_of, trim_of, trim_chars};

verus! {

/// Where a file is opened.
#[derive(Clone, Debug)]
pub enum Target {
    /// With the application at this path.
    Application(String),
    /// With whatever the desktop associates with it.
    Default,
    /// In a terminal, at its folder.
    Terminal,
    /// Shown in its folder.
    Folder,
}

/// The desktop the app is running on.
#[derive(Clone, Copy, PartialEq, Eq, Debug, Structural)]
pub enum Desktop {
    MacOs,
    Windows,
    /// Any other: a desktop reached through `xdg-open`.
    Other,
}

/// One argument to a program. A raw one is handed on exactly as written,
/// without the quoting the platform would otherwise add.
#[derive(Clone, Debug)]
pub enum Arg {
    Plain(String),
    Raw(String),
}

/// A program to run, with its arguments.
#[derive(Clone, Debug)]
pub struct CommandLine {
    pub program: String,
    pub args: Vec<Arg>,
    /// Whether it is started without a console window of its own.
    pub no_window: bool,
}

/// An argument as values: whether it is raw, and what it says.
pub open spec fn arg_view(a: Arg) -> (bool, Seq<char>) {
    match a {
        Arg::Plain(s) => (false, s@),
        Arg::Raw(s) => (true, s@),
    }
}

pub open spec fn plain(s: Seq<char>) -> (bool, Seq<char>) {
    (false, s)
}

/// A command line as values.
pub open spec fn command_view(c: CommandLine) -> (Seq<char>, Seq<(bool, Seq<char>)>, bool) {
    (c.program@, c.args@.map_values(|a: Arg| arg_view(a)), c.no_window)
}

/// What opens `file` the way `target` says on `desktop`. `folder` is the
/// folder `file` is in — the file itself where it has none.
pub open spec fn command_spec(
    file: Seq<char>,
    folder: Seq<char>,
    target: Target,
    desktop: Desktop,
) -> (Seq<char>, Seq<(bool, Seq<char>)>, bool) {
    match desktop {
        Desktop::MacOs => match target {
            Target::Application(app) => (
                "/usr/bin/open"@,
                seq![plain("-a"@), plain(app@), plain("--"@), plain(file)],
                false,
            ),
            Target::Default => ("/usr/bin/open"@, seq![plain("--"@), plain(file)], false),
            Target::Terminal => (
                "/usr/bin/open"@,
                seq![plain("-a"@), plain("Terminal"@), plain("--"@), plain(folder)],
                false,
            ),
            Target::Folder => (
                "/usr/bin/open"@,
                seq![plain("-R"@), plain("--"@), plain(file)],
                false,
            ),
        },
        Desktop::Windows => match target {
            Target::Application(app) => (app@, seq![plain(file)], true),
            Target::Folder => (
                "explorer.exe"@,
                seq![(true, "/select,\""@ + file + "\""@)],
                true,
            ),
            Target::Default => ("explorer.exe"@, seq![plain(file)], true),
            Target::Terminal => ("explorer.exe"@, seq![plain(folder)], true),
        },
        Desktop::Other => match target {
            Target::Application(app) => (app@, seq![plain(file)], false),
            Target::Folder => ("xdg-open"@, seq![plain(folder)], false),
            Target::Default => ("xdg-open"@, seq![plain(file)], false),
            Target::Terminal => ("xdg-open"@, seq![plain(folder)], false),
        },
    }
}

fn owned(s: &str) -> (r: String)
    ensures
        r@ == s@,
{
    s.to_owned()
}

/// What opens `file` the way `target` says on `desktop`, given the folder
/// `file` is in.
pub fn command_for(file: &str, folder: &str, target: &Target, desktop: Desktop) -> (c:
    CommandLine)
    ensures
        command_view(c) == command_spec(file@, folder@, *target, desktop),
{
    let (program, args, no_window) = match desktop {
        Desktop::MacOs => {
            let args = match target {
                Target::Application(app) => vec![
                    Arg::Plain(owned("-a")),
                    Arg::Plain(app.clone()),
                    Arg::Plain(owned("--")),
                    Arg::Plain(owned(file)),
                ],
                Target::Default => vec![Arg::Plain(owned("--")), Arg::Plain(owned(file))],
                Target::Terminal => vec![
                    Arg::Plain(owned("-a")),
                    Arg::Plain(owned("Terminal")),
                    Arg::Plain(owned("--")),
                    Arg::Plain(owned(folder)),
                ],
                Target::Folder => vec![
                    Arg::Plain(owned("-R")),
                    Arg::Plain(owned("--")),
                    Arg::Plain(owned(file)),
                ],
            };
            (owned("/usr/bin/open"), args, false)
        },
        Desktop::Windows => match target {
            Target::Application(app) => (app.clone(), vec![Arg::Plain(owned(file))], true),
            Target::Folder => {
                let mut raw: Vec<char> = Vec::new();
                push_str(&mut raw, "/select,\"");
                push_str(&mut raw, file);
                push_str(&mut raw, "\"");
                (owned("explorer.exe"), vec![Arg::Raw(string_of(&raw))], true)
            },
            Target::Default => (owned("explorer.exe"), vec![Arg::Plain(owned(file))], true),
            Target::Terminal => (owned("explorer.exe"), vec![Arg::Plain(owned(folder))], true),
        },
        Desktop::Other => match target {
            Target::Application(app) => (app.clone(), vec![Arg::Plain(owned(file))], false),
            Target::Folder => (owned("xdg-open"), vec![Arg::Plain(owned(folder))], false),
            Target::Default => (owned("xdg-open"), vec![Arg::Plain(owned(file))], false),
            Target::Terminal => (owned("xdg-open"), vec![Arg::Plain(owned(folder))], false),
        },
    };
    let c = CommandLine { program, args, no_window };
    assert(command_view(c) =~= command_spec(file@, folder@, *target, desktop));
    c
}

/// The folder a path is in: the path above it, or the path itself where
/// there is none.
pub open spec fn folder_spec(file: Seq<char>) -> Seq<char> {
    match parent_of(file) {
        Some(p) => p,
        None => file,
    }
}

/// The folder `file` is in, or `file` itself where it has no parent.
pub fn folder_of(file: &str) -> (f: String)
    ensures
        f@ == folder_spec(file@),
{
    match parent(file) {
        Some(p) => p,
        None => file.to_owned(),
    }
}

/// What opens `file` the way `target` says on `desktop`: the command the
/// caller runs.
pub fn open(file: &str, target: &Target, desktop: Desktop) -> (c: CommandLine)
    ensures
        command_view(c) == command_spec(file@, folder_spec(file@), *target, desktop),
{
    let folder = folder_of(file);
    command_for(file, folder.as_str(), target, desktop)
}

/// How a path is shown in the file manager: a directory opened, anything
/// else selected in its folder.
pub open spec fn shown_as(is_dir: bool) -> Target {
    if is_dir {
        Target::Default
    } else {
        Target::Folder
    }
}

/// How a path is shown in the file manager: a directory opened, anything
/// else selected in the folder it is in.
pub fn show_target(is_dir: bool) -> (t: Target)
    ensures
        is_dir ==> t is Default,
        !is_dir ==> t is Folder,
{
    if is_dir {
        Target::Default
    } else {
        Target::Folder
    }
}

/// Show `path` in the file manager on `desktop`; `is_dir` says whether it is
/// a directory, which is opened rather than selected in its folder.
pub fn show(path: &str, is_dir: bool, desktop: Desktop) -> (c: CommandLine)
    ensures
        command_view(c) == command_spec(path@, folder_spec(path@), shown_as(is_dir), desktop),
{
    let target = show_target(is_dir);
    open(path, &target, desktop)
}

/// Whether a spawned command is judged by how it exited. Explorer exits 1
/// having done what it was asked, so on Windows a command that started is
/// taken at its word.
pub fn waits_for_exit(desktop: Desktop) -> (b: bool)
    ensures
        b == (desktop != Desktop::Windows),
{
    match desktop {
        Desktop::Windows => false,
        _ => true,
    }
}

/// `s` without the newlines at its end.
pub open spec fn trim_newlines(s: Seq<char>) -> Seq<char>
    decreases s.len(),
{
    if s.len() > 0 && s.last() == '\n' {
        trim_newlines(s.drop_last())
    } else {
        s
    }
}

/// What std's `String::from_utf8_lossy` makes of some bytes: their UTF-8
/// text, each ill-formed sequence read as U+FFFD.
pub uninterp spec fn lossy_utf8(bytes: Seq<u8>) -> Seq<char>;

/// `bytes` read as UTF-8, each ill-formed sequence replaced.
///
/// Wraps std's `String::from_utf8_lossy`: a function of the bytes alone,
/// named, and for well-formed UTF-8 the very text the bytes spell.
#[verifier::external_body]
fn lossy(bytes: &Vec<u8>) -> (s: String)
    ensures
        s@ == lossy_utf8(bytes@),
        valid_utf8(bytes@) ==> s@ == decode_utf8(bytes@),
{
    String::from_utf8_lossy(bytes).into_owned()
}

/// What a finished command comes to, from how it exited and the bytes it
/// printed to its two streams: where it succeeded, its output as UTF-8, less
/// the newlines at the end, and an error where that output is not UTF-8;
/// where it failed, what it complained of, read leniently and trimmed.
pub fn output(success: bool, stdout: Vec<u8>, stderr: Vec<u8>) -> (r: Result<String, String>)
    ensures
        success && valid_utf8(stdout@) ==> (r matches Ok(out) && out@ == trim_newlines(
            decode_utf8(stdout@),
        )),
        success && !valid_utf8(stdout@) ==> r is Err,
        !success ==> (r matches Err(e) && e@ == trim_of(lossy_utf8(stderr@))),
{
    if !success {
        let complaint = lossy(&stderr);
        let chars = chars_of(complaint.as_str());
        let t = trim_chars(&chars);
        return Err(string_of(&t));
    }
    let text = match utf8_text(stdout) {
        Ok(text) => text,
        Err(e) => return Err(e),
    };
    let chars = chars_of(text.as_str());
    let mut n = chars.len();
    assert(chars@.take(n as int) =~= chars@);
    while n > 0 && chars[n - 1] == '\n'
        invariant
            n <= chars.len(),
            chars@ == text@,
            trim_newlines(chars@.take(n as int)) == trim_newlines(text@),
        decreases n,
    {
        assert(chars@.take(n as int).drop_last() =~= chars@.take(n - 1));
        n -= 1;
    }
    let mut kept: Vec<char> = Vec::new();
    let mut i: usize = 0;
    while i < n
        invariant
            i <= n <= chars.len(),
            kept@ == chars@.take(i as int),
        decreases n - i,
    {
        kept.push(chars[i]);
        i += 1;
        assert(kept@ =~= chars@.take(i as int));
    }
    Ok(string_of(&kept))
}

/// Opening a file hands the desktop the file itself, as the last argument,
/// never the folder it is in: with the default application and with a
/// chosen one, on every desktop.
pub proof fn lemma_opening_hands_over_the_file(
    file: Seq<char>,
    folder: Seq<char>,
    app: String,
    desktop: Desktop,
)
    ensures
        command_spec(file, folder, Target::Default, desktop).1.len() >= 1,
        command_spec(file, folder, Target::Default, desktop).1.last() == plain(file),
        command_spec(file, folder, Target::Application(app), desktop).1.len() >= 1,
        command_spec(file, folder, Target::Application(app), desktop).1.last() == plain(file),
{
}

} // verus!
