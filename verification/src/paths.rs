//! Paths, as text.

use crate::config::option_text;
use crate::text::{prefixes_are_taken_off, same_text, strip_prefix, without_prefix};
use vstd::prelude::*;

verus! {

/// Whether a character divides the parts of a path, on Windows at least.
pub open spec fn may_divide(c: char) -> bool {
    c == '/' || c == '\\'
}

/// Whether a path starts with a drive on Windows, such as `C:`, or with what
/// is not told apart from one.
pub open spec fn may_have_drive(path: Seq<char>) -> bool {
    path.len() >= 2 && path[1] == ':'
}

/// Whether a path starts as those do that lead to another machine or to a
/// device on Windows, such as `\\server\share`.
pub open spec fn may_have_prefix(path: Seq<char>) -> bool {
    path.len() >= 2 && may_divide(path[0]) && may_divide(path[1])
}

/// Whether a path starts with `\\?\`, by which Windows takes the rest as it is,
/// or with slashes in the place of the backslashes.
pub open spec fn may_be_verbatim(path: Seq<char>) -> bool {
    path.len() >= 4 && may_have_prefix(path) && path[2] == '?' && may_divide(path[3])
}

/// Whether a path is relative on Unix and on Windows.
pub open spec fn is_relative(path: Seq<char>) -> bool {
    &&& !may_have_drive(path)
    &&& path.len() > 0 ==> !may_divide(path[0])
}

/// What `std::path::Path::join` makes of two paths, as far as it is the same
/// on Unix and on Windows. It puts the second below the first, with a separator
/// between them where there is none, if the second is relative; else the
/// second replaces the first or its end.
pub open spec fn is_joined(base: Seq<char>, tail: Seq<char>, path: Seq<char>) -> bool {
    !may_be_verbatim(base) || tail.len() == 0 ==> {
        &&& tail.is_suffix_of(path)
        &&& is_relative(tail) ==> if base.len() == 0 || base.last() == '/' {
            path == base + tail
        } else {
            ||| path == base + "/"@ + tail
            ||| base.last() != '\\' && path == base + "\\"@ + tail
            ||| (base.last() == '\\' || (base.len() == 2 && may_have_drive(base))) && path == base
                + tail
        }
    }
}

/// `std::path::Path::join`, as [`is_joined`] says. Which separator is put
/// between the two depends on the system, and so does whether one is needed
/// behind a backslash or a drive. Nothing is said of a path below one that
/// Windows takes as it is: there the path is rid of its `.` and `..` parts, and
/// elsewhere it is not.
#[verifier::external_body]
pub(crate) fn join_path(base: &str, tail: &str) -> (path: String)
    ensures
        is_joined(base@, tail@, path@),
{
    std::path::Path::new(base).join(tail).to_string_lossy().to_string()
}

/// The path without the slashes and the `.` parts at its end.
pub open spec fn without_blank_end(path: Seq<char>) -> Seq<char>
    decreases path.len(),
{
    if path.len() > 0 && path.last() == '/' {
        without_blank_end(path.drop_last())
    } else if path.len() >= 2 && path.last() == '.' && path[path.len() - 2] == '/' {
        without_blank_end(path.drop_last())
    } else {
        path
    }
}

/// What follows the last slash of a path.
pub open spec fn after_last_slash(path: Seq<char>) -> Seq<char>
    decreases path.len(),
{
    if path.len() == 0 || path.last() == '/' {
        Seq::empty()
    } else {
        after_last_slash(path.drop_last()).push(path.last())
    }
}

/// Whether what follows a part of a path adds nothing to it: separators, and
/// dots that stand alone behind one.
pub open spec fn is_blank(rest: Seq<char>) -> bool {
    &&& rest.len() > 0 ==> may_divide(rest[0])
    &&& forall|i: int|
        0 <= i < rest.len() ==> may_divide(#[trigger] rest[i]) || rest[i] == '.'
    &&& forall|i: int, j: int|
        0 <= i && j == i + 1 && j < rest.len() ==> may_divide(#[trigger] rest[i]) || may_divide(
            #[trigger] rest[j],
        )
}

/// Whether a name is the last part of a path on some system, from the given
/// place on: it follows a separator or a drive, or starts the path, and what
/// follows it adds nothing.
pub open spec fn is_last_part(path: Seq<char>, name: Seq<char>, start: int) -> bool {
    &&& 0 <= start <= path.len() - name.len()
    &&& path.subrange(start, start + name.len()) == name
    &&& name.len() > 0 && name != "."@ && name != ".."@
    &&& name.contains('/') ==> may_be_verbatim(path)
    &&& start > 0 ==> may_divide(path[start - 1]) || (start == 2 && may_have_drive(path))
    &&& is_blank(path.skip(start + name.len()))
}

/// What `std::path::Path::file_name` gives for a path, as far as it is the
/// same on Unix and on Windows. A name that it gives is the last part of the
/// path. Slashes and `.` parts at the end aside, it is what follows the last
/// slash, and there is none where the path has no part or its last part is
/// `..`.
pub open spec fn is_file_name(path: Seq<char>, name: Option<Seq<char>>) -> bool {
    let last = after_last_slash(without_blank_end(path));
    &&& name matches Some(name) ==> exists|start: int| is_last_part(path, name, start)
    &&& !may_have_prefix(path) ==> {
        &&& last.len() == 0 || last == "."@ || last == ".."@ ==> name is None
        &&& last.len() > 0 && last != "."@ && last != ".."@ && !last.contains('\\')
            && !may_have_drive(last) ==> name == Some(last)
    }
}

/// `std::path::Path::file_name`, as [`is_file_name`] says. Whether a backslash
/// divides a path and whether it starts with a drive, a machine or a device
/// depends on the system: where that matters, it is left open which part is the
/// last one and whether there is one.
#[verifier::external_body]
pub(crate) fn file_name(path: &str) -> (name: Option<String>)
    ensures
        is_file_name(path@, option_text(name)),
{
    std::path::Path::new(path).file_name().map(|name| name.to_string_lossy().to_string())
}

/// The home directory: the first of the two that is known.
pub fn home_dir_path(home: Option<String>, user_profile: Option<String>) -> (path: Option<String>)
    ensures
        path == if home is Some {
            home
        } else {
            user_profile
        },
{
    match home {
        Some(home) => Some(home),
        None => user_profile,
    }
}

/// Where a path with a tilde leads.
#[derive(Debug)]
pub enum TildeTarget {
    /// To the home directory.
    Home,
    /// To this place below the home directory.
    BelowHome(String),
    /// Where it says; there is no tilde to expand.
    Plain,
}

/// Where a path with a tilde leads.
pub fn tilde_target(path: &str) -> (target: TildeTarget)
    ensures
        match target {
            TildeTarget::Home => path@ == "~"@,
            TildeTarget::BelowHome(rest) => path@ != "~"@ && strip_prefix(path@, "~/"@) == Some(
                rest@,
            ),
            TildeTarget::Plain => path@ != "~"@ && strip_prefix(path@, "~/"@) is None,
        },
{
    if same_text(path, "~") {
        return TildeTarget::Home;
    }
    match without_prefix(path, "~/") {
        Some(rest) => TildeTarget::BelowHome(rest),
        None => TildeTarget::Plain,
    }
}

/// What an optional text says.
pub open spec fn option_str(text: Option<&str>) -> Option<Seq<char>> {
    match text {
        Some(text) => Some(text@),
        None => None,
    }
}

/// What the expansion of a tilde makes of a path: the home directory for a
/// tilde alone, a path below it for one that starts with a tilde and a slash,
/// and the path itself for any other, or where no home directory is known.
pub open spec fn is_expanded(
    path: Seq<char>,
    home: Option<Seq<char>>,
    expanded: Seq<char>,
) -> bool {
    match home {
        Some(home) => if path == "~"@ {
            expanded == home
        } else {
            match strip_prefix(path, "~/"@) {
                Some(rest) => is_joined(home, rest, expanded),
                None => expanded == path,
            }
        },
        None => expanded == path,
    }
}

/// The path with a tilde at its start expanded.
pub fn expand_tilde(path: &str, home: Option<&str>) -> (expanded: String)
    ensures
        is_expanded(path@, option_str(home), expanded@),
{
    match home {
        Some(home) => match tilde_target(path) {
            TildeTarget::Home => home.to_owned(),
            TildeTarget::BelowHome(rest) => join_path(home, rest.as_str()),
            TildeTarget::Plain => path.to_owned(),
        },
        None => path.to_owned(),
    }
}

/// A path below the home directory on Windows, for which another path stands
/// on other systems; where no home directory is known, a tilde stands for it.
pub open spec fn is_default_path(
    os: Seq<char>,
    home: Option<Seq<char>>,
    on_windows: Seq<char>,
    elsewhere: Seq<char>,
    path: Seq<char>,
) -> bool {
    if os == "windows"@ {
        match home {
            Some(home) => is_joined(home, on_windows, path),
            None => path == "~/"@ + on_windows,
        }
    } else {
        path == elsewhere
    }
}

/// A path below the home directory on Windows, and another elsewhere.
fn default_path(os: &str, home: Option<&str>, on_windows: &str, elsewhere: &str) -> (path: String)
    ensures
        is_default_path(os@, option_str(home), on_windows@, elsewhere@, path@),
{
    if same_text(os, "windows") {
        match home {
            Some(home) => join_path(home, on_windows),
            None => "~/".to_owned().concat(on_windows),
        }
    } else {
        elsewhere.to_owned()
    }
}

/// Where the log is written if the configuration does not say.
pub fn default_log_file_path(os: &str, home: Option<&str>) -> (path: String)
    ensures
        is_default_path(
            os@,
            option_str(home),
            "AppData/Local/repo-auto-puller/repo-auto-puller.log"@,
            "~/.local/state/repo-auto-puller/repo-auto-puller.log"@,
            path@,
        ),
{
    default_path(
        os,
        home,
        "AppData/Local/repo-auto-puller/repo-auto-puller.log",
        "~/.local/state/repo-auto-puller/repo-auto-puller.log",
    )
}

/// Where the last state is written if the configuration does not say.
pub fn default_state_file_path(os: &str, home: Option<&str>) -> (path: String)
    ensures
        is_default_path(
            os@,
            option_str(home),
            "AppData/Local/repo-auto-puller/status.json"@,
            "~/.local/state/repo-auto-puller/status.json"@,
            path@,
        ),
{
    default_path(
        os,
        home,
        "AppData/Local/repo-auto-puller/status.json",
        "~/.local/state/repo-auto-puller/status.json",
    )
}

/// Where the history is written if the configuration does not say.
pub fn default_history_file_path(os: &str, home: Option<&str>) -> (path: String)
    ensures
        is_default_path(
            os@,
            option_str(home),
            "AppData/Local/repo-auto-puller/history.jsonl"@,
            "~/.local/state/repo-auto-puller/history.jsonl"@,
            path@,
        ),
{
    default_path(
        os,
        home,
        "AppData/Local/repo-auto-puller/history.jsonl",
        "~/.local/state/repo-auto-puller/history.jsonl",
    )
}

/// Where the program is installed if nothing else is said.
pub fn default_binary_path(os: &str, home: Option<&str>) -> (path: String)
    ensures
        is_default_path(
            os@,
            option_str(home),
            "AppData/Local/repo-auto-puller/repo-auto-puller.exe"@,
            "~/.local/bin/repo-auto-puller"@,
            path@,
        ),
{
    default_path(
        os,
        home,
        "AppData/Local/repo-auto-puller/repo-auto-puller.exe",
        "~/.local/bin/repo-auto-puller",
    )
}

/// A tilde stands for the home directory at the start of a path, alone or with a
/// slash behind it, and nowhere else; where no home directory is known it is left
/// as it is.
pub proof fn tildes_stand_for_home(
    path: Seq<char>,
    home: Option<Seq<char>>,
    expanded: Seq<char>,
    rest: Seq<char>,
)
    requires
        is_expanded(path, home, expanded),
    ensures
        home is None ==> expanded == path,
        home matches Some(home) ==> {
            &&& path == seq!['~'] ==> expanded == home
            &&& path.len() == 0 || path[0] != '~' ==> expanded == path
            &&& path.len() > 1 && path[1] != '/' ==> expanded == path
            &&& path == seq!['~', '/'] + rest && is_relative(rest) && home.len() > 0
                && home.last() == '/' && !may_be_verbatim(home) ==> expanded == home + rest
            &&& path == seq!['~', '/'] + rest && is_relative(rest) && home.len() > 2
                && home.last() != '/' && home.last() != '\\' && !may_be_verbatim(home) ==> expanded
                == home + seq!['/'] + rest || expanded == home + seq!['\\'] + rest
        },
{
    reveal_strlit("~");
    reveal_strlit("~/");
    reveal_strlit("/");
    reveal_strlit("\\");
    assert("~"@ =~= seq!['~']);
    assert("~/"@ =~= seq!['~', '/']);
    assert("/"@ =~= seq!['/']);
    assert("\\"@ =~= seq!['\\']);
    prefixes_are_taken_off(path, "~/"@, rest);
    if "~/"@.is_prefix_of(path) {
        assert(path.subrange(0, 2)[0] == '~' && path.subrange(0, 2)[1] == '/');
        assert(path[0] == '~' && path[1] == '/');
    }
}

/// On Windows a default place is below the home directory, or below a tilde where
/// none is known; on every other system it is the other one.
pub proof fn default_places_depend_on_the_system(
    os: Seq<char>,
    home: Option<Seq<char>>,
    on_windows: Seq<char>,
    elsewhere: Seq<char>,
    path: Seq<char>,
)
    requires
        is_default_path(os, home, on_windows, elsewhere, path),
    ensures
        os != "windows"@ ==> path == elsewhere,
        os == "windows"@ && home is None ==> path == seq!['~', '/'] + on_windows,
        os == "windows"@ ==> (home matches Some(home) ==> (home.len() > 0 && home.last() == '/'
            && is_relative(on_windows) && !may_be_verbatim(home) ==> path == home + on_windows)),
{
    reveal_strlit("~/");
    assert("~/"@ =~= seq!['~', '/']);
}

} // verus!
