//! Lines of the log.

use vstd::prelude::*;

verus! {

/// A line of the log, without its end.
pub open spec fn line_of(
    timestamp: Seq<char>,
    level: Seq<char>,
    scope: Seq<char>,
    message: Seq<char>,
) -> Seq<char> {
    "["@ + timestamp + "] ["@ + level + "] ["@ + scope + "] "@ + message
}

/// A line of the log, without its end.
pub fn log_line(timestamp: &str, level: &str, scope: &str, message: &str) -> (line: String)
    ensures
        line@ == line_of(timestamp@, level@, scope@, message@),
{
    "[".to_owned().concat(timestamp).concat("] [").concat(level).concat("] [").concat(
        scope,
    ).concat("] ").concat(message)
}

/// A line of a log on one repository alone, without its end.
pub open spec fn short_line_of(
    timestamp: Seq<char>,
    level: Seq<char>,
    message: Seq<char>,
) -> Seq<char> {
    "["@ + timestamp + "] ["@ + level + "] "@ + message
}

/// A line of a log on one repository alone, without its end.
pub fn short_log_line(timestamp: &str, level: &str, message: &str) -> (line: String)
    ensures
        line@ == short_line_of(timestamp@, level@, message@),
{
    "[".to_owned().concat(timestamp).concat("] [").concat(level).concat("] ").concat(message)
}

/// The message that says what is watched; `interval` is in seconds, as
/// written.
pub fn watch_message(path: &str, interval: &str) -> (message: String)
    ensures
        message@ == "watching "@ + path@ + " every "@ + interval@ + "s"@,
{
    "watching ".to_owned().concat(path).concat(" every ").concat(interval).concat("s")
}

/// A line of the log begins with the time and the level, names the repository,
/// and ends with the message.
pub proof fn lines_say_when_and_what(
    timestamp: Seq<char>,
    level: Seq<char>,
    scope: Seq<char>,
    message: Seq<char>,
)
    ensures
        ("["@ + timestamp + "] ["@ + level + "] "@).is_prefix_of(
            line_of(timestamp, level, scope, message),
        ),
        ("["@ + timestamp + "] ["@ + level + "] "@).is_prefix_of(
            short_line_of(timestamp, level, message),
        ),
        ("["@ + scope + "] "@ + message).is_suffix_of(line_of(timestamp, level, scope, message)),
        message.is_suffix_of(short_line_of(timestamp, level, message)),
{
    reveal_strlit("[");
    reveal_strlit("] [");
    reveal_strlit("] ");
    let front = "["@ + timestamp + "] ["@ + level + "] "@;
    let line = line_of(timestamp, level, scope, message);
    let short = short_line_of(timestamp, level, message);
    let end = "["@ + scope + "] "@ + message;
    assert(front =~= line.subrange(0, front.len() as int));
    assert(front =~= short.subrange(0, front.len() as int));
    assert(end =~= line.subrange(line.len() - end.len(), line.len() as int));
    assert(message =~= short.subrange(short.len() - message.len(), short.len() as int));
}

} // verus!
