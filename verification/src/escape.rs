//! Text that stands inside other text: markup, scripts and command lines.

use crate::text::{has_char, has_white_space, lemma_spelled_step, spelled, white_space};
use vstd::prelude::*;

verus! {

/// How the characters that mean something to a reader are written.
#[derive(Clone, Copy, Debug, Eq, PartialEq, Structural)]
pub enum Escape {
    /// With a backslash before a backslash and before a double quote.
    Backslash,
    /// With each double quote written twice.
    DoubledQuote,
    /// With entities for the characters that mark up HTML.
    Html,
    /// With entities for the characters that mark up XML.
    Xml,
}

/// How one character is written.
pub open spec fn escaped_char(escape: Escape, c: char) -> Seq<char> {
    match escape {
        Escape::Backslash => if c == '\\' {
            "\\\\"@
        } else if c == '"' {
            "\\\""@
        } else {
            seq![c]
        },
        Escape::DoubledQuote => if c == '"' {
            "\"\""@
        } else {
            seq![c]
        },
        Escape::Html | Escape::Xml => if c == '&' {
            "&amp;"@
        } else if c == '<' {
            "&lt;"@
        } else if c == '>' {
            "&gt;"@
        } else if c == '"' {
            "&quot;"@
        } else if c == '\'' && escape == Escape::Xml {
            "&apos;"@
        } else {
            seq![c]
        },
    }
}

/// How a text is written: each of its characters in turn.
pub open spec fn escaped(escape: Escape, text: Seq<char>) -> Seq<char> {
    spelled(text, |c: char| escaped_char(escape, c))
}

/// Writes one character.
fn push_escaped(escape: Escape, c: char, out: &mut String)
    ensures
        final(out)@ == old(out)@ + escaped_char(escape, c),
{
    match escape {
        Escape::Backslash => if c == '\\' {
            out.append("\\\\");
        } else if c == '"' {
            out.append("\\\"");
        } else {
            out.push(c);
            assert(out@ =~= old(out)@ + seq![c]);
        },
        Escape::DoubledQuote => if c == '"' {
            out.append("\"\"");
        } else {
            out.push(c);
            assert(out@ =~= old(out)@ + seq![c]);
        },
        Escape::Html | Escape::Xml => if c == '&' {
            out.append("&amp;");
        } else if c == '<' {
            out.append("&lt;");
        } else if c == '>' {
            out.append("&gt;");
        } else if c == '"' {
            out.append("&quot;");
        } else if c == '\'' && escape == Escape::Xml {
            out.append("&apos;");
        } else {
            out.push(c);
            assert(out@ =~= old(out)@ + seq![c]);
        },
    }
}

/// Writes a text.
fn escape_text(escape: Escape, text: &str) -> (out: String)
    ensures
        out@ == escaped(escape, text@),
{
    let ghost code = |c: char| escaped_char(escape, c);
    let mut out = String::new();
    assert(spelled(text@.take(0), code) =~= Seq::empty());
    for c in it: text.chars()
        invariant
            it.seq() == text@,
            code == (|c: char| escaped_char(escape, c)),
            out@ == spelled(text@.take(it.index()), code),
    {
        push_escaped(escape, c, &mut out);
        proof {
            lemma_spelled_step(text@, code, it.index());
        }
    }
    assert(text@.take(text@.len() as int) =~= text@);
    out
}

/// A text as it stands between the double quotes of an AppleScript string.
pub fn escape_applescript_text(text: &str) -> (out: String)
    ensures
        out@ == escaped(Escape::Backslash, text@),
{
    escape_text(Escape::Backslash, text)
}

/// A text as it stands in XML.
pub fn escape_xml(text: &str) -> (out: String)
    ensures
        out@ == escaped(Escape::Xml, text@),
{
    escape_text(Escape::Xml, text)
}

/// A text as it stands in HTML.
pub fn escape_html(text: &str) -> (out: String)
    ensures
        out@ == escaped(Escape::Html, text@),
{
    escape_text(Escape::Html, text)
}

/// Whether a text holds white space.
pub open spec fn holds_white_space(text: Seq<char>) -> bool {
    exists|i: int| 0 <= i < text.len() && white_space(#[trigger] text[i])
}

/// An argument of a command line of systemd: between double quotes if it
/// holds white space, a double quote or a backslash.
pub open spec fn systemd_arg(arg: Seq<char>) -> Seq<char> {
    if holds_white_space(arg) || arg.contains('"') || arg.contains('\\') {
        "\""@ + escaped(Escape::Backslash, arg) + "\""@
    } else {
        arg
    }
}

/// An argument of a command line of systemd.
pub fn quote_systemd_arg(arg: &str) -> (quoted: String)
    ensures
        quoted@ == systemd_arg(arg@),
{
    if has_white_space(arg) || has_char(arg, '"') || has_char(arg, '\\') {
        "\"".to_owned().concat(escape_text(Escape::Backslash, arg).as_str()).concat("\"")
    } else {
        arg.to_owned()
    }
}

/// An argument of a command line of Windows: between double quotes if it is
/// empty or holds white space or a double quote.
pub open spec fn windows_arg(arg: Seq<char>) -> Seq<char> {
    if arg.len() == 0 || holds_white_space(arg) || arg.contains('"') {
        "\""@ + escaped(Escape::DoubledQuote, arg) + "\""@
    } else {
        arg
    }
}

/// An argument of a command line of Windows.
pub fn quote_windows_arg(arg: &str) -> (quoted: String)
    ensures
        quoted@ == windows_arg(arg@),
{
    if arg.is_empty() {
        proof {
            reveal_strlit("\"\"");
            reveal_strlit("\"");
            assert("\"\""@ =~= "\""@ + escaped(Escape::DoubledQuote, arg@) + "\""@);
        }
        return "\"\"".to_owned();
    }
    if has_white_space(arg) || has_char(arg, '"') {
        "\"".to_owned().concat(escape_text(Escape::DoubledQuote, arg).as_str()).concat("\"")
    } else {
        arg.to_owned()
    }
}

/// Whether a character is written as it is.
pub open spec fn is_kept(escape: Escape, c: char) -> bool {
    match escape {
        Escape::Backslash => c != '\\' && c != '"',
        Escape::DoubledQuote => c != '"',
        Escape::Html => c != '&' && c != '<' && c != '>' && c != '"',
        Escape::Xml => c != '&' && c != '<' && c != '>' && c != '"' && c != '\'',
    }
}

/// A text of characters that are written as they are is written as it is.
pub proof fn kept_text_is_unchanged(escape: Escape, text: Seq<char>)
    requires
        forall|i: int| 0 <= i < text.len() ==> is_kept(escape, #[trigger] text[i]),
    ensures
        escaped(escape, text) == text,
    decreases text.len(),
{
    if text.len() > 0 {
        kept_text_is_unchanged(escape, text.drop_last());
        assert(is_kept(escape, text.last()));
        assert(text =~= text.drop_last() + seq![text.last()]);
    }
}

/// A character that marks up is written with none that marks up but the
/// ampersand.
proof fn lemma_markup_char(escape: Escape, c: char)
    requires
        escape == Escape::Html || escape == Escape::Xml,
    ensures
        forall|i: int|
            0 <= i < escaped_char(escape, c).len() ==> {
                let d = #[trigger] escaped_char(escape, c)[i];
                d == '&' || is_kept(escape, d)
            },
{
    reveal_strlit("&amp;");
    reveal_strlit("&lt;");
    reveal_strlit("&gt;");
    reveal_strlit("&quot;");
    reveal_strlit("&apos;");
}

/// No tag is opened or closed, and no quoted value ended, by a text that is
/// written as markup.
pub proof fn markup_is_inert(escape: Escape, text: Seq<char>)
    requires
        escape == Escape::Html || escape == Escape::Xml,
    ensures
        forall|i: int|
            0 <= i < escaped(escape, text).len() ==> {
                let d = #[trigger] escaped(escape, text)[i];
                d == '&' || is_kept(escape, d)
            },
    decreases text.len(),
{
    if text.len() > 0 {
        markup_is_inert(escape, text.drop_last());
        lemma_markup_char(escape, text.last());
        let head = escaped(escape, text.drop_last());
        let tail = escaped_char(escape, text.last());
        assert(escaped(escape, text) == head + tail);
        assert forall|i: int| 0 <= i < (head + tail).len() implies {
            let d = #[trigger] (head + tail)[i];
            d == '&' || is_kept(escape, d)
        } by {
            if i < head.len() {
                assert((head + tail)[i] == head[i]);
            } else {
                assert((head + tail)[i] == tail[i - head.len()]);
            }
        }
    }
}

/// The first character of a text is written first.
proof fn lemma_escaped_front(escape: Escape, text: Seq<char>)
    requires
        text.len() > 0,
    ensures
        escaped(escape, text) == escaped_char(escape, text[0]) + escaped(
            escape,
            text.drop_first(),
        ),
    decreases text.len(),
{
    let code = |c: char| escaped_char(escape, c);
    if text.len() == 1 {
        assert(text.drop_last() =~= Seq::empty());
        assert(text.drop_first() =~= Seq::empty());
        assert(spelled(text.drop_last(), code) =~= Seq::empty());
        assert(spelled(text.drop_first(), code) =~= Seq::empty());
        assert(escaped(escape, text) =~= escaped_char(escape, text[0]));
    } else {
        lemma_escaped_front(escape, text.drop_last());
        assert(text.drop_last().drop_first() =~= text.drop_first().drop_last());
        assert(text.drop_first().last() == text.last());
        assert(escaped(escape, text) =~= escaped_char(escape, text[0]) + (escaped(
            escape,
            text.drop_last().drop_first(),
        ) + escaped_char(escape, text.last())));
    }
}

/// Two characters are not written the same, and neither is the beginning of
/// how the other is written.
proof fn lemma_codes_differ(escape: Escape, a: char, b: char) -> (i: int)
    requires
        a != b,
    ensures
        0 <= i < escaped_char(escape, a).len(),
        i < escaped_char(escape, b).len(),
        escaped_char(escape, a)[i] != escaped_char(escape, b)[i],
{
    reveal_strlit("\\\\");
    reveal_strlit("\\\"");
    reveal_strlit("\"\"");
    reveal_strlit("&amp;");
    reveal_strlit("&lt;");
    reveal_strlit("&gt;");
    reveal_strlit("&quot;");
    reveal_strlit("&apos;");
    if is_kept(escape, a) || is_kept(escape, b) {
        0
    } else if (a == '&' && b == '\'') || (a == '\'' && b == '&') {
        2
    } else {
        1
    }
}

/// Two texts that are written the same are the same.
pub proof fn escaping_tells_apart(escape: Escape, a: Seq<char>, b: Seq<char>)
    requires
        escaped(escape, a) == escaped(escape, b),
    ensures
        a == b,
    decreases a.len() + b.len(),
{
    reveal_strlit("\\\\");
    reveal_strlit("\\\"");
    reveal_strlit("\"\"");
    reveal_strlit("&amp;");
    reveal_strlit("&lt;");
    reveal_strlit("&gt;");
    reveal_strlit("&quot;");
    reveal_strlit("&apos;");
    if a.len() == 0 || b.len() == 0 {
        let code = |c: char| escaped_char(escape, c);
        if a.len() > 0 {
            lemma_escaped_front(escape, a);
            assert(escaped_char(escape, a[0]).len() > 0);
            assert(spelled(b, code).len() == 0);
        }
        if b.len() > 0 {
            lemma_escaped_front(escape, b);
            assert(escaped_char(escape, b[0]).len() > 0);
            assert(spelled(a, code).len() == 0);
        }
        assert(a =~= b);
    } else {
        lemma_escaped_front(escape, a);
        lemma_escaped_front(escape, b);
        let whole = escaped(escape, a);
        let first = escaped_char(escape, a[0]);
        let second = escaped_char(escape, b[0]);
        if a[0] != b[0] {
            let i = lemma_codes_differ(escape, a[0], b[0]);
            assert(whole[i] == first[i]);
            assert(whole[i] == second[i]);
        }
        assert(whole.skip(first.len() as int) =~= escaped(escape, a.drop_first()));
        assert(whole.skip(first.len() as int) =~= escaped(escape, b.drop_first()));
        escaping_tells_apart(escape, a.drop_first(), b.drop_first());
        assert(a =~= seq![a[0]] + a.drop_first());
        assert(b =~= seq![b[0]] + b.drop_first());
    }
}

/// What stands between the quotes of two equal quoted texts is equal.
proof fn lemma_unquoted(a: Seq<char>, b: Seq<char>)
    requires
        "\""@ + a + "\""@ == "\""@ + b + "\""@,
    ensures
        a == b,
{
    reveal_strlit("\"");
    let whole = "\""@ + a + "\""@;
    assert(a =~= whole.subrange(1, whole.len() - 1));
    assert(b =~= whole.subrange(1, whole.len() - 1));
}

/// Two different arguments never look the same on a command line of systemd.
pub proof fn systemd_args_differ(a: Seq<char>, b: Seq<char>)
    requires
        systemd_arg(a) == systemd_arg(b),
    ensures
        a == b,
{
    reveal_strlit("\"");
    let quoted_a = holds_white_space(a) || a.contains('"') || a.contains('\\');
    let quoted_b = holds_white_space(b) || b.contains('"') || b.contains('\\');
    if quoted_a {
        assert(systemd_arg(a)[0] == '"');
    }
    if quoted_b {
        assert(systemd_arg(b)[0] == '"');
    }
    if quoted_a && quoted_b {
        lemma_unquoted(escaped(Escape::Backslash, a), escaped(Escape::Backslash, b));
        escaping_tells_apart(Escape::Backslash, a, b);
    }
}

/// Two different arguments never look the same on a command line of Windows.
pub proof fn windows_args_differ(a: Seq<char>, b: Seq<char>)
    requires
        windows_arg(a) == windows_arg(b),
    ensures
        a == b,
{
    reveal_strlit("\"");
    let quoted_a = a.len() == 0 || holds_white_space(a) || a.contains('"');
    let quoted_b = b.len() == 0 || holds_white_space(b) || b.contains('"');
    if quoted_a {
        assert(windows_arg(a)[0] == '"');
    }
    if quoted_b {
        assert(windows_arg(b)[0] == '"');
    }
    if quoted_a && quoted_b {
        lemma_unquoted(escaped(Escape::DoubledQuote, a), escaped(Escape::DoubledQuote, b));
        escaping_tells_apart(Escape::DoubledQuote, a, b);
    }
}

proof fn lemma_escaped_parts(escape: Escape, a: Seq<char>, b: Seq<char>)
    ensures
        escaped(escape, a + b) == escaped(escape, a) + escaped(escape, b),
    decreases b.len(),
{
    if b.len() == 0 {
        assert(a + b =~= a);
        assert(escaped(escape, b) =~= Seq::empty());
        assert(escaped(escape, a) =~= escaped(escape, a) + escaped(escape, b));
    } else {
        lemma_escaped_parts(escape, a, b.drop_last());
        assert((a + b).drop_last() =~= a + b.drop_last());
        assert((a + b).last() == b.last());
        assert(escaped(escape, a + b) =~= escaped(escape, a) + escaped(escape, b));
    }
}

proof fn lemma_escaped_one(escape: Escape, c: char)
    ensures
        escaped(escape, seq![c]) == escaped_char(escape, c),
{
    let code = |c: char| escaped_char(escape, c);
    assert(seq![c].drop_last() =~= Seq::empty());
    assert(spelled(Seq::<char>::empty(), code) =~= Seq::empty());
    assert(escaped(escape, seq![c]) =~= escaped_char(escape, c));
}

/// In markup an ampersand, the two angle brackets and a double quote are written
/// as their entities wherever they stand, and a single quote is in XML alone;
/// every other character is written as it is.
pub proof fn markup_has_its_entities(before: Seq<char>, c: char, after: Seq<char>)
    ensures
        ({
            let html = escaped(Escape::Html, before + seq![c] + after);
            let xml = escaped(Escape::Xml, before + seq![c] + after);
            let entity = if c == '&' {
                seq!['&', 'a', 'm', 'p', ';']
            } else if c == '<' {
                seq!['&', 'l', 't', ';']
            } else if c == '>' {
                seq!['&', 'g', 't', ';']
            } else if c == '"' {
                seq!['&', 'q', 'u', 'o', 't', ';']
            } else {
                seq![c]
            };
            &&& html == escaped(Escape::Html, before) + entity + escaped(Escape::Html, after)
            &&& c != '\'' ==> xml == escaped(Escape::Xml, before) + entity + escaped(
                Escape::Xml,
                after,
            )
            &&& c == '\'' ==> xml == escaped(Escape::Xml, before) + seq![
                '&',
                'a',
                'p',
                'o',
                's',
                ';',
            ] + escaped(Escape::Xml, after)
        }),
{
    reveal_strlit("&amp;");
    reveal_strlit("&lt;");
    reveal_strlit("&gt;");
    reveal_strlit("&quot;");
    reveal_strlit("&apos;");
    assert("&amp;"@ =~= seq!['&', 'a', 'm', 'p', ';']);
    assert("&lt;"@ =~= seq!['&', 'l', 't', ';']);
    assert("&gt;"@ =~= seq!['&', 'g', 't', ';']);
    assert("&quot;"@ =~= seq!['&', 'q', 'u', 'o', 't', ';']);
    assert("&apos;"@ =~= seq!['&', 'a', 'p', 'o', 's', ';']);
    lemma_escaped_parts(Escape::Html, before, seq![c]);
    lemma_escaped_parts(Escape::Html, before + seq![c], after);
    lemma_escaped_parts(Escape::Xml, before, seq![c]);
    lemma_escaped_parts(Escape::Xml, before + seq![c], after);
    lemma_escaped_one(Escape::Html, c);
    lemma_escaped_one(Escape::Xml, c);
}

/// Between double quotes a backslash stands before each backslash and each double
/// quote, or each double quote is written twice; every other character is written
/// as it is.
pub proof fn quotes_are_escaped(before: Seq<char>, c: char, after: Seq<char>)
    ensures
        ({
            let backslash = escaped(Escape::Backslash, before + seq![c] + after);
            let doubled = escaped(Escape::DoubledQuote, before + seq![c] + after);
            &&& backslash == escaped(Escape::Backslash, before) + (if c == '\\' || c == '"' {
                seq!['\\', c]
            } else {
                seq![c]
            }) + escaped(Escape::Backslash, after)
            &&& doubled == escaped(Escape::DoubledQuote, before) + (if c == '"' {
                seq!['"', '"']
            } else {
                seq![c]
            }) + escaped(Escape::DoubledQuote, after)
        }),
{
    reveal_strlit("\\\\");
    reveal_strlit("\\\"");
    reveal_strlit("\"\"");
    assert("\\\\"@ =~= seq!['\\', '\\']);
    assert("\\\""@ =~= seq!['\\', '"']);
    assert("\"\""@ =~= seq!['"', '"']);
    lemma_escaped_parts(Escape::Backslash, before, seq![c]);
    lemma_escaped_parts(Escape::Backslash, before + seq![c], after);
    lemma_escaped_parts(Escape::DoubledQuote, before, seq![c]);
    lemma_escaped_parts(Escape::DoubledQuote, before + seq![c], after);
    lemma_escaped_one(Escape::Backslash, c);
    lemma_escaped_one(Escape::DoubledQuote, c);
}

/// An argument stands between double quotes exactly where it would be read as
/// several or as something else without them, and as it is elsewhere.
pub proof fn arguments_are_quoted_where_needed(arg: Seq<char>)
    ensures
        (exists|i: int|
            0 <= i < arg.len() && (white_space(#[trigger] arg[i]) || arg[i] == '"' || arg[i]
                == '\\')) ==> systemd_arg(arg) == seq!['"'] + escaped(Escape::Backslash, arg)
            + seq!['"'],
        (forall|i: int|
            0 <= i < arg.len() ==> !white_space(#[trigger] arg[i]) && arg[i] != '"' && arg[i]
                != '\\') ==> systemd_arg(arg) == arg,
        arg.len() == 0 || (exists|i: int|
            0 <= i < arg.len() && (white_space(#[trigger] arg[i]) || arg[i] == '"'))
            ==> windows_arg(arg) == seq!['"'] + escaped(Escape::DoubledQuote, arg) + seq!['"'],
        arg.len() > 0 && (forall|i: int|
            0 <= i < arg.len() ==> !white_space(#[trigger] arg[i]) && arg[i] != '"')
            ==> windows_arg(arg) == arg,
{
    reveal_strlit("\"");
    assert("\""@ =~= seq!['"']);
    if exists|i: int|
        0 <= i < arg.len() && (white_space(#[trigger] arg[i]) || arg[i] == '"' || arg[i] == '\\') {
        let i = choose|i: int|
            0 <= i < arg.len() && (white_space(#[trigger] arg[i]) || arg[i] == '"' || arg[i]
                == '\\');
        assert(arg.contains(arg[i]));
    }
    if exists|i: int| 0 <= i < arg.len() && (white_space(#[trigger] arg[i]) || arg[i] == '"') {
        let i = choose|i: int|
            0 <= i < arg.len() && (white_space(#[trigger] arg[i]) || arg[i] == '"');
        assert(arg.contains(arg[i]));
    }
}

} // verus!
