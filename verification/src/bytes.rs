//! From bytes to text.

use vstd::prelude::*;
use vstd::utf8::*;

verus! {

/// The text that `String::from_utf8_lossy` makes of bytes that are not valid
/// UTF-8.
pub uninterp spec fn lossy_text(bytes: Seq<u8>) -> Seq<char>;

/// The text of some bytes: the characters that they encode where they are
/// valid UTF-8, else the text in which replacement characters stand for what
/// is not valid.
pub open spec fn text_of_bytes(bytes: Seq<u8>) -> Seq<char> {
    if valid_utf8(bytes) {
        decode_utf8(bytes)
    } else {
        lossy_text(bytes)
    }
}

/// `String::from_utf8_lossy`: decodes valid UTF-8. Of other bytes nothing is
/// said but that the text depends on them alone.
#[verifier::external_body]
pub(crate) fn decode_lossy(bytes: &[u8]) -> (text: String)
    ensures
        text@ == text_of_bytes(bytes@),
        !valid_utf8(bytes@) ==> text@ == lossy_text(bytes@),
{
    String::from_utf8_lossy(bytes).to_string()
}

/// The text that the `Debug` implementation of `str` makes of a text that
/// holds other characters than those of [`is_plain`].
pub uninterp spec fn debug_text(text: Seq<char>) -> Seq<char>;

/// Whether a text consists of ASCII letters, digits, hyphens, underscores,
/// slashes and dots.
pub open spec fn is_plain(text: Seq<char>) -> bool {
    forall|i: int|
        0 <= i < text.len() ==> {
            let c = #[trigger] text[i];
            ||| 'a' <= c <= 'z'
            ||| 'A' <= c <= 'Z'
            ||| '0' <= c <= '9'
            ||| c == '-'
            ||| c == '_'
            ||| c == '/'
            ||| c == '.'
        }
}

/// A text in double quotes, with what is not plain escaped.
pub open spec fn debug_quoted(text: Seq<char>) -> Seq<char> {
    if is_plain(text) {
        "\""@ + text + "\""@
    } else {
        debug_text(text)
    }
}

/// The `Debug` implementation of `str`: puts a plain text in double quotes as
/// it is. Of other texts nothing is said but that the result depends on the
/// text alone.
#[verifier::external_body]
pub(crate) fn quote_debug(text: &str) -> (quoted: String)
    ensures
        quoted@ == debug_quoted(text@),
        !is_plain(text@) ==> quoted@ == debug_text(text@),
{
    format!("{:?}", text)
}

/// The bytes of a text decode to that text.
pub proof fn encoding_is_decoded(text: Seq<char>)
    ensures
        text_of_bytes(encode_utf8(text)) == text,
{
    encode_utf8_valid_utf8(text);
    encode_utf8_decode_utf8(text);
}

} // verus!
