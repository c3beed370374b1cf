//! What came of running a command.

use crate::bytes::{decode_lossy, encoding_is_decoded, text_of_bytes};
use crate::text::{all_white, trim, trimmed, trimming_takes_what_is_blank, white_space};
use vstd::prelude::*;
use vstd::utf8::encode_utf8;

verus! {

/// What came of running a command.
#[derive(Debug)]
pub enum CommandOutcome {
    /// The program could not be run, for the reason given.
    NotStarted { reason: String },
    /// The program ran; `status` says in words how it ended.
    Exited { success: bool, status: String, stdout: Vec<u8>, stderr: Vec<u8> },
}

/// The text that a command printed, without white space around it.
pub open spec fn printed(output: Seq<u8>) -> Seq<char> {
    trimmed(text_of_bytes(output))
}

/// The text that a command printed, without white space around it.
pub fn printed_text(output: &[u8]) -> (text: String)
    ensures
        text@ == printed(output@),
{
    trim(decode_lossy(output).as_str())
}

/// What a command printed is read without the white space around it.
pub proof fn output_is_read_without_white_space(
    before: Seq<char>,
    text: Seq<char>,
    after: Seq<char>,
)
    requires
        all_white(before),
        all_white(after),
        text.len() > 0 ==> !white_space(text[0]) && !white_space(text.last()),
    ensures
        printed(encode_utf8(before + text + after)) == text,
{
    encoding_is_decoded(before + text + after);
    trimming_takes_what_is_blank(before, text, after);
}

} // verus!
