//! The content of a remote file as text.

use vstd::prelude::*;
use vstd::string::StringExecFns;
use vstd::utf8::{decode_utf8, valid_utf8};
use crate::error::CoreError;

verus! {

/// Turns bytes into a string with `String::from_utf8`: the decoded text
/// where the bytes are well-formed UTF-8, and nothing where they are not.
#[verifier::external_body]
fn utf8_text(bytes: Vec<u8>) -> (text: Option<String>)
    ensures
        match text {
            Some(t) => valid_utf8(bytes@) && t@ == decode_utf8(bytes@),
            None => !valid_utf8(bytes@),
        },
{
    String::from_utf8(bytes).ok()
}

/// What is reported where a file's bytes are no text.
pub open spec fn not_text_message() -> Seq<char> {
    "file content is not valid UTF-8 text"@
}

/// The text of a file that was read whole. Bytes that are not well-formed
/// UTF-8 are a protocol error: the file is no text file.
pub fn file_text(bytes: Vec<u8>) -> (result: Result<String, CoreError>)
    ensures
        match result {
            Ok(text) => valid_utf8(bytes@) && text@ == decode_utf8(bytes@),
            Err(CoreError::Protocol(message)) => !valid_utf8(bytes@) && message@
                == not_text_message(),
            Err(_) => false,
        },
{
    match utf8_text(bytes) {
        Some(text) => Ok(text),
        None => Err(CoreError::Protocol(String::from_str("file content is not valid UTF-8 text"))),
    }
}

} // verus!
