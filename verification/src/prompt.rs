//! Reading a yes/no answer to a question.

use vstd::prelude::*;
use crate::text::{chars_of, same_text, string_of, trim, trim_chars};
use crate::unicode::{lowercase_of, to_lowercase};

verus! {

/// What a line typed at a yes/no question means.
#[derive(PartialEq, Eq, Structural)]
pub enum Reply {
    /// The input ended: nothing was read.
    Eof,
    /// Yes, also given by an empty line.
    Yes,
    /// No.
    No,
    /// Anything else; the question is asked again.
    Invalid,
}

/// The meaning of `line`, read with `bytes_read` bytes: trimmed and lower-cased,
/// `y`, `yes` or nothing means yes, `n` or `no` means no.
pub open spec fn reply_to(line: Seq<char>, bytes_read: usize) -> Reply {
    let t = lowercase_of(trim(line));
    if bytes_read == 0 {
        Reply::Eof
    } else if t == "y"@ || t == "yes"@ || t == ""@ {
        Reply::Yes
    } else if t == "n"@ || t == "no"@ {
        Reply::No
    } else {
        Reply::Invalid
    }
}

/// The meaning of an answer `line` to a yes/no question, where reading it
/// took `bytes_read` bytes.
pub fn interpret_reply(line: &str, bytes_read: usize) -> (r: Reply)
    ensures
        r == reply_to(line@, bytes_read),
{
    if bytes_read == 0 {
        return Reply::Eof;
    }
    let trimmed = string_of(&trim_chars(&chars_of(line)));
    let t = to_lowercase(trimmed.as_str());
    let s = t.as_str();
    if same_text(s, "y") || same_text(s, "yes") || same_text(s, "") {
        Reply::Yes
    } else if same_text(s, "n") || same_text(s, "no") {
        Reply::No
    } else {
        Reply::Invalid
    }
}

} // verus!
