//! Runtime errors reported at a line of a script.
use vstd::prelude::*;
use crate::text::{decimal, push_char, push_decimal, push_str};

verus! {

/// A runtime failure reported at a line of the script.
pub struct ErrorMessage {
    pub line: i64,
    pub location: String,
    pub message: String,
}

pub enum Exception {
    RuntimeError(ErrorMessage),
}

impl Exception {
    /// Builds the failing result for a runtime error.
    pub fn runtime_error<T>(line: i64, location: String, message: String) -> (r: Result<T, Exception>)
        ensures
            r matches Err(Exception::RuntimeError(m)) && m.line == line && m.location == location
                && m.message == message,
    {
        Err(Exception::RuntimeError(ErrorMessage { line, location, message }))
    }
}

/// The text of a report: `[line <line>] Error<location>: <message>`.
pub open spec fn report_text(line: int, location: Seq<char>, message: Seq<char>) -> Seq<char> {
    seq!['[', 'l', 'i', 'n', 'e', ' '] + decimal(line) + seq![']', ' ', 'E', 'r', 'r', 'o', 'r']
        + location + seq![':', ' '] + message
}

impl ErrorMessage {
    /// The report line for this error, as it is printed to the user.
    pub fn report_line(&self) -> (r: String)
        ensures
            r@ == report_text(self.line as int, self.location@, self.message@),
    {
        let mut out = "[line ".to_owned();
        proof { reveal_strlit("[line "); }
        push_decimal(&mut out, self.line);
        push_str(&mut out, "] Error");
        proof { reveal_strlit("] Error"); }
        push_str(&mut out, self.location.as_str());
        push_char(&mut out, ':');
        push_char(&mut out, ' ');
        push_str(&mut out, self.message.as_str());
        out
    }
}

} // verus!
