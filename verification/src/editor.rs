//! The external editor command: `EDITOR` split into a program and its
//! arguments as a shell would split it, with nothing evaluated.

use vstd::prelude::*;

use crate::text::{concat_str, strs};

verus! {

/// The words `shell_words::split` makes of `line`: split at unquoted white
/// space, with quotes and backslashes read as a POSIX shell reads them;
/// `None` when a quote is not closed. It depends on the line alone.
pub uninterp spec fn shell_split(line: Seq<char>) -> Option<Seq<Seq<char>>>;

/// Calls `shell_words::split`; its only error, `ParseError`, displays as
/// `missing closing quote`.
#[verifier::external_body]
fn split_words(line: &str) -> (r: Result<Vec<String>, String>)
    ensures
        match shell_split(line@) {
            Some(words) => r matches Ok(v) && strs(v@) == words,
            None => r matches Err(e) && e@ == "missing closing quote"@,
        },
{
    match shell_words::split(line) {
        Ok(words) => Ok(words),
        Err(error) => Err(error.to_string()),
    }
}

/// Why `EDITOR` gives no command.
#[derive(Clone, Debug, PartialEq, Eq)]
pub enum EditorError {
    /// A quote is not closed; the splitter's reason.
    InvalidQuoting(String),
    /// There is no word to run.
    Empty,
}

impl EditorError {
    /// The message for this error.
    pub open spec fn text(&self) -> Seq<char> {
        match self {
            EditorError::InvalidQuoting(detail) => "EDITOR has invalid quoting: "@ + detail@,
            EditorError::Empty => "EDITOR is empty"@,
        }
    }

    /// The message shown for this error.
    pub fn message(&self) -> (r: String)
        ensures
            r@ == self.text(),
    {
        match self {
            EditorError::InvalidQuoting(detail) => concat_str("EDITOR has invalid quoting: ", detail.as_str()),
            EditorError::Empty => "EDITOR is empty".to_owned(),
        }
    }
}

/// The program and arguments that `editor` (the value of `EDITOR`) names.
pub fn editor_command(editor: &str) -> (r: Result<Vec<String>, EditorError>)
    ensures
        match shell_split(editor@) {
            None => r matches Err(EditorError::InvalidQuoting(d)) && d@ == "missing closing quote"@,
            Some(words) => if words.len() == 0 {
                r == Err::<Vec<String>, EditorError>(EditorError::Empty)
            } else {
                r matches Ok(v) && strs(v@) == words
            },
        },
{
    match split_words(editor) {
        Err(detail) => Err(EditorError::InvalidQuoting(detail)),
        Ok(words) => {
            if words.len() == 0 {
                Err(EditorError::Empty)
            } else {
                Ok(words)
            }
        },
    }
}

} // verus!
