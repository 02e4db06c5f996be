//! Deciding a provider's API key from what its key source produced.

use vstd::prelude::*;
use vstd::utf8::*;

use crate::provider::with_cause;
use crate::text::{chars_of, concat_str, string_of, trim_chars, trimmed};
use crate::utf8::decode_text;

verus! {

/// Why no API key was found.
#[derive(Clone, Debug, PartialEq, Eq)]
pub enum KeyError {
    /// The variable could not be read, with the cause.
    Unreadable { variable: String, provider: String, cause: String },
    /// The variable is set but empty.
    EmptyVariable { variable: String, provider: String },
    /// The command names no program.
    EmptyCommand { provider: String },
    /// The command could not be run, with the cause.
    NotStarted { provider: String, cause: String },
    /// The command ended with a failure status.
    Failed { provider: String, status: String },
    /// The command's output is not UTF-8, with the cause.
    NotText { provider: String, cause: String },
    /// The command printed nothing but line ends.
    EmptyKey { provider: String },
}

impl KeyError {
    /// The message for this error.
    pub open spec fn text(&self) -> Seq<char> {
        match self {
            KeyError::Unreadable { variable, provider, cause } => with_cause(
                "read environment variable "@ + variable@ + " for provider "@ + provider@,
                cause@,
            ),
            KeyError::EmptyVariable { variable, provider } => "environment variable "@
                + variable@ + " is empty for provider "@ + provider@,
            KeyError::EmptyCommand { provider } => "api_key command is empty for provider "@
                + provider@,
            KeyError::NotStarted { provider, cause } => with_cause(
                "run api_key command for provider "@ + provider@,
                cause@,
            ),
            KeyError::Failed { provider, status } => "api_key command for provider "@
                + provider@ + " exited with "@ + status@,
            KeyError::NotText { provider, cause } => with_cause(
                "read api_key command output for provider "@ + provider@,
                cause@,
            ),
            KeyError::EmptyKey { provider } => "api_key command returned an empty key for provider "@
                + provider@,
        }
    }

    /// The message shown for this error.
    pub fn message(&self) -> (r: String)
        ensures
            r@ == self.text(),
    {
        match self {
            KeyError::Unreadable { variable, provider, cause } => {
                let a = concat_str("read environment variable ", variable.as_str());
                let b = concat_str(a.as_str(), " for provider ");
                let c = concat_str(b.as_str(), provider.as_str());
                crate::provider::append_cause(c.as_str(), cause.as_str())
            },
            KeyError::EmptyVariable { variable, provider } => {
                let a = concat_str("environment variable ", variable.as_str());
                let b = concat_str(a.as_str(), " is empty for provider ");
                concat_str(b.as_str(), provider.as_str())
            },
            KeyError::EmptyCommand { provider } => concat_str(
                "api_key command is empty for provider ",
                provider.as_str(),
            ),
            KeyError::NotStarted { provider, cause } => {
                let a = concat_str("run api_key command for provider ", provider.as_str());
                crate::provider::append_cause(a.as_str(), cause.as_str())
            },
            KeyError::Failed { provider, status } => {
                let a = concat_str("api_key command for provider ", provider.as_str());
                let b = concat_str(a.as_str(), " exited with ");
                concat_str(b.as_str(), status.as_str())
            },
            KeyError::NotText { provider, cause } => {
                let a = concat_str("read api_key command output for provider ", provider.as_str());
                crate::provider::append_cause(a.as_str(), cause.as_str())
            },
            KeyError::EmptyKey { provider } => concat_str(
                "api_key command returned an empty key for provider ",
                provider.as_str(),
            ),
        }
    }
}

/// The key from the environment variable `variable`, given what reading it
/// gave: its value, or why it could not be read. An empty value is no key.
pub fn environment_key(provider: &str, variable: &str, value: Result<String, String>) -> (r: Result<
    String,
    KeyError,
>)
    ensures
        match value {
            Ok(v) => if v@.len() > 0 {
                r matches Ok(k) && k@ == v@
            } else {
                r matches Err(KeyError::EmptyVariable { variable: n, provider: p }) && n@ == variable@
                    && p@ == provider@
            },
            Err(c) => r matches Err(KeyError::Unreadable { variable: n, provider: p, cause: c2 })
                && n@ == variable@ && p@ == provider@ && c2@ == c@,
        },
{
    match value {
        Ok(v) => {
            if chars_of(v.as_str()).len() > 0 {
                Ok(v)
            } else {
                Err(KeyError::EmptyVariable { variable: variable.to_owned(), provider: provider.to_owned() })
            }
        },
        Err(cause) => Err(
            KeyError::Unreadable { variable: variable.to_owned(), provider: provider.to_owned(), cause },
        ),
    }
}

/// A key command names a program: it has a first word that is not blank.
pub open spec fn names_program(arguments: Seq<Seq<char>>) -> bool {
    arguments.len() > 0 && trimmed(arguments[0]).len() > 0
}

/// Checks that the key command names a program before it is run.
pub fn check_key_command(provider: &str, arguments: &Vec<String>) -> (r: Result<(), KeyError>)
    ensures
        names_program(crate::text::strs(arguments@)) ==> r is Ok,
        !names_program(crate::text::strs(arguments@)) ==> (r matches Err(
            KeyError::EmptyCommand { provider: p },
        ) && p@ == provider@),
{
    proof {
        crate::session::lemma_strs(arguments@);
    }
    if arguments.len() == 0 {
        return Err(KeyError::EmptyCommand { provider: provider.to_owned() });
    }
    let program = chars_of(arguments[0].as_str());
    if trim_chars(&program).len() == 0 {
        return Err(KeyError::EmptyCommand { provider: provider.to_owned() });
    }
    Ok(())
}

/// How a key command ended.
#[derive(Clone, Debug, PartialEq, Eq)]
pub enum CommandOutcome {
    /// It could not be run, with the cause.
    NotStarted(String),
    /// It ran; whether its status is a success, the status as shown, and
    /// what it printed.
    Finished { success: bool, status: String, stdout: Vec<u8> },
}

/// `s` without the carriage returns and line feeds that end it.
pub open spec fn without_line_ends(s: Seq<char>) -> Seq<char>
    decreases s.len(),
{
    if s.len() > 0 && (s.last() == '\r' || s.last() == '\n') {
        without_line_ends(s.drop_last())
    } else {
        s
    }
}

fn strip_line_ends(s: &Vec<char>) -> (r: Vec<char>)
    ensures
        r@ == without_line_ends(s@),
{
    let mut end = s.len();
    assert(s@.take(end as int) =~= s@);
    while end > 0 && (s[end - 1] == '\r' || s[end - 1] == '\n')
        invariant
            end <= s@.len(),
            without_line_ends(s@) == without_line_ends(s@.take(end as int)),
        decreases end,
    {
        assert(s@.take(end as int).drop_last() =~= s@.take(end - 1));
        end = end - 1;
    }
    let mut r: Vec<char> = Vec::new();
    let mut i: usize = 0;
    while i < end
        invariant
            i <= end <= s@.len(),
            r@ == s@.take(i as int),
        decreases end - i,
    {
        r.push(s[i]);
        i = i + 1;
        assert(r@ =~= s@.take(i as int));
    }
    r
}

/// The key that a key command printed: its output, read as UTF-8, without
/// the line ends that end it; a failed run, a failure status, output that
/// is not UTF-8 or output of nothing but line ends gives no key.
pub fn command_key(provider: &str, outcome: CommandOutcome) -> (r: Result<String, KeyError>)
    ensures
        match outcome {
            CommandOutcome::NotStarted(c) => r matches Err(KeyError::NotStarted { provider: p, cause: c2 })
                && p@ == provider@ && c2@ == c@,
            CommandOutcome::Finished { success, status, stdout } => if !success {
                r matches Err(KeyError::Failed { provider: p, status: s }) && p@ == provider@ && s@
                    == status@
            } else if !valid_utf8(stdout@) {
                r matches Err(KeyError::NotText { provider: p, cause: _ }) && p@ == provider@
            } else if without_line_ends(decode_utf8(stdout@)).len() == 0 {
                r matches Err(KeyError::EmptyKey { provider: p }) && p@ == provider@
            } else {
                r matches Ok(k) && k@ == without_line_ends(decode_utf8(stdout@))
            },
        },
{
    match outcome {
        CommandOutcome::NotStarted(cause) => Err(
            KeyError::NotStarted { provider: provider.to_owned(), cause },
        ),
        CommandOutcome::Finished { success, status, stdout } => {
            if !success {
                return Err(KeyError::Failed { provider: provider.to_owned(), status });
            }
            match decode_text(stdout) {
                Err(cause) => Err(KeyError::NotText { provider: provider.to_owned(), cause }),
                Ok(text) => {
                    let key = strip_line_ends(&chars_of(text.as_str()));
                    if key.len() == 0 {
                        Err(KeyError::EmptyKey { provider: provider.to_owned() })
                    } else {
                        Ok(string_of(&key))
                    }
                },
            }
        },
    }
}

} // verus!
