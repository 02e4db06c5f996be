//! Nushell: a keybinding record, as JSON, that runs a session on the
//! launch key.

use vstd::prelude::*;

use crate::json::{json_quoted, quote_json};
use crate::text::concat_str;

verus! {

/// What Rust's `Debug` formatting makes of a string: the text in double
/// quotes with escapes, as Nushell reads a string literal.
pub uninterp spec fn debug_text(text: Seq<char>) -> Seq<char>;

/// Formats `text` with `{:?}` (`<str as Debug>::fmt`).
#[verifier::external_body]
fn debug_quote(text: &str) -> (r: String)
    ensures
        r@ == debug_text(text@),
{
    format!("{text:?}")
}

/// The command that the binding runs, given the launch key as a Nushell
/// string literal: insert the key into a non-empty line, else run a
/// session and put its command on the line.
pub open spec fn command(quoted_key: Seq<char>) -> Seq<char> {
    "let buffer = commandline; if not ($buffer | is-empty) { commandline edit --insert "@
        + quoted_key
        + " } else { let shell_ai_bin = if \"SHELL_AI_BIN\" in $env { $env.SHELL_AI_BIN } else { \"shell-ai\" }; let result = (with-env { SHELL_AI_SHELL: \"nu\" } { do { ^$shell_ai_bin exec } } | complete); let command = $result.stdout | str trim --right; if $result.exit_code == 0 and not ($command | is-empty) { commandline edit --replace $command } }"@
}

/// The keybinding list: one record, members in key order, for the launch
/// key in the emacs and vi insert modes.
pub open spec fn bindings(launch_key: Seq<char>, quoted_key: Seq<char>) -> Seq<char> {
    "[{\"event\":{\"cmd\":"@ + json_quoted(command(quoted_key))
        + ",\"send\":\"executehostcommand\"},\"keycode\":"@ + json_quoted("char_"@ + launch_key)
        + ",\"mode\":[\"emacs\",\"vi_insert\"],\"modifier\":\"none\",\"name\":\"shell_ai_exec\"}]"@
}

/// The keybinding list for `launch_key`, whose Nushell literal is
/// `quoted_key`.
pub fn binding_record(launch_key: &str, quoted_key: &str) -> (r: String)
    ensures
        r@ == bindings(launch_key@, quoted_key@),
{
    let a = concat_str(
        "let buffer = commandline; if not ($buffer | is-empty) { commandline edit --insert ",
        quoted_key,
    );
    let cmd = concat_str(
        a.as_str(),
        " } else { let shell_ai_bin = if \"SHELL_AI_BIN\" in $env { $env.SHELL_AI_BIN } else { \"shell-ai\" }; let result = (with-env { SHELL_AI_SHELL: \"nu\" } { do { ^$shell_ai_bin exec } } | complete); let command = $result.stdout | str trim --right; if $result.exit_code == 0 and not ($command | is-empty) { commandline edit --replace $command } }",
    );
    let keycode = concat_str("char_", launch_key);
    let b = concat_str("[{\"event\":{\"cmd\":", quote_json(cmd.as_str()).as_str());
    let c = concat_str(b.as_str(), ",\"send\":\"executehostcommand\"},\"keycode\":");
    let d = concat_str(c.as_str(), quote_json(keycode.as_str()).as_str());
    concat_str(
        d.as_str(),
        ",\"mode\":[\"emacs\",\"vi_insert\"],\"modifier\":\"none\",\"name\":\"shell_ai_exec\"}]",
    )
}

/// The Nushell keybinding list for `launch_key`.
pub fn source(launch_key: &str) -> (r: String)
    ensures
        r@ == bindings(launch_key@, debug_text(launch_key@)),
{
    let quoted = debug_quote(launch_key);
    binding_record(launch_key, quoted.as_str())
}

} // verus!
