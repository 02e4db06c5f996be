//! Fish: a key binding of the launch key.

use vstd::prelude::*;

use crate::text::{concat_str, replace_all, replaced};

verus! {

/// The script, with the launch key still to fill in.
pub const TEMPLATE: &'static str = r#"set -q SHELL_AI_BIN; or set -g SHELL_AI_BIN shell-ai
set _shell_ai_launch_key __SHELL_AI_LAUNCH_KEY__

function _shell_ai_exec
  set -l buffer (commandline)
  if test -n "$buffer"
    commandline -i "$_shell_ai_launch_key"
    return
  end

  set -l command (SHELL_AI_SHELL=fish "$SHELL_AI_BIN" exec </dev/tty)
  set -l exit_code $status
  if test $exit_code -eq 0; and test -n "$command"
    commandline --replace -- "$command"
  end
  commandline -f repaint
end

bind "$_shell_ai_launch_key" _shell_ai_exec
bind -M insert "$_shell_ai_launch_key" _shell_ai_exec
"#;

/// `value` in single quotes, backslashes and quotes escaped by a backslash.
pub open spec fn quoted(value: Seq<char>) -> Seq<char> {
    seq!['\''] + replaced(replaced(value, seq!['\\'], seq!['\\', '\\']), seq!['\''], seq!['\\', '\''])
        + seq!['\'']
}

/// The script for `launch_key`.
pub open spec fn script(launch_key: Seq<char>) -> Seq<char> {
    replaced(TEMPLATE@, "__SHELL_AI_LAUNCH_KEY__"@, quoted(launch_key))
}

/// `value` quoted for Fish.
pub fn single_quote(value: &str) -> (r: String)
    ensures
        r@ == quoted(value@),
{
    proof {
        reveal_strlit("\\");
        reveal_strlit("\\\\");
        reveal_strlit("'");
        reveal_strlit("\\'");
    }
    let backslashes = replace_all(value, "\\", "\\\\");
    let inner = replace_all(backslashes.as_str(), "'", "\\'");
    let opened = concat_str("'", inner.as_str());
    assert("\\"@ =~= seq!['\\']);
    assert("\\\\"@ =~= seq!['\\', '\\']);
    assert("'"@ =~= seq!['\'']);
    assert("\\'"@ =~= seq!['\\', '\'']);
    concat_str(opened.as_str(), "'")
}

/// The Fish integration script for `launch_key`.
pub fn source(launch_key: &str) -> (r: String)
    ensures
        r@ == script(launch_key@),
{
    proof {
        reveal_strlit("__SHELL_AI_LAUNCH_KEY__");
    }
    let key = single_quote(launch_key);
    replace_all(TEMPLATE, "__SHELL_AI_LAUNCH_KEY__", key.as_str())
}

} // verus!
