//! Bash: a Readline binding of the launch key.

use vstd::prelude::*;

use crate::text::{concat_str, replace_all, replaced};

verus! {

/// The script, with the launch key and its binding still to fill in.
pub const TEMPLATE: &'static str = r#": "${SHELL_AI_BIN:=shell-ai}"
_shell_ai_launch_key=__SHELL_AI_LAUNCH_KEY__

_shell_ai_exec() {
  if [[ -n $READLINE_LINE ]]; then
    READLINE_LINE="${READLINE_LINE:0:READLINE_POINT}${_shell_ai_launch_key}${READLINE_LINE:READLINE_POINT}"
    ((READLINE_POINT += ${#_shell_ai_launch_key}))
    return
  fi

  local command exit_code
  command=$(SHELL_AI_SHELL=bash "$SHELL_AI_BIN" exec </dev/tty)
  exit_code=$?
  if (( exit_code == 0 )) && [[ -n $command ]]; then
    READLINE_LINE=$command
    READLINE_POINT=${#READLINE_LINE}
  fi
}

bind -x __SHELL_AI_BINDING__
"#;

/// `value` in single quotes, each quote in it closed, given in double
/// quotes and reopened.
pub open spec fn quoted(value: Seq<char>) -> Seq<char> {
    seq!['\''] + replaced(value, seq!['\''], "'\"'\"'"@) + seq!['\'']
}

/// The Readline key sequence for the launch key, backslash and double
/// quote escaped, bound to the session function.
pub open spec fn binding(launch_key: Seq<char>) -> Seq<char> {
    seq!['"'] + replaced(replaced(launch_key, seq!['\\'], seq!['\\', '\\']), seq!['"'], seq!['\\', '"'])
        + "\":_shell_ai_exec"@
}

/// The script for `launch_key`.
pub open spec fn script(launch_key: Seq<char>) -> Seq<char> {
    replaced(
        replaced(TEMPLATE@, "__SHELL_AI_LAUNCH_KEY__"@, quoted(launch_key)),
        "__SHELL_AI_BINDING__"@,
        quoted(binding(launch_key)),
    )
}

/// `value` quoted for the shell.
pub fn single_quote(value: &str) -> (r: String)
    ensures
        r@ == quoted(value@),
{
    proof {
        reveal_strlit("'");
    }
    let inner = replace_all(value, "'", "'\"'\"'");
    let opened = concat_str("'", inner.as_str());
    let r = concat_str(opened.as_str(), "'");
    assert("'"@ =~= seq!['\'']);
    r
}

/// The Bash integration script for `launch_key`.
pub fn source(launch_key: &str) -> (r: String)
    ensures
        r@ == script(launch_key@),
{
    proof {
        reveal_strlit("\\");
        reveal_strlit("\\\\");
        reveal_strlit("\"");
        reveal_strlit("\\\"");
        reveal_strlit("__SHELL_AI_LAUNCH_KEY__");
        reveal_strlit("__SHELL_AI_BINDING__");
    }
    let backslashes = replace_all(launch_key, "\\", "\\\\");
    let escaped = replace_all(backslashes.as_str(), "\"", "\\\"");
    let opened = concat_str("\"", escaped.as_str());
    let bound = concat_str(opened.as_str(), "\":_shell_ai_exec");
    assert("\\"@ =~= seq!['\\']);
    assert("\\\\"@ =~= seq!['\\', '\\']);
    assert("\""@ =~= seq!['"']);
    assert("\\\""@ =~= seq!['\\', '"']);
    assert(bound@ == binding(launch_key@));
    let key = single_quote(launch_key);
    let with_key = replace_all(TEMPLATE, "__SHELL_AI_LAUNCH_KEY__", key.as_str());
    let quoted_binding = single_quote(bound.as_str());
    replace_all(with_key.as_str(), "__SHELL_AI_BINDING__", quoted_binding.as_str())
}

} // verus!
