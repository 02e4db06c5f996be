//! Zsh: a line-editor widget bound to the launch key.

use vstd::prelude::*;

use crate::text::replace_all;

verus! {

/// The script, with the launch key still to fill in.
pub const TEMPLATE: &'static str = r#": "${SHELL_AI_BIN:=shell-ai}"
_shell_ai_launch_key=__SHELL_AI_LAUNCH_KEY__

_shell_ai_exec() {
  if [[ -n $BUFFER && $BUFFER != "$_shell_ai_launch_key" ]]; then
    zle self-insert
    return
  fi

  local command exit_code
  command=$(SHELL_AI_SHELL=zsh "$SHELL_AI_BIN" exec </dev/tty)
  exit_code=$?
  if (( exit_code == 0 )) && [[ -n $command ]]; then
    LBUFFER=$command
  fi
  zle redisplay
}

zle -N _shell_ai_exec
bindkey -M main "$_shell_ai_launch_key" _shell_ai_exec
bindkey -M viins "$_shell_ai_launch_key" _shell_ai_exec
"#;

/// The script for `launch_key`.
pub open spec fn script(launch_key: Seq<char>) -> Seq<char> {
    crate::text::replaced(TEMPLATE@, "__SHELL_AI_LAUNCH_KEY__"@, super::bash::quoted(launch_key))
}

/// `value` quoted for the shell, as Bash quotes it.
pub fn single_quote(value: &str) -> (r: String)
    ensures
        r@ == super::bash::quoted(value@),
{
    super::bash::single_quote(value)
}

/// The Zsh integration script for `launch_key`.
pub fn source(launch_key: &str) -> (r: String)
    ensures
        r@ == script(launch_key@),
{
    proof {
        reveal_strlit("__SHELL_AI_LAUNCH_KEY__");
    }
    let key = single_quote(launch_key);
    replace_all(TEMPLATE, "__SHELL_AI_LAUNCH_KEY__", key.as_str())
}

} // verus!
