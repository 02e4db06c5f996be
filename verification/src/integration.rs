//! Shell integration: the code each supported shell sources to bind the
//! launch key to a session.

use vstd::prelude::*;

pub mod bash;
pub mod fish;
pub mod nushell;
pub mod zsh;

verus! {

/// A shell that the integration supports.
#[derive(Clone, Copy, Debug, PartialEq, Eq)]
pub enum Shell {
    Bash,
    Zsh,
    Fish,
    Nu,
}

/// The integration code for `shell`, bound to `launch_key`.
pub fn source(shell: Shell, launch_key: &str) -> (r: String)
    ensures
        r@ == match shell {
            Shell::Bash => bash::script(launch_key@),
            Shell::Zsh => zsh::script(launch_key@),
            Shell::Fish => fish::script(launch_key@),
            Shell::Nu => nushell::bindings(launch_key@, nushell::debug_text(launch_key@)),
        },
{
    match shell {
        Shell::Bash => bash::source(launch_key),
        Shell::Zsh => zsh::source(launch_key),
        Shell::Fish => fish::source(launch_key),
        Shell::Nu => nushell::source(launch_key),
    }
}

} // verus!
