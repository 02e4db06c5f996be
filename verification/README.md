# shell_ai

The verified core of a terminal assistant that turns a typed request into a
shell command: a request line editor, the request session as a state machine,
configuration and model selection rules, provider request and reply handling,
prompt history, path completion, the external editor command, long-line
wrapping and the shell integration scripts.

## Layout

- `src/` is the library. Every function in it is verified by Verus against
  its `requires`/`ensures`; laws that span several functions are public proof
  functions named `law_*`. Calls into outside crates (`url`, `serde_json`,
  `crossterm`, `unicode-width`, `shell-words`) and a few std functions go through small
  trusted wrappers whose doc comments say what is claimed of them.
- `tests/` runs the library on concrete inputs.
- `app/` is the program around the library: argument parsing, files, the
  terminal, the HTTP client, the pickers, and the loop that carries out what a
  session asks for.

Verify with `verus` on `src/lib.rs`; build and test with cargo.
