//! Where the configuration, state, log and prompt history live.

use vstd::prelude::*;

use crate::session::opt_str;
use crate::text::{chars_of, concat_str, push_char};

verus! {

/// The configuration file's name.
pub const CONFIG_FILE: &'static str = "config.toml";

/// The stored selection's file name.
pub const STATE_FILE: &'static str = "state.toml";

/// The log file's name.
pub const LOG_FILE: &'static str = "shell-ai.log";

/// The prompt history's file name.
pub const PROMPT_HISTORY_FILE: &'static str = "prompts.history";

/// `part` joined onto `base` as a path: an absolute `part` replaces
/// `base`; otherwise a `/` separates them unless `base` is empty or already
/// ends with one (as `PathBuf::push` on Unix).
pub open spec fn joined(base: Seq<char>, part: Seq<char>) -> Seq<char> {
    if part.len() > 0 && part[0] == '/' {
        part
    } else if base.len() == 0 || base.last() == '/' {
        base + part
    } else {
        base + seq!['/'] + part
    }
}

/// `part` joined onto `base` as a path.
pub fn join_path(base: &str, part: &str) -> (r: String)
    ensures
        r@ == joined(base@, part@),
{
    let p = chars_of(part);
    if p.len() > 0 && p[0] == '/' {
        return part.to_owned();
    }
    let b = chars_of(base);
    if b.len() == 0 || b[b.len() - 1] == '/' {
        concat_str(base, part)
    } else {
        let mut with_separator = base.to_owned();
        push_char(&mut with_separator, '/');
        concat_str(with_separator.as_str(), part)
    }
}

/// The configuration file under the XDG configuration directory, or under
/// `~/.config` when none is set.
pub open spec fn config_path_text(xdg_config_home: Option<Seq<char>>, home: Seq<char>) -> Seq<char> {
    let base = match xdg_config_home {
        Some(d) => d,
        None => joined(home, ".config"@),
    };
    joined(joined(base, "shell-ai"@), CONFIG_FILE@)
}

/// The state directory under the XDG state directory, or under
/// `~/.local/state` when none is set.
pub open spec fn state_directory_text(xdg_state_home: Option<Seq<char>>, home: Seq<char>) -> Seq<char> {
    let base = match xdg_state_home {
        Some(d) => d,
        None => joined(joined(home, ".local"@), "state"@),
    };
    joined(base, "shell-ai"@)
}

/// The configuration file: `shell-ai/config.toml` under `xdg_config_home`,
/// or under `home/.config` when that is not set.
pub fn xdg_config_path(xdg_config_home: Option<&str>, home: &str) -> (r: String)
    ensures
        r@ == config_path_text(
            match xdg_config_home {
                Some(d) => Some(d@),
                None => None,
            },
            home@,
        ),
{
    let base = match xdg_config_home {
        Some(d) => d.to_owned(),
        None => join_path(home, ".config"),
    };
    let directory = join_path(base.as_str(), "shell-ai");
    join_path(directory.as_str(), CONFIG_FILE)
}

/// The state directory: `shell-ai` under `xdg_state_home`, or under
/// `home/.local/state` when that is not set.
pub fn xdg_state_directory(xdg_state_home: Option<&str>, home: &str) -> (r: String)
    ensures
        r@ == state_directory_text(
            match xdg_state_home {
                Some(d) => Some(d@),
                None => None,
            },
            home@,
        ),
{
    let base = match xdg_state_home {
        Some(d) => d.to_owned(),
        None => {
            let local = join_path(home, ".local");
            join_path(local.as_str(), "state")
        },
    };
    join_path(base.as_str(), "shell-ai")
}

/// The files the program reads and writes.
#[derive(Clone, Debug, PartialEq, Eq)]
pub struct Paths {
    pub config: String,
    pub state: String,
    pub log: String,
    pub prompt_history: String,
}

/// Why the paths could not be decided.
#[derive(Clone, Copy, Debug, PartialEq, Eq)]
pub enum PathsError {
    /// No home directory is known.
    NoHome,
}

impl PathsError {
    /// The message shown for this error.
    pub fn message(&self) -> (r: String)
        ensures
            r@ == "could not determine home directory"@,
    {
        "could not determine home directory".to_owned()
    }
}

impl Paths {
    /// The paths, given the home directory (if one is known) and the
    /// values of `SHELL_AI_CONFIG`, `XDG_CONFIG_HOME` and `XDG_STATE_HOME`:
    /// the configuration file is `SHELL_AI_CONFIG` when set, else the XDG
    /// one; the state, log and prompt history sit in the state directory.
    pub fn new(
        home: Option<String>,
        config_override: Option<String>,
        xdg_config_home: Option<String>,
        xdg_state_home: Option<String>,
    ) -> (r: Result<Paths, PathsError>)
        ensures
            home is None ==> r is Err,
            home matches Some(h) ==> (r matches Ok(p) && p.config@ == match config_override {
                Some(c) => c@,
                None => config_path_text(opt_str(xdg_config_home), h@),
            } && p.state@ == joined(state_directory_text(opt_str(xdg_state_home), h@), STATE_FILE@)
                && p.log@ == joined(state_directory_text(opt_str(xdg_state_home), h@), LOG_FILE@)
                && p.prompt_history@ == joined(
                state_directory_text(opt_str(xdg_state_home), h@),
                PROMPT_HISTORY_FILE@,
            )),
    {
        let home = match home {
            Some(h) => h,
            None => {
                return Err(PathsError::NoHome);
            },
        };
        let config = match config_override {
            Some(c) => c,
            None => xdg_config_path(
                match &xdg_config_home {
                    Some(d) => Some(d.as_str()),
                    None => None,
                },
                home.as_str(),
            ),
        };
        let state_directory = xdg_state_directory(
            match &xdg_state_home {
                Some(d) => Some(d.as_str()),
                None => None,
            },
            home.as_str(),
        );
        Ok(
            Paths {
                config,
                state: join_path(state_directory.as_str(), STATE_FILE),
                log: join_path(state_directory.as_str(), LOG_FILE),
                prompt_history: join_path(state_directory.as_str(), PROMPT_HISTORY_FILE),
            },
        )
    }
}

/// Where the files live: the configuration is `shell-ai/config.toml` under
/// the XDG configuration directory when one is given, else under
/// `~/.config`; the state directory is `shell-ai` under the XDG state
/// directory when one is given, else under `~/.local/state`. A given XDG
/// directory wins over the home directory.
pub proof fn law_file_locations(home: Seq<char>, xdg: Seq<char>)
    requires
        home.len() > 0 && home.last() != '/',
        xdg.len() > 0 && xdg.last() != '/',
    ensures
        config_path_text(None, home) == home + "/.config/shell-ai/config.toml"@,
        config_path_text(Some(xdg), home) == xdg + "/shell-ai/config.toml"@,
        state_directory_text(None, home) == home + "/.local/state/shell-ai"@,
        state_directory_text(Some(xdg), home) == xdg + "/shell-ai"@,
{
    reveal_strlit(".config");
    reveal_strlit(".local");
    reveal_strlit("state");
    reveal_strlit("shell-ai");
    reveal_strlit("config.toml");
    reveal_strlit("/.config/shell-ai/config.toml");
    reveal_strlit("/shell-ai/config.toml");
    reveal_strlit("/.local/state/shell-ai");
    reveal_strlit("/shell-ai");
    let config_dir = joined(home, ".config"@);
    assert(config_dir == home + seq!['/'] + ".config"@);
    assert(config_dir.last() == 'g');
    let local = joined(home, ".local"@);
    assert(local.last() == 'l');
    let state = joined(local, "state"@);
    assert(state.last() == 'e');
    assert(joined(config_dir, "shell-ai"@).last() == 'i');
    assert(joined(xdg, "shell-ai"@).last() == 'i');
    assert(config_path_text(None, home) =~= home + "/.config/shell-ai/config.toml"@);
    assert(config_path_text(Some(xdg), home) =~= xdg + "/shell-ai/config.toml"@);
    assert(state_directory_text(None, home) =~= home + "/.local/state/shell-ai"@);
    assert(state_directory_text(Some(xdg), home) =~= xdg + "/shell-ai"@);
}

} // verus!
