//! The command line: the commands and what an omitted one means.

use vstd::prelude::*;

use crate::integration::Shell;

verus! {

/// The parsed command line.
#[derive(Clone, Debug, PartialEq, Eq)]
pub struct Cli {
    pub command: Option<Command>,
}

/// A command.
#[derive(Clone, Debug, PartialEq, Eq)]
pub enum Command {
    /// Request a shell command; the default command.
    Ask { request: Vec<String> },
    /// Open the terminal request UI and print the suggested command.
    Exec,
    /// View or change the persistent provider/model selection.
    Model { command: Option<ModelCommand> },
    /// Open the command menu.
    Menu,
    /// Search previously submitted prompts and print the selected prompt.
    History,
    /// Print the path to the configuration file.
    ConfigPath,
    /// Create the configuration file.
    Install,
    /// Check the local installation and configuration.
    Doctor,
    /// Print shell integration code.
    Init { shell: Shell },
}

/// A `model` subcommand.
#[derive(Clone, Debug, PartialEq, Eq)]
pub enum ModelCommand {
    Show,
    List,
    Select,
    Use { selection: String },
}

impl Cli {
    /// The command to run: the one given, else `ask` with no words.
    pub fn chosen(self) -> (r: Command)
        ensures
            match self.command {
                Some(c) => r == c,
                None => r matches Command::Ask { request } && request@.len() == 0,
            },
    {
        match self.command {
            Some(c) => c,
            None => Command::Ask { request: Vec::new() },
        }
    }
}

impl ModelCommand {
    /// The `model` subcommand to run: the one given, else `show`.
    pub fn or_show(command: Option<ModelCommand>) -> (r: ModelCommand)
        ensures
            match command {
                Some(c) => r == c,
                None => r == ModelCommand::Show,
            },
    {
        match command {
            Some(c) => c,
            None => ModelCommand::Show,
        }
    }
}

} // verus!
