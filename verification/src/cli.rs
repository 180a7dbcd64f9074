//! The actions of the `ivm` command line, and the exit code of each.

use vstd::prelude::*;
use vstd::string::StringExecFns;

verus! {

/// What the first argument of the command line asks for.
#[derive(Clone, Copy, Debug, PartialEq, Eq, Structural)]
pub enum CliAction {
    /// `usage`: show how the command is called.
    Usage,
    /// `version`: show the installed version.
    Version,
    /// `help`: show every action.
    Help,
    /// `compile` or `--compile`: refused, the compiler is a program of its own.
    Compile,
    /// Anything else.
    Unknown,
}

/// The action that a word of the command line names.
pub open spec fn action_of(word: Seq<char>) -> CliAction {
    if word == "usage"@ {
        CliAction::Usage
    } else if word == "version"@ {
        CliAction::Version
    } else if word == "help"@ {
        CliAction::Help
    } else if word == "compile"@ || word == "--compile"@ {
        CliAction::Compile
    } else {
        CliAction::Unknown
    }
}

impl CliAction {
    /// The exit code of this action as a number: 0 where the action is
    /// served, 1 where it is refused or unknown.
    pub open spec fn code(&self) -> i32 {
        match self {
            CliAction::Usage | CliAction::Version | CliAction::Help => 0,
            CliAction::Compile | CliAction::Unknown => 1,
        }
    }

    /// Tell which action a word of the command line names.
    pub fn parse(word: &str) -> (action: CliAction)
        ensures
            action == action_of(word@),
    {
        let word = String::from_str(word);
        if word == String::from_str("usage") {
            CliAction::Usage
        } else if word == String::from_str("version") {
            CliAction::Version
        } else if word == String::from_str("help") {
            CliAction::Help
        } else if word == String::from_str("compile") || word == String::from_str("--compile") {
            CliAction::Compile
        } else {
            CliAction::Unknown
        }
    }

    /// The exit code of the process after this action.
    pub fn exit_code(&self) -> (code: i32)
        ensures
            code == self.code(),
    {
        match self {
            CliAction::Usage | CliAction::Version | CliAction::Help => 0,
            CliAction::Compile | CliAction::Unknown => 1,
        }
    }
}

} // verus!
