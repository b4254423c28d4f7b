//! Command-line arguments: run the game, or print help or the version.
use vstd::prelude::*;
use vstd::string::*;
use crate::strings::same_text;

verus! {

/// What the program does on start.
#[derive(Debug, Clone, Copy, PartialEq, Eq, Structural)]
pub enum StartupAction {
    Run,
    Help,
    Version,
}

/// An argument the program does not accept.
#[derive(Debug, Clone, PartialEq, Eq)]
pub struct ParseError {
    pub argument: String,
}

/// Whether an argument asks for help.
pub open spec fn help_flag(argument: Seq<char>) -> bool {
    argument == "-h"@ || argument == "--help"@
}

/// Whether an argument asks for the version.
pub open spec fn version_flag(argument: Seq<char>) -> bool {
    argument == "-v"@ || argument == "--version"@
}

/// What the arguments (after the program name) ask for: nothing means run;
/// one help or version flag alone means that; anything else is refused,
/// naming the first argument that is not accepted.
pub open spec fn startup_outcome(arguments: Seq<String>, r: Result<StartupAction, ParseError>) -> bool {
    if arguments.len() == 0 {
        r == Ok::<StartupAction, ParseError>(StartupAction::Run)
    } else {
        let first = arguments[0]@;
        if !help_flag(first) && !version_flag(first) {
            r matches Err(e) && e.argument@ == first
        } else if arguments.len() > 1 {
            r matches Err(e) && e.argument@ == arguments[1]@
        } else if help_flag(first) {
            r == Ok::<StartupAction, ParseError>(StartupAction::Help)
        } else {
            r == Ok::<StartupAction, ParseError>(StartupAction::Version)
        }
    }
}

/// The message shown for a refused argument.
pub open spec fn parse_error_text(e: ParseError) -> Seq<char> {
    "unexpected argument '"@ + e.argument@ + "'"@
}

impl ParseError {
    /// The message shown for this error.
    pub fn message(&self) -> (text: String)
        ensures
            text@ == parse_error_text(*self),
    {
        let mut text = String::from_str("unexpected argument '");
        text.append(self.argument.as_str());
        text.append("'");
        text
    }
}

/// Reads the command-line arguments that follow the program name.
pub fn parse(arguments: &Vec<String>) -> (result: Result<StartupAction, ParseError>)
    ensures
        startup_outcome(arguments@, result),
{
    if arguments.len() == 0 {
        return Ok(StartupAction::Run);
    }
    let first = arguments[0].as_str();
    let action = if same_text(first, "-h") || same_text(first, "--help") {
        StartupAction::Help
    } else if same_text(first, "-v") || same_text(first, "--version") {
        StartupAction::Version
    } else {
        return Err(ParseError { argument: arguments[0].clone() });
    };
    if arguments.len() > 1 {
        return Err(ParseError { argument: arguments[1].clone() });
    }
    Ok(action)
}

} // verus!
