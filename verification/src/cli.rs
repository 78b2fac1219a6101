//! The command line: which command the arguments ask for, and the errors it
//! reports.

use vstd::prelude::*;
use crate::text::{push_str, same_text, string_of};

verus! {

/// An error of the command line: a message for the user, or a failure below.
#[derive(Debug)]
pub enum CliError {
    Message(String),
    Io(crate::auth::IoError),
    Auth(crate::auth::AuthError),
    Storage(crate::storage::StorageError),
}

/// The text of a command-line error; `None` where it holds a JSON error.
pub open spec fn cli_error_text(e: CliError) -> Option<Seq<char>> {
    match e {
        CliError::Message(m) => Some(m@),
        CliError::Io(io) => Some(io.message@),
        CliError::Auth(a) => crate::auth::auth_error_text(a),
        CliError::Storage(s) => crate::storage::storage_error_text(s),
    }
}

impl CliError {
    /// The `Display` text of the error.
    pub fn message(&self) -> (res: String)
        ensures
            cli_error_text(*self) matches Some(t) ==> res@ == t,
    {
        match self {
            CliError::Message(m) => m.clone(),
            CliError::Io(io) => io.message.clone(),
            CliError::Auth(a) => a.message(),
            CliError::Storage(s) => s.message(),
        }
    }
}

/// What the arguments ask for.
#[derive(Debug)]
pub enum Command {
    Help,
    List,
    Login { device_auth: bool },
    InteractiveSwitch,
    Switch(String),
    Remove(String),
}

fn is(arg: &String, text: &str) -> (res: bool)
    ensures
        res == (arg@ == text@),
{
    same_text(arg.as_str(), text)
}

/// The message for `remove` without a selector.
pub open spec fn remove_needs_selector_text() -> Seq<char> {
    "`remove` requires a row number or exact email"@
}

/// The message for an unknown command.
pub open spec fn unknown_command_text(command: Seq<char>) -> Seq<char> {
    "unknown command `"@ + command + "`"@
}

/// `run`'s reading of the arguments (without the program name): no argument
/// or `help`, `--help`, `-h` alone ask for help; `list`; `login`, optionally
/// with `--device-auth`; `switch` alone or with a selector; `remove` with a
/// selector. Anything else is refused with a message.
pub fn parse_command(args: &Vec<String>) -> (res: Result<Command, CliError>)
    ensures
        args@.len() == 0 ==> res matches Ok(Command::Help),
        args@.len() == 1 ==> {
            let c = args@[0]@;
            if c == "help"@ || c == "--help"@ || c == "-h"@ {
                res matches Ok(Command::Help)
            } else if c == "list"@ {
                res matches Ok(Command::List)
            } else if c == "login"@ {
                res matches Ok(Command::Login { device_auth: false })
            } else if c == "switch"@ {
                res matches Ok(Command::InteractiveSwitch)
            } else if c == "remove"@ {
                res matches Err(CliError::Message(m)) && m@ == remove_needs_selector_text()
            } else {
                res matches Err(CliError::Message(m)) && m@ == unknown_command_text(c)
            }
        },
        args@.len() == 2 ==> {
            let c = args@[0]@;
            if c == "login"@ && args@[1]@ == "--device-auth"@ {
                res matches Ok(Command::Login { device_auth: true })
            } else if c == "switch"@ {
                res matches Ok(Command::Switch(s)) && s == args@[1]
            } else if c == "remove"@ {
                res matches Ok(Command::Remove(s)) && s == args@[1]
            } else {
                res matches Err(CliError::Message(m)) && m@ == unknown_command_text(c)
            }
        },
        args@.len() > 2 ==> (res matches Err(CliError::Message(m)) && m@ == unknown_command_text(
            args@[0]@,
        )),
{
    if args.len() == 0 {
        return Ok(Command::Help);
    }
    let command = &args[0];
    if args.len() == 1 {
        if is(command, "help") || is(command, "--help") || is(command, "-h") {
            return Ok(Command::Help);
        }
        if is(command, "list") {
            return Ok(Command::List);
        }
        if is(command, "login") {
            return Ok(Command::Login { device_auth: false });
        }
        if is(command, "switch") {
            return Ok(Command::InteractiveSwitch);
        }
        if is(command, "remove") {
            return Err(CliError::Message("`remove` requires a row number or exact email".to_owned()));
        }
    } else if args.len() == 2 {
        if is(command, "login") && is(&args[1], "--device-auth") {
            return Ok(Command::Login { device_auth: true });
        }
        if is(command, "switch") {
            return Ok(Command::Switch(args[1].clone()));
        }
        if is(command, "remove") {
            return Ok(Command::Remove(args[1].clone()));
        }
    }
    let mut out: Vec<char> = Vec::new();
    push_str(&mut out, "unknown command `");
    push_str(&mut out, command.as_str());
    push_str(&mut out, "`");
    Err(CliError::Message(string_of(&out)))
}

} // verus!
