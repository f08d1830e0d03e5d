//! The command line: what the first arguments ask the program to do.

use vstd::prelude::*;
use crate::admin::arg_views;
use crate::text::str_eq;

verus! {

/// What the program is asked to do.
#[derive(Clone, Debug)]
pub enum Command {
    /// No argument: serve in the foreground.
    Serve,
    /// Show the help text.
    Help,
    /// Show the version.
    Version,
    /// Change one field of the configuration.
    Host { key: String, value: String },
    /// Write the default configuration anew.
    ConfigDefault,
    /// Check another configuration file and select it.
    ConfigFile { path: String },
    /// `--host` or `--config` with the wrong number of arguments.
    BadFormat,
    /// Start the server in the background.
    Start,
    /// Stop the server that runs in the background.
    Stop,
    /// Record the process id, then serve: what the background process is
    /// started with.
    Run,
    /// A WebDAV command; the arguments are handed on as they are.
    Webdav,
    /// Anything else.
    Unknown,
}

/// The mathematical content of a `Command`.
pub enum CommandSpec {
    Serve,
    Help,
    Version,
    Host { key: Seq<char>, value: Seq<char> },
    ConfigDefault,
    ConfigFile { path: Seq<char> },
    BadFormat,
    Start,
    Stop,
    Run,
    Webdav,
    Unknown,
}

impl View for Command {
    type V = CommandSpec;

    open spec fn view(&self) -> CommandSpec {
        match self {
            Command::Serve => CommandSpec::Serve,
            Command::Help => CommandSpec::Help,
            Command::Version => CommandSpec::Version,
            Command::Host { key, value } => CommandSpec::Host { key: key@, value: value@ },
            Command::ConfigDefault => CommandSpec::ConfigDefault,
            Command::ConfigFile { path } => CommandSpec::ConfigFile { path: path@ },
            Command::BadFormat => CommandSpec::BadFormat,
            Command::Start => CommandSpec::Start,
            Command::Stop => CommandSpec::Stop,
            Command::Run => CommandSpec::Run,
            Command::Webdav => CommandSpec::Webdav,
            Command::Unknown => CommandSpec::Unknown,
        }
    }
}

/// The command that the arguments name; the first argument is the name of
/// the program.
pub open spec fn command_of(args: Seq<Seq<char>>) -> CommandSpec {
    if args.len() <= 1 {
        CommandSpec::Serve
    } else if args[1] == "-h"@ || args[1] == "--help"@ {
        CommandSpec::Help
    } else if args[1] == "-v"@ || args[1] == "--version"@ {
        CommandSpec::Version
    } else if args[1] == "--host"@ {
        if args.len() == 4 {
            CommandSpec::Host { key: args[2], value: args[3] }
        } else {
            CommandSpec::BadFormat
        }
    } else if args[1] == "--config"@ {
        if args.len() != 3 {
            CommandSpec::BadFormat
        } else if args[2] == "default"@ {
            CommandSpec::ConfigDefault
        } else {
            CommandSpec::ConfigFile { path: args[2] }
        }
    } else if args[1] == "start"@ {
        CommandSpec::Start
    } else if args[1] == "stop"@ {
        CommandSpec::Stop
    } else if args[1] == "run"@ {
        CommandSpec::Run
    } else if args[1] == "--webdav"@ {
        CommandSpec::Webdav
    } else {
        CommandSpec::Unknown
    }
}

/// Whether the server is brought up after the command: without arguments
/// and for `run`. Every other command ends the program.
pub open spec fn serves(command: CommandSpec) -> bool {
    command is Serve || command is Run
}

/// Reads the command from the arguments of the program.
pub fn parse_command(args: &[String]) -> (command: Command)
    ensures
        command@ == command_of(arg_views(args@)),
{
    if args.len() <= 1 {
        return Command::Serve;
    }
    let first = args[1].as_str();
    assert(first@ == arg_views(args@)[1]);
    if str_eq(first, "-h") || str_eq(first, "--help") {
        Command::Help
    } else if str_eq(first, "-v") || str_eq(first, "--version") {
        Command::Version
    } else if str_eq(first, "--host") {
        if args.len() == 4 {
            assert(args@[2]@ == arg_views(args@)[2]);
            assert(args@[3]@ == arg_views(args@)[3]);
            Command::Host { key: args[2].clone(), value: args[3].clone() }
        } else {
            Command::BadFormat
        }
    } else if str_eq(first, "--config") {
        if args.len() != 3 {
            Command::BadFormat
        } else {
            assert(args@[2]@ == arg_views(args@)[2]);
            if str_eq(args[2].as_str(), "default") {
                Command::ConfigDefault
            } else {
                Command::ConfigFile { path: args[2].clone() }
            }
        }
    } else if str_eq(first, "start") {
        Command::Start
    } else if str_eq(first, "stop") {
        Command::Stop
    } else if str_eq(first, "run") {
        Command::Run
    } else if str_eq(first, "--webdav") {
        Command::Webdav
    } else {
        Command::Unknown
    }
}

/// Whether the server is brought up after `command`.
pub fn brings_up_server(command: &Command) -> (yes: bool)
    ensures
        yes == serves(command@),
{
    match command {
        Command::Serve | Command::Run => true,
        _ => false,
    }
}

} // verus!
