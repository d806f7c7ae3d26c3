//! The commands of the command line.
use vstd::prelude::*;
use crate::text::{remove_all, remove_all_spec, str_eq};

verus! {

/// A command of the command line.
#[derive(PartialEq, Eq, Structural, Clone, Copy, Debug)]
pub enum Command {
    Help,
    Init,
    Install,
    Purge,
    OpenData,
    Launch,
    SysInfo,
}

/// The command that a name (without its dashes) selects.
pub open spec fn command_named(name: Seq<char>) -> Option<Command> {
    if name == "help"@ {
        Some(Command::Help)
    } else if name == "init"@ {
        Some(Command::Init)
    } else if name == "install"@ {
        Some(Command::Install)
    } else if name == "purge"@ {
        Some(Command::Purge)
    } else if name == "opendata"@ {
        Some(Command::OpenData)
    } else if name == "launch"@ {
        Some(Command::Launch)
    } else if name == "sysinfo"@ {
        Some(Command::SysInfo)
    } else {
        None
    }
}

/// The name of a command on the command line (without its dashes).
pub open spec fn command_name(c: Command) -> Seq<char> {
    match c {
        Command::Help => "help"@,
        Command::Init => "init"@,
        Command::Install => "install"@,
        Command::Purge => "purge"@,
        Command::OpenData => "opendata"@,
        Command::Launch => "launch"@,
        Command::SysInfo => "sysinfo"@,
    }
}

/// The command that the first argument selects, once its dashes are removed.
pub fn parse_command(argument: &str) -> (res: Option<Command>)
    ensures
        res == command_named(remove_all_spec(argument@, "--"@)),
{
    proof {
        reveal_strlit("--");
    }
    let name = remove_all(argument, "--");
    let n = name.as_str();
    if str_eq(n, "help") {
        Some(Command::Help)
    } else if str_eq(n, "init") {
        Some(Command::Init)
    } else if str_eq(n, "install") {
        Some(Command::Install)
    } else if str_eq(n, "purge") {
        Some(Command::Purge)
    } else if str_eq(n, "opendata") {
        Some(Command::OpenData)
    } else if str_eq(n, "launch") {
        Some(Command::Launch)
    } else if str_eq(n, "sysinfo") {
        Some(Command::SysInfo)
    } else {
        None
    }
}

/// Each command is selected by its own name and by no other: a name selects the command `c`
/// exactly when it is `c`'s name, so no two names select the same command.
pub proof fn each_name_selects_its_command(name: Seq<char>, c: Command)
    ensures
        command_named(name) == Some(c) <==> name == command_name(c),
{
    reveal_strlit("help");
    reveal_strlit("init");
    reveal_strlit("install");
    reveal_strlit("purge");
    reveal_strlit("opendata");
    reveal_strlit("launch");
    reveal_strlit("sysinfo");
    assert("help"@[0] != "init"@[0]);
    assert("install"@[0] != "sysinfo"@[0]);
    assert("help"@.len() != "install"@.len() && "help"@.len() != "purge"@.len() && "help"@.len() != "opendata"@.len() && "help"@.len() != "launch"@.len() && "help"@.len() != "sysinfo"@.len());
    assert("init"@.len() != "install"@.len() && "init"@.len() != "purge"@.len() && "init"@.len() != "opendata"@.len() && "init"@.len() != "launch"@.len() && "init"@.len() != "sysinfo"@.len());
    assert("install"@.len() != "purge"@.len() && "install"@.len() != "opendata"@.len() && "install"@.len() != "launch"@.len());
    assert("purge"@.len() != "opendata"@.len() && "purge"@.len() != "launch"@.len() && "purge"@.len() != "sysinfo"@.len());
    assert("opendata"@.len() != "launch"@.len() && "opendata"@.len() != "sysinfo"@.len());
    assert("launch"@.len() != "sysinfo"@.len());
}

/// Two arguments that select the same command name it alike once their dashes are removed.
pub proof fn commands_are_named_apart(a: Seq<char>, b: Seq<char>)
    requires
        command_named(a) is Some,
        command_named(a) == command_named(b),
    ensures
        a == b,
{
    let c = command_named(a).unwrap();
    each_name_selects_its_command(a, c);
    each_name_selects_its_command(b, c);
}

} // verus!
