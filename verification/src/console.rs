//! The console of the proxy: lines that start with `mbh` are commands to the
//! proxy, every other line is passed on to the Bedrock server.
use vstd::prelude::*;
use crate::text::{
    chars_of, drop_trailing_whitespace, range_equals, skip_whitespace, starts_with,
    string_from_chars, trim,
};

verus! {

broadcast use vstd::string::group_string_axioms;

/// A command to the proxy.
#[derive(Debug, Clone, Copy, PartialEq, Eq, Structural)]
pub enum ConsoleCommand {
    Start,
    Stop,
    Exit,
    /// `help`, or anything that is not a command.
    Help,
}

/// A line read from the console.
#[derive(Debug)]
pub enum ConsoleInput {
    /// A command to the proxy.
    Command(ConsoleCommand),
    /// Text for the Bedrock server, with the line feed that ends it.
    Forward(String),
}

/// The prefix of a command.
pub open spec fn command_prefix() -> Seq<char> {
    seq!['m', 'b', 'h']
}

/// `s` without every leading repetition of `mbh` (`str::trim_start_matches`).
pub open spec fn strip_prefixes(s: Seq<char>) -> Seq<char>
    decreases s.len(),
{
    if starts_with(s, command_prefix()) {
        strip_prefixes(s.skip(3))
    } else {
        s
    }
}

/// The command that the argument `arg` names.
pub open spec fn command_named(arg: Seq<char>) -> ConsoleCommand {
    if arg == seq!['s', 't', 'a', 'r', 't'] {
        ConsoleCommand::Start
    } else if arg == seq!['s', 't', 'o', 'p'] {
        ConsoleCommand::Stop
    } else if arg == seq!['e', 'x', 'i', 't'] {
        ConsoleCommand::Exit
    } else {
        ConsoleCommand::Help
    }
}

/// A line is a command when it starts with `mbh`; its argument is what
/// follows the leading `mbh`s, trimmed.
pub open spec fn is_command_line(line: Seq<char>) -> bool {
    starts_with(line, command_prefix())
}

/// The command on a command line.
pub open spec fn command_of_line(line: Seq<char>) -> ConsoleCommand {
    command_named(trim(strip_prefixes(line)))
}

/// Reads a line typed at the console: a command where it starts with `mbh`,
/// else the text to pass on, with a line feed at its end.
pub fn parse_console_line(line: &str) -> (r: ConsoleInput)
    ensures
        is_command_line(line@) ==> r == ConsoleInput::Command(command_of_line(line@)),
        !is_command_line(line@) ==> (r matches ConsoleInput::Forward(s) && s@ == line@.push(
            '\n',
        )),
{
    let v = chars_of(line);
    let prefix = vec!['m', 'b', 'h'];
    assert(prefix@ =~= command_prefix());
    let n = v.len();
    assert(v@.subrange(0, n as int) =~= v@);
    if n < 3 || !range_equals(&v, 0, 3, &prefix) {
        assert(n >= 3 ==> v@.take(3) =~= v@.subrange(0, 3));
        let mut forwarded = v;
        forwarded.push('\n');
        return ConsoleInput::Forward(string_from_chars(forwarded.as_slice()));
    }
    assert(v@.take(3) =~= v@.subrange(0, 3));
    let mut start: usize = 0;
    while 3 <= n - start && range_equals(&v, start, start + 3, &prefix)
        invariant
            start <= n == v.len(),
            prefix@ == command_prefix(),
            strip_prefixes(v@.subrange(start as int, n as int)) == strip_prefixes(v@),
        decreases n - start,
    {
        let ghost rest = v@.subrange(start as int, n as int);
        assert(rest.take(3) =~= v@.subrange(start as int, start + 3));
        assert(rest.skip(3) =~= v@.subrange(start + 3, n as int));
        start = start + 3;
    }
    proof {
        let rest = v@.subrange(start as int, n as int);
        if 3 <= n - start {
            assert(rest.take(3) =~= v@.subrange(start as int, start + 3));
        }
        assert(!starts_with(rest, command_prefix()));
    }
    let ts = skip_whitespace(&v, start, n);
    let te = drop_trailing_whitespace(&v, ts, n);
    let ghost arg = v@.subrange(ts as int, te as int);
    assert(arg == trim(strip_prefixes(v@)));
    let start_word = vec!['s', 't', 'a', 'r', 't'];
    let stop_word = vec!['s', 't', 'o', 'p'];
    let exit_word = vec!['e', 'x', 'i', 't'];
    assert(start_word@ =~= seq!['s', 't', 'a', 'r', 't']);
    assert(stop_word@ =~= seq!['s', 't', 'o', 'p']);
    assert(exit_word@ =~= seq!['e', 'x', 'i', 't']);
    let command = if range_equals(&v, ts, te, &start_word) {
        ConsoleCommand::Start
    } else if range_equals(&v, ts, te, &stop_word) {
        ConsoleCommand::Stop
    } else if range_equals(&v, ts, te, &exit_word) {
        ConsoleCommand::Exit
    } else {
        ConsoleCommand::Help
    };
    ConsoleInput::Command(command)
}

/// What the proxy does for a command.
#[derive(Debug, Clone, Copy, PartialEq, Eq, Structural)]
pub enum ConsoleAction {
    /// Say that the server already runs.
    ReportAlreadyActive,
    /// Start the server.
    StartServer,
    /// Say that the server is offline.
    ReportOffline,
    /// Stop the server.
    StopServer,
    /// Stop the server first where it runs, then end the proxy.
    Shutdown { stop_server_first: bool },
    /// List the commands.
    ShowHelp,
}

/// What the proxy does for `command` while the server is alive
/// (`server_active`) or not.
pub fn console_action(command: ConsoleCommand, server_active: bool) -> (a: ConsoleAction)
    ensures
        command == ConsoleCommand::Start ==> a == if server_active {
            ConsoleAction::ReportAlreadyActive
        } else {
            ConsoleAction::StartServer
        },
        command == ConsoleCommand::Stop ==> a == if server_active {
            ConsoleAction::StopServer
        } else {
            ConsoleAction::ReportOffline
        },
        command == ConsoleCommand::Exit ==> a == (ConsoleAction::Shutdown {
            stop_server_first: server_active,
        }),
        command == ConsoleCommand::Help ==> a == ConsoleAction::ShowHelp,
{
    match command {
        ConsoleCommand::Start => if server_active {
            ConsoleAction::ReportAlreadyActive
        } else {
            ConsoleAction::StartServer
        },
        ConsoleCommand::Stop => if server_active {
            ConsoleAction::StopServer
        } else {
            ConsoleAction::ReportOffline
        },
        ConsoleCommand::Exit => ConsoleAction::Shutdown { stop_server_first: server_active },
        ConsoleCommand::Help => ConsoleAction::ShowHelp,
    }
}

/// What the BDS manager does for a command: it knows `start`,
/// `stop` and `help`; `exit` is no command there. `server_running` is whether
/// the held server runs, `server_held` whether a server is held at all.
pub fn manager_console_action(command: ConsoleCommand, server_running: bool, server_held: bool) -> (a:
    ConsoleAction)
    ensures
        command == ConsoleCommand::Start ==> a == if server_running {
            ConsoleAction::ReportAlreadyActive
        } else {
            ConsoleAction::StartServer
        },
        command == ConsoleCommand::Stop ==> a == if server_held {
            ConsoleAction::StopServer
        } else {
            ConsoleAction::ReportOffline
        },
        command == ConsoleCommand::Exit || command == ConsoleCommand::Help ==> a
            == ConsoleAction::ShowHelp,
{
    match command {
        ConsoleCommand::Start => if server_running {
            ConsoleAction::ReportAlreadyActive
        } else {
            ConsoleAction::StartServer
        },
        ConsoleCommand::Stop => if server_held {
            ConsoleAction::StopServer
        } else {
            ConsoleAction::ReportOffline
        },
        ConsoleCommand::Exit | ConsoleCommand::Help => ConsoleAction::ShowHelp,
    }
}

} // verus!
