use minecraft_bedrock_hibernation::console::{
    console_action, manager_console_action, parse_console_line, ConsoleAction, ConsoleCommand,
    ConsoleInput,
};

fn command(line: &str) -> ConsoleCommand {
    match parse_console_line(line) {
        ConsoleInput::Command(c) => c,
        ConsoleInput::Forward(s) => panic!("forwarded {s:?}"),
    }
}

fn forwarded(line: &str) -> String {
    match parse_console_line(line) {
        ConsoleInput::Forward(s) => s,
        ConsoleInput::Command(c) => panic!("command {c:?}"),
    }
}

#[test]
fn commands_are_recognised() {
    assert_eq!(command("mbh start"), ConsoleCommand::Start);
    assert_eq!(command("mbh stop"), ConsoleCommand::Stop);
    assert_eq!(command("mbh exit"), ConsoleCommand::Exit);
    assert_eq!(command("mbh help"), ConsoleCommand::Help);
}

#[test]
fn command_arguments_are_trimmed_and_prefixes_stripped() {
    assert_eq!(command("mbh   stop  "), ConsoleCommand::Stop);
    assert_eq!(command("mbhstart"), ConsoleCommand::Start);
    assert_eq!(command("mbhmbh exit"), ConsoleCommand::Exit);
    assert_eq!(command("mbh mbh exit"), ConsoleCommand::Help);
}

#[test]
fn unknown_commands_show_help() {
    assert_eq!(command("mbh"), ConsoleCommand::Help);
    assert_eq!(command("mbh restart"), ConsoleCommand::Help);
    assert_eq!(command("mbh START"), ConsoleCommand::Help);
}

#[test]
fn other_lines_are_forwarded_with_a_line_feed() {
    assert_eq!(forwarded("say hello"), "say hello\n");
    assert_eq!(forwarded("mb start"), "mb start\n");
    assert_eq!(forwarded(" mbh start"), " mbh start\n");
    assert_eq!(forwarded(""), "\n");
}

#[test]
fn console_actions() {
    assert_eq!(console_action(ConsoleCommand::Start, true), ConsoleAction::ReportAlreadyActive);
    assert_eq!(console_action(ConsoleCommand::Start, false), ConsoleAction::StartServer);
    assert_eq!(console_action(ConsoleCommand::Stop, true), ConsoleAction::StopServer);
    assert_eq!(console_action(ConsoleCommand::Stop, false), ConsoleAction::ReportOffline);
    assert_eq!(console_action(ConsoleCommand::Exit, true), ConsoleAction::Shutdown { stop_server_first: true });
    assert_eq!(console_action(ConsoleCommand::Exit, false), ConsoleAction::Shutdown { stop_server_first: false });
    assert_eq!(console_action(ConsoleCommand::Help, true), ConsoleAction::ShowHelp);
}

#[test]
fn manager_console_actions() {
    assert_eq!(manager_console_action(ConsoleCommand::Start, true, true), ConsoleAction::ReportAlreadyActive);
    assert_eq!(manager_console_action(ConsoleCommand::Start, false, true), ConsoleAction::StartServer);
    assert_eq!(manager_console_action(ConsoleCommand::Stop, false, true), ConsoleAction::StopServer);
    assert_eq!(manager_console_action(ConsoleCommand::Stop, false, false), ConsoleAction::ReportOffline);
    assert_eq!(manager_console_action(ConsoleCommand::Exit, true, true), ConsoleAction::ShowHelp);
    assert_eq!(manager_console_action(ConsoleCommand::Help, true, true), ConsoleAction::ShowHelp);
}
