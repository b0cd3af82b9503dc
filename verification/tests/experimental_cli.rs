use rust_debug::gimli_test_example::commands::{exit_command, init_commands, TestCommand};
use rust_debug::gimli_test_example::debugger_cli::{handle_line, CliLine};

#[test]
fn experimental_command_table() {
    let table = init_commands();
    let names: Vec<&str> = table.iter().map(|c| c.name).collect();
    assert_eq!(names, vec!["exit", "status", "print", "run"]);
    assert_eq!(table[2].description, "Evaluate variable");
    assert!(exit_command(TestCommand::Exit));
    assert!(!exit_command(TestCommand::Run));
}

#[test]
fn experimental_command_lines() {
    let table = init_commands();
    assert!(matches!(handle_line(&table, "   "), CliLine::Nothing));
    match handle_line(&table, "print  x ") {
        CliLine::Run { kind, args } => {
            assert_eq!(kind, TestCommand::Print);
            assert_eq!(args, vec!["x".to_string()]);
        },
        _ => panic!("expected a command"),
    }
    match handle_line(&table, "help") {
        CliLine::Help { text } => assert_eq!(
            text,
            "Available commands:\n\t- exit: Exit the debugger\n\t- status: Show current status of CPU\n\t- print: Evaluate variable\n\t- run: Resume execution of the CPU\n"
        ),
        _ => panic!("expected help"),
    }
    match handle_line(&table, "step 2") {
        CliLine::Unknown { text } => {
            assert_eq!(text, "Unknown command 'step'\nEnter 'help' for a list of commands\n")
        },
        _ => panic!("expected an unknown command"),
    }
}
