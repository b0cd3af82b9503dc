use rust_debug::commands::{
    breakpoint_index, can_set_breakpoint, clear_breakpoint, continue_fix, exit_command,
    find_command, parse_address, stack_length, Command, CommandKind, StepAction,
};
use rust_debug::commands_temp::commands::{parse_u32_from_str, Commands};
use rust_debug::commands_temp::debug_request::DebugRequest;
use rust_debug::newcommands::{CommandParser, DapArguments};
use rust_debug::newdebugger::{line_action, LineAction};
use rust_debug::text::ParseNumberError;

fn chars(s: &str) -> Vec<char> {
    s.chars().collect()
}

#[test]
fn parse_u32_decimal_and_hex() {
    assert_eq!(parse_u32_from_str("42"), Ok(42));
    assert_eq!(parse_u32_from_str("0x1f"), Ok(31));
    assert_eq!(parse_u32_from_str("0xffffffff"), Ok(u32::MAX));
    assert_eq!(parse_u32_from_str("+7"), Ok(7));
}

#[test]
fn parse_u32_strips_every_hex_prefix() {
    assert_eq!(parse_u32_from_str("0x0x10"), Ok(16));
}

#[test]
fn parse_u32_errors() {
    assert_eq!(parse_u32_from_str(""), Err(ParseNumberError::Empty));
    assert_eq!(parse_u32_from_str("0x"), Err(ParseNumberError::Empty));
    assert_eq!(parse_u32_from_str("12a"), Err(ParseNumberError::InvalidDigit));
    assert_eq!(parse_u32_from_str("0xfg"), Err(ParseNumberError::InvalidDigit));
    assert_eq!(parse_u32_from_str("4294967296"), Err(ParseNumberError::Overflow));
    assert_eq!(parse_u32_from_str("0x100000000"), Err(ParseNumberError::Overflow));
}

#[test]
fn debug_request_commands() {
    let c = Commands::new();
    assert!(matches!(c.parse_command("exit"), Ok(DebugRequest::Exit)));
    assert!(matches!(c.parse_command("  continue  now"), Ok(DebugRequest::Continue)));
    assert!(matches!(c.parse_command("halt"), Ok(DebugRequest::Halt)));
    match c.parse_command("set-binary target/app.elf extra") {
        Ok(DebugRequest::SetBinary { path }) => assert_eq!(path, "target/app.elf"),
        _ => panic!("expected a set-binary request"),
    }
}

#[test]
fn debug_request_command_errors() {
    let c = Commands::new();
    assert_eq!(c.parse_command("set-binary").unwrap_err(), "Requires a path as a argument");
    assert_eq!(c.parse_command("   ").unwrap_err(), "Empty Command");
    assert_eq!(
        c.parse_command("jump 3").unwrap_err(),
        "Unknown command 'jump'\n\tEnter 'help' for a list of commands"
    );
}

#[test]
fn debug_request_help() {
    let c = Commands::new();
    assert_eq!(
        c.check_if_help(" help me").unwrap(),
        "Available commands:\n\t- exit: Exit debugger\n\t- continue: Continue the program\n\t- halt: Halt the core\n\t- set-binary: Set the binary file to debug"
    );
    assert_eq!(c.check_if_help("exit"), None);
    assert_eq!(c.check_if_help(""), None);
}

#[test]
fn dap_client_commands() {
    let p = CommandParser::new();
    let r = p.parse_command("exit").unwrap();
    assert_eq!(r.seq, 0);
    assert_eq!(r.type_, "request");
    assert_eq!(r.command, "disconnect");
    assert_eq!(
        r.arguments,
        Some(DapArguments::Disconnect { restart: Some(false), terminate_debuggee: None })
    );
    let r = p.parse_command("stack-trace").unwrap();
    assert_eq!(r.command, "stackTrace");
    assert_eq!(
        r.arguments,
        Some(DapArguments::StackTrace { thread_id: 0, levels: None, start_frame: None })
    );
    let r = p.parse_command("next").unwrap();
    assert_eq!(r.arguments, Some(DapArguments::Next { thread_id: 0 }));
    assert_eq!(p.parse_command("").unwrap_err(), "Empty Command");
    assert_eq!(
        p.parse_command("step").unwrap_err(),
        "Unknown command 'step'\n\tEnter 'help' for a list of commands"
    );
    assert!(p.check_if_help("help").unwrap().ends_with("\n\t- stack-trace: Prints the current stack trace"));
}

#[test]
fn debugger_command_table() {
    let cmds = Command::init_commands();
    assert_eq!(cmds.len(), 15);
    assert_eq!(find_command(&cmds, &chars("bkpt")), Some(9));
    assert_eq!(find_command(&cmds, &chars("set_breakpoint")), Some(9));
    assert_eq!(cmds[9].kind, CommandKind::SetBreakpoint);
    assert_eq!(find_command(&cmds, &chars("st")), Some(14));
    assert_eq!(find_command(&cmds, &chars("nothing")), None);
    assert!(exit_command());
}

#[test]
fn debugger_command_lines() {
    let cmds = Command::init_commands();
    assert!(matches!(line_action(&cmds, "  "), LineAction::Nothing));
    match line_action(&cmds, "rd 536870912") {
        LineAction::Run { kind, args } => {
            assert_eq!(kind, CommandKind::Read);
            assert_eq!(args, vec!["536870912".to_string()]);
        },
        _ => panic!("expected a command"),
    }
    match line_action(&cmds, "frobnicate") {
        LineAction::Unknown { text } => {
            assert_eq!(text, "Unknown command 'frobnicate'\nEnter 'help' for a list of commands\n")
        },
        _ => panic!("expected an unknown command"),
    }
    match line_action(&cmds, "help") {
        LineAction::Help { text } => {
            assert!(text.starts_with("Available commands:\n\t- exit: Exit the debugger\n"));
            assert!(text.ends_with("\t- stacktrace: Print stack trace\n"));
        },
        _ => panic!("expected help"),
    }
}

#[test]
fn continue_fix_skips_bkpt_instruction() {
    assert_eq!(
        continue_fix(0x0800_0100, 0x00, 0xbe, &vec![0x0800_0100]),
        StepAction::SkipBreakpointInstruction { next_pc: 0x0800_0102 }
    );
}

#[test]
fn continue_fix_steps_over_hardware_breakpoint() {
    assert_eq!(
        continue_fix(0x0800_0100, 0x01, 0x20, &vec![0x10, 0x0800_0100]),
        StepAction::StepOverHardwareBreakpoint { address: 0x0800_0100 }
    );
    assert_eq!(continue_fix(0x0800_0100, 0x01, 0x20, &vec![0x10]), StepAction::Step);
}

#[test]
fn breakpoint_bookkeeping() {
    assert!(can_set_breakpoint(5, 6));
    assert!(!can_set_breakpoint(6, 6));
    let mut b = vec![4, 8, 4];
    assert_eq!(breakpoint_index(&b, 4), Some(0));
    assert!(clear_breakpoint(&mut b, 4));
    assert_eq!(b, vec![8, 4]);
    assert!(!clear_breakpoint(&mut b, 12));
    assert_eq!(b, vec![8, 4]);
    assert_eq!(parse_address(&chars("1234")), Ok(1234));
    assert_eq!(parse_address(&chars("0x10")), Err(ParseNumberError::InvalidDigit));
}

#[test]
fn stack_word_count_rounds_up() {
    assert_eq!(stack_length(0x2000_0010, 0x2000_0000), 4);
    assert_eq!(stack_length(0x2000_0011, 0x2000_0000), 5);
    assert_eq!(stack_length(0x2000_0000, 0x2000_0000), 0);
    assert_eq!(stack_length(0x1000_0000, 0x2000_0000), 0);
    assert_eq!(stack_length(u32::MAX, 0), 0x4000_0000);
}

#[test]
fn thumb_code_is_disassembled_at_the_program_counter() {
    let code = [0x00u8, 0xbf, 0x70, 0x47];
    let instructions = rust_debug::debug_handler::code_instructions(&code, 0x100).expect("disassembly");
    assert_eq!(instructions.len(), 2);
    assert_eq!(instructions[0].0, 0x100);
    assert!(instructions[0].1.starts_with("0x100: nop"));
    assert_eq!(instructions[1], (0x102, "0x102: bx lr".to_string()));
}

#[test]
fn code_listing_marks_the_program_counter() {
    let instructions = vec![(0x100u32, "0x100: nop".to_string()), (0x102u32, "0x102: bx lr".to_string())];
    assert_eq!(
        rust_debug::cli::code_listing(0x102, &instructions),
        "Assembly Code\n  0x100: nop\n> 0x102: bx lr\n"
    );
    assert_eq!(rust_debug::cli::code_listing(0, &Vec::new()), "Assembly Code\n");
}

#[test]
fn disassembly_addresses_are_cut_to_32_bits() {
    let insns = vec![(0x1_0000_0100u64, "a".to_string()), (0x102u64, "b".to_string())];
    let out = rust_debug::debug_handler::instructions_at_32_bits(&insns);
    assert_eq!(out, vec![(0x100u32, "a".to_string()), (0x102u32, "b".to_string())]);
}
