//! The commands of the experimental debugger's command line.
use vstd::prelude::*;
use crate::command_table::CommandInfo;

verus! {

/// What a command of the experimental debugger does.
#[derive(Debug, Clone, Copy, PartialEq, Eq, Structural)]
pub enum TestCommand {
    Exit,
    Status,
    Print,
    Run,
}

/// The table that [`init_commands`] builds.
pub open spec fn test_command_table() -> Seq<CommandInfo<TestCommand>> {
    seq![
        CommandInfo { name: "exit", description: "Exit the debugger", kind: TestCommand::Exit },
        CommandInfo { name: "status", description: "Show current status of CPU", kind: TestCommand::Status },
        CommandInfo { name: "print", description: "Evaluate variable", kind: TestCommand::Print },
        CommandInfo { name: "run", description: "Resume execution of the CPU", kind: TestCommand::Run },
    ]
}

/// The commands of the experimental debugger, in the order `help` lists them.
pub fn init_commands() -> (v: Vec<CommandInfo<TestCommand>>)
    ensures
        v@ == test_command_table(),
{
    let v = vec![
        CommandInfo { name: "exit", description: "Exit the debugger", kind: TestCommand::Exit },
        CommandInfo { name: "status", description: "Show current status of CPU", kind: TestCommand::Status },
        CommandInfo { name: "print", description: "Evaluate variable", kind: TestCommand::Print },
        CommandInfo { name: "run", description: "Resume execution of the CPU", kind: TestCommand::Run },
    ];
    assert(v@ =~= test_command_table());
    v
}

/// Whether a command ends the command line: only `exit` does.
pub fn exit_command(kind: TestCommand) -> (exit: bool)
    ensures
        exit == (kind == TestCommand::Exit),
{
    match kind {
        TestCommand::Exit => true,
        _ => false,
    }
}

} // verus!
