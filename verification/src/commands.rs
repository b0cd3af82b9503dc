//! The commands of the interactive debugger that drives a probe: the command
//! table, and the decisions the commands make before they touch the target
//! (how a halted core is stepped past a breakpoint, which breakpoints are set
//! or cleared, how many stack words are read).
use vstd::prelude::*;
use crate::command_table::chars_eq;
use crate::text::{
    ParseNumberError, lemma_parse_unsigned_range, parse_unsigned, parse_unsigned_exec, str_chars,
};

verus! {

/// What a command of the debugger does.
#[derive(Debug, Clone, Copy, PartialEq, Eq, Structural)]
pub enum CommandKind {
    Exit,
    Status,
    Print,
    Run,
    Step,
    Halt,
    Registers,
    Reset,
    Read,
    SetBreakpoint,
    ClearBreakpoint,
    ClearAllBreakpoints,
    NumBreakpoints,
    Code,
    Stacktrace,
}

/// A command of the debugger: its name, its short name, the line `help`
/// shows for it, and what it does.
pub struct Command {
    pub name: &'static str,
    pub short: &'static str,
    pub description: &'static str,
    pub kind: CommandKind,
}

/// The commands that [`Command::init_commands`] gives, in order.
pub open spec fn debugger_commands() -> Seq<Command> {
    seq![
        Command { name: "exit", short: "e", description: "Exit the debugger", kind: CommandKind::Exit },
        Command {
            name: "status",
            short: "s",
            description: "Show current status of CPU",
            kind: CommandKind::Status,
        },
        Command { name: "print", short: "p", description: "Evaluate variable", kind: CommandKind::Print },
        Command {
            name: "run",
            short: "r",
            description: "Resume execution of the CPU",
            kind: CommandKind::Run,
        },
        Command {
            name: "step",
            short: "sp",
            description: "Step a single instruction",
            kind: CommandKind::Step,
        },
        Command { name: "halt", short: "h", description: "Stop the CPU", kind: CommandKind::Halt },
        Command {
            name: "registers",
            short: "regs",
            description: "Show CPU register values",
            kind: CommandKind::Registers,
        },
        Command { name: "reset", short: "rt", description: "Reset the CPU", kind: CommandKind::Reset },
        Command {
            name: "read",
            short: "rd",
            description: "Read 32bit value from memory",
            kind: CommandKind::Read,
        },
        Command {
            name: "set_breakpoint",
            short: "bkpt",
            description: "Set breakpoint at an address",
            kind: CommandKind::SetBreakpoint,
        },
        Command {
            name: "clear_breakpoint",
            short: "cbkpt",
            description: "Clear breakpoint from an address",
            kind: CommandKind::ClearBreakpoint,
        },
        Command {
            name: "clear_all_breakpoints",
            short: "cabkpt",
            description: "Clear all breakpoints",
            kind: CommandKind::ClearAllBreakpoints,
        },
        Command {
            name: "num_breakpoints",
            short: "nbkpt",
            description: "Get total number of hw breakpoints",
            kind: CommandKind::NumBreakpoints,
        },
        Command {
            name: "code",
            short: "ce",
            description: "Print first 16 lines of assembly code",
            kind: CommandKind::Code,
        },
        Command {
            name: "stacktrace",
            short: "st",
            description: "Print stack trace",
            kind: CommandKind::Stacktrace,
        },
    ]
}

impl Command {
    /// The debugger's commands.
    pub fn init_commands() -> (v: Vec<Command>)
        ensures
            v@ == debugger_commands(),
    {
        let v = vec![
            Command {
                name: "exit",
                short: "e",
                description: "Exit the debugger",
                kind: CommandKind::Exit,
            },
            Command {
                name: "status",
                short: "s",
                description: "Show current status of CPU",
                kind: CommandKind::Status,
            },
            Command {
                name: "print",
                short: "p",
                description: "Evaluate variable",
                kind: CommandKind::Print,
            },
            Command {
                name: "run",
                short: "r",
                description: "Resume execution of the CPU",
                kind: CommandKind::Run,
            },
            Command {
                name: "step",
                short: "sp",
                description: "Step a single instruction",
                kind: CommandKind::Step,
            },
            Command { name: "halt", short: "h", description: "Stop the CPU", kind: CommandKind::Halt },
            Command {
                name: "registers",
                short: "regs",
                description: "Show CPU register values",
                kind: CommandKind::Registers,
            },
            Command {
                name: "reset",
                short: "rt",
                description: "Reset the CPU",
                kind: CommandKind::Reset,
            },
            Command {
                name: "read",
                short: "rd",
                description: "Read 32bit value from memory",
                kind: CommandKind::Read,
            },
            Command {
                name: "set_breakpoint",
                short: "bkpt",
                description: "Set breakpoint at an address",
                kind: CommandKind::SetBreakpoint,
            },
            Command {
                name: "clear_breakpoint",
                short: "cbkpt",
                description: "Clear breakpoint from an address",
                kind: CommandKind::ClearBreakpoint,
            },
            Command {
                name: "clear_all_breakpoints",
                short: "cabkpt",
                description: "Clear all breakpoints",
                kind: CommandKind::ClearAllBreakpoints,
            },
            Command {
                name: "num_breakpoints",
                short: "nbkpt",
                description: "Get total number of hw breakpoints",
                kind: CommandKind::NumBreakpoints,
            },
            Command {
                name: "code",
                short: "ce",
                description: "Print first 16 lines of assembly code",
                kind: CommandKind::Code,
            },
            Command {
                name: "stacktrace",
                short: "st",
                description: "Print stack trace",
                kind: CommandKind::Stacktrace,
            },
        ];
        assert(v@ =~= debugger_commands());
        v
    }
}

/// Whether `word` is the name or the short name of `c`.
pub open spec fn names_command(c: Command, word: Seq<char>) -> bool {
    c.name@ == word || c.short@ == word
}

/// The first command that `word` names by its name or its short name.
pub fn find_command(cmds: &Vec<Command>, word: &Vec<char>) -> (r: Option<usize>)
    ensures
        match r {
            Some(i) => i < cmds.len() && names_command(cmds@[i as int], word@) && forall|j: int|
                0 <= j < i ==> !names_command(#[trigger] cmds@[j], word@),
            None => forall|j: int| 0 <= j < cmds.len() ==> !names_command(#[trigger] cmds@[j], word@),
        },
{
    let mut i: usize = 0;
    while i < cmds.len()
        invariant
            i <= cmds.len(),
            forall|j: int| 0 <= j < i ==> !names_command(#[trigger] cmds@[j], word@),
        decreases cmds.len() - i,
    {
        let name = str_chars(cmds[i].name);
        let short = str_chars(cmds[i].short);
        if chars_eq(&name, word) || chars_eq(&short, word) {
            return Some(i);
        }
        i += 1;
    }
    None
}

/// The exit command: it ends the debugger.
pub fn exit_command() -> (exit: bool)
    ensures
        exit,
{
    true
}

/// How a core that halted on a breakpoint is moved on.
#[derive(Debug, Clone, Copy, PartialEq, Eq, Structural)]
pub enum StepAction {
    /// The core sits on a `bkpt` instruction: the program counter is moved past
    /// its two bytes, to `next_pc`.
    SkipBreakpointInstruction { next_pc: u32 },
    /// The core sits on a hardware breakpoint: it is cleared, the core steps,
    /// and it is set again.
    StepOverHardwareBreakpoint { address: u32 },
    /// The core steps one instruction.
    Step,
}

/// Whether the two bytes `code0`, `code1` at the program counter are the
/// Cortex-M `bkpt` instruction (`0xbe00`, little-endian).
pub open spec fn is_bkpt_instruction(code0: u8, code1: u8) -> bool {
    code1 == 190 && code0 == 0
}

/// What moving on from a halt at `pc` takes, given the two bytes at `pc` and
/// the hardware breakpoints that are set.
pub open spec fn step_action(pc: u32, code0: u8, code1: u8, breakpoints: Seq<u32>) -> StepAction {
    if is_bkpt_instruction(code0, code1) {
        StepAction::SkipBreakpointInstruction { next_pc: (pc + 2) as u32 }
    } else if breakpoints.contains(pc) {
        StepAction::StepOverHardwareBreakpoint { address: pc }
    } else {
        StepAction::Step
    }
}

/// Decides how a core that halted on a breakpoint at `pc` is moved on.
pub fn continue_fix(pc: u32, code0: u8, code1: u8, breakpoints: &Vec<u32>) -> (a: StepAction)
    requires
        is_bkpt_instruction(code0, code1) ==> pc + 2 <= u32::MAX,
    ensures
        a == step_action(pc, code0, code1, breakpoints@),
{
    if code1 == 190 && code0 == 0 {
        return StepAction::SkipBreakpointInstruction { next_pc: pc + 2 };
    }
    let mut i: usize = 0;
    while i < breakpoints.len()
        invariant
            i <= breakpoints.len(),
            forall|j: int| 0 <= j < i ==> breakpoints@[j] != pc,
            !is_bkpt_instruction(code0, code1),
        decreases breakpoints.len() - i,
    {
        if breakpoints[i] == pc {
            assert(breakpoints@[i as int] == pc);
            assert(breakpoints@.contains(pc));
            return StepAction::StepOverHardwareBreakpoint { address: pc };
        }
        i += 1;
    }
    StepAction::Step
}

/// The address argument of a breakpoint or read command, in decimal.
pub open spec fn address_arg(arg: Seq<char>) -> Result<int, ParseNumberError> {
    parse_unsigned(arg, 10, u32::MAX as int)
}

/// Reads the decimal address that a command takes as its argument.
pub fn parse_address(arg: &Vec<char>) -> (r: Result<u32, ParseNumberError>)
    ensures
        match address_arg(arg@) {
            Ok(v) => r == Ok::<u32, ParseNumberError>(v as u32),
            Err(e) => r == Err::<u32, ParseNumberError>(e),
        },
{
    proof {
        lemma_parse_unsigned_range(arg@, 10, u32::MAX as int);
    }
    match parse_unsigned_exec(arg, 10, 0xffff_ffff) {
        Ok(v) => Ok(v as u32),
        Err(e) => Err(e),
    }
}

/// Whether one more hardware breakpoint can be set: fewer than `available`
/// are in use.
pub fn can_set_breakpoint(in_use: usize, available: u32) -> (r: bool)
    ensures
        r == (in_use < available),
{
    (in_use as u64) < (available as u64)
}

/// The position of the breakpoint at `address` in `breakpoints`, the first
/// one if it is there more than once.
pub fn breakpoint_index(breakpoints: &Vec<u32>, address: u32) -> (r: Option<usize>)
    ensures
        match r {
            Some(i) => i < breakpoints.len() && breakpoints@[i as int] == address && forall|j: int|
                0 <= j < i ==> breakpoints@[j] != address,
            None => !breakpoints@.contains(address),
        },
{
    let mut i: usize = 0;
    while i < breakpoints.len()
        invariant
            i <= breakpoints.len(),
            forall|j: int| 0 <= j < i ==> breakpoints@[j] != address,
        decreases breakpoints.len() - i,
    {
        if breakpoints[i] == address {
            return Some(i);
        }
        i += 1;
    }
    None
}

/// Takes the breakpoint at `address` out of `breakpoints`; whether it was
/// there is returned.
pub fn clear_breakpoint(breakpoints: &mut Vec<u32>, address: u32) -> (removed: bool)
    ensures
        removed == old(breakpoints)@.contains(address),
        removed ==> exists|i: int|
            0 <= i < old(breakpoints)@.len() && old(breakpoints)@[i] == address && (forall|j: int|
                0 <= j < i ==> old(breakpoints)@[j] != address) && final(breakpoints)@
                == old(breakpoints)@.remove(i),
        !removed ==> final(breakpoints)@ == old(breakpoints)@,
{
    match breakpoint_index(breakpoints, address) {
        Some(i) => {
            breakpoints.remove(i);
            true
        },
        None => false,
    }
}

/// The number of 32-bit words from the stack pointer `sp` up to the frame
/// address `sf` (a part word counts as a word); none when `sf` lies below `sp`.
pub open spec fn stack_word_count(sf: u32, sp: u32) -> int {
    if sf < sp {
        0
    } else {
        (sf - sp + 3) / 4
    }
}

/// How many stack words the stack command reads.
pub fn stack_length(sf: u32, sp: u32) -> (n: usize)
    ensures
        n == stack_word_count(sf, sp),
{
    if sf < sp {
        0
    } else {
        (((sf - sp) as u64 + 3) / 4) as usize
    }
}

/// The stack words read cover the stack from the stack pointer up to the
/// frame address, with less than one word to spare.
pub proof fn lemma_stack_words_cover(sf: u32, sp: u32)
    requires
        sp <= sf,
    ensures
        4 * stack_word_count(sf, sp) >= sf - sp,
        4 * stack_word_count(sf, sp) < sf - sp + 4,
{
}

} // verus!
