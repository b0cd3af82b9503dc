//! The debug handler's side of a session: the requests that set up the
//! session are answered from its settings; the others start a session on the
//! target once the settings are complete.
pub mod config;

use vstd::prelude::*;
use capstone::arch::BuildsCapstone;
use config::Config;
use crate::config::missing_config_text;

verus! {

/// A request that sets one of the session's settings.
#[derive(Debug, Clone)]
pub enum ConfigRequest {
    SetBinary { path: String },
    SetProbeNumber { number: usize },
    SetChip { chip: String },
    SetCwd { cwd: String },
}

/// A request to the debug handler: end the session, change a setting, or
/// work on the target.
#[derive(Debug, Clone)]
pub enum HandlerRequest {
    Exit,
    Config(ConfigRequest),
    Target,
}

/// What the debug handler does with a request.
#[derive(Debug, Clone)]
pub enum HandlerDecision {
    /// Answer that the session ends, and end it.
    Exit,
    /// Answer that the setting was changed.
    Configured,
    /// Answer with this error message: settings are missing.
    MissingConfig { message: String },
    /// Start a session on the target with these settings, then handle the
    /// request there.
    Start { binary: String, probe_num: usize, chip: String, cwd: Option<String> },
}

/// The debug handler and its settings.
pub struct DebugHandler {
    pub config: Config,
}

impl DebugHandler {
    /// A handler with the settings of [`Config::new`].
    pub fn new(file_path: Option<String>) -> (h: DebugHandler)
        ensures
            h.config.binary == file_path,
            h.config.chip matches Some(chip) && chip@ == "STM32F411RETx"@,
            h.config.probe_num == 0,
            h.config.cwd is None,
    {
        DebugHandler { config: Config::new(file_path) }
    }

    /// Handles a request: an exit ends the session, a setting is stored, and
    /// any other request starts a session when the binary and the chip are
    /// set, or is answered with the list of what is missing.
    pub fn handle_request(&mut self, request: HandlerRequest) -> (d: HandlerDecision)
        ensures
            match request {
                HandlerRequest::Exit => d is Exit && final(self).config == old(self).config,
                HandlerRequest::Config(c) => d is Configured && match c {
                    ConfigRequest::SetBinary { path } => final(self).config == (Config {
                        binary: Some(path),
                        ..old(self).config
                    }),
                    ConfigRequest::SetProbeNumber { number } => final(self).config == (Config {
                        probe_num: number,
                        ..old(self).config
                    }),
                    ConfigRequest::SetChip { chip } => final(self).config == (Config {
                        chip: Some(chip),
                        ..old(self).config
                    }),
                    ConfigRequest::SetCwd { cwd } => final(self).config == (Config {
                        cwd: Some(cwd),
                        ..old(self).config
                    }),
                },
                HandlerRequest::Target => final(self).config == old(self).config && if old(
                    self,
                ).config.binary is None || old(self).config.chip is None {
                    d matches HandlerDecision::MissingConfig { message } && message@
                        == missing_config_text(
                        old(self).config.binary is None,
                        old(self).config.chip is None,
                    )
                } else {
                    d matches HandlerDecision::Start { binary, probe_num, chip, cwd }
                        && Some(binary) == old(self).config.binary && Some(chip) == old(
                        self,
                    ).config.chip && probe_num == old(self).config.probe_num && cwd == old(
                        self,
                    ).config.cwd
                },
            },
    {
        match request {
            HandlerRequest::Exit => HandlerDecision::Exit,
            HandlerRequest::Config(c) => {
                match c {
                    ConfigRequest::SetBinary { path } => {
                        self.config.binary = Some(path);
                    },
                    ConfigRequest::SetProbeNumber { number } => {
                        self.config.probe_num = number;
                    },
                    ConfigRequest::SetChip { chip } => {
                        self.config.chip = Some(chip);
                    },
                    ConfigRequest::SetCwd { cwd } => {
                        self.config.cwd = Some(cwd);
                    },
                }
                HandlerDecision::Configured
            },
            HandlerRequest::Target => {
                if self.config.is_missing_config() {
                    return HandlerDecision::MissingConfig {
                        message: self.config.missing_config_message(),
                    };
                }
                let binary = match &self.config.binary {
                    Some(b) => b.clone(),
                    None => String::new(),
                };
                let chip = match &self.config.chip {
                    Some(c) => c.clone(),
                    None => String::new(),
                };
                let cwd = match &self.config.cwd {
                    Some(c) => Some(c.clone()),
                    None => None,
                };
                HandlerDecision::Start { binary, probe_num: self.config.probe_num, chip, cwd }
            },
        }
    }
}

/// A breakpoint asked for in a source file: its line and, if given, column.
#[derive(Debug, Clone, Copy, PartialEq, Eq, Structural)]
pub struct SourceBreakpoint {
    pub line: i64,
    pub column: Option<i64>,
}

/// The answer for one asked-for breakpoint: its id (the address), whether it
/// was set, and the line and column it was asked for at.
#[derive(Debug, Clone, Copy, PartialEq, Eq, Structural)]
pub struct BreakpointInfo {
    pub id: Option<i64>,
    pub verified: bool,
    pub line: Option<i64>,
    pub column: Option<i64>,
}

/// The breakpoints that setting the breakpoints `requests` (each with the
/// address found for its line, if any) gives, with `available` hardware
/// breakpoint units: the answers, the hardware breakpoints set (in the order
/// they are set) and the distinct addresses that hold one.
pub open spec fn plan_breakpoints_spec(requests: Seq<(SourceBreakpoint, Option<u64>)>, available: u32) -> (
    Seq<BreakpointInfo>,
    Seq<u32>,
    Seq<u32>,
)
    decreases requests.len(),
{
    if requests.len() == 0 {
        (Seq::empty(), Seq::empty(), Seq::empty())
    } else {
        let (answers, sets, held) = plan_breakpoints_spec(requests.drop_last(), available);
        let (bkpt, location) = requests.last();
        match location {
            Some(address) => {
                let a32 = address as u32;
                if held.len() < available {
                    let info = BreakpointInfo {
                        id: Some(address as i64),
                        verified: true,
                        line: Some(bkpt.line),
                        column: bkpt.column,
                    };
                    (
                        answers.push(info),
                        sets.push(a32),
                        if held.contains(a32) {
                            held
                        } else {
                            held.push(a32)
                        },
                    )
                } else {
                    let info = BreakpointInfo {
                        id: Some(address as i64),
                        verified: false,
                        line: Some(bkpt.line),
                        column: bkpt.column,
                    };
                    (answers.push(info), sets, held)
                }
            },
            None => {
                let info = BreakpointInfo {
                    id: None,
                    verified: false,
                    line: Some(bkpt.line),
                    column: bkpt.column,
                };
                (answers.push(info), sets, held)
            },
        }
    }
}

/// Setting breakpoints never holds more distinct addresses than there are
/// hardware breakpoint units, answers every asked-for breakpoint once, and
/// only sets hardware breakpoints at held addresses.
pub proof fn lemma_plan_within_units(requests: Seq<(SourceBreakpoint, Option<u64>)>, available: u32)
    ensures
        plan_breakpoints_spec(requests, available).2.len() <= available,
        plan_breakpoints_spec(requests, available).2.no_duplicates(),
        plan_breakpoints_spec(requests, available).0.len() == requests.len(),
        forall|k: int|
            0 <= k < plan_breakpoints_spec(requests, available).1.len() ==> plan_breakpoints_spec(
                requests,
                available,
            ).2.contains(#[trigger] plan_breakpoints_spec(requests, available).1[k]),
    decreases requests.len(),
{
    if requests.len() > 0 {
        lemma_plan_within_units(requests.drop_last(), available);
        let (answers, sets, held) = plan_breakpoints_spec(requests.drop_last(), available);
        let (bkpt, location) = requests.last();
        if let Some(address) = location {
            let a32 = address as u32;
            if held.len() < available {
                let new_held = if held.contains(a32) {
                    held
                } else {
                    held.push(a32)
                };
                if !held.contains(a32) {
                    assert(new_held[held.len() as int] == a32);
                }
                assert(new_held.contains(a32));
                assert forall|x: u32| held.contains(x) implies new_held.contains(x) by {
                    if !held.contains(a32) {
                        let k = choose|k: int| 0 <= k < held.len() && held[k] == x;
                        assert(new_held[k] == x);
                    }
                }
                if !held.contains(a32) {
                    assert forall|i: int, j: int| 0 <= i < j < new_held.len() implies new_held[i]
                        != new_held[j] by {
                        if j == new_held.len() - 1 {
                            assert(new_held[j] == a32);
                            assert(held[i] == new_held[i]);
                        } else {
                            assert(held[i] == new_held[i] && held[j] == new_held[j]);
                        }
                    }
                }
                let new_sets = sets.push(a32);
                assert forall|k: int| 0 <= k < new_sets.len() implies new_held.contains(
                    #[trigger] new_sets[k],
                ) by {
                    if k < sets.len() {
                        assert(new_sets[k] == sets[k]);
                        assert(held.contains(sets[k]));
                    }
                }
            }
        }
    }
}

/// Sets the breakpoints of a source file anew: each asked-for breakpoint
/// whose line has an address is set while hardware breakpoint units are
/// free (an address counts once); the answers and the hardware breakpoints to
/// set, in order, are returned.
pub fn plan_breakpoints(requests: &Vec<(SourceBreakpoint, Option<u64>)>, available: u32) -> (r: (
    Vec<BreakpointInfo>,
    Vec<u32>,
))
    ensures
        r.0@ == plan_breakpoints_spec(requests@, available).0,
        r.1@ == plan_breakpoints_spec(requests@, available).1,
{
    let mut answers: Vec<BreakpointInfo> = Vec::new();
    let mut sets: Vec<u32> = Vec::new();
    let mut held: Vec<u32> = Vec::new();
    let mut i: usize = 0;
    while i < requests.len()
        invariant
            i <= requests.len(),
            (answers@, sets@, held@) == plan_breakpoints_spec(requests@.take(i as int), available),
        decreases requests.len() - i,
    {
        let (bkpt, location) = requests[i];
        assert(requests@.take(i + 1).drop_last() =~= requests@.take(i as int));
        match location {
            Some(address) => {
                let a32 = address as u32;
                if (held.len() as u64) < (available as u64) {
                    answers.push(
                        BreakpointInfo {
                            id: Some(address as i64),
                            verified: true,
                            line: Some(bkpt.line),
                            column: bkpt.column,
                        },
                    );
                    sets.push(a32);
                    let mut k: usize = 0;
                    let mut found = false;
                    while k < held.len()
                        invariant
                            k <= held.len(),
                            found == exists|j: int| 0 <= j < k && held@[j] == a32,
                        decreases held.len() - k,
                    {
                        if held[k] == a32 {
                            found = true;
                        }
                        k += 1;
                    }
                    if !found {
                        held.push(a32);
                    }
                } else {
                    answers.push(
                        BreakpointInfo {
                            id: Some(address as i64),
                            verified: false,
                            line: Some(bkpt.line),
                            column: bkpt.column,
                        },
                    );
                }
            },
            None => {
                answers.push(
                    BreakpointInfo { id: None, verified: false, line: Some(bkpt.line), column: bkpt.column },
                );
            },
        }
        i += 1;
    }
    assert(requests@.take(requests.len() as int) =~= requests@);
    (answers, sets)
}


/// The instructions that `capstone`, set up for ARM in Thumb mode, finds in
/// `code` placed at `address`: the address of each and its text (address,
/// mnemonic and operands); none when `capstone` fails. It depends on the code
/// and the address alone.
pub uninterp spec fn thumb_disassembly_of(code: Seq<u8>, address: u64) -> Option<Seq<(u64, Seq<char>)>>;

/// `capstone::Capstone::new().arm().mode(Thumb).build()` then `disasm_all`,
/// each instruction taken as its address and its `Display` text: the
/// contract claims only that the outcome is the named function of the code
/// and the address.
#[verifier::external_body]
fn disassemble_thumb(code: &[u8], address: u64) -> (r: Option<Vec<(u64, String)>>)
    ensures
        match thumb_disassembly_of(code@, address) {
            None => r is None,
            Some(s) => r matches Some(v) && v@.len() == s.len() && forall|i: int|
                0 <= i < s.len() ==> (#[trigger] v@[i]).0 == s[i].0 && v@[i].1@ == s[i].1,
        },
{
    let cs = capstone::Capstone::new().arm().mode(capstone::arch::arm::ArchMode::Thumb).build().ok()?;
    let insns = cs.disasm_all(code, address).ok()?;
    let mut v = Vec::new();
    for i in insns.iter() {
        v.push((i.address(), i.to_string()));
    }
    Some(v)
}

/// The instructions found at the program counter, with their addresses cut
/// to 32 bits (see [`thumb_disassembly_of`]).
pub open spec fn code_instructions_of(code: Seq<u8>, pc: u32) -> Option<Seq<(u32, Seq<char>)>> {
    match thumb_disassembly_of(code, pc as u64) {
        None => None,
        Some(s) => Some(Seq::new(s.len(), |i: int| (s[i].0 as u32, s[i].1))),
    }
}

/// The instructions of a disassembly with their addresses cut to 32 bits,
/// in order, each with its text.
pub fn instructions_at_32_bits(insns: &Vec<(u64, String)>) -> (out: Vec<(u32, String)>)
    ensures
        out@.len() == insns@.len(),
        forall|i: int|
            0 <= i < insns@.len() ==> (#[trigger] out@[i]).0 == insns@[i].0 as u32 && out@[i].1 == insns@[i].1,
{
    let mut out: Vec<(u32, String)> = Vec::new();
    let mut i: usize = 0;
    while i < insns.len()
        invariant
            i <= insns.len(),
            out@.len() == i,
            forall|k: int| 0 <= k < i ==> (#[trigger] out@[k]).0 == insns@[k].0 as u32 && out@[k].1 == insns@[k].1,
        decreases insns.len() - i,
    {
        let (a, t) = &insns[i];
        out.push((*a as u32, t.clone()));
        i += 1;
    }
    out
}

/// The instructions in the code read at the program counter `pc`, each with
/// its address and text; none when the code cannot be disassembled.
pub fn code_instructions(code: &[u8], pc: u32) -> (r: Option<Vec<(u32, String)>>)
    ensures
        match code_instructions_of(code@, pc) {
            None => r is None,
            Some(s) => r matches Some(v) && v@.len() == s.len() && forall|i: int|
                0 <= i < s.len() ==> (#[trigger] v@[i]).0 == s[i].0 && v@[i].1@ == s[i].1,
        },
{
    match disassemble_thumb(code, pc as u64) {
        None => None,
        Some(insns) => Some(instructions_at_32_bits(&insns)),
    }
}

} // verus!
