//! Unwinding of the call stack, one frame at a time, by the rules of the
//! call frame information (DWARF 5, section 6.4.1): each frame's canonical
//! frame address (CFA) and the caller's registers follow from the rules of
//! the row that covers the frame's code location.
use vstd::prelude::*;
use std::collections::HashMap;

verus! {

broadcast use vstd::std_specs::hash::group_hash_axioms;

/// How the caller's value of a register is found.
#[derive(Debug, Clone, Copy, PartialEq, Eq, Structural)]
pub enum RegisterRule {
    Undefined,
    SameValue,
    /// Saved in memory at the CFA plus `offset`.
    Offset { offset: i64 },
    /// The CFA plus `offset`.
    ValOffset { offset: i64 },
    /// Held in another register.
    Register { register: u16 },
    Expression,
    ValExpression,
    Architectural,
}

/// How the CFA is found.
#[derive(Debug, Clone, Copy, PartialEq, Eq, Structural)]
pub enum CfaRule {
    /// A register's value plus `offset`.
    RegisterAndOffset { register: u16, offset: i64 },
    Expression,
}

/// The row of the unwind table that covers a code location: the CFA rule and
/// the rule of each of the 16 core registers.
#[derive(Debug, Clone)]
pub struct UnwindRow {
    pub cfa: CfaRule,
    pub rules: Vec<RegisterRule>,
}

/// A frame of the call stack: its number (0 for the innermost), the registers
/// as they are in it, the code location and the CFA.
#[derive(Debug, Clone)]
pub struct CallFrame {
    pub id: u64,
    pub registers: Vec<Option<u32>>,
    pub code_location: u64,
    pub cfa: u32,
}

/// The unwinder: the next frame's number and code location (none when the
/// stack is done) and the registers as they are in it.
pub struct CallFrameIterator {
    frame_counter: u64,
    code_location: Option<u64>,
    registers: Vec<Option<u32>>,
}

/// What one step of the unwinder gives.
#[derive(Debug, Clone)]
pub enum FrameStep {
    /// No frames are left.
    Done,
    /// The next frame.
    Frame(CallFrame),
    /// The memory word at `address` is needed first.
    RequiresMemory { address: u32 },
}

/// Why a step of the unwinder failed.
#[derive(Debug, Clone, Copy, PartialEq, Eq, Structural)]
pub enum UnwindError {
    /// A rule needs the CFA, and the CFA's register is not known.
    MissingCfa,
}

/// The state of the unwinder.
pub struct CallFrameIteratorView {
    pub frame_counter: u64,
    pub code_location: Option<u64>,
    pub registers: Seq<Option<u32>>,
}

impl View for CallFrameIterator {
    type V = CallFrameIteratorView;

    closed spec fn view(&self) -> CallFrameIteratorView {
        CallFrameIteratorView {
            frame_counter: self.frame_counter,
            code_location: self.code_location,
            registers: self.registers@,
        }
    }
}

/// Whether a register keeps its value across calls when its rule is
/// undefined (the callee-saved registers and the link register).
pub open spec fn kept_when_undefined(i: int) -> bool {
    i == 4 || i == 5 || i == 6 || i == 7 || i == 8 || i == 10 || i == 11 || i == 14
}

/// Whether the CFA rule can be evaluated without a fault.
pub open spec fn cfa_supported(regs: Seq<Option<u32>>, cfa: CfaRule) -> bool {
    match cfa {
        CfaRule::RegisterAndOffset { register, offset } => register < 16 && (regs[register as int] matches Some(
            v,
        ) ==> i64::MIN <= v + offset <= i64::MAX),
        CfaRule::Expression => false,
    }
}

/// The CFA: the rule's register plus its offset, if the register is known.
pub open spec fn cfa_value(regs: Seq<Option<u32>>, cfa: CfaRule) -> Option<u32> {
    match cfa {
        CfaRule::RegisterAndOffset { register, offset } => match regs[register as int] {
            Some(v) => Some((v + offset) as u32),
            None => None,
        },
        CfaRule::Expression => None,
    }
}

/// What a register rule gives.
pub enum RuleOutcome {
    Value(Option<u32>),
    MissingCfa,
    NeedMemory(u32),
    Unsupported,
}

/// The caller's value of register `i` by `rule`, given the callee's registers,
/// the CFA and the known memory words.
pub open spec fn rule_outcome(
    i: int,
    rule: RegisterRule,
    regs: Seq<Option<u32>>,
    cfa: Option<u32>,
    memory: Map<u32, u32>,
) -> RuleOutcome {
    match rule {
        RegisterRule::Undefined => RuleOutcome::Value(
            if kept_when_undefined(i) {
                regs[i]
            } else {
                None
            },
        ),
        RegisterRule::SameValue => RuleOutcome::Value(regs[i]),
        RegisterRule::Offset { offset } => match cfa {
            None => RuleOutcome::MissingCfa,
            Some(c) => if i64::MIN <= offset + c <= i64::MAX {
                let a = (offset + c) as u32;
                if memory.contains_key(a) {
                    RuleOutcome::Value(Some(memory[a]))
                } else {
                    RuleOutcome::NeedMemory(a)
                }
            } else {
                RuleOutcome::Unsupported
            },
        },
        RegisterRule::ValOffset { offset } => match cfa {
            None => RuleOutcome::MissingCfa,
            Some(c) => if i64::MIN <= offset + c <= i64::MAX {
                RuleOutcome::Value(Some((offset + c) as u32))
            } else {
                RuleOutcome::Unsupported
            },
        },
        RegisterRule::Register { register } => if register < 16 {
            RuleOutcome::Value(regs[register as int])
        } else {
            RuleOutcome::Unsupported
        },
        _ => RuleOutcome::Unsupported,
    }
}

/// The caller's registers `0..n` by the rules, in order; the first rule that
/// gives no value decides the outcome.
pub open spec fn unwind_registers(
    n: int,
    rules: Seq<RegisterRule>,
    regs: Seq<Option<u32>>,
    cfa: Option<u32>,
    memory: Map<u32, u32>,
) -> RuleOutcomes
    decreases n,
{
    if n <= 0 {
        RuleOutcomes::Values(Seq::empty())
    } else {
        match unwind_registers(n - 1, rules, regs, cfa, memory) {
            RuleOutcomes::Values(vals) => match rule_outcome(n - 1, rules[n - 1], regs, cfa, memory) {
                RuleOutcome::Value(v) => RuleOutcomes::Values(vals.push(v)),
                RuleOutcome::MissingCfa => RuleOutcomes::MissingCfa,
                RuleOutcome::NeedMemory(a) => RuleOutcomes::NeedMemory(a),
                RuleOutcome::Unsupported => RuleOutcomes::Unsupported,
            },
            other => other,
        }
    }
}

proof fn lemma_unwind_stops(
    k: int,
    n: int,
    rules: Seq<RegisterRule>,
    regs: Seq<Option<u32>>,
    cfa: Option<u32>,
    memory: Map<u32, u32>,
)
    requires
        0 <= k <= n,
        !(unwind_registers(k, rules, regs, cfa, memory) is Values),
    ensures
        unwind_registers(n, rules, regs, cfa, memory) == unwind_registers(k, rules, regs, cfa, memory),
    decreases n - k,
{
    if k < n {
        lemma_unwind_stops(k, n - 1, rules, regs, cfa, memory);
    }
}

/// The rules of a row give one value for each of the registers `0..n`.
pub proof fn lemma_unwind_len(
    n: int,
    rules: Seq<RegisterRule>,
    regs: Seq<Option<u32>>,
    cfa: Option<u32>,
    memory: Map<u32, u32>,
)
    requires
        0 <= n,
    ensures
        unwind_registers(n, rules, regs, cfa, memory) matches RuleOutcomes::Values(v) ==> v.len() == n,
    decreases n,
{
    if n > 0 {
        lemma_unwind_len(n - 1, rules, regs, cfa, memory);
    }
}

/// The unwinder asks only for memory words it does not know: when the rules
/// of a row stop for a word, that word is not among the known ones.
pub proof fn lemma_unwinding_asks_for_unknown_words(
    n: int,
    rules: Seq<RegisterRule>,
    regs: Seq<Option<u32>>,
    cfa: Option<u32>,
    memory: Map<u32, u32>,
)
    ensures
        unwind_registers(n, rules, regs, cfa, memory) matches RuleOutcomes::NeedMemory(a)
            ==> !memory.contains_key(a),
    decreases n,
{
    if n > 0 {
        lemma_unwinding_asks_for_unknown_words(n - 1, rules, regs, cfa, memory);
    }
}

/// A frame of the call stack, its registers taken as a sequence.
pub struct CallFrameView {
    pub id: u64,
    pub registers: Seq<Option<u32>>,
    pub code_location: u64,
    pub cfa: u32,
}

/// What one step of the unwinder gives (see [`FrameStep`] and
/// [`UnwindError`]); `Unsupported` stands for the steps that fault.
pub enum StepView {
    Done,
    Frame(CallFrameView),
    RequiresMemory(u32),
    MissingCfa,
    Unsupported,
}

/// The step that `next` returns, taken as a [`StepView`].
pub open spec fn step_view(r: Result<FrameStep, UnwindError>) -> StepView {
    match r {
        Ok(FrameStep::Done) => StepView::Done,
        Ok(FrameStep::Frame(f)) => StepView::Frame(
            CallFrameView { id: f.id, registers: f.registers@, code_location: f.code_location, cfa: f.cfa },
        ),
        Ok(FrameStep::RequiresMemory { address }) => StepView::RequiresMemory(address),
        Err(UnwindError::MissingCfa) => StepView::MissingCfa,
    }
}

/// One step of the unwinder from the state `v` with the row (`cfa`,
/// `rules`) that covers its code location and the known memory words: the
/// step and the state after it.
pub open spec fn unwind_step(
    v: CallFrameIteratorView,
    cfa: CfaRule,
    rules: Seq<RegisterRule>,
    memory: Map<u32, u32>,
) -> (StepView, CallFrameIteratorView) {
    match v.code_location {
        None => (StepView::Done, v),
        Some(loc) => {
            let c = cfa_value(v.registers, cfa);
            match unwind_registers(16, rules, v.registers, c, memory) {
                RuleOutcomes::MissingCfa => (StepView::MissingCfa, v),
                RuleOutcomes::NeedMemory(a) => (StepView::RequiresMemory(a), v),
                RuleOutcomes::Unsupported => (StepView::Unsupported, v),
                RuleOutcomes::Values(vals) => {
                    let new_regs = vals.update(13, c);
                    (
                        StepView::Frame(
                            CallFrameView {
                                id: v.frame_counter,
                                registers: new_regs,
                                code_location: loc,
                                cfa: c->Some_0,
                            },
                        ),
                        CallFrameIteratorView {
                            frame_counter: (v.frame_counter + 1) as u64,
                            code_location: match new_regs[14] {
                                Some(lr) => Some(lr as u64),
                                None => None::<u64>,
                            },
                            registers: new_regs,
                        },
                    )
                },
            }
        },
    }
}

/// Unwinding across steps: a frame is numbered by the unwinder's counter,
/// sits at its code location, has the 16 registers with the CFA as its stack
/// pointer; the next frame is numbered one higher and sits at this frame's
/// return address (register 14); when this frame has no return address,
/// every later step is `Done` and changes nothing. Asking for memory or
/// missing the CFA leaves the unwinder as it was.
pub proof fn lemma_unwinding_across_steps(
    v: CallFrameIteratorView,
    cfa1: CfaRule,
    rules1: Seq<RegisterRule>,
    memory1: Map<u32, u32>,
    cfa2: CfaRule,
    rules2: Seq<RegisterRule>,
    memory2: Map<u32, u32>,
)
    requires
        v.registers.len() == 16,
        v.code_location is Some ==> !step_faults(v.registers, cfa1, rules1, memory1),
        v.code_location is Some ==> v.frame_counter < u64::MAX,
    ensures
        ({
            let (s1, v1) = unwind_step(v, cfa1, rules1, memory1);
            let (s2, v2) = unwind_step(v1, cfa2, rules2, memory2);
            &&& (s1 is RequiresMemory || s1 is MissingCfa) ==> v1 == v
            &&& s1 is Done <==> v.code_location is None
            &&& s1 is Done ==> v1 == v
            &&& s1 matches StepView::Frame(f1) ==> {
                &&& f1.id == v.frame_counter
                &&& Some(f1.code_location) == v.code_location
                &&& f1.registers.len() == 16
                &&& f1.registers[13] == Some(f1.cfa)
                &&& v1.frame_counter == f1.id + 1
                &&& v1.registers == f1.registers
                &&& (s2 matches StepView::Frame(f2) ==> f2.id == f1.id + 1 && Some(f2.code_location)
                    == match f1.registers[14] {
                    Some(lr) => Some(lr as u64),
                    None => None::<u64>,
                })
                &&& (f1.registers[14] is None ==> s2 is Done && v2 == v1)
            }
        }),
{
    if let Some(loc) = v.code_location {
        let c = cfa_value(v.registers, cfa1);
        lemma_unwind_len(16, rules1, v.registers, c, memory1);
    }
}

/// What the rules of a row give together.
pub enum RuleOutcomes {
    Values(Seq<Option<u32>>),
    MissingCfa,
    NeedMemory(u32),
    Unsupported,
}

/// Whether a step from `regs` by `row` faults: a rule that the unwinder does
/// not handle, or a frame whose CFA is unknown.
pub open spec fn step_faults(
    regs: Seq<Option<u32>>,
    cfa: CfaRule,
    rules: Seq<RegisterRule>,
    memory: Map<u32, u32>,
) -> bool {
    ||| !cfa_supported(regs, cfa)
    ||| unwind_registers(16, rules, regs, cfa_value(regs, cfa), memory) is Unsupported
    ||| (unwind_registers(16, rules, regs, cfa_value(regs, cfa), memory) is Values && cfa_value(
        regs,
        cfa,
    ) is None)
}

impl CallFrameIterator {
    /// Whether the unwinder's registers are the 16 core registers.
    pub closed spec fn wf(&self) -> bool {
        self.registers@.len() == 16
    }

    /// Starts the unwinding at the program counter `pc` with the core's
    /// registers.
    pub fn new(pc: u32, registers: Vec<Option<u32>>) -> (it: CallFrameIterator)
        requires
            registers@.len() == 16,
        ensures
            it.wf(),
            it@.frame_counter == 0,
            it@.code_location == Some(pc as u64),
            it@.registers == registers@,
    {
        CallFrameIterator { frame_counter: 0, code_location: Some(pc as u64), registers }
    }

    /// Whether stepping with `row` and the memory words `memory` faults.
    pub fn step_faults(&self, row: &UnwindRow, memory: &HashMap<u32, u32>) -> (r: bool)
        requires
            self.wf(),
            row.rules@.len() == 16,
        ensures
            r == step_faults(self@.registers, row.cfa, row.rules@, memory@),
    {
        if !self.cfa_supported(row.cfa) {
            return true;
        }
        let cfa = self.eval_cfa(row.cfa);
        match self.unwind_rules(row, cfa, memory) {
            Ok(Ok(_)) => cfa.is_none(),
            Ok(Err(_)) => false,
            Err(unsupported) => unsupported,
        }
    }

    fn cfa_supported(&self, cfa: CfaRule) -> (r: bool)
        requires
            self.wf(),
        ensures
            r == cfa_supported(self@.registers, cfa),
    {
        match cfa {
            CfaRule::RegisterAndOffset { register, offset } => {
                if register >= 16 {
                    return false;
                }
                match self.registers[register as usize] {
                    Some(v) => {
                        let v = v as i64;
                        if offset >= 0 {
                            offset <= i64::MAX - v
                        } else {
                            true
                        }
                    },
                    None => true,
                }
            },
            CfaRule::Expression => false,
        }
    }

    fn eval_cfa(&self, cfa: CfaRule) -> (r: Option<u32>)
        requires
            self.wf(),
            cfa_supported(self@.registers, cfa),
        ensures
            r == cfa_value(self@.registers, cfa),
    {
        match cfa {
            CfaRule::RegisterAndOffset { register, offset } => match self.registers[register as usize] {
                Some(v) => Some((v as i64 + offset) as u32),
                None => None,
            },
            CfaRule::Expression => None,
        }
    }

    /// The rules' values in order; `Ok(Err(..))` when a rule waits for memory
    /// or lacks the CFA, `Err(true)` when a rule is not handled.
    fn unwind_rules(&self, row: &UnwindRow, cfa: Option<u32>, memory: &HashMap<u32, u32>) -> (r: Result<
        Result<Vec<Option<u32>>, FrameFault>,
        bool,
    >)
        requires
            self.wf(),
            row.rules@.len() == 16,
        ensures
            match unwind_registers(16, row.rules@, self@.registers, cfa, memory@) {
                RuleOutcomes::Values(vals) => r matches Ok(Ok(v)) && v@ == vals,
                RuleOutcomes::MissingCfa => r == Ok::<Result<Vec<Option<u32>>, FrameFault>, bool>(
                    Err(FrameFault::MissingCfa),
                ),
                RuleOutcomes::NeedMemory(a) => r == Ok::<Result<Vec<Option<u32>>, FrameFault>, bool>(
                    Err(FrameFault::NeedMemory { address: a }),
                ),
                RuleOutcomes::Unsupported => r == Err::<Result<Vec<Option<u32>>, FrameFault>, bool>(
                    true,
                ),
            },
    {
        let mut vals: Vec<Option<u32>> = Vec::new();
        let mut i: usize = 0;
        while i < 16
            invariant
                i <= 16,
                self.wf(),
                row.rules@.len() == 16,
                unwind_registers(i as int, row.rules@, self@.registers, cfa, memory@) == RuleOutcomes::Values(
                    vals@,
                ),
            decreases 16 - i,
        {
            let v: Option<u32> = match row.rules[i] {
                RegisterRule::Undefined => {
                    if i == 4 || i == 5 || i == 6 || i == 7 || i == 8 || i == 10 || i == 11 || i
                        == 14 {
                        self.registers[i]
                    } else {
                        None
                    }
                },
                RegisterRule::SameValue => self.registers[i],
                RegisterRule::Offset { offset } => match cfa {
                    None => {
                        proof {
                            lemma_unwind_stops(i + 1, 16, row.rules@, self@.registers, cfa, memory@);
                        }
                        return Ok(Err(FrameFault::MissingCfa));
                    },
                    Some(c) => {
                        if offset > i64::MAX - c as i64 {
                            proof {
                                lemma_unwind_stops(i + 1, 16, row.rules@, self@.registers, cfa, memory@);
                            }
                            return Err(true);
                        }
                        let a = (offset + c as i64) as u32;
                        match memory.get(&a) {
                            Some(w) => Some(*w),
                            None => {
                                proof {
                                    lemma_unwind_stops(i + 1, 16, row.rules@, self@.registers, cfa, memory@);
                                }
                                return Ok(Err(FrameFault::NeedMemory { address: a }));
                            },
                        }
                    },
                },
                RegisterRule::ValOffset { offset } => match cfa {
                    None => {
                        proof {
                            lemma_unwind_stops(i + 1, 16, row.rules@, self@.registers, cfa, memory@);
                        }
                        return Ok(Err(FrameFault::MissingCfa));
                    },
                    Some(c) => {
                        if offset > i64::MAX - c as i64 {
                            proof {
                                lemma_unwind_stops(i + 1, 16, row.rules@, self@.registers, cfa, memory@);
                            }
                            return Err(true);
                        }
                        Some((offset + c as i64) as u32)
                    },
                },
                RegisterRule::Register { register } => {
                    if register >= 16 {
                        proof {
                            lemma_unwind_stops(i + 1, 16, row.rules@, self@.registers, cfa, memory@);
                        }
                        return Err(true);
                    }
                    self.registers[register as usize]
                },
                _ => {
                    proof {
                        lemma_unwind_stops(i + 1, 16, row.rules@, self@.registers, cfa, memory@);
                    }
                    return Err(true);
                },
            };
            vals.push(v);
            i += 1;
        }
        Ok(Ok(vals))
    }

    /// Unwinds one frame: the frame at the current code location, with the
    /// caller's registers by the rules of `row` (the row that covers the code
    /// location) and the memory words in `memory`.
    pub fn next(&mut self, row: &UnwindRow, memory: &HashMap<u32, u32>) -> (r: Result<
        FrameStep,
        UnwindError,
    >)
        requires
            old(self).wf(),
            row.rules@.len() == 16,
            old(self)@.code_location is Some ==> old(self)@.frame_counter < u64::MAX,
            old(self)@.code_location is Some ==> !step_faults(
                old(self)@.registers,
                row.cfa,
                row.rules@,
                memory@,
            ),
        ensures
            final(self).wf(),
            (step_view(r), final(self)@) == unwind_step(old(self)@, row.cfa, row.rules@, memory@),
            r matches Ok(FrameStep::Frame(f)) ==> f.registers@.len() == 16,
            match old(self)@.code_location {
                None => r matches Ok(FrameStep::Done) && final(self)@ == old(self)@,
                Some(loc) => {
                    let regs = old(self)@.registers;
                    let cfa = cfa_value(regs, row.cfa);
                    match unwind_registers(16, row.rules@, regs, cfa, memory@) {
                        RuleOutcomes::MissingCfa => r == Err::<FrameStep, UnwindError>(
                            UnwindError::MissingCfa,
                        ) && final(self)@ == old(self)@,
                        RuleOutcomes::NeedMemory(a) => r matches Ok(FrameStep::RequiresMemory { address }) && address == a
                            && !memory@.contains_key(address) && final(self)@ == old(self)@,
                        RuleOutcomes::Values(vals) => {
                            let new_regs = vals.update(13, cfa);
                            &&& r matches Ok(FrameStep::Frame(f))
                            &&& f.id == old(self)@.frame_counter
                            &&& f.registers@ == new_regs
                            &&& f.code_location == loc
                            &&& Some(f.cfa) == cfa
                            &&& final(self)@.frame_counter == old(self)@.frame_counter + 1
                            &&& final(self)@.registers == new_regs
                            &&& final(self)@.code_location == match new_regs[14] {
                                Some(lr) => Some(lr as u64),
                                None => None::<u64>,
                            }
                        },
                        RuleOutcomes::Unsupported => false,
                    }
                },
            },
    {
        let code_location = match self.code_location {
            Some(val) => val,
            None => return Ok(FrameStep::Done),
        };
        let cfa = self.eval_cfa(row.cfa);
        proof {
            lemma_unwind_len(16, row.rules@, self@.registers, cfa, memory@);
            lemma_unwinding_asks_for_unknown_words(16, row.rules@, self@.registers, cfa, memory@);
        }
        let mut registers = match self.unwind_rules(row, cfa, memory) {
            Ok(Ok(v)) => v,
            Ok(Err(FrameFault::MissingCfa)) => return Err(UnwindError::MissingCfa),
            Ok(Err(FrameFault::NeedMemory { address })) => return Ok(
                FrameStep::RequiresMemory { address },
            ),
            Err(_) => return Err(UnwindError::MissingCfa),
        };
        registers.set(13, cfa);
        let cfa_val = match cfa {
            Some(c) => c,
            None => return Err(UnwindError::MissingCfa),
        };
        let frame = CallFrame {
            id: self.frame_counter,
            registers: copy_registers(&registers),
            code_location,
            cfa: cfa_val,
        };
        self.frame_counter = self.frame_counter + 1;
        self.code_location = match registers[14] {
            Some(lr) => Some(lr as u64),
            None => None,
        };
        self.registers = registers;
        Ok(FrameStep::Frame(frame))
    }
}

fn copy_registers(v: &Vec<Option<u32>>) -> (r: Vec<Option<u32>>)
    ensures
        r@ == v@,
{
    let mut r: Vec<Option<u32>> = Vec::new();
    let mut i: usize = 0;
    while i < v.len()
        invariant
            i <= v.len(),
            r@ == v@.take(i as int),
        decreases v.len() - i,
    {
        r.push(v[i]);
        i += 1;
        assert(v@.take(i as int) =~= v@.take(i - 1).push(v@[i - 1]));
    }
    assert(v@.take(v.len() as int) =~= v@);
    r
}

/// Why the rules of a row gave no values.
pub enum FrameFault {
    MissingCfa,
    NeedMemory { address: u32 },
}


proof fn lemma_unwind_values(
    n: int,
    rules: Seq<RegisterRule>,
    regs: Seq<Option<u32>>,
    cfa: Option<u32>,
    memory: Map<u32, u32>,
)
    requires
        0 <= n,
    ensures
        unwind_registers(n, rules, regs, cfa, memory) matches RuleOutcomes::Values(vals) ==> vals.len() == n
            && forall|i: int| 0 <= i < n ==> #[trigger] rule_outcome(i, rules[i], regs, cfa, memory)
            == RuleOutcome::Value(vals[i]),
    decreases n,
{
    if n > 0 {
        lemma_unwind_values(n - 1, rules, regs, cfa, memory);
    }
}

/// What each register rule gives the caller, when a row's rules give the
/// caller's registers: an undefined rule keeps the callee's value of the
/// callee-saved registers r4-r8, r10, r11 and of the link register r14 (so
/// the return address survives) and leaves the others unknown; "same value"
/// keeps the callee's value; "offset" reads the memory word at the CFA plus
/// the offset; "value offset" is the CFA plus the offset; "register" copies
/// another of the 16 registers.
pub proof fn lemma_caller_registers_by_rule(
    rules: Seq<RegisterRule>,
    regs: Seq<Option<u32>>,
    cfa: Option<u32>,
    memory: Map<u32, u32>,
    i: int,
)
    requires
        0 <= i < 16,
    ensures
        unwind_registers(16, rules, regs, cfa, memory) matches RuleOutcomes::Values(vals) ==> match rules[i] {
            RegisterRule::Undefined => vals[i] == if i == 4 || i == 5 || i == 6 || i == 7 || i == 8 || i == 10
                || i == 11 || i == 14 {
                regs[i]
            } else {
                None::<u32>
            },
            RegisterRule::SameValue => vals[i] == regs[i],
            RegisterRule::Offset { offset } => cfa matches Some(c) && memory.contains_key((c + offset) as u32)
                && vals[i] == Some(memory[(c + offset) as u32]),
            RegisterRule::ValOffset { offset } => cfa matches Some(c) && vals[i] == Some((c + offset) as u32),
            RegisterRule::Register { register } => register < 16 && vals[i] == regs[register as int],
            _ => false,
        },
{
    lemma_unwind_values(16, rules, regs, cfa, memory);
    if unwind_registers(16, rules, regs, cfa, memory) is Values {
        assert(rule_outcome(i, rules[i], regs, cfa, memory) is Value);
    }
}

/// An undefined rule for the link register keeps the return address: the
/// frame that a step gives has the callee's r14, and the unwinder goes on at
/// that address.
pub proof fn lemma_undefined_link_register_keeps_return_address(
    v: CallFrameIteratorView,
    cfa: CfaRule,
    rules: Seq<RegisterRule>,
    memory: Map<u32, u32>,
)
    requires
        v.registers.len() == 16,
        rules[14] is Undefined,
    ensures
        unwind_step(v, cfa, rules, memory) matches (StepView::Frame(f), v1) ==> f.registers[14] == v.registers[14]
            && v1.code_location == match v.registers[14] {
            Some(lr) => Some(lr as u64),
            None => None::<u64>,
        },
{
    if let Some(loc) = v.code_location {
        let c = cfa_value(v.registers, cfa);
        lemma_caller_registers_by_rule(rules, v.registers, c, memory, 14);
        lemma_unwind_len(16, rules, v.registers, c, memory);
    }
}


/// The CFA of a frame is the value of the CFA rule's register plus the
/// rule's offset, and it becomes the caller's stack pointer (r13).
pub proof fn lemma_frame_cfa(
    v: CallFrameIteratorView,
    register: u16,
    offset: i64,
    rules: Seq<RegisterRule>,
    memory: Map<u32, u32>,
)
    requires
        v.registers.len() == 16,
        (register as int) < 16,
    ensures
        unwind_step(v, CfaRule::RegisterAndOffset { register, offset }, rules, memory) matches (StepView::Frame(f), v1)
            ==> (v.registers[register as int] matches Some(x) ==> f.cfa == (x + offset) as u32
            && f.registers[13] == Some(f.cfa) && v1.registers[13] == Some(f.cfa)),
{
    if let Some(loc) = v.code_location {
        let c = cfa_value(v.registers, CfaRule::RegisterAndOffset { register, offset });
        lemma_unwind_len(16, rules, v.registers, c, memory);
    }
}

} // verus!
