//! A cache of target memory, word by word, and of register values.
use vstd::prelude::*;
use std::collections::HashMap;

verus! {

broadcast use vstd::std_specs::hash::group_hash_axioms;

#[derive(Debug, Clone)]
pub struct MemoryAndRegisters {
    pub memory: HashMap<u32, u32>,
    pub registers: HashMap<u16, u32>,
    stashed_registers: Option<HashMap<u16, u32>>,
}

/// The contents of a [`MemoryAndRegisters`]: known memory words by address,
/// known registers, and the register set put aside by `stash_registers`.
pub struct MemoryAndRegistersView {
    pub memory: Map<u32, u32>,
    pub registers: Map<u16, u32>,
    pub stashed: Option<Map<u16, u32>>,
}

impl View for MemoryAndRegisters {
    type V = MemoryAndRegistersView;

    closed spec fn view(&self) -> MemoryAndRegistersView {
        MemoryAndRegistersView {
            memory: self.memory@,
            registers: self.registers@,
            stashed: match self.stashed_registers {
                Some(r) => Some(r@),
                None => None,
            },
        }
    }
}

/// The state after `stash_registers`.
pub open spec fn stash_spec(v: MemoryAndRegistersView) -> MemoryAndRegistersView {
    MemoryAndRegistersView { memory: v.memory, registers: Map::empty(), stashed: Some(v.registers) }
}

/// The state after `pop_stashed_registers`.
pub open spec fn pop_spec(v: MemoryAndRegistersView) -> MemoryAndRegistersView {
    MemoryAndRegistersView {
        memory: v.memory,
        registers: match v.stashed {
            Some(r) => r,
            None => v.registers,
        },
        stashed: None,
    }
}

impl MemoryAndRegisters {
    pub fn new() -> (r: MemoryAndRegisters)
        ensures
            r@.memory == Map::<u32, u32>::empty(),
            r@.registers == Map::<u16, u32>::empty(),
            r@.stashed is None,
    {
        MemoryAndRegisters {
            memory: HashMap::new(),
            registers: HashMap::new(),
            stashed_registers: None,
        }
    }

    /// Records the word stored at `address`.
    pub fn add_to_memory(&mut self, address: u32, value: u32)
        ensures
            final(self)@.memory == old(self)@.memory.insert(address, value),
            final(self)@.registers == old(self)@.registers,
            final(self)@.stashed == old(self)@.stashed,
    {
        self.memory.insert(address, value);
    }

    /// Records the value of a register.
    pub fn add_to_registers(&mut self, register: u16, value: u32)
        ensures
            final(self)@.registers == old(self)@.registers.insert(register, value),
            final(self)@.memory == old(self)@.memory,
            final(self)@.stashed == old(self)@.stashed,
    {
        self.registers.insert(register, value);
    }

    /// The word stored at `address`, if it is known.
    pub fn get_address_value(&self, address: &u32) -> (r: Option<&u32>)
        ensures
            match r {
                Some(v) => self@.memory.contains_key(*address) && self@.memory[*address] == *v,
                None => !self@.memory.contains_key(*address),
            },
    {
        self.memory.get(address)
    }

    /// The value of `register`, if it is known.
    pub fn get_register_value(&self, register: &u16) -> (r: Option<&u32>)
        ensures
            match r {
                Some(v) => self@.registers.contains_key(*register) && self@.registers[*register]
                    == *v,
                None => !self@.registers.contains_key(*register),
            },
    {
        self.registers.get(register)
    }

    /// Forgets all memory, registers and stashed registers.
    pub fn clear(&mut self)
        ensures
            final(self)@.memory == Map::<u32, u32>::empty(),
            final(self)@.registers == Map::<u16, u32>::empty(),
            final(self)@.stashed is None,
    {
        self.memory = HashMap::new();
        self.registers = HashMap::new();
        self.stashed_registers = None;
    }

    /// Puts the current registers aside and starts from an empty register set.
    pub fn stash_registers(&mut self)
        ensures
            final(self)@ == stash_spec(old(self)@),
    {
        self.stashed_registers = Some(self.registers.clone());
        self.registers = HashMap::new();
    }

    /// Brings back the registers put aside by `stash_registers`, if any.
    pub fn pop_stashed_registers(&mut self)
        ensures
            final(self)@ == pop_spec(old(self)@),
    {
        if let Some(registers) = self.stashed_registers.clone() {
            self.registers = registers;
        }
        self.stashed_registers = None;
    }
}

/// Reading back what was written: after `add_to_memory(address, value)`,
/// `get_address_value(address)` gives `value`, and every other address reads
/// as before.
pub proof fn lemma_word_read_after_write(m: Map<u32, u32>, address: u32, value: u32, other: u32)
    ensures
        m.insert(address, value).contains_key(address),
        m.insert(address, value)[address] == value,
        other != address ==> (m.insert(address, value).contains_key(other) == m.contains_key(other)
            && m.insert(address, value)[other] == m[other]),
{
}

/// Stashing the registers and popping them again restores the register set
/// and leaves memory untouched.
pub proof fn lemma_word_stash_then_pop_restores(v: MemoryAndRegistersView)
    ensures
        pop_spec(stash_spec(v)).registers == v.registers,
        pop_spec(stash_spec(v)).memory == v.memory,
        pop_spec(stash_spec(v)).stashed is None,
{
}


/// A write to the word cache: a memory word or a register.
pub enum WordWrite {
    Memory { address: u32, value: u32 },
    Register { register: u16, value: u32 },
}

/// The state after the writes `ws`, in order (see `add_to_memory` and
/// `add_to_registers`).
pub open spec fn apply_word_writes(v: MemoryAndRegistersView, ws: Seq<WordWrite>) -> MemoryAndRegistersView
    decreases ws.len(),
{
    if ws.len() == 0 {
        v
    } else {
        let u = apply_word_writes(v, ws.drop_last());
        match ws.last() {
            WordWrite::Memory { address, value } => MemoryAndRegistersView {
                memory: u.memory.insert(address, value),
                ..u
            },
            WordWrite::Register { register, value } => MemoryAndRegistersView {
                registers: u.registers.insert(register, value),
                ..u
            },
        }
    }
}

/// The memory after the writes `ws`: registers do not change it.
pub open spec fn written_words(m: Map<u32, u32>, ws: Seq<WordWrite>) -> Map<u32, u32>
    decreases ws.len(),
{
    if ws.len() == 0 {
        m
    } else {
        match ws.last() {
            WordWrite::Memory { address, value } => written_words(m, ws.drop_last()).insert(address, value),
            WordWrite::Register { .. } => written_words(m, ws.drop_last()),
        }
    }
}

proof fn lemma_word_writes_keep_stash(v: MemoryAndRegistersView, ws: Seq<WordWrite>)
    ensures
        apply_word_writes(v, ws).stashed == v.stashed,
        apply_word_writes(v, ws).memory == written_words(v.memory, ws),
    decreases ws.len(),
{
    if ws.len() > 0 {
        lemma_word_writes_keep_stash(v, ws.drop_last());
    }
}

/// Stashing the registers, then any writes, then popping: the registers are
/// those from before the stash, every memory write made in between is kept,
/// nothing stays stashed, and popping again changes nothing.
pub proof fn lemma_word_stash_writes_pop(v: MemoryAndRegistersView, ws: Seq<WordWrite>)
    ensures
        pop_spec(apply_word_writes(stash_spec(v), ws)).registers == v.registers,
        pop_spec(apply_word_writes(stash_spec(v), ws)).memory == written_words(v.memory, ws),
        pop_spec(apply_word_writes(stash_spec(v), ws)).stashed is None,
        pop_spec(pop_spec(apply_word_writes(stash_spec(v), ws))) == pop_spec(
            apply_word_writes(stash_spec(v), ws),
        ),
{
    lemma_word_writes_keep_stash(stash_spec(v), ws);
}

} // verus!
