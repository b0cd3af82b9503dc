//! A cache of target memory (byte by byte) and register values that the
//! evaluator reads from; what it lacks, the evaluator asks for.
use vstd::prelude::*;
use std::collections::HashMap;

verus! {

broadcast use vstd::std_specs::hash::group_hash_axioms;

/// The memory map `m` after the bytes `bytes` were written from `address` on.
pub open spec fn write_bytes(m: Map<u32, u8>, address: u32, bytes: Seq<u8>) -> Map<u32, u8> {
    Map::new(
        |a: u32| m.contains_key(a) || (address <= a && a < address + bytes.len()),
        |a: u32|
            if address <= a && a < address + bytes.len() {
                bytes[a - address]
            } else {
                m[a]
            },
    )
}

/// Each of the `n` bytes from `address` on is addressable and known.
pub open spec fn all_known(m: Map<u32, u8>, address: u32, n: nat) -> bool {
    forall|j: int| 0 <= j < n ==> address + j <= u32::MAX && #[trigger] m.contains_key((address + j) as u32)
}

/// The `n` bytes from `address` on, if all of them are known (and addressable).
pub open spec fn read_bytes(m: Map<u32, u8>, address: u32, n: nat) -> Option<Seq<u8>> {
    if all_known(m, address, n) {
        Some(Seq::new(n, |j: int| m[(address + j) as u32]))
    } else {
        None
    }
}

/// Reading `n` bytes from `address` walks past the top of the address space
/// while every byte before that point is known.
pub open spec fn read_runs_past_end(m: Map<u32, u8>, address: u32, n: nat) -> bool {
    &&& address + n > u32::MAX + 1
    &&& forall|j: int| 0 <= j <= u32::MAX - address ==> #[trigger] m.contains_key((address + j) as u32)
}

/// The little-endian value of four bytes.
pub open spec fn le_u32(b: Seq<u8>) -> u32 {
    (b[0] + 256 * b[1] + 65536 * b[2] + 16777216 * b[3]) as u32
}

#[derive(Debug, Clone)]
pub struct MemoryAndRegisters {
    pub memory: HashMap<u32, u8>,
    pub registers: HashMap<u16, u32>,
    stashed_registers: Option<HashMap<u16, u32>>,
}

/// The contents of a [`MemoryAndRegisters`]: known memory bytes, known
/// registers, and the register set put aside by `stash_registers`.
pub struct MemoryAndRegistersView {
    pub memory: Map<u32, u8>,
    pub registers: Map<u16, u32>,
    pub stashed: Option<Map<u16, u32>>,
}

impl View for MemoryAndRegisters {
    type V = MemoryAndRegistersView;

    closed spec fn view(&self) -> MemoryAndRegistersView {
        MemoryAndRegistersView {
            memory: self.memory@,
            registers: self.registers@,
            stashed: match self.stashed_registers {
                Some(r) => Some(r@),
                None => None,
            },
        }
    }
}

/// The state after `stash_registers`.
pub open spec fn stash_spec(v: MemoryAndRegistersView) -> MemoryAndRegistersView {
    MemoryAndRegistersView { memory: v.memory, registers: Map::empty(), stashed: Some(v.registers) }
}

/// The state after `pop_stashed_registers`.
pub open spec fn pop_spec(v: MemoryAndRegistersView) -> MemoryAndRegistersView {
    MemoryAndRegistersView {
        memory: v.memory,
        registers: match v.stashed {
            Some(r) => r,
            None => v.registers,
        },
        stashed: None,
    }
}

impl MemoryAndRegisters {
    pub fn new() -> (r: MemoryAndRegisters)
        ensures
            r@.memory == Map::<u32, u8>::empty(),
            r@.registers == Map::<u16, u32>::empty(),
            r@.stashed is None,
    {
        MemoryAndRegisters {
            memory: HashMap::new(),
            registers: HashMap::new(),
            stashed_registers: None,
        }
    }

    /// Records that `value` is stored from `address` on.
    pub fn add_to_memory(&mut self, address: u32, value: Vec<u8>)
        requires
            address + value.len() <= u32::MAX + 1,
        ensures
            final(self)@.memory == write_bytes(old(self)@.memory, address, value@),
            final(self)@.registers == old(self)@.registers,
            final(self)@.stashed == old(self)@.stashed,
    {
        let ghost m0 = self.memory@;
        let mut i: usize = 0;
        while i < value.len()
            invariant
                i <= value.len(),
                address + value.len() <= u32::MAX + 1,
                self.memory@ == write_bytes(m0, address, value@.take(i as int)),
                self.registers@ == old(self)@.registers,
                self.stashed_registers == old(self).stashed_registers,
            decreases value.len() - i,
        {
            self.memory.insert(address + i as u32, value[i]);
            i += 1;
            assert(self.memory@ =~= write_bytes(m0, address, value@.take(i as int)));
        }
        assert(value@.take(value.len() as int) =~= value@);
    }

    /// Records the value of a register.
    pub fn add_to_registers(&mut self, register: u16, value: u32)
        ensures
            final(self)@.registers == old(self)@.registers.insert(register, value),
            final(self)@.memory == old(self)@.memory,
            final(self)@.stashed == old(self)@.stashed,
    {
        self.registers.insert(register, value);
    }

    /// The little-endian word stored at `address`, if its four bytes are known.
    pub fn get_address_value(&self, address: &u32) -> (r: Option<u32>)
        requires
            !read_runs_past_end(self@.memory, *address, 4),
        ensures
            match read_bytes(self@.memory, *address, 4) {
                Some(b) => r == Some(le_u32(b)),
                None => r is None,
            },
    {
        match self.get_addresses(address, 4) {
            Some(b) => {
                let v: u32 = (b[0] as u32) + 256 * (b[1] as u32) + 65536 * (b[2] as u32) + 16777216
                    * (b[3] as u32);
                Some(v)
            },
            None => None,
        }
    }

    /// The `num_bytes` bytes from `address` on, if all of them are known.
    pub fn get_addresses(&self, address: &u32, num_bytes: usize) -> (r: Option<Vec<u8>>)
        requires
            !read_runs_past_end(self@.memory, *address, num_bytes as nat),
        ensures
            match read_bytes(self@.memory, *address, num_bytes as nat) {
                Some(b) => r is Some && r->0@ == b,
                None => r is None,
            },
    {
        match self.try_get_addresses(*address, num_bytes) {
            Ok(r) => r,
            Err(_) => None,
        }
    }

    /// Like `get_addresses`, but reports (as `Err`) the case where reading
    /// would walk past the top of the address space.
    pub fn try_get_addresses(&self, address: u32, num_bytes: usize) -> (r: Result<Option<Vec<u8>>, ()>)
        ensures
            read_runs_past_end(self@.memory, address, num_bytes as nat) <==> r is Err,
            r matches Ok(o) ==> match read_bytes(self@.memory, address, num_bytes as nat) {
                Some(b) => o is Some && o->0@ == b,
                None => o is None,
            },
    {
        let mut result: Vec<u8> = Vec::new();
        let mut i: usize = 0;
        while i < num_bytes
            invariant
                i <= num_bytes,
                address + i <= u32::MAX + 1,
                forall|j: int| 0 <= j < i ==> address + j <= u32::MAX && #[trigger] self@.memory.contains_key(
                    (address + j) as u32,
                ),
                result@ == Seq::new(i as nat, |j: int| self@.memory[(address + j) as u32]),
            decreases num_bytes - i,
        {
            if i as u64 > (u32::MAX - address) as u64 {
                assert(i == u32::MAX - address + 1);
                assert(read_runs_past_end(self@.memory, address, num_bytes as nat));
                return Err(());
            }
            let a: u32 = address + i as u32;
            match self.memory.get(&a) {
                Some(val) => result.push(*val),
                None => {
                    assert(!self@.memory.contains_key((address + i) as u32));
                    assert(!read_runs_past_end(self@.memory, address, num_bytes as nat));
                    return Ok(None);
                },
            }
            i += 1;
            assert(result@ =~= Seq::new(i as nat, |j: int| self@.memory[(address + j) as u32]));
        }
        Ok(Some(result))
    }

    pub fn get_register_value(&self, register: &u16) -> (r: Option<&u32>)
        ensures
            match r {
                Some(v) => self@.registers.contains_key(*register) && self@.registers[*register]
                    == *v,
                None => !self@.registers.contains_key(*register),
            },
    {
        self.registers.get(register)
    }

    /// Forgets all memory, registers and stashed registers.
    pub fn clear(&mut self)
        ensures
            final(self)@.memory == Map::<u32, u8>::empty(),
            final(self)@.registers == Map::<u16, u32>::empty(),
            final(self)@.stashed is None,
    {
        self.memory = HashMap::new();
        self.registers = HashMap::new();
        self.stashed_registers = None;
    }

    /// Puts the current registers aside and starts from an empty register set.
    pub fn stash_registers(&mut self)
        ensures
            final(self)@ == stash_spec(old(self)@),
    {
        self.stashed_registers = Some(self.registers.clone());
        self.registers = HashMap::new();
    }

    /// Brings back the registers put aside by `stash_registers`, if any.
    pub fn pop_stashed_registers(&mut self)
        ensures
            final(self)@ == pop_spec(old(self)@),
    {
        if let Some(registers) = self.stashed_registers.clone() {
            self.registers = registers;
        }
        self.stashed_registers = None;
    }
}

/// Reading back what was written: after `add_to_memory(address, bytes)`,
/// `get_addresses(address, bytes.len())` gives exactly `bytes`.
pub proof fn lemma_read_after_write(m: Map<u32, u8>, address: u32, bytes: Seq<u8>)
    requires
        address + bytes.len() <= u32::MAX + 1,
    ensures
        read_bytes(write_bytes(m, address, bytes), address, bytes.len()) == Some(bytes),
        !read_runs_past_end(write_bytes(m, address, bytes), address, bytes.len()),
{
    let w = write_bytes(m, address, bytes);
    assert forall|j: int| 0 <= j < bytes.len() implies address + j <= u32::MAX
        && #[trigger] w.contains_key((address + j) as u32) by {}
    assert(Seq::new(bytes.len(), |j: int| w[(address + j) as u32]) =~= bytes);
}

/// Writing memory leaves every byte outside the written range as it was.
pub proof fn lemma_write_keeps_other_bytes(m: Map<u32, u8>, address: u32, bytes: Seq<u8>, a: u32)
    requires
        !(address <= a && a < address + bytes.len()),
    ensures
        write_bytes(m, address, bytes).contains_key(a) == m.contains_key(a),
        m.contains_key(a) ==> write_bytes(m, address, bytes)[a] == m[a],
{
}

/// Stashing the registers and popping them again restores the register set
/// and leaves memory untouched, whatever was stashed before.
pub proof fn lemma_stash_then_pop_restores(v: MemoryAndRegistersView)
    ensures
        pop_spec(stash_spec(v)).registers == v.registers,
        pop_spec(stash_spec(v)).memory == v.memory,
        pop_spec(stash_spec(v)).stashed is None,
{
}

/// Popping when nothing is stashed keeps the current registers.
pub proof fn lemma_pop_without_stash_keeps_registers(v: MemoryAndRegistersView)
    requires
        v.stashed is None,
    ensures
        pop_spec(v).registers == v.registers,
{
}


/// A write to the cache: bytes of memory from an address on, or a register.
pub enum CacheWrite {
    Memory { address: u32, bytes: Seq<u8> },
    Register { register: u16, value: u32 },
}

/// The state after one write (see `add_to_memory` and `add_to_registers`).
pub open spec fn apply_write(v: MemoryAndRegistersView, w: CacheWrite) -> MemoryAndRegistersView {
    match w {
        CacheWrite::Memory { address, bytes } => MemoryAndRegistersView {
            memory: write_bytes(v.memory, address, bytes),
            ..v
        },
        CacheWrite::Register { register, value } => MemoryAndRegistersView {
            registers: v.registers.insert(register, value),
            ..v
        },
    }
}

/// The state after the writes `ws`, in order.
pub open spec fn apply_writes(v: MemoryAndRegistersView, ws: Seq<CacheWrite>) -> MemoryAndRegistersView
    decreases ws.len(),
{
    if ws.len() == 0 {
        v
    } else {
        apply_write(apply_writes(v, ws.drop_last()), ws.last())
    }
}

/// The memory after the writes `ws`: registers do not change it.
pub open spec fn written_memory(m: Map<u32, u8>, ws: Seq<CacheWrite>) -> Map<u32, u8>
    decreases ws.len(),
{
    if ws.len() == 0 {
        m
    } else {
        match ws.last() {
            CacheWrite::Memory { address, bytes } => write_bytes(written_memory(m, ws.drop_last()), address, bytes),
            CacheWrite::Register { .. } => written_memory(m, ws.drop_last()),
        }
    }
}

proof fn lemma_writes_keep_stash(v: MemoryAndRegistersView, ws: Seq<CacheWrite>)
    ensures
        apply_writes(v, ws).stashed == v.stashed,
        apply_writes(v, ws).memory == written_memory(v.memory, ws),
    decreases ws.len(),
{
    if ws.len() > 0 {
        lemma_writes_keep_stash(v, ws.drop_last());
    }
}

/// Stashing the registers, then any writes, then popping: the registers are
/// those from before the stash, every memory write made in between is kept,
/// nothing stays stashed, and popping again changes nothing.
pub proof fn lemma_stash_writes_pop(v: MemoryAndRegistersView, ws: Seq<CacheWrite>)
    ensures
        pop_spec(apply_writes(stash_spec(v), ws)).registers == v.registers,
        pop_spec(apply_writes(stash_spec(v), ws)).memory == written_memory(v.memory, ws),
        pop_spec(apply_writes(stash_spec(v), ws)).stashed is None,
        pop_spec(pop_spec(apply_writes(stash_spec(v), ws))) == pop_spec(apply_writes(stash_spec(v), ws)),
{
    lemma_writes_keep_stash(stash_spec(v), ws);
}

} // verus!
