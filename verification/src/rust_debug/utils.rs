//! Whether a program counter lies in an address range of the debug
//! information.
use vstd::prelude::*;

verus! {

/// An address range `[begin, end]` of the debug information.
#[derive(Debug, Clone, Copy, PartialEq, Eq, Structural)]
pub struct Range {
    pub begin: u64,
    pub end: u64,
}

/// Whether `pc` lies in `range`, both ends included.
pub open spec fn pc_in_range(pc: u32, range: Range) -> bool {
    range.begin <= pc && pc <= range.end
}

/// Whether `pc` lies in `range`, both ends included.
pub fn in_range(pc: u32, range: &Range) -> (r: bool)
    ensures
        r == pc_in_range(pc, *range),
{
    range.begin <= pc as u64 && range.end >= pc as u64
}

/// Whether `pc` lies in one of `ranges`: nothing is known when there are no
/// ranges.
pub open spec fn pc_in_ranges(pc: u32, ranges: Seq<Range>) -> Option<bool> {
    if ranges.len() == 0 {
        None
    } else {
        Some(exists|i: int| 0 <= i < ranges.len() && pc_in_range(pc, #[trigger] ranges[i]))
    }
}

/// Whether `pc` lies in one of `ranges`, none when there are no ranges.
pub fn in_ranges(pc: u32, ranges: &Vec<Range>) -> (r: Option<bool>)
    ensures
        r == pc_in_ranges(pc, ranges@),
{
    let mut no_range = true;
    let mut i: usize = 0;
    while i < ranges.len()
        invariant
            i <= ranges.len(),
            no_range == (i == 0),
            forall|j: int| 0 <= j < i ==> !pc_in_range(pc, #[trigger] ranges@[j]),
        decreases ranges.len() - i,
    {
        if in_range(pc, &ranges[i]) {
            return Some(true);
        }
        no_range = false;
        i += 1;
    }
    if no_range {
        return None;
    }
    Some(false)
}


/// Whether the unit with the ranges `ranges` holds `pc`.
pub open spec fn unit_holds(ranges: Seq<Range>, pc: u32) -> bool {
    pc_in_ranges(pc, ranges) == Some(true)
}

/// How many of the units with the ranges `units` hold `pc`.
pub open spec fn units_holding(units: Seq<Vec<Range>>, pc: u32) -> nat
    decreases units.len(),
{
    if units.len() == 0 {
        0
    } else {
        units_holding(units.drop_last(), pc) + if unit_holds(units.last()@, pc) {
            1nat
        } else {
            0nat
        }
    }
}

/// How many of the compilation units, given by their address ranges, hold
/// `pc` (see [`units_holding`]).
pub fn count_units_holding(units: &Vec<Vec<Range>>, pc: u32) -> (n: usize)
    ensures
        n == units_holding(units@, pc),
{
    let mut n: usize = 0;
    let mut i: usize = 0;
    while i < units.len()
        invariant
            i <= units.len(),
            n <= i,
            n == units_holding(units@.take(i as int), pc),
        decreases units.len() - i,
    {
        assert(units@.take(i + 1).drop_last() =~= units@.take(i as int));
        if in_ranges(pc, &units[i]) == Some(true) {
            n += 1;
        }
        i += 1;
    }
    assert(units@.take(units.len() as int) =~= units@);
    n
}

proof fn lemma_holding_none(units: Seq<Vec<Range>>, pc: u32)
    requires
        units_holding(units, pc) == 0,
    ensures
        forall|j: int| 0 <= j < units.len() ==> !unit_holds(#[trigger] units[j]@, pc),
    decreases units.len(),
{
    if units.len() > 0 {
        lemma_holding_none(units.drop_last(), pc);
        assert forall|j: int| 0 <= j < units.len() implies !unit_holds(#[trigger] units[j]@, pc) by {
            if j < units.len() - 1 {
                assert(units.drop_last()[j] == units[j]);
            }
        }
    }
}

/// The compilation unit, of those given by their address ranges, that holds
/// `pc`; none when no unit does. More than one unit holding `pc` is not
/// admitted (see [`count_units_holding`]).
pub fn current_unit(units: &Vec<Vec<Range>>, pc: u32) -> (r: Option<usize>)
    requires
        units_holding(units@, pc) <= 1,
    ensures
        match r {
            Some(i) => i < units@.len() && unit_holds(units@[i as int]@, pc),
            None => forall|j: int| 0 <= j < units@.len() ==> !unit_holds(#[trigger] units@[j]@, pc),
        },
{
    let mut i: usize = 0;
    while i < units.len()
        invariant
            i <= units.len(),
            units_holding(units@.take(i as int), pc) == 0,
            units_holding(units@, pc) <= 1,
        decreases units.len() - i,
    {
        assert(units@.take(i + 1).drop_last() =~= units@.take(i as int));
        if in_ranges(pc, &units[i]) == Some(true) {
            return Some(i);
        }
        i += 1;
    }
    assert(units@.take(units.len() as int) =~= units@);
    proof {
        lemma_holding_none(units@, pc);
    }
    None
}

} // verus!
