//! The frames of a stack trace, and how the function of a frame is found
//! among the debug information entries of its compilation unit.
use vstd::prelude::*;
use crate::debugger::stacktrace::CallFrame;
use crate::debugger::variable::Variable;
use crate::rust_debug::source_information::SourceInformation;
use crate::rust_debug::evaluate::value::{BaseValue, EvaluatorValue, ValueView};
use crate::command_table::chars_eq;
use crate::text::str_chars;

verus! {

/// A frame of a stack trace: the unwound frame, its function's name, where
/// the function was declared and the values of its variables.
#[derive(Debug, Clone)]
pub struct StackFrame {
    pub call_frame: CallFrame,
    pub name: String,
    pub source: SourceInformation,
    pub variables: Vec<Variable>,
}

/// An entry of a depth-first walk of a unit's debug information entries
/// (after the unit's own entry): the change of depth from the entry before,
/// whether it is a subprogram or an inlined subroutine, whether its ranges
/// hold the address that is looked for (none when it has no ranges), and its
/// offset in the unit.
#[derive(Debug, Clone, Copy, PartialEq, Eq, Structural)]
pub struct DfsEntry {
    pub depth_delta: i64,
    pub is_function: bool,
    pub in_range: Option<bool>,
    pub offset: usize,
}

/// The depth after the first `k` entries of the walk.
pub open spec fn depth_after(entries: Seq<DfsEntry>, k: int) -> int
    decreases k,
{
    if k <= 0 {
        0
    } else {
        depth_after(entries, k - 1) + entries[k - 1].depth_delta
    }
}

/// The number of entries the walk visits before it comes back to the unit's
/// level: the first entry at which the depth is no longer positive ends it.
pub open spec fn walk_len(entries: Seq<DfsEntry>, k: int) -> int
    decreases entries.len() - k,
{
    if k >= entries.len() {
        entries.len() as int
    } else if depth_after(entries, k + 1) <= 0 {
        k
    } else {
        walk_len(entries, k + 1)
    }
}

/// The function entries found among the first `k` entries of the walk: the
/// least depth at which a function entry holds the address, and the offsets of
/// the function entries at that depth that hold it, in order.
pub open spec fn found_functions(entries: Seq<DfsEntry>, k: int) -> (Option<int>, Seq<usize>)
    decreases k,
{
    if k <= 0 {
        (None, Seq::empty())
    } else {
        let (best, dies) = found_functions(entries, k - 1);
        let e = entries[k - 1];
        let depth = depth_after(entries, k);
        if e.is_function && e.in_range == Some(true) {
            match best {
                Some(b) => if b > depth {
                    (Some(depth), seq![e.offset])
                } else if b == depth {
                    (best, dies.push(e.offset))
                } else {
                    (best, dies)
                },
                None => (Some(depth), seq![e.offset]),
            }
        } else {
            (best, dies)
        }
    }
}

/// The offsets of the outermost function entries that hold the address.
pub open spec fn function_dies(entries: Seq<DfsEntry>) -> Seq<usize> {
    found_functions(entries, walk_len(entries, 0)).1
}

proof fn lemma_walk_len(entries: Seq<DfsEntry>, k: int, i: int)
    requires
        0 <= k <= i <= entries.len(),
        forall|j: int| 0 < j <= i ==> depth_after(entries, j) > 0,
    ensures
        walk_len(entries, k) == walk_len(entries, i),
    decreases i - k,
{
    if k < i {
        assert(depth_after(entries, k + 1) > 0);
        lemma_walk_len(entries, k + 1, i);
    }
}

/// The offsets of the outermost subprogram or inlined-subroutine entries
/// whose ranges hold the address, in the order of the walk.
pub fn select_function_dies(entries: &Vec<DfsEntry>) -> (dies: Vec<usize>)
    requires
        forall|k: int| 0 <= k <= entries.len() ==> i64::MIN <= #[trigger] depth_after(entries@, k) <= i64::MAX,
    ensures
        dies@ == function_dies(entries@),
{
    let mut depth: i64 = 0;
    let mut best: Option<i64> = None;
    let mut dies: Vec<usize> = Vec::new();
    let mut i: usize = 0;
    while i < entries.len()
        invariant
            i <= entries.len(),
            forall|k: int| 0 <= k <= entries.len() ==> i64::MIN <= #[trigger] depth_after(entries@, k) <= i64::MAX,
            depth == depth_after(entries@, i as int),
            best is None ==> dies@.len() == 0,
            forall|j: int| 0 < j <= i ==> depth_after(entries@, j) > 0,
            (match best {
                Some(b) => Some(b as int),
                None => None::<int>,
            }, dies@) == found_functions(entries@, i as int),
        ensures
            i == entries.len() || depth_after(entries@, i + 1) <= 0,
        decreases entries.len() - i,
    {
        let e = entries[i];
        assert(i64::MIN <= depth_after(entries@, i + 1) <= i64::MAX);
        let next_depth = depth + e.depth_delta;
        if next_depth <= 0 {
            break;
        }
        depth = next_depth;
        if e.is_function && e.in_range == Some(true) {
            match best {
                Some(b) => {
                    if b > depth {
                        best = Some(depth);
                        dies = Vec::new();
                        dies.push(e.offset);
                        assert(dies@ =~= seq![e.offset]);
                    } else if b == depth {
                        dies.push(e.offset);
                    }
                },
                None => {
                    best = Some(depth);
                    dies.push(e.offset);
                    assert(dies@ =~= seq![e.offset]);
                },
            }
        }
        i += 1;
    }
    proof {
        lemma_walk_len(entries@, 0, i as int);
    }
    dies
}

/// The offset of the function entry whose ranges hold the address: the one
/// outermost subprogram or inlined subroutine that does.
pub fn find_function_die(entries: &Vec<DfsEntry>) -> (offset: usize)
    requires
        forall|k: int| 0 <= k <= entries.len() ==> i64::MIN <= #[trigger] depth_after(entries@, k) <= i64::MAX,
        function_dies(entries@).len() == 1,
    ensures
        offset == function_dies(entries@)[0],
{
    let dies = select_function_dies(entries);
    dies[0]
}


/// An entry of a depth-first walk of a function's debug information entries
/// (the function's own entry first, at depth 0): its depth, whether it is a
/// variable, a formal parameter or a constant, whether its ranges hold the
/// program counter (none when it has no ranges), its name (through its
/// abstract origin where it has none of its own) and its offset in the unit.
#[derive(Debug, Clone)]
pub struct ScopeEntry {
    pub depth: u32,
    pub is_variable: bool,
    pub in_range: Option<bool>,
    pub name: Option<String>,
    pub offset: usize,
}

/// The positions, from entry `i` on, of the variable entries that the walk
/// visits: an entry whose ranges do not hold the program counter is left out
/// with every entry below it; `skip` is the depth of such an entry whose
/// subtree the walk is in.
pub open spec fn visited_variables(entries: Seq<ScopeEntry>, i: int, skip: Option<u32>) -> Seq<int>
    decreases entries.len() - i,
{
    if i < 0 || i >= entries.len() {
        Seq::empty()
    } else {
        let e = entries[i];
        if skip matches Some(d) && e.depth > d {
            visited_variables(entries, i + 1, skip)
        } else if e.in_range == Some(false) {
            visited_variables(entries, i + 1, Some(e.depth))
        } else if e.is_variable {
            seq![i] + visited_variables(entries, i + 1, None)
        } else {
            visited_variables(entries, i + 1, None)
        }
    }
}

proof fn lemma_visited_in_range(entries: Seq<ScopeEntry>, i: int, skip: Option<u32>)
    requires
        0 <= i,
    ensures
        forall|k: int|
            0 <= k < visited_variables(entries, i, skip).len() ==> i <= #[trigger] visited_variables(
                entries,
                i,
                skip,
            )[k] < entries.len(),
    decreases entries.len() - i,
{
    if i < entries.len() {
        let e = entries[i];
        let all = visited_variables(entries, i, skip);
        let next_skip = if skip matches Some(d) && e.depth > d {
            skip
        } else if e.in_range == Some(false) {
            Some(e.depth)
        } else {
            None
        };
        lemma_visited_in_range(entries, i + 1, next_skip);
        let rest = visited_variables(entries, i + 1, next_skip);
        assert forall|k: int| 0 <= k < all.len() implies i <= #[trigger] all[k] < entries.len() by {
            if !(skip matches Some(d) && e.depth > d) && e.in_range != Some(false) && e.is_variable {
                assert(all == seq![i] + rest);
                if k > 0 {
                    assert(all[k] == rest[k - 1]);
                }
            } else {
                assert(all == rest);
                assert(i + 1 <= rest[k]);
            }
        }
    }
}

/// The positions of the variable entries of a function's scope that the
/// walk visits.
pub open spec fn scope_variables_spec(entries: Seq<ScopeEntry>) -> Seq<int> {
    visited_variables(entries, 0, None)
}

/// The positions among `ps` whose entry is named `name`, in order.
pub open spec fn named_positions(entries: Seq<ScopeEntry>, ps: Seq<int>, name: Seq<char>) -> Seq<int>
    decreases ps.len(),
{
    if ps.len() == 0 {
        Seq::empty()
    } else {
        let rest = named_positions(entries, ps.drop_last(), name);
        if entries[ps.last()].name matches Some(n) && n@ == name {
            rest.push(ps.last())
        } else {
            rest
        }
    }
}

fn visited_variable_positions(entries: &Vec<ScopeEntry>) -> (v: Vec<usize>)
    ensures
        v@.len() == scope_variables_spec(entries@).len(),
        forall|k: int| 0 <= k < v@.len() ==> #[trigger] v@[k] as int == scope_variables_spec(entries@)[k],
        forall|k: int| 0 <= k < v@.len() ==> #[trigger] v@[k] < entries@.len(),
{
    let mut v: Vec<usize> = Vec::new();
    let mut skip: Option<u32> = None;
    let mut i: usize = 0;
    proof {
        lemma_visited_in_range(entries@, 0, None);
    }
    while i < entries.len()
        invariant
            i <= entries@.len(),
            forall|k: int| 0 <= k < v@.len() ==> #[trigger] v@[k] < entries@.len(),
            Seq::new(v@.len(), |k: int| v@[k] as int) + visited_variables(entries@, i as int, skip)
                == scope_variables_spec(entries@),
        decreases entries@.len() - i,
    {
        let ghost before = Seq::new(v@.len(), |k: int| v@[k] as int);
        let e = &entries[i];
        let skipped = match skip {
            Some(d) => e.depth > d,
            None => false,
        };
        if skipped {
        } else if e.in_range == Some(false) {
            skip = Some(e.depth);
        } else {
            if e.is_variable {
                v.push(i);
                assert(Seq::new(v@.len(), |k: int| v@[k] as int) =~= before.push(i as int));
                assert(before + (seq![i as int] + visited_variables(entries@, i + 1, None)) =~= before.push(
                    i as int,
                ) + visited_variables(entries@, i + 1, None));
            }
            skip = None;
        }
        i += 1;
    }
    proof {
        assert(Seq::new(v@.len(), |k: int| v@[k] as int) + visited_variables(entries@, i as int, skip)
            =~= Seq::new(v@.len(), |k: int| v@[k] as int));
    }
    v
}

/// The offsets of the variables, formal parameters and constants of a
/// function's scope, in the order of the walk, leaving out every entry
/// below one whose ranges do not hold the program counter.
pub fn scope_variables(entries: &Vec<ScopeEntry>) -> (v: Vec<usize>)
    ensures
        v@.len() == scope_variables_spec(entries@).len(),
        forall|k: int|
            0 <= k < v@.len() ==> #[trigger] v@[k] == entries@[scope_variables_spec(entries@)[k]].offset,
{
    let ps = visited_variable_positions(entries);
    let mut v: Vec<usize> = Vec::new();
    let mut k: usize = 0;
    while k < ps.len()
        invariant
            k <= ps@.len(),
            ps@.len() == scope_variables_spec(entries@).len(),
            forall|j: int| 0 <= j < ps@.len() ==> #[trigger] ps@[j] as int == scope_variables_spec(entries@)[j],
            forall|j: int| 0 <= j < ps@.len() ==> #[trigger] ps@[j] < entries@.len(),
            v@.len() == k,
            forall|j: int| 0 <= j < k ==> #[trigger] v@[j] == entries@[scope_variables_spec(entries@)[j]].offset,
        decreases ps@.len() - k,
    {
        v.push(entries[ps[k]].offset);
        k += 1;
    }
    v
}

/// The offsets of the visited variables named `name` (see
/// [`scope_variables`]), in the order of the walk: the candidates for a
/// variable looked up by name.
pub fn variables_named(entries: &Vec<ScopeEntry>, name: &str) -> (v: Vec<usize>)
    ensures
        v@.len() == named_positions(entries@, scope_variables_spec(entries@), name@).len(),
        forall|k: int|
            0 <= k < v@.len() ==> #[trigger] v@[k] == entries@[named_positions(
                entries@,
                scope_variables_spec(entries@),
                name@,
            )[k]].offset,
{
    let ps = visited_variable_positions(entries);
    let ghost all = scope_variables_spec(entries@);
    let wanted = str_chars(name);
    let mut v: Vec<usize> = Vec::new();
    let ghost mut got: Seq<int> = Seq::empty();
    let mut k: usize = 0;
    while k < ps.len()
        invariant
            k <= ps@.len(),
            wanted@ == name@,
            ps@.len() == all.len(),
            all == scope_variables_spec(entries@),
            forall|j: int| 0 <= j < ps@.len() ==> #[trigger] ps@[j] as int == all[j],
            forall|j: int| 0 <= j < ps@.len() ==> #[trigger] ps@[j] < entries@.len(),
            got == named_positions(entries@, all.take(k as int), name@),
            v@.len() == got.len(),
            forall|j: int| 0 <= j < got.len() ==> 0 <= #[trigger] got[j] < entries@.len(),
            forall|j: int| 0 <= j < got.len() ==> #[trigger] v@[j] == entries@[got[j]].offset,
        decreases ps@.len() - k,
    {
        let p = ps[k];
        assert(all.take(k + 1).drop_last() =~= all.take(k as int));
        assert(all.take(k + 1).last() == p as int);
        let matches = match &entries[p].name {
            Some(n) => chars_eq(&str_chars(n.as_str()), &wanted),
            None => false,
        };
        if matches {
            v.push(entries[p].offset);
            proof {
                got = got.push(p as int);
            }
        }
        k += 1;
    }
    assert(all.take(ps@.len() as int) =~= all);
    v
}

/// The frame base that evaluating a function's frame-base expression gives:
/// the value of a 32-bit address; other values give none.
pub fn frame_base_of(v: &EvaluatorValue) -> (r: Option<u64>)
    ensures
        r == match v@ {
            ValueView::Value(BaseValue::Address32(a), _) => Some(a as u64),
            _ => None::<u64>,
        },
{
    match v {
        EvaluatorValue::Value(BaseValue::Address32(a), _) => Some(*a as u64),
        _ => None,
    }
}

} // verus!
