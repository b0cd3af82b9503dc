//! Debugging logic on a model of the target's DWARF information: where a
//! source line's breakpoint goes, how a variable's value is evaluated, and the
//! cache of target memory and registers that evaluation reads from.
pub mod memory_and_registers;
pub mod evaluate;
pub mod source_information;
pub mod utils;

use vstd::prelude::*;
use crate::text::{append_chars, str_chars};

verus! {

/// The column of a line-table row: the left edge of the line, or a column
/// counted from 1.
#[derive(Debug, Clone, Copy, PartialEq, Eq, Structural)]
pub enum ColumnType {
    LeftEdge,
    Column(u64),
}

/// The place of a column in the order of columns: the left edge comes first,
/// then the columns by number.
pub open spec fn column_rank(c: ColumnType) -> int {
    match c {
        ColumnType::LeftEdge => 0,
        ColumnType::Column(n) => n + 1,
    }
}

/// Whether column `a` comes no later than column `b`.
pub fn column_le(a: ColumnType, b: ColumnType) -> (r: bool)
    ensures
        r == (column_rank(a) <= column_rank(b)),
{
    match (a, b) {
        (ColumnType::LeftEdge, _) => true,
        (ColumnType::Column(_), ColumnType::LeftEdge) => false,
        (ColumnType::Column(x), ColumnType::Column(y)) => x <= y,
    }
}

/// A file of a line program: its directory, if it names one, and its path.
#[derive(Debug, Clone)]
pub struct LineFile {
    pub directory: Option<String>,
    pub path_name: String,
}

/// A row of a line program: the file it belongs to, its line and column, and
/// the address of its instruction.
#[derive(Debug, Clone)]
pub struct LineRow {
    pub file: Option<LineFile>,
    pub line: Option<u64>,
    pub column: ColumnType,
    pub address: u64,
}

/// The line program of one compilation unit: the files of its header and its
/// rows, in order.
#[derive(Debug, Clone)]
pub struct LineProgram {
    pub files: Vec<LineFile>,
    pub rows: Vec<LineRow>,
}

/// The path of the file `name` in `directory`, put below `cwd` when it is not
/// absolute.
pub open spec fn full_path(cwd: Seq<char>, directory: Seq<char>, name: Seq<char>) -> Seq<char> {
    let p = directory + seq!['/'] + name;
    if p.len() > 0 && p[0] == '/' {
        p
    } else {
        cwd + seq!['/'] + p
    }
}

/// Whether the file `f` has a directory and lies at `path`.
pub open spec fn file_is(f: LineFile, cwd: Seq<char>, path: Seq<char>) -> bool {
    &&& f.directory is Some
    &&& full_path(cwd, f.directory->Some_0@, f.path_name@) == path
}

/// The `(column, address)` of each row of `rows` that lies in the file at
/// `path` on line `line`, in order.
pub open spec fn row_locations(rows: Seq<LineRow>, cwd: Seq<char>, path: Seq<char>, line: u64) -> Seq<
    (ColumnType, u64),
>
    decreases rows.len(),
{
    if rows.len() == 0 {
        Seq::empty()
    } else {
        let r = rows.last();
        let prev = row_locations(rows.drop_last(), cwd, path, line);
        if r.file is Some && file_is(r.file->Some_0, cwd, path) && r.line == Some(line) {
            prev.push((r.column, r.address))
        } else {
            prev
        }
    }
}

/// The locations that a line program gives: the rows' locations once for each
/// file of its header that lies at `path`.
pub open spec fn program_locations(
    files: Seq<LineFile>,
    rows: Seq<LineRow>,
    cwd: Seq<char>,
    path: Seq<char>,
    line: u64,
) -> Seq<(ColumnType, u64)>
    decreases files.len(),
{
    if files.len() == 0 {
        Seq::empty()
    } else {
        let prev = program_locations(files.drop_last(), rows, cwd, path, line);
        if file_is(files.last(), cwd, path) {
            prev + row_locations(rows, cwd, path, line)
        } else {
            prev
        }
    }
}

/// The locations of all line programs, in order.
pub open spec fn all_locations(programs: Seq<LineProgram>, cwd: Seq<char>, path: Seq<char>, line: u64) -> Seq<
    (ColumnType, u64),
>
    decreases programs.len(),
{
    if programs.len() == 0 {
        Seq::empty()
    } else {
        let p = programs.last();
        all_locations(programs.drop_last(), cwd, path, line) + program_locations(
            p.files@,
            p.rows@,
            cwd,
            path,
            line,
        )
    }
}

/// The location chosen among `locs` (at least one): going in order from the
/// first, a later one replaces the choice when its column is no later than
/// `search` and later than the chosen one's.
pub open spec fn choose_location(locs: Seq<(ColumnType, u64)>, search: ColumnType) -> (ColumnType, u64)
    decreases locs.len(),
{
    if locs.len() <= 1 {
        locs[0]
    } else {
        let res = choose_location(locs.drop_last(), search);
        let l = locs.last();
        if column_rank(l.0) <= column_rank(search) && column_rank(l.0) > column_rank(res.0) {
            l
        } else {
            res
        }
    }
}

/// The address of the breakpoint for line `line` (and column `column`) of the
/// file at `path`, if any row lies there.
pub open spec fn breakpoint_location(
    programs: Seq<LineProgram>,
    cwd: Seq<char>,
    path: Seq<char>,
    line: u64,
    column: Option<u64>,
) -> Option<u64> {
    let locs = all_locations(programs, cwd, path, line);
    let search = match column {
        Some(v) => ColumnType::Column(v),
        None => ColumnType::LeftEdge,
    };
    if locs.len() == 0 {
        None
    } else {
        Some(choose_location(locs, search).1)
    }
}

/// The chosen location is one of the candidates, and no candidate with a
/// column no later than the one searched for lies after it in column order.
pub proof fn lemma_choose_location(locs: Seq<(ColumnType, u64)>, search: ColumnType)
    requires
        locs.len() > 0,
    ensures
        locs.contains(choose_location(locs, search)),
        column_rank(choose_location(locs, search).0) <= column_rank(search) ==> forall|i: int|
            0 <= i < locs.len() && column_rank(locs[i].0) <= column_rank(search) ==> column_rank(
                locs[i].0,
            ) <= column_rank(choose_location(locs, search).0),
    decreases locs.len(),
{
    if locs.len() > 1 {
        let prev = locs.drop_last();
        lemma_choose_location(prev, search);
        let res = choose_location(prev, search);
        let k = choose|k: int| 0 <= k < prev.len() && prev[k] == res;
        assert(locs[k] == res);
        assert(locs[locs.len() - 1] == locs.last());
        assert forall|i: int| 0 <= i < prev.len() implies prev[i] == locs[i] by {}
    } else {
        assert(locs[0] == choose_location(locs, search));
    }
}

/// A breakpoint address that is found is the address of a row of the file
/// on the asked-for line.
pub proof fn lemma_breakpoint_location_is_a_row(
    programs: Seq<LineProgram>,
    cwd: Seq<char>,
    path: Seq<char>,
    line: u64,
    column: Option<u64>,
)
    ensures
        match breakpoint_location(programs, cwd, path, line, column) {
            Some(a) => exists|i: int|
                0 <= i < all_locations(programs, cwd, path, line).len() && #[trigger] all_locations(
                    programs,
                    cwd,
                    path,
                    line,
                )[i].1 == a,
            None => true,
        },
{
    let locs = all_locations(programs, cwd, path, line);
    let search = match column {
        Some(v) => ColumnType::Column(v),
        None => ColumnType::LeftEdge,
    };
    if locs.len() > 0 {
        lemma_choose_location(locs, search);
        let r = choose_location(locs, search);
        let k = choose|k: int| 0 <= k < locs.len() && locs[k] == r;
        assert(locs[k].1 == r.1);
    } else {
        assert(breakpoint_location(programs, cwd, path, line, column) is None);
    }
}

/// Whether `f` has a directory and lies at `path`.
fn file_at(f: &LineFile, cwd: &Vec<char>, path: &Vec<char>) -> (r: bool)
    ensures
        r == file_is(*f, cwd@, path@),
{
    match &f.directory {
        None => false,
        Some(dir) => {
            let mut p = dir.clone();
            let ghost d = p@;
            assert(d == f.directory->Some_0@);
            let mut slash: Vec<char> = Vec::new();
            slash.push('/');
            append_chars(&mut p, &slash);
            append_chars(&mut p, &str_chars(f.path_name.as_str()));
            let pc = str_chars(p.as_str());
            let full = if pc.len() > 0 && pc[0] == '/' {
                pc
            } else {
                let mut q = cwd.clone();
                q.push('/');
                let mut k: usize = 0;
                while k < pc.len()
                    invariant
                        k <= pc.len(),
                        q@ == cwd@ + seq!['/'] + pc@.take(k as int),
                    decreases pc.len() - k,
                {
                    q.push(pc[k]);
                    k += 1;
                    assert(pc@.take(k as int) =~= pc@.take(k - 1).push(pc@[k - 1]));
                }
                assert(pc@.take(pc.len() as int) =~= pc@);
                q
            };
            assert(pc@ =~= d + seq!['/'] + f.path_name@);
            crate::command_table::chars_eq(&full, path)
        },
    }
}

fn push_row_locations(
    locs: &mut Vec<(ColumnType, u64)>,
    rows: &Vec<LineRow>,
    cwd: &Vec<char>,
    path: &Vec<char>,
    line: u64,
)
    ensures
        final(locs)@ == old(locs)@ + row_locations(rows@, cwd@, path@, line),
{
    let mut i: usize = 0;
    let ghost start = locs@;
    assert(rows@.take(0) =~= Seq::<LineRow>::empty());
    while i < rows.len()
        invariant
            i <= rows.len(),
            locs@ == start + row_locations(rows@.take(i as int), cwd@, path@, line),
        decreases rows.len() - i,
    {
        let r = &rows[i];
        let hit = match &r.file {
            Some(f) => file_at(f, cwd, path) && r.line == Some(line),
            None => false,
        };
        assert(rows@.take(i + 1).drop_last() =~= rows@.take(i as int));
        if hit {
            locs.push((r.column, r.address));
            assert(start + row_locations(rows@.take(i + 1), cwd@, path@, line) =~= (start
                + row_locations(rows@.take(i as int), cwd@, path@, line)).push(
                (r.column, r.address),
            ));
        }
        i += 1;
    }
    assert(rows@.take(rows.len() as int) =~= rows@);
}

/// The address of the breakpoint for line `line` (and, if given, column
/// `column`) of the source file at `path`, with relative paths taken below
/// `cwd`: among the rows on that line, the first one whose column is the
/// latest not after the one asked for (a row on the left edge when no column
/// is given).
pub fn find_breakpoint_location(
    programs: &Vec<LineProgram>,
    cwd: &str,
    path: &str,
    line: u64,
    column: Option<u64>,
) -> (r: Option<u64>)
    ensures
        r == breakpoint_location(programs@, cwd@, path@, line, column),
{
    let cwd_chars = str_chars(cwd);
    let path_chars = str_chars(path);
    let mut locations: Vec<(ColumnType, u64)> = Vec::new();
    let mut u: usize = 0;
    while u < programs.len()
        invariant
            u <= programs.len(),
            cwd_chars@ == cwd@,
            path_chars@ == path@,
            locations@ == all_locations(programs@.take(u as int), cwd@, path@, line),
        decreases programs.len() - u,
    {
        let program = &programs[u];
        let ghost before = locations@;
        let mut f: usize = 0;
        assert(program.files@.take(0) =~= Seq::<LineFile>::empty());
        assert(before + Seq::<(ColumnType, u64)>::empty() =~= before);
        while f < program.files.len()
            invariant
                f <= program.files.len(),
                cwd_chars@ == cwd@,
                path_chars@ == path@,
                locations@ == before + program_locations(
                    program.files@.take(f as int),
                    program.rows@,
                    cwd@,
                    path@,
                    line,
                ),
            decreases program.files.len() - f,
        {
            assert(program.files@.take(f + 1).drop_last() =~= program.files@.take(f as int));
            if file_at(&program.files[f], &cwd_chars, &path_chars) {
                push_row_locations(&mut locations, &program.rows, &cwd_chars, &path_chars, line);
            }
            f += 1;
        }
        assert(program.files@.take(program.files.len() as int) =~= program.files@);
        assert(programs@.take(u + 1).drop_last() =~= programs@.take(u as int));
        u += 1;
    }
    assert(programs@.take(programs.len() as int) =~= programs@);
    if locations.len() == 0 {
        return None;
    }
    let search = match column {
        Some(v) => ColumnType::Column(v),
        None => ColumnType::LeftEdge,
    };
    let mut res = locations[0];
    let mut i: usize = 1;
    assert(locations@.take(1).len() == 1);
    while i < locations.len()
        invariant
            1 <= i <= locations.len(),
            res == choose_location(locations@.take(i as int), search),
        decreases locations.len() - i,
    {
        let l = locations[i];
        assert(locations@.take(i + 1).drop_last() =~= locations@.take(i as int));
        if column_le(l.0, search) && !column_le(l.0, res.0) {
            res = l;
        }
        i += 1;
    }
    assert(locations@.take(locations.len() as int) =~= locations@);
    Some(res.1)
}

} // verus!
