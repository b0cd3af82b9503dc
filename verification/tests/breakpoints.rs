use rust_debug::debug_handler::{plan_breakpoints, BreakpointInfo, SourceBreakpoint};
use rust_debug::rust_debug::{find_breakpoint_location, ColumnType, LineFile, LineProgram, LineRow};

fn file(dir: Option<&str>, name: &str) -> LineFile {
    LineFile { directory: dir.map(|d| d.to_string()), path_name: name.to_string() }
}

fn row(dir: &str, name: &str, line: u64, column: ColumnType, address: u64) -> LineRow {
    LineRow { file: Some(file(Some(dir), name)), line: Some(line), column, address }
}

fn program() -> LineProgram {
    LineProgram {
        files: vec![file(Some("src"), "main.rs"), file(None, "lib.rs")],
        rows: vec![
            row("src", "main.rs", 10, ColumnType::Column(5), 0x100),
            row("src", "main.rs", 10, ColumnType::LeftEdge, 0x104),
            row("src", "main.rs", 10, ColumnType::Column(9), 0x108),
            row("src", "main.rs", 10, ColumnType::Column(3), 0x10c),
            row("src", "main.rs", 11, ColumnType::Column(1), 0x110),
            row("src", "other.rs", 10, ColumnType::Column(1), 0x114),
        ],
    }
}

#[test]
fn breakpoint_on_a_line_without_column() {
    let p = vec![program()];
    assert_eq!(find_breakpoint_location(&p, "/home/u/app", "/home/u/app/src/main.rs", 10, None), Some(0x100));
}

#[test]
fn breakpoint_takes_latest_column_not_after_the_one_asked_for() {
    let p = vec![program()];
    assert_eq!(find_breakpoint_location(&p, "/home/u/app", "/home/u/app/src/main.rs", 10, Some(8)), Some(0x100));
    assert_eq!(find_breakpoint_location(&p, "/home/u/app", "/home/u/app/src/main.rs", 10, Some(9)), Some(0x108));
    assert_eq!(find_breakpoint_location(&p, "/home/u/app", "/home/u/app/src/main.rs", 11, Some(4)), Some(0x110));
}

#[test]
fn breakpoint_not_found() {
    let p = vec![program()];
    assert_eq!(find_breakpoint_location(&p, "/home/u/app", "/home/u/app/src/main.rs", 12, None), None);
    assert_eq!(find_breakpoint_location(&p, "/elsewhere", "/home/u/app/src/main.rs", 10, None), None);
    assert_eq!(find_breakpoint_location(&vec![], "/", "/src/main.rs", 10, None), None);
}

#[test]
fn breakpoint_with_absolute_directory() {
    let p = vec![LineProgram {
        files: vec![file(Some("/abs"), "a.rs")],
        rows: vec![row("/abs", "a.rs", 3, ColumnType::Column(2), 0x40)],
    }];
    assert_eq!(find_breakpoint_location(&p, "/cwd", "/abs/a.rs", 3, None), Some(0x40));
    assert_eq!(find_breakpoint_location(&p, "/cwd", "/cwd//abs/a.rs", 3, None), None);
}

#[test]
fn breakpoints_are_set_while_units_last() {
    let reqs = vec![
        (SourceBreakpoint { line: 3, column: None }, Some(0x100u64)),
        (SourceBreakpoint { line: 4, column: Some(2) }, None),
        (SourceBreakpoint { line: 5, column: None }, Some(0x100u64)),
        (SourceBreakpoint { line: 6, column: None }, Some(0x200u64)),
        (SourceBreakpoint { line: 7, column: None }, Some(0x300u64)),
    ];
    let (answers, sets) = plan_breakpoints(&reqs, 2);
    assert_eq!(sets, vec![0x100, 0x100, 0x200]);
    assert_eq!(
        answers,
        vec![
            BreakpointInfo { id: Some(0x100), verified: true, line: Some(3), column: None },
            BreakpointInfo { id: None, verified: false, line: Some(4), column: Some(2) },
            BreakpointInfo { id: Some(0x100), verified: true, line: Some(5), column: None },
            BreakpointInfo { id: Some(0x200), verified: true, line: Some(6), column: None },
            BreakpointInfo { id: Some(0x300), verified: false, line: Some(7), column: None },
        ]
    );
}
