use rust_debug::debugger::stack_frame::{
    find_function_die, frame_base_of, scope_variables, select_function_dies, variables_named, DfsEntry, ScopeEntry,
};
use rust_debug::rust_debug::evaluate::value::{BaseValue, EvaluatorValue};
use rust_debug::rust_debug::source_information::{trim_start_matches, DeclFile, SourceInformation};
use rust_debug::rust_debug::utils::{in_range, in_ranges, Range};

fn e(depth_delta: i64, is_function: bool, in_range: Option<bool>, offset: usize) -> DfsEntry {
    DfsEntry { depth_delta, is_function, in_range, offset }
}

#[test]
fn ranges_hold_the_pc() {
    assert!(in_range(10, &Range { begin: 10, end: 20 }));
    assert!(in_range(20, &Range { begin: 10, end: 20 }));
    assert!(!in_range(21, &Range { begin: 10, end: 20 }));
    assert_eq!(in_ranges(5, &vec![]), None);
    assert_eq!(in_ranges(5, &vec![Range { begin: 0, end: 4 }, Range { begin: 5, end: 5 }]), Some(true));
    assert_eq!(in_ranges(9, &vec![Range { begin: 0, end: 4 }]), Some(false));
}

#[test]
fn outermost_function_that_holds_the_address() {
    let entries = vec![
        e(1, true, Some(true), 10),
        e(1, true, Some(true), 20),
        e(-1, true, Some(true), 30),
        e(0, false, None, 35),
        e(-1, true, Some(true), 40),
    ];
    assert_eq!(select_function_dies(&entries), vec![10, 30]);
    let entries = vec![
        e(1, true, Some(false), 10),
        e(1, true, Some(true), 20),
        e(1, true, Some(true), 30),
        e(-1, false, None, 40),
        e(-1, true, Some(true), 50),
        e(-1, true, Some(true), 60),
    ];
    assert_eq!(select_function_dies(&entries), vec![50]);
    let entries = vec![e(1, true, Some(true), 10), e(1, true, Some(true), 20), e(-2, true, Some(true), 30)];
    assert_eq!(find_function_die(&entries), 10);
    assert_eq!(select_function_dies(&vec![]), Vec::<usize>::new());
}

#[test]
fn declaration_source_information() {
    let s = SourceInformation::get_die_source_information(
        Some(DeclFile { directory: Some("src".to_string()), path_name: "srcsrc/main.rs".to_string() }),
        Some(7),
        Some(2),
        "/home/u",
    );
    assert_eq!(s.directory, Some("/home/u/src".to_string()));
    assert_eq!(s.file, Some("/main.rs".to_string()));
    assert_eq!(s.line, Some(7));
    assert_eq!(s.column, Some(2));
    let s = SourceInformation::get_die_source_information(
        Some(DeclFile { directory: None, path_name: "lib.rs".to_string() }),
        None,
        None,
        "/home/u",
    );
    assert_eq!(s.directory, None);
    assert_eq!(s.file, Some("lib.rs".to_string()));
    let s = SourceInformation::get_die_source_information(None, Some(1), None, "/");
    assert_eq!(s.file, None);
    assert_eq!(s.directory, None);
}

#[test]
fn prefixes_are_trimmed_repeatedly() {
    let c = |s: &str| s.chars().collect::<Vec<char>>();
    assert_eq!(trim_start_matches(&c("ababc"), &c("ab")), c("c"));
    assert_eq!(trim_start_matches(&c("abc"), &c("")), c("abc"));
    assert_eq!(trim_start_matches(&c("/abs/x"), &c("/abs")), c("/x"));
}

fn scope(depth: u32, is_variable: bool, in_range: Option<bool>, name: Option<&str>, offset: usize) -> ScopeEntry {
    ScopeEntry { depth, is_variable, in_range, name: name.map(|n| n.to_string()), offset }
}

#[test]
fn scope_variables_leave_out_blocks_that_do_not_hold_the_pc() {
    let entries = vec![
        scope(0, false, Some(true), None, 10),
        scope(1, true, None, Some("x"), 11),
        scope(1, false, Some(false), None, 12),
        scope(2, true, None, Some("y"), 13),
        scope(3, true, None, Some("x"), 14),
        scope(1, false, Some(true), None, 15),
        scope(2, true, None, Some("x"), 16),
        scope(2, false, None, Some("x"), 17),
    ];
    assert_eq!(scope_variables(&entries), vec![11, 16]);
    assert_eq!(variables_named(&entries, "x"), vec![11, 16]);
    assert_eq!(variables_named(&entries, "y"), Vec::<usize>::new());
    let outside = vec![scope(0, false, Some(false), None, 1), scope(1, true, None, Some("x"), 2)];
    assert!(scope_variables(&outside).is_empty());
}

#[test]
fn frame_base_is_an_address_value() {
    assert_eq!(frame_base_of(&EvaluatorValue::Value(BaseValue::Address32(0x2000_0100), vec![])), Some(0x2000_0100));
    assert_eq!(frame_base_of(&EvaluatorValue::Value(BaseValue::U32(5), vec![])), None);
    assert_eq!(frame_base_of(&EvaluatorValue::OutOfRange), None);
}
