use rust_debug::rust_debug::utils::{count_units_holding, current_unit, Range};

fn units() -> Vec<Vec<Range>> {
    vec![
        vec![Range { begin: 0x100, end: 0x1ff }],
        vec![],
        vec![Range { begin: 0x300, end: 0x3ff }, Range { begin: 0x800, end: 0x8ff }],
    ]
}

#[test]
fn the_unit_whose_ranges_hold_the_pc_is_chosen() {
    assert_eq!(count_units_holding(&units(), 0x850), 1);
    assert_eq!(current_unit(&units(), 0x850), Some(2));
    assert_eq!(current_unit(&units(), 0x100), Some(0));
}

#[test]
fn no_unit_holds_a_pc_outside_all_ranges() {
    assert_eq!(count_units_holding(&units(), 0x250), 0);
    assert_eq!(current_unit(&units(), 0x250), None);
}

#[test]
fn overlapping_units_are_counted() {
    let mut u = units();
    u.push(vec![Range { begin: 0x180, end: 0x1a0 }]);
    assert_eq!(count_units_holding(&u, 0x190), 2);
}
