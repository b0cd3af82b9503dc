use rust_debug::debugger::stacktrace::{
    CallFrameIterator, CfaRule, FrameStep, RegisterRule, UnwindError, UnwindRow,
};
use std::collections::HashMap;

fn regs() -> Vec<Option<u32>> {
    let mut r: Vec<Option<u32>> = (0..16).map(|i| Some(i as u32 * 10)).collect();
    r[13] = Some(0x2000_0100);
    r[14] = Some(0x0800_0201);
    r[15] = Some(0x0800_0100);
    r
}

fn row() -> UnwindRow {
    let mut rules = vec![RegisterRule::Undefined; 16];
    rules[0] = RegisterRule::SameValue;
    rules[7] = RegisterRule::Offset { offset: -8 };
    rules[14] = RegisterRule::Offset { offset: -4 };
    rules[12] = RegisterRule::ValOffset { offset: 4 };
    rules[3] = RegisterRule::Register { register: 0 };
    UnwindRow { cfa: CfaRule::RegisterAndOffset { register: 13, offset: 8 }, rules }
}

#[test]
fn unwinding_asks_for_the_saved_words() {
    let mut it = CallFrameIterator::new(0x0800_0100, regs());
    let mut memory = HashMap::new();
    match it.next(&row(), &memory) {
        Ok(FrameStep::RequiresMemory { address }) => assert_eq!(address, 0x2000_0100),
        _ => panic!("expected a memory request"),
    }
    memory.insert(0x2000_0100, 77);
    match it.next(&row(), &memory) {
        Ok(FrameStep::RequiresMemory { address }) => assert_eq!(address, 0x2000_0104),
        _ => panic!("expected a memory request"),
    }
}

#[test]
fn unwinding_one_frame() {
    let mut it = CallFrameIterator::new(0x0800_0100, regs());
    let mut memory = HashMap::new();
    memory.insert(0x2000_0100, 77);
    memory.insert(0x2000_0104, 0x0800_0301);
    let frame = match it.next(&row(), &memory) {
        Ok(FrameStep::Frame(f)) => f,
        _ => panic!("expected a frame"),
    };
    assert_eq!(frame.id, 0);
    assert_eq!(frame.code_location, 0x0800_0100);
    assert_eq!(frame.cfa, 0x2000_0108);
    assert_eq!(frame.registers[0], Some(0));
    assert_eq!(frame.registers[1], None);
    assert_eq!(frame.registers[3], Some(0));
    assert_eq!(frame.registers[4], Some(40));
    assert_eq!(frame.registers[7], Some(77));
    assert_eq!(frame.registers[9], None);
    assert_eq!(frame.registers[12], Some(0x2000_010c));
    assert_eq!(frame.registers[13], Some(0x2000_0108));
    assert_eq!(frame.registers[14], Some(0x0800_0301));
    assert_eq!(frame.registers[15], None);
    let mut rules = vec![RegisterRule::SameValue; 16];
    rules[14] = RegisterRule::Undefined;
    let next_row = UnwindRow { cfa: CfaRule::RegisterAndOffset { register: 13, offset: 0 }, rules };
    match it.next(&next_row, &memory) {
        Ok(FrameStep::Frame(f)) => {
            assert_eq!(f.id, 1);
            assert_eq!(f.code_location, 0x0800_0301);
        },
        _ => panic!("expected a frame"),
    }
}

#[test]
fn unwinding_ends_without_a_return_address() {
    let mut r = regs();
    r[14] = None;
    let mut it = CallFrameIterator::new(0x0800_0100, r);
    let rules = vec![RegisterRule::SameValue; 16];
    let row = UnwindRow { cfa: CfaRule::RegisterAndOffset { register: 13, offset: 0 }, rules };
    let memory = HashMap::new();
    assert!(matches!(it.next(&row, &memory), Ok(FrameStep::Frame(_))));
    assert!(matches!(it.next(&row, &memory), Ok(FrameStep::Done)));
}

#[test]
fn unwinding_without_a_cfa() {
    let mut r = regs();
    r[13] = None;
    let mut it = CallFrameIterator::new(0x0800_0100, r);
    let memory = HashMap::new();
    assert!(!it.step_faults(&row(), &memory));
    assert!(matches!(it.next(&row(), &memory), Err(UnwindError::MissingCfa)));
    let mut rules = vec![RegisterRule::SameValue; 16];
    rules[2] = RegisterRule::Expression;
    let bad = UnwindRow { cfa: CfaRule::RegisterAndOffset { register: 13, offset: 0 }, rules };
    assert!(it.step_faults(&bad, &memory));
}
