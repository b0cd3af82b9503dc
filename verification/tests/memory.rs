use rust_debug::debugger::memory_and_registers::MemoryAndRegisters as WordMemory;
use rust_debug::rust_debug::memory_and_registers::MemoryAndRegisters;

#[test]
fn byte_memory_reads_back_what_was_written() {
    let mut m = MemoryAndRegisters::new();
    m.add_to_memory(0x2000_0000, vec![0x78, 0x56, 0x34, 0x12, 0xaa]);
    assert_eq!(m.get_address_value(&0x2000_0000), Some(0x1234_5678));
    assert_eq!(m.get_addresses(&0x2000_0001, 4), Some(vec![0x56, 0x34, 0x12, 0xaa]));
    assert_eq!(m.get_addresses(&0x2000_0002, 4), None);
    assert_eq!(m.get_address_value(&0x1000_0000), None);
}

#[test]
fn byte_memory_later_write_wins_and_others_stay() {
    let mut m = MemoryAndRegisters::new();
    m.add_to_memory(0x100, vec![1, 2, 3, 4]);
    m.add_to_memory(0x102, vec![9]);
    assert_eq!(m.get_addresses(&0x100, 4), Some(vec![1, 2, 9, 4]));
}

#[test]
fn byte_memory_read_past_the_top_is_reported() {
    let mut m = MemoryAndRegisters::new();
    m.add_to_memory(0xffff_fffe, vec![1, 2]);
    assert_eq!(m.try_get_addresses(0xffff_fffe, 2), Ok(Some(vec![1, 2])));
    assert_eq!(m.try_get_addresses(0xffff_fffe, 3), Err(()));
    assert_eq!(m.try_get_addresses(0xffff_fffd, 3), Ok(None));
}

#[test]
fn byte_memory_registers_stash_and_pop() {
    let mut m = MemoryAndRegisters::new();
    m.add_to_registers(13, 0x2000_1000);
    m.add_to_memory(0x10, vec![7]);
    m.stash_registers();
    assert_eq!(m.get_register_value(&13), None);
    m.add_to_registers(13, 5);
    assert_eq!(m.get_register_value(&13), Some(&5));
    m.pop_stashed_registers();
    assert_eq!(m.get_register_value(&13), Some(&0x2000_1000));
    assert_eq!(m.get_addresses(&0x10, 1), Some(vec![7]));
    m.pop_stashed_registers();
    assert_eq!(m.get_register_value(&13), Some(&0x2000_1000));
    m.clear();
    assert_eq!(m.get_register_value(&13), None);
    assert_eq!(m.get_addresses(&0x10, 1), None);
}

#[test]
fn word_memory_reads_back_what_was_written() {
    let mut m = WordMemory::new();
    m.add_to_memory(0x2000_0000, 0xdead_beef);
    m.add_to_memory(0x2000_0004, 1);
    m.add_to_memory(0x2000_0000, 2);
    assert_eq!(m.get_address_value(&0x2000_0000), Some(&2));
    assert_eq!(m.get_address_value(&0x2000_0004), Some(&1));
    assert_eq!(m.get_address_value(&0x2000_0008), None);
}

#[test]
fn word_memory_stash_then_pop_restores_registers() {
    let mut m = WordMemory::new();
    m.add_to_registers(15, 0x0800_0000);
    m.stash_registers();
    assert_eq!(m.get_register_value(&15), None);
    m.add_to_registers(15, 1);
    m.pop_stashed_registers();
    assert_eq!(m.get_register_value(&15), Some(&0x0800_0000));
    m.clear();
    assert_eq!(m.get_register_value(&15), None);
}

#[test]
fn stash_then_many_writes_then_pop() {
    let mut m = MemoryAndRegisters::new();
    m.add_to_registers(1, 10);
    m.add_to_registers(2, 20);
    m.stash_registers();
    m.add_to_registers(1, 99);
    m.add_to_memory(0x100, vec![1, 2]);
    m.add_to_registers(3, 30);
    m.add_to_memory(0x101, vec![7]);
    m.pop_stashed_registers();
    assert_eq!(m.registers.get(&1), Some(&10));
    assert_eq!(m.registers.get(&2), Some(&20));
    assert_eq!(m.registers.get(&3), None);
    assert_eq!(m.get_addresses(&0x100, 2), Some(vec![1, 7]));
    m.pop_stashed_registers();
    assert_eq!(m.registers.get(&1), Some(&10));
    assert_eq!(m.get_addresses(&0x100, 2), Some(vec![1, 7]));

    let mut w = WordMemory::new();
    w.add_to_registers(5, 50);
    w.stash_registers();
    w.add_to_memory(0x200, 3);
    w.add_to_registers(5, 0);
    w.add_to_memory(0x200, 4);
    w.pop_stashed_registers();
    assert_eq!(w.get_register_value(&5), Some(&50));
    assert_eq!(w.get_address_value(&0x200), Some(&4));
}
