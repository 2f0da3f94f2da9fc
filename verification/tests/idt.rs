use rustkernel::bits::get_bits;
use rustkernel::idt::Entry;
use rustkernel::idt::EntryOptions;
use rustkernel::idt::Idt;

#[test]
fn minimal_options_set_only_gate_type() {
    let options = EntryOptions::minimal();
    assert_eq!(options.0, 0b0000_1110_0000_0000);
    assert_eq!(get_bits(options.0, 9, 12), 0b111);
    assert_eq!(get_bits(options.0, 15, 16), 0);
}

#[test]
fn new_options_are_present_and_disable_interrupts() {
    let options = EntryOptions::new();
    assert_eq!(options.0, 0b1000_1110_0000_0000);
    assert_eq!(get_bits(options.0, 15, 16), 1);
    assert_eq!(get_bits(options.0, 8, 9), 0);
}

#[test]
fn stack_index_is_stored_plus_one() {
    // Logical index 0 is stored as 1; logical index 2 as 3.
    let mut options = EntryOptions::minimal();
    options.set_stack_index(0);
    assert_eq!(get_bits(options.0, 0, 3), 1);
    let mut options = EntryOptions::minimal();
    options.set_stack_index(2);
    assert_eq!(get_bits(options.0, 0, 3), 3);
}

#[test]
fn privilege_level_lands_in_bits_13_to_14() {
    let mut options = EntryOptions::minimal();
    options.set_privilege_level(3);
    assert_eq!(get_bits(options.0, 13, 15), 3);
}

#[test]
fn present_flag_can_be_cleared_again() {
    let mut options = EntryOptions::new();
    options.set_present(false);
    assert_eq!(get_bits(options.0, 15, 16), 0);
}

#[test]
fn entry_splits_the_handler_address() {
    let entry = Entry::new(0x8, 0x1234_5678_9abc_def0);
    assert_eq!(entry.pointer_low, 0xdef0);
    assert_eq!(entry.pointer_mid, 0x9abc);
    assert_eq!(entry.pointer_high, 0x1234_5678);
    assert_eq!(entry.gtd_selector, 0x8);
    assert_eq!(entry.reserved, 0);
    assert_eq!(get_bits(entry.options.0, 15, 16), 1);
}

#[test]
fn missing_entry_is_not_present() {
    let entry = Entry::missing();
    assert_eq!(entry.pointer_low, 0);
    assert_eq!(entry.pointer_mid, 0);
    assert_eq!(entry.pointer_high, 0);
    assert_eq!(get_bits(entry.options.0, 15, 16), 0);
}

#[test]
fn set_handler_fills_one_slot() {
    let mut idt = Idt::new();
    idt.set_handler(3, 0x8, 0xdead_beef);
    assert_eq!(idt.0[3].pointer_low, 0xbeef);
    assert_eq!(idt.0[3].pointer_mid, 0xdead);
    assert_eq!(idt.0[3].pointer_high, 0);
    assert_eq!(get_bits(idt.0[3].options.0, 15, 16), 1);
    // The neighbours stay empty.
    assert_eq!(get_bits(idt.0[2].options.0, 15, 16), 0);
    assert_eq!(get_bits(idt.0[4].options.0, 15, 16), 0);
}

#[test]
fn idt_stack_index_update_keeps_the_handler() {
    let mut idt = Idt::new();
    idt.set_handler(8, 0x8, 0x1111_2222);
    idt.set_stack_index(8, 0);
    assert_eq!(get_bits(idt.0[8].options.0, 0, 3), 1);
    assert_eq!(idt.0[8].pointer_low, 0x2222);
    assert_eq!(idt.0[8].pointer_mid, 0x1111);
    assert_eq!(get_bits(idt.0[8].options.0, 15, 16), 1);
}
