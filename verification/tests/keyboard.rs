use rustkernel::interrupts::keyboard_interrupt_handler;
use rustkernel::keyboard::KeyboardState;
use rustkernel::keyboard::KeyOutput;
use rustkernel::pic::ChainedPics;

#[test]
fn scancode_for_a_decodes_to_unicode_a() {
    let mut pics = ChainedPics::new(32, 40);
    pics.initialize();
    let mut keyboard = KeyboardState::new();
    // 0x1e is the scancode-set-1 make code for the A key.
    let key = keyboard_interrupt_handler(&mut pics, &mut keyboard, 0x1e);
    assert_eq!(key, Some(KeyOutput::Unicode('a')));
}

#[test]
fn keyboard_handler_always_acknowledges() {
    let mut pics = ChainedPics::new(32, 40);
    pics.initialize();
    let mut keyboard = KeyboardState::new();
    assert!(pics.deliver(33));
    // An incomplete multi-byte sequence yields no key, yet the controller
    // is acknowledged all the same.
    let key = keyboard_interrupt_handler(&mut pics, &mut keyboard, 0xe0);
    assert_eq!(key, None);
    assert!(pics.deliver(33));
}

#[test]
fn multi_byte_sequences_span_invocations() {
    let mut pics = ChainedPics::new(32, 40);
    pics.initialize();
    let mut keyboard = KeyboardState::new();
    // 0xe0 0x48 is the extended make code for the up-arrow key: the first
    // byte alone completes nothing.
    assert_eq!(keyboard_interrupt_handler(&mut pics, &mut keyboard, 0xe0), None);
    let key = keyboard_interrupt_handler(&mut pics, &mut keyboard, 0x48);
    match key {
        Some(KeyOutput::RawKey(name)) => assert!(!name.is_empty()),
        other => panic!("expected a raw key, got {other:?}"),
    }
}
