use rustkernel::interrupts::timer_interrupt_handler;
use rustkernel::pic::ChainedPics;

#[test]
fn offsets_cover_sixteen_lines() {
    let pics = ChainedPics::new(32, 40);
    assert!(!pics.handles_interrupt(31));
    assert!(pics.handles_interrupt(32));
    assert!(pics.handles_interrupt(40));
    assert!(pics.handles_interrupt(47));
    assert!(!pics.handles_interrupt(48));
}

#[test]
fn nothing_is_delivered_before_initialization() {
    let mut pics = ChainedPics::new(32, 40);
    assert!(!pics.deliver(32));
}

#[test]
fn omitted_acknowledgment_stalls_the_line() {
    // A handler that omits the end-of-interrupt acknowledgment is
    // observably different from one that sends it: the line delivers no
    // further interrupt.
    let mut pics = ChainedPics::new(32, 40);
    pics.initialize();
    assert!(pics.deliver(32));
    // The handler did not acknowledge: the next timer tick is not
    // delivered.
    assert!(!pics.deliver(32));
    // Another line is unaffected.
    assert!(pics.deliver(33));
    // After the acknowledgment the line delivers again.
    pics.notify_end_of_interrupt(32);
    assert!(pics.deliver(32));
}

#[test]
fn timer_handler_acknowledges_its_line() {
    let mut pics = ChainedPics::new(32, 40);
    pics.initialize();
    assert!(pics.deliver(32));
    timer_interrupt_handler(&mut pics);
    assert!(pics.deliver(32));
}
