use rustkernel::dispatch::dispatch_trap;
use rustkernel::dispatch::TrapOutcome;
use rustkernel::interrupts::init_idt;
use rustkernel::interrupts::HandlerAddresses;
use rustkernel::interrupts::InterruptStackFrame;

fn handlers() -> HandlerAddresses {
    HandlerAddresses {
        divide_by_zero: 0x10_0000,
        breakpoint: 0x10_0100,
        invalid_opcode: 0x10_0200,
        double_fault: 0x10_0300,
        page_fault: 0x10_0400,
    }
}

fn frame() -> InterruptStackFrame {
    InterruptStackFrame {
        instruction_pointer: 0x1000,
        code_segment: 0x8,
        cpu_flags: 0x202,
        stack_pointer: 0x2000,
        stack_segment: 0x10,
    }
}

#[test]
fn breakpoint_returns_to_the_following_instruction() {
    // Hardware pushes the address of the instruction after the trap; the
    // breakpoint handler resumes exactly there.
    let h = handlers();
    let idt = init_idt(0x8, 0, &h);
    let f = frame();
    let (report, outcome) = dispatch_trap(&idt, &h, 0x8, 0, 3, &f, 0, 0, false);
    assert_eq!(outcome, TrapOutcome::Resumed(0x1000));
    assert_eq!(
        report,
        "\nEXCEPTION: BREAKPOINT at 0x1000\ninstruction_pointer: 0x1000\ncode_segment: 0x8\ncpu_flags: 0x202\nstack_pointer: 0x2000\nstack_segment: 0x10\n"
    );
}

#[test]
fn divide_by_zero_halts() {
    let h = handlers();
    let idt = init_idt(0x8, 0, &h);
    let (report, outcome) = dispatch_trap(&idt, &h, 0x8, 0, 0, &frame(), 0, 0, false);
    assert_eq!(outcome, TrapOutcome::Halted);
    assert!(report.starts_with("\nEXCEPTION: DIVIDE BY ZERO\n"));
}

#[test]
fn stack_overflow_lands_in_the_double_fault_handler_once() {
    // Exhausting the normal stack raises a double fault; because the
    // vector-8 descriptor selects the dedicated alternate stack, the
    // handler runs (and halts) instead of escalating to a machine reset.
    let h = handlers();
    let idt = init_idt(0x8, 0, &h);
    let (report, outcome) = dispatch_trap(&idt, &h, 0x8, 0, 8, &frame(), 0, 0, true);
    assert_eq!(outcome, TrapOutcome::Halted);
    assert!(report.starts_with("EXCEPTION: DOUBLE FAULT!\n"));
}

#[test]
fn exhausted_stack_without_alternate_stack_escalates() {
    // The control case: a vector whose descriptor selects no alternate
    // stack cannot survive an exhausted stack.
    let h = handlers();
    let idt = init_idt(0x8, 0, &h);
    let (_, outcome) = dispatch_trap(&idt, &h, 0x8, 0, 3, &frame(), 0, 0, true);
    assert_eq!(outcome, TrapOutcome::MachineReset);
}

#[test]
fn page_fault_reports_the_faulting_address() {
    let h = handlers();
    let idt = init_idt(0x8, 0, &h);
    let (report, outcome) = dispatch_trap(&idt, &h, 0x8, 0, 14, &frame(), 0b11, 0xdeadbea0, false);
    assert_eq!(outcome, TrapOutcome::Halted);
    assert!(report.starts_with(
        "\nEXCEPTION: PAGE FAULT while accessing 0xdeadbea0\nerror code: PROTECTION_VIOLATION CAUSED_BY_WRITE \n"
    ));
}
