//! A model of the hardware trap sequence for the reserved CPU-exception
//! vectors: look up the vector's descriptor, select a stack, run the typed
//! handler the trampoline marshals to, and either return to the
//! interrupted context or park the processor.
//!
//! The model makes the two stack-selection facts checkable that the real
//! hardware enforces silently: a trap through a non-present descriptor is
//! unrecoverable, and a trap whose descriptor selects no alternate stack
//! while the normal stack is exhausted escalates to a machine reset
//! instead of reaching its handler.

use vstd::prelude::*;

use crate::bits::get_bits;
use crate::idt::opt_stack_bits;
use crate::idt::Idt;
use crate::hex::hex_seq;
use crate::interrupts::breakpoint_handler;
use crate::interrupts::divide_by_zero_handler;
use crate::interrupts::double_fault_handler;
use crate::interrupts::exception_vectors_installed;
use crate::interrupts::invalid_opcode_handler;
use crate::interrupts::page_fault_handler;
use crate::interrupts::spec_description;
use crate::interrupts::spec_flags_text;
use crate::interrupts::HandlerAddresses;
use crate::interrupts::InterruptStackFrame;
use crate::interrupts::PageFaultErrorCode;
use crate::interrupts::Resolution;

verus! {

/// How a trap leaves the machine: back in the interrupted context at the
/// given instruction, parked in the idle loop after a report, or reset by
/// an escalation no handler could catch (in which case nothing is
/// reported).
#[derive(Clone, Copy, Debug, PartialEq, Eq, Structural)]
pub enum TrapOutcome {
    Resumed(u64),
    Halted,
    MachineReset,
}

/// Whether the trap's handler gets a sound stack to run on: either the
/// interrupted context's stack still works, or the descriptor selects an
/// alternate stack.
pub open spec fn handler_stack_sound(idt: Idt, vector: u8, stack_exhausted: bool) -> bool {
    !stack_exhausted || opt_stack_bits(idt.0@[vector as int].options.0) != 0
}

/// The report the vector's typed handler writes for the console: exactly
/// what that handler's own contract promises.
pub open spec fn spec_trap_report(
    vector: u8,
    frame: InterruptStackFrame,
    error_code: u64,
    faulting_address: u64,
) -> Seq<char> {
    if vector == 0 {
        "\nEXCEPTION: DIVIDE BY ZERO\n"@ + spec_description(frame)
    } else if vector == 3 {
        "\nEXCEPTION: BREAKPOINT at 0x"@ + hex_seq(frame.instruction_pointer as int) + "\n"@
            + spec_description(frame)
    } else if vector == 6 {
        "\nEXCEPTION: INVALID OPCODE at 0x"@ + hex_seq(frame.instruction_pointer as int) + "\n"@
            + spec_description(frame)
    } else if vector == 8 {
        "EXCEPTION: DOUBLE FAULT!\n"@ + spec_description(frame)
    } else {
        "\nEXCEPTION: PAGE FAULT while accessing 0x"@ + hex_seq(faulting_address as int)
            + "\nerror code: "@ + spec_flags_text(
            PageFaultErrorCode::spec_from_bits(error_code).unwrap(),
        ) + "\n"@ + spec_description(frame)
    }
}

/// Runs one trap, on a table installed by `init_idt`, through to its
/// outcome. A breakpoint returns control to the instruction following the
/// trap (hardware pushes exactly that address into the snapshot); the
/// other faults report and halt. The double-fault descriptor's alternate
/// stack keeps vector 8 reachable even when the normal stack is exhausted,
/// so a stack overflow lands in its handler exactly once rather than
/// resetting the machine.
pub fn dispatch_trap(
    idt: &Idt,
    handlers: &HandlerAddresses,
    gdt_selector: u16,
    double_fault_stack_index: u16,
    vector: u8,
    frame: &InterruptStackFrame,
    error_code: u64,
    faulting_address: u64,
    stack_exhausted: bool,
) -> (r: (String, TrapOutcome))
    requires
        exception_vectors_installed(
            *idt,
            gdt_selector,
            double_fault_stack_index,
            *handlers,
        ),
        vector == 0 || vector == 3 || vector == 6 || vector == 8 || vector == 14,
        vector == 14 ==> error_code & 0xffff_ffff_ffff_ffe0 == 0,
    ensures
        vector == 8 ==> r.1 == TrapOutcome::Halted,
        vector == 3 ==> r.1 == (if handler_stack_sound(*idt, vector, stack_exhausted) {
            TrapOutcome::Resumed(frame.instruction_pointer)
        } else {
            TrapOutcome::MachineReset
        }),
        vector == 0 || vector == 6 || vector == 14 ==> r.1 == (if handler_stack_sound(
            *idt,
            vector,
            stack_exhausted,
        ) {
            TrapOutcome::Halted
        } else {
            TrapOutcome::MachineReset
        }),
        handler_stack_sound(*idt, vector, stack_exhausted) ==> r.0@ == spec_trap_report(
            vector,
            *frame,
            error_code,
            faulting_address,
        ),
{
    let entry = idt.0[vector as usize];
    let present = get_bits(entry.options.0, 15, 16);
    if present != 1 {
        // An absent descriptor must never be reached; a trap here is
        // outside the design's control.
        return (String::new(), TrapOutcome::MachineReset);
    }
    let stack_bits = get_bits(entry.options.0, 0, 3);
    if stack_exhausted && stack_bits == 0 {
        // The handler would run on the stack whose exhaustion raised the
        // trap; its first push faults again and escalates.
        return (String::new(), TrapOutcome::MachineReset);
    }
    let (report, resolution) = if vector == 0 {
        divide_by_zero_handler(frame)
    } else if vector == 3 {
        breakpoint_handler(frame)
    } else if vector == 6 {
        invalid_opcode_handler(frame)
    } else if vector == 8 {
        double_fault_handler(frame, error_code)
    } else {
        let (report, _code, resolution) = page_fault_handler(frame, error_code, faulting_address);
        (report, resolution)
    };
    match resolution {
        Resolution::Resume => (report, TrapOutcome::Resumed(frame.instruction_pointer)),
        Resolution::Halt => (report, TrapOutcome::Halted),
    }
}

} // verus!
