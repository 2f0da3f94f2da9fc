//! The trap dispatch layer: the stack snapshot hardware pushes on entry,
//! the typed exception handlers, the descriptor-table setup for the
//! reserved CPU vectors, and the device handlers with their mandatory
//! end-of-interrupt acknowledgment.

use vstd::prelude::*;
use vstd::string::StringExecFns;

use crate::bits::set_bits_spec;
use crate::hex::append_hex;
use crate::hex::hex_seq;
use crate::idt::lemma_new_word_fields;
use crate::idt::new_options_word;
use crate::idt::opt_present;
use crate::idt::opt_stack_bits;
use crate::idt::spec_handler_addr;
use crate::idt::Entry;
use crate::idt::Idt;
use crate::keyboard::keyboard_add_byte;
use crate::keyboard::keyboard_process_event;
use crate::keyboard::KeyOutput;
use crate::pic::ChainedPics;

verus! {

/// The lowest vector of the primary interrupt controller, strictly above
/// the 32 reserved CPU-exception vectors.
pub const PIC_1_OFFSET: u8 = 32;

/// The secondary controller's vectors immediately follow the primary's
/// eight.
pub const PIC_2_OFFSET: u8 = PIC_1_OFFSET + 8;

/// The five 64-bit words hardware pushes on trap entry, in their fixed
/// order; read-only to handlers.
#[derive(Clone, Copy, Debug, PartialEq, Eq, Structural)]
pub struct InterruptStackFrame {
    pub instruction_pointer: u64,
    pub code_segment: u64,
    pub cpu_flags: u64,
    pub stack_pointer: u64,
    pub stack_segment: u64,
}

/// The report text for a trap stack snapshot: each field on its own line,
/// rendered in hex.
pub open spec fn spec_description(f: InterruptStackFrame) -> Seq<char> {
    "instruction_pointer: 0x"@ + hex_seq(f.instruction_pointer as int) + "\ncode_segment: 0x"@
        + hex_seq(f.code_segment as int) + "\ncpu_flags: 0x"@ + hex_seq(f.cpu_flags as int)
        + "\nstack_pointer: 0x"@ + hex_seq(f.stack_pointer as int) + "\nstack_segment: 0x"@
        + hex_seq(f.stack_segment as int) + "\n"@
}

impl InterruptStackFrame {
    /// Renders the snapshot for the console collaborator, one field per
    /// line, values in hex.
    pub fn description(&self) -> (s: String)
        ensures
            s@ == spec_description(*self),
    {
        let mut s = String::new();
        s.append("instruction_pointer: 0x");
        append_hex(&mut s, self.instruction_pointer);
        s.append("\ncode_segment: 0x");
        append_hex(&mut s, self.code_segment);
        s.append("\ncpu_flags: 0x");
        append_hex(&mut s, self.cpu_flags);
        s.append("\nstack_pointer: 0x");
        append_hex(&mut s, self.stack_pointer);
        s.append("\nstack_segment: 0x");
        append_hex(&mut s, self.stack_segment);
        s.append("\n");
        proof {
            assert(s@ =~= spec_description(*self));
        }
        s
    }
}

/// What a typed handler decides about the interrupted context: breakpoints
/// resume it, every other fault in this design parks the processor.
#[derive(Clone, Copy, Debug, PartialEq, Eq, Structural)]
pub enum Resolution {
    Resume,
    Halt,
}

/// The page-fault error code as a named flag set; hardware uses only the
/// five low bits, and unrecognized bits are rejected rather than ignored.
#[derive(Clone, Copy, Debug, PartialEq, Eq, Structural)]
pub struct PageFaultErrorCode {
    pub protection_violation: bool,
    pub caused_by_write: bool,
    pub user_mode: bool,
    pub malformed_table: bool,
    pub instruction_fetch: bool,
}

impl PageFaultErrorCode {
    /// The total decode of a raw error-code word: the five named bits, or
    /// nothing when an unrecognized bit is set.
    pub open spec fn spec_from_bits(bits: u64) -> Option<PageFaultErrorCode> {
        if bits & 0xffff_ffff_ffff_ffe0 == 0 {
            Some(
                PageFaultErrorCode {
                    protection_violation: bits & 0x1 != 0,
                    caused_by_write: bits & 0x2 != 0,
                    user_mode: bits & 0x4 != 0,
                    malformed_table: bits & 0x8 != 0,
                    instruction_fetch: bits & 0x10 != 0,
                },
            )
        } else {
            None
        }
    }

    /// Decodes a raw error-code word, rejecting unrecognized bit patterns
    /// explicitly.
    pub fn from_bits(bits: u64) -> (r: Option<Self>)
        ensures
            r == Self::spec_from_bits(bits),
    {
        if bits & 0xffff_ffff_ffff_ffe0 == 0 {
            Some(
                PageFaultErrorCode {
                    protection_violation: bits & 0x1 != 0,
                    caused_by_write: bits & 0x2 != 0,
                    user_mode: bits & 0x4 != 0,
                    malformed_table: bits & 0x8 != 0,
                    instruction_fetch: bits & 0x10 != 0,
                },
            )
        } else {
            None
        }
    }
}

/// The names of the set flags, each followed by one space.
pub open spec fn spec_flags_text(c: PageFaultErrorCode) -> Seq<char> {
    (if c.protection_violation {
        "PROTECTION_VIOLATION "@
    } else {
        Seq::empty()
    }) + (if c.caused_by_write {
        "CAUSED_BY_WRITE "@
    } else {
        Seq::empty()
    }) + (if c.user_mode {
        "USER_MODE "@
    } else {
        Seq::empty()
    }) + (if c.malformed_table {
        "MALFORMED_TABLE "@
    } else {
        Seq::empty()
    }) + (if c.instruction_fetch {
        "INSTRUCTION_FETCH "@
    } else {
        Seq::empty()
    })
}

/// Renders the set flags of a decoded error code, space separated.
pub fn flags_text(c: &PageFaultErrorCode) -> (s: String)
    ensures
        s@ == spec_flags_text(*c),
{
    let mut s = String::new();
    if c.protection_violation {
        s.append("PROTECTION_VIOLATION ");
    }
    if c.caused_by_write {
        s.append("CAUSED_BY_WRITE ");
    }
    if c.user_mode {
        s.append("USER_MODE ");
    }
    if c.malformed_table {
        s.append("MALFORMED_TABLE ");
    }
    if c.instruction_fetch {
        s.append("INSTRUCTION_FETCH ");
    }
    proof {
        assert(s@ =~= spec_flags_text(*c));
    }
    s
}

/// Divide-by-zero (vector 0): report the snapshot and halt forever.
pub fn divide_by_zero_handler(stack_frame: &InterruptStackFrame) -> (r: (String, Resolution))
    ensures
        r.0@ == "\nEXCEPTION: DIVIDE BY ZERO\n"@ + spec_description(*stack_frame),
        r.1 == Resolution::Halt,
{
    let mut s = String::new();
    s.append("\nEXCEPTION: DIVIDE BY ZERO\n");
    let d = stack_frame.description();
    s.append(d.as_str());
    proof {
        assert(s@ =~= "\nEXCEPTION: DIVIDE BY ZERO\n"@ + spec_description(*stack_frame));
    }
    (s, Resolution::Halt)
}

/// Breakpoint (vector 3): report the snapshot and resume the interrupted
/// context at the instruction following the trap.
pub fn breakpoint_handler(stack_frame: &InterruptStackFrame) -> (r: (String, Resolution))
    ensures
        r.0@ == "\nEXCEPTION: BREAKPOINT at 0x"@ + hex_seq(stack_frame.instruction_pointer as int)
            + "\n"@ + spec_description(*stack_frame),
        r.1 == Resolution::Resume,
{
    let mut s = String::new();
    s.append("\nEXCEPTION: BREAKPOINT at 0x");
    append_hex(&mut s, stack_frame.instruction_pointer);
    s.append("\n");
    let d = stack_frame.description();
    s.append(d.as_str());
    proof {
        assert(s@ =~= "\nEXCEPTION: BREAKPOINT at 0x"@ + hex_seq(
            stack_frame.instruction_pointer as int,
        ) + "\n"@ + spec_description(*stack_frame));
    }
    (s, Resolution::Resume)
}

/// Invalid opcode (vector 6): report the snapshot and halt forever.
pub fn invalid_opcode_handler(stack_frame: &InterruptStackFrame) -> (r: (String, Resolution))
    ensures
        r.0@ == "\nEXCEPTION: INVALID OPCODE at 0x"@ + hex_seq(
            stack_frame.instruction_pointer as int,
        ) + "\n"@ + spec_description(*stack_frame),
        r.1 == Resolution::Halt,
{
    let mut s = String::new();
    s.append("\nEXCEPTION: INVALID OPCODE at 0x");
    append_hex(&mut s, stack_frame.instruction_pointer);
    s.append("\n");
    let d = stack_frame.description();
    s.append(d.as_str());
    proof {
        assert(s@ =~= "\nEXCEPTION: INVALID OPCODE at 0x"@ + hex_seq(
            stack_frame.instruction_pointer as int,
        ) + "\n"@ + spec_description(*stack_frame));
    }
    (s, Resolution::Halt)
}

/// Double fault (vector 8): report and halt; by construction it never
/// returns to the interrupted context. It must run on its dedicated
/// alternate stack, which the descriptor installed by `init_idt` selects.
pub fn double_fault_handler(stack_frame: &InterruptStackFrame, error_code: u64) -> (r: (
    String,
    Resolution,
))
    ensures
        r.0@ == "EXCEPTION: DOUBLE FAULT!\n"@ + spec_description(*stack_frame),
        r.1 == Resolution::Halt,
{
    let _ = error_code;
    let mut s = String::new();
    s.append("EXCEPTION: DOUBLE FAULT!\n");
    let d = stack_frame.description();
    s.append(d.as_str());
    proof {
        assert(s@ =~= "EXCEPTION: DOUBLE FAULT!\n"@ + spec_description(*stack_frame));
    }
    (s, Resolution::Halt)
}

/// Page fault (vector 14): decode the error code as the named flag set,
/// report it with the faulting address the dedicated fault-address register
/// supplied, and halt. A word with unrecognized bits set is a malformed
/// encoding and is rejected by precondition rather than guessed at.
pub fn page_fault_handler(
    stack_frame: &InterruptStackFrame,
    error_code: u64,
    faulting_address: u64,
) -> (r: (String, PageFaultErrorCode, Resolution))
    requires
        error_code & 0xffff_ffff_ffff_ffe0 == 0,
    ensures
        Some(r.1) == PageFaultErrorCode::spec_from_bits(error_code),
        r.0@ == "\nEXCEPTION: PAGE FAULT while accessing 0x"@ + hex_seq(faulting_address as int)
            + "\nerror code: "@ + spec_flags_text(r.1) + "\n"@ + spec_description(*stack_frame),
        r.2 == Resolution::Halt,
{
    let decoded = match PageFaultErrorCode::from_bits(error_code) {
        Some(c) => c,
        None => {
            proof {
                assert(false);
            }
            PageFaultErrorCode::from_bits(0).unwrap()
        },
    };
    let mut s = String::new();
    s.append("\nEXCEPTION: PAGE FAULT while accessing 0x");
    append_hex(&mut s, faulting_address);
    s.append("\nerror code: ");
    let t = flags_text(&decoded);
    s.append(t.as_str());
    s.append("\n");
    let d = stack_frame.description();
    s.append(d.as_str());
    proof {
        assert(s@ =~= "\nEXCEPTION: PAGE FAULT while accessing 0x"@ + hex_seq(
            faulting_address as int,
        ) + "\nerror code: "@ + spec_flags_text(decoded) + "\n"@ + spec_description(*stack_frame));
    }
    (s, decoded, Resolution::Halt)
}

/// The trampoline addresses for the vectors this table serves, supplied by
/// the per-vector entry stubs at the hardware boundary.
#[derive(Clone, Copy, Debug, PartialEq, Eq, Structural)]
pub struct HandlerAddresses {
    pub divide_by_zero: u64,
    pub breakpoint: u64,
    pub invalid_opcode: u64,
    pub double_fault: u64,
    pub page_fault: u64,
}

/// An installed gate: present, pointing at `addr`, with the given selector
/// and option word.
pub open spec fn gate_installed(e: Entry, gdt_selector: u16, addr: u64, options_word: u16) -> bool {
    &&& e.gtd_selector == gdt_selector
    &&& spec_handler_addr(e) == addr
    &&& e.options.0 == options_word
    &&& opt_present(e.options.0)
}

/// The table state `init_idt` establishes: the five reserved CPU-exception
/// vectors present and routed to their trampolines, and the double-fault
/// descriptor carrying a non-zero hardware alternate-stack index.
pub open spec fn exception_vectors_installed(
    idt: Idt,
    gdt_selector: u16,
    double_fault_stack_index: u16,
    h: HandlerAddresses,
) -> bool {
    &&& idt.wf()
    &&& gate_installed(idt.0@[0], gdt_selector, h.divide_by_zero, new_options_word())
    &&& gate_installed(idt.0@[3], gdt_selector, h.breakpoint, new_options_word())
    &&& gate_installed(idt.0@[6], gdt_selector, h.invalid_opcode, new_options_word())
    &&& gate_installed(
        idt.0@[8],
        gdt_selector,
        h.double_fault,
        set_bits_spec(new_options_word(), 0, 3, (double_fault_stack_index + 1) as u16),
    )
    &&& opt_stack_bits(idt.0@[8].options.0) == double_fault_stack_index + 1
    &&& gate_installed(idt.0@[14], gdt_selector, h.page_fault, new_options_word())
}

/// Builds the descriptor table for the reserved CPU-exception vectors:
/// divide-by-zero, breakpoint, invalid opcode, double fault and page fault,
/// each a present kernel-privilege interrupt gate pointing at its
/// trampoline. The double-fault descriptor additionally selects the
/// dedicated alternate stack the segment-table collaborator reserved, so a
/// fault caused by exhausting the normal stack still finds a sound stack to
/// run on. Loading the finished table into the CPU's table-base register
/// happens at the hardware boundary.
pub fn init_idt(
    gdt_selector: u16,
    double_fault_stack_index: u16,
    handlers: &HandlerAddresses,
) -> (idt: Idt)
    requires
        double_fault_stack_index < 7,
    ensures
        exception_vectors_installed(idt, gdt_selector, double_fault_stack_index, *handlers),
        forall|v: int|
            0 <= v < 16 && v != 0 && v != 3 && v != 6 && v != 8 && v != 14 ==> idt.0@[v]
                == Entry::missing_spec(),
{
    let mut idt = Idt::new();
    idt.set_handler(0, gdt_selector, handlers.divide_by_zero);
    idt.set_handler(3, gdt_selector, handlers.breakpoint);
    idt.set_handler(6, gdt_selector, handlers.invalid_opcode);
    idt.set_handler(8, gdt_selector, handlers.double_fault);
    idt.set_stack_index(8, double_fault_stack_index);
    idt.set_handler(14, gdt_selector, handlers.page_fault);
    proof {
        lemma_new_word_fields();
    }
    idt
}

/// The two device vectors this kernel services, at the primary
/// controller's offset.
#[derive(Clone, Copy, Debug, PartialEq, Eq, Structural)]
pub enum InterruptIndex {
    Timer,
    Keyboard,
}

impl InterruptIndex {
    /// The vector number: the timer on the primary controller's first
    /// line (32), the keyboard on its second (33).
    pub open spec fn spec_as_u8(self) -> u8 {
        match self {
            InterruptIndex::Timer => 32,
            InterruptIndex::Keyboard => 33,
        }
    }

    /// The vector as the descriptor table and controller see it.
    pub fn as_u8(self) -> (r: u8)
        ensures
            r == self.spec_as_u8(),
    {
        match self {
            InterruptIndex::Timer => PIC_1_OFFSET,
            InterruptIndex::Keyboard => PIC_1_OFFSET + 1,
        }
    }

    /// The vector widened for indexing.
    pub fn as_usize(self) -> (r: usize)
        ensures
            r == self.spec_as_u8() as usize,
    {
        self.as_u8() as usize
    }
}

/// Timer tick (vector 32): carries no state; its whole duty is the
/// unconditional end-of-interrupt acknowledgment.
pub fn timer_interrupt_handler(pics: &mut ChainedPics)
    requires
        old(pics).wf(),
    ensures
        *final(pics) == old(pics).spec_eoi(InterruptIndex::Timer.spec_as_u8()),
{
    pics.notify_end_of_interrupt(InterruptIndex::Timer.as_u8());
}

/// Keyboard interrupt (vector 33): feeds the one scancode byte read from
/// the keyboard data port into the persistent decoder, hands a completed
/// key to the console collaborator, and acknowledges the controller
/// regardless of the decode outcome.
pub fn keyboard_interrupt_handler(
    pics: &mut ChainedPics,
    keyboard: &mut crate::keyboard::KeyboardState,
    scancode: u8,
) -> (key: Option<KeyOutput>)
    requires
        old(pics).wf(),
    ensures
        *final(pics) == old(pics).spec_eoi(InterruptIndex::Keyboard.spec_as_u8()),
{
    let key = match keyboard_add_byte(keyboard, scancode) {
        Some(event) => keyboard_process_event(keyboard, event),
        None => None,
    };
    pics.notify_end_of_interrupt(InterruptIndex::Keyboard.as_u8());
    key
}

} // verus!
