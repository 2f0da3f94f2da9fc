//! The trap-handling and virtual-memory core of a freestanding x86-64
//! kernel: the interrupt descriptor table and its bit-level encoding, the
//! typed exception handlers and the dispatch they feed, the chained
//! interrupt controller's acknowledgment protocol, the keyboard decode
//! boundary, the console writer model, and the 4-level page-table walker,
//! frame allocator and page mapper.
//!
//! Everything that computes or decides is verified here; the thin layer
//! that touches hardware (port reads and writes, the table-load and
//! control-register instructions, the memory-mapped console) surrounds
//! this crate and hands it plain values.

use vstd::prelude::*;

pub mod bits;
pub mod dispatch;
pub mod hex;
pub mod idt;
pub mod interrupts;
pub mod keyboard;
pub mod memory;
pub mod paging;
pub mod pic;
pub mod vga_buffer;

verus! {

/// The code written to the diagnostic exit port by the test harness
/// collaborator: success or failure of an in-kernel test run.
#[derive(Clone, Copy, Debug, PartialEq, Eq, Structural)]
pub enum QemuExitCode {
    Success,
    Failed,
}

impl QemuExitCode {
    /// The 32-bit value the exit port takes.
    pub open spec fn spec_code(self) -> u32 {
        match self {
            QemuExitCode::Success => 0x10,
            QemuExitCode::Failed => 0x11,
        }
    }

    /// The 32-bit value the exit port takes.
    pub fn code(self) -> (r: u32)
        ensures
            r == self.spec_code(),
    {
        match self {
            QemuExitCode::Success => 0x10,
            QemuExitCode::Failed => 0x11,
        }
    }
}

} // verus!
