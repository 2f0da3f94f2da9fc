//! A model of the chained pair of legacy interrupt controllers: vector
//! offsets, one in-service flag per line, and the end-of-interrupt
//! acknowledgment that every device handler owes per serviced interrupt.
//!
//! The in-service state captures the ordering guarantee of the hardware: a
//! line on which an interrupt has been delivered delivers no further
//! interrupt until the controller is acknowledged for that line. The port
//! writes that program the real controllers happen at the kernel's
//! hardware boundary; this type carries the protocol those writes follow.

use vstd::prelude::*;

use crate::bits::get_bits;
use crate::bits::get_bits_spec;
use crate::bits::lemma_set_bits;
use crate::bits::low_mask16;
use crate::bits::set_bits;
use crate::bits::set_bits_spec;
use crate::idt::lemma_low_mask16_values;

verus! {

/// The chained primary/secondary controller pair: eight lines each, with
/// the secondary's vectors immediately following the primary's.
pub struct ChainedPics {
    pub primary_offset: u8,
    pub secondary_offset: u8,
    pub initialized: bool,
    pub in_service: u16,
}

impl ChainedPics {
    /// Offsets land the sixteen lines strictly above the 32 reserved CPU
    /// vectors, with the secondary controller chained right after the
    /// primary.
    pub open spec fn wf(self) -> bool {
        &&& 32 <= self.primary_offset <= 240
        &&& self.secondary_offset == self.primary_offset + 8
    }

    /// Whether `vector` belongs to one of the sixteen controller lines.
    pub open spec fn spec_handles(self, vector: u8) -> bool {
        self.primary_offset <= vector < self.primary_offset + 16
    }

    /// The line (0-15) that `vector` arrives on.
    pub open spec fn line_of(self, vector: u8) -> u16 {
        (vector - self.primary_offset) as u16
    }

    /// Whether `line` has an unacknowledged interrupt in service.
    pub open spec fn spec_in_service(self, line: u16) -> bool {
        get_bits_spec(self.in_service, line, (line + 1) as u16) == 1
    }

    /// Whether the controller would deliver an interrupt on `vector` now:
    /// only once programmed, only on its own lines, and never while the
    /// previous interrupt on that line awaits acknowledgment.
    pub open spec fn spec_delivered(self, vector: u8) -> bool {
        &&& self.initialized
        &&& self.spec_handles(vector)
        &&& !self.spec_in_service(self.line_of(vector))
    }

    /// The controller state after an attempted delivery on `vector`.
    pub open spec fn spec_deliver(self, vector: u8) -> ChainedPics {
        if self.spec_delivered(vector) {
            ChainedPics {
                in_service: set_bits_spec(
                    self.in_service,
                    self.line_of(vector),
                    (self.line_of(vector) + 1) as u16,
                    1,
                ),
                ..self
            }
        } else {
            self
        }
    }

    /// The controller state after an end-of-interrupt for `vector`: the
    /// line's in-service flag is cleared; a vector outside the controller's
    /// lines is ignored.
    pub open spec fn spec_eoi(self, vector: u8) -> ChainedPics {
        if self.spec_handles(vector) {
            ChainedPics {
                in_service: set_bits_spec(
                    self.in_service,
                    self.line_of(vector),
                    (self.line_of(vector) + 1) as u16,
                    0,
                ),
                ..self
            }
        } else {
            self
        }
    }

    /// A controller pair with the given vector offsets, not yet programmed
    /// and with no interrupt in service.
    pub fn new(primary_offset: u8, secondary_offset: u8) -> (r: Self)
        requires
            32 <= primary_offset <= 240,
            secondary_offset == primary_offset + 8,
        ensures
            r.wf(),
            r.primary_offset == primary_offset,
            r.secondary_offset == secondary_offset,
            !r.initialized,
            r.in_service == 0,
    {
        ChainedPics { primary_offset, secondary_offset, initialized: false, in_service: 0 }
    }

    /// Programs both controllers' vector offsets. Done once, at kernel
    /// start, before interrupts are globally enabled; the offsets
    /// themselves never change afterwards.
    pub fn initialize(&mut self)
        requires
            !old(self).initialized,
        ensures
            *final(self) == (ChainedPics { initialized: true, ..*old(self) }),
    {
        self.initialized = true;
    }

    /// Whether `vector` belongs to one of the controller's sixteen lines.
    pub fn handles_interrupt(&self, vector: u8) -> (r: bool)
        requires
            self.wf(),
        ensures
            r == self.spec_handles(vector),
    {
        let p = self.primary_offset;
        vector >= p && (vector as u16) < (p as u16) + 16
    }

    /// An interrupt arrives on `vector`: it is delivered only if the
    /// controller is programmed, owns the vector, and the line's previous
    /// interrupt has been acknowledged. A delivered interrupt puts the line
    /// in service.
    pub fn deliver(&mut self, vector: u8) -> (delivered: bool)
        requires
            old(self).wf(),
        ensures
            delivered == old(self).spec_delivered(vector),
            *final(self) == old(self).spec_deliver(vector),
    {
        if !self.handles_interrupt(vector) || !self.initialized {
            return false;
        }
        let line: u16 = (vector - self.primary_offset) as u16;
        let busy = get_bits(self.in_service, line, line + 1);
        if busy == 1 {
            false
        } else {
            proof {
                lemma_low_mask16_values();
            }
            self.in_service = set_bits(self.in_service, line, line + 1, 1);
            true
        }
    }

    /// Acknowledges the interrupt in service on `vector`'s line, clearing
    /// its in-service flag; the controller will deliver that line again.
    pub fn notify_end_of_interrupt(&mut self, vector: u8)
        requires
            old(self).wf(),
        ensures
            *final(self) == old(self).spec_eoi(vector),
    {
        if self.handles_interrupt(vector) {
            let line: u16 = (vector - self.primary_offset) as u16;
            proof {
                lemma_low_mask16_values();
            }
            self.in_service = set_bits(self.in_service, line, line + 1, 0);
        }
    }
}

/// End-of-interrupt liveness: once an interrupt is delivered on a line, the
/// controller delivers nothing further on that line until it is
/// acknowledged, and after the acknowledgment it delivers again. A handler
/// that omits the acknowledgment therefore stalls its own line.
pub proof fn lemma_end_of_interrupt_liveness(p: ChainedPics, vector: u8)
    requires
        p.wf(),
        p.spec_delivered(vector),
    ensures
        !p.spec_deliver(vector).spec_delivered(vector),
        p.spec_deliver(vector).spec_eoi(vector).spec_delivered(vector),
{
    let line = p.line_of(vector);
    lemma_low_mask16_values();
    lemma_set_bits(p.in_service, line, (line + 1) as u16, 1);
    let served = p.spec_deliver(vector);
    assert(served.spec_in_service(line));
    lemma_set_bits(served.in_service, line, (line + 1) as u16, 0);
    assert(!served.spec_eoi(vector).spec_in_service(line));
}

} // verus!
