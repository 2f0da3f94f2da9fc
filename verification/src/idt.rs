//! The trap descriptor table: 16 fixed-size gate descriptors in the
//! hardware-defined 64-bit layout, built out of the bit-range primitive.
//!
//! The option word of an entry packs, per the hardware layout: bits 0-2 the
//! alternate-stack index (stored as the logical index plus one, 0 meaning
//! "no alternate stack"), bit 8 the inverse interrupt-enable flag, bits 9-11
//! the fixed gate type, bits 13-14 the privilege level, bit 15 the present
//! flag.

use vstd::prelude::*;

use crate::bits::get_bits_spec;
use crate::bits::lemma_set_bits;
use crate::bits::low_mask16;
use crate::bits::set_bits;
use crate::bits::set_bits_spec;

verus! {

/// The packed option word of one descriptor entry.
#[derive(Clone, Copy, Debug, PartialEq, Eq, Structural)]
pub struct EntryOptions(pub u16);

/// The option word of a minimal (absent) entry: only the fixed gate-type
/// bits are set.
pub open spec fn minimal_options_word() -> u16 {
    set_bits_spec(0, 9, 12, 7)
}

/// The option word of a freshly installed handler: the minimal word with the
/// present flag set and interrupt delivery on entry disabled.
pub open spec fn new_options_word() -> u16 {
    set_bits_spec(set_bits_spec(minimal_options_word(), 15, 16, 1), 8, 9, 0)
}

/// The alternate-stack index bits (0-2) of an option word, in the hardware
/// encoding: logical index plus one, 0 meaning "no alternate stack".
pub open spec fn opt_stack_bits(w: u16) -> u16 {
    get_bits_spec(w, 0, 3)
}

/// The fixed gate-type bits (9-11) of an option word.
pub open spec fn opt_gate_bits(w: u16) -> u16 {
    get_bits_spec(w, 9, 12)
}

/// The privilege-level bits (13-14) of an option word.
pub open spec fn opt_dpl_bits(w: u16) -> u16 {
    get_bits_spec(w, 13, 15)
}

/// Whether the present flag (bit 15) of an option word is set.
pub open spec fn opt_present(w: u16) -> bool {
    get_bits_spec(w, 15, 16) == 1
}

/// Values the small bit ranges of the option word can take, unfolded from
/// the mask definition so that callers of the bit-range primitive can
/// discharge its bounds without repeating bit-level reasoning.
pub proof fn lemma_low_mask16_values()
    by (bit_vector)
    ensures
        low_mask16(1) == 1,
        low_mask16(2) == 3,
        low_mask16(3) == 7,
        low_mask16(7) == 0x7f,
        low_mask16(16) == 0xffff,
{
}

impl EntryOptions {
    /// An option word with only the fixed gate-type bits set; the present
    /// flag is clear, so hardware must never reach an entry carrying it.
    pub fn minimal() -> (r: Self)
        ensures
            r.0 == minimal_options_word(),
    {
        proof {
            lemma_low_mask16_values();
        }
        let options = set_bits(0, 9, 12, 0b111);
        EntryOptions(options)
    }

    /// The option word of a freshly installed handler: present, kernel
    /// privilege, interrupt delivery on entry disabled.
    pub fn new() -> (r: Self)
        ensures
            r.0 == new_options_word(),
    {
        let mut options = Self::minimal();
        options.set_present(true);
        options.disable_interrupts(true);
        options
    }

    /// Sets or clears the present flag (bit 15).
    pub fn set_present(&mut self, present: bool)
        ensures
            final(self).0 == set_bits_spec(old(self).0, 15, 16, if present { 1u16 } else { 0u16 }),
    {
        proof {
            lemma_low_mask16_values();
        }
        self.0 = set_bits(self.0, 15, 16, if present { 1 } else { 0 });
    }

    /// Sets bit 8, the inverse of the disable flag: a set bit re-enables
    /// interrupt delivery while the handler runs.
    pub fn disable_interrupts(&mut self, disable: bool)
        ensures
            final(self).0 == set_bits_spec(old(self).0, 8, 9, if disable { 0u16 } else { 1u16 }),
    {
        proof {
            lemma_low_mask16_values();
        }
        self.0 = set_bits(self.0, 8, 9, if disable { 0 } else { 1 });
    }

    /// Sets the descriptor privilege level (bits 13-14).
    pub fn set_privilege_level(&mut self, dpl: u16)
        requires
            dpl < 4,
        ensures
            final(self).0 == set_bits_spec(old(self).0, 13, 15, dpl),
    {
        proof {
            lemma_low_mask16_values();
        }
        self.0 = set_bits(self.0, 13, 15, dpl);
    }

    /// Selects an alternate stack: the hardware stores the logical `index`
    /// plus one in bits 0-2, so logical index 0 is stored as 1 and a stored
    /// 0 means "no alternate stack".
    pub fn set_stack_index(&mut self, index: u16)
        requires
            index < 7,
        ensures
            final(self).0 == set_bits_spec(old(self).0, 0, 3, (index + 1) as u16),
            opt_stack_bits(final(self).0) == index + 1,
    {
        proof {
            lemma_low_mask16_values();
        }
        self.0 = set_bits(self.0, 0, 3, index + 1);
        proof {
            lemma_set_bits(old(self).0, 0, 3, (index + 1) as u16);
        }
    }
}

/// One 16-byte descriptor entry in the hardware layout: the handler address
/// split into three fields around the selector and option words.
#[derive(Clone, Copy, Debug, PartialEq, Eq, Structural)]
pub struct Entry {
    pub pointer_low: u16,
    pub gtd_selector: u16,
    pub options: EntryOptions,
    pub pointer_mid: u16,
    pub pointer_high: u32,
    pub reserved: u32,
}

/// The handler address an entry points at, reassembled from its three
/// pointer fields.
pub open spec fn spec_handler_addr(e: Entry) -> u64 {
    (e.pointer_low as u64) | ((e.pointer_mid as u64) << 16) | ((e.pointer_high as u64) << 32)
}

impl Entry {
    /// A present, interrupt-disabling entry for `handler`, with the
    /// code-segment selector supplied by the segment-table collaborator.
    pub fn new(gdt_selector: u16, handler: u64) -> (r: Self)
        ensures
            r.pointer_low == handler & 0xffff,
            r.pointer_mid == (handler >> 16) & 0xffff,
            r.pointer_high == (handler >> 32) as u32,
            r.gtd_selector == gdt_selector,
            r.options.0 == new_options_word(),
            r.reserved == 0,
            spec_handler_addr(r) == handler,
    {
        let pointer = handler;
        let r = Entry {
            gtd_selector: gdt_selector,
            options: EntryOptions::new(),
            pointer_low: #[verifier::truncate] (pointer as u16),
            pointer_mid: #[verifier::truncate] ((pointer >> 16) as u16),
            pointer_high: #[verifier::truncate] ((pointer >> 32) as u32),
            reserved: 0,
        };
        proof {
            let h = handler;
            assert((h as u16) == h & 0xffff && ((h >> 16) as u16) == (h >> 16) & 0xffff
                && (((h as u16) as u64) | ((((h >> 16) as u16) as u64) << 16) | ((((h
                >> 32) as u32) as u64) << 32)) == h) by (bit_vector);
        }
        r
    }

    /// The empty slot: a null selector, zero pointer fields, and a minimal
    /// option word whose present flag is clear.
    pub fn missing() -> (r: Self)
        ensures
            r.pointer_low == 0,
            r.pointer_mid == 0,
            r.pointer_high == 0,
            r.gtd_selector == 0,
            r.options.0 == minimal_options_word(),
            r.reserved == 0,
            !opt_present(r.options.0),
            opt_stack_bits(r.options.0) == 0,
            spec_handler_addr(r) == 0,
    {
        let r = Entry {
            gtd_selector: 0,
            options: EntryOptions::minimal(),
            pointer_low: 0,
            pointer_mid: 0,
            pointer_high: 0,
            reserved: 0,
        };
        proof {
            lemma_minimal_word_fields();
            assert((0u64 | (0u64 << 16) | (0u64 << 32)) == 0) by (bit_vector);
        }
        r
    }
}

/// The minimal option word has the present flag clear and no alternate-stack
/// index.
pub proof fn lemma_minimal_word_fields()
    by (bit_vector)
    ensures
        !opt_present(minimal_options_word()),
        opt_stack_bits(minimal_options_word()) == 0,
        opt_gate_bits(minimal_options_word()) == 7,
        opt_dpl_bits(minimal_options_word()) == 0,
{
}

/// The option word of a fresh handler entry is present, at kernel privilege,
/// with the fixed gate type, no alternate stack, and interrupt delivery
/// disabled on entry.
pub proof fn lemma_new_word_fields()
    by (bit_vector)
    ensures
        opt_present(new_options_word()),
        opt_stack_bits(new_options_word()) == 0,
        opt_gate_bits(new_options_word()) == 7,
        opt_dpl_bits(new_options_word()) == 0,
        get_bits_spec(new_options_word(), 8, 9) == 0,
{
}

/// Setting the alternate-stack index changes no other range of the word.
pub proof fn lemma_stack_index_preserves_rest(w: u16, v: u16)
    requires
        v <= 7,
    ensures
        opt_present(set_bits_spec(w, 0, 3, v)) == opt_present(w),
        opt_gate_bits(set_bits_spec(w, 0, 3, v)) == opt_gate_bits(w),
        opt_dpl_bits(set_bits_spec(w, 0, 3, v)) == opt_dpl_bits(w),
        get_bits_spec(set_bits_spec(w, 0, 3, v), 8, 9) == get_bits_spec(w, 8, 9),
{
    assert(v <= 7 ==> {
        let r = set_bits_spec(w, 0, 3, v);
        &&& get_bits_spec(r, 15, 16) == get_bits_spec(w, 15, 16)
        &&& get_bits_spec(r, 9, 12) == get_bits_spec(w, 9, 12)
        &&& get_bits_spec(r, 13, 15) == get_bits_spec(w, 13, 15)
        &&& get_bits_spec(r, 8, 9) == get_bits_spec(w, 8, 9)
    }) by (bit_vector);
}

/// The descriptor table itself: 16 fixed slots, indexed by trap vector.
pub struct Idt(pub Vec<Entry>);

impl Idt {
    /// The table is always fully populated with its 16 slots.
    pub open spec fn wf(self) -> bool {
        self.0.len() == 16
    }

    /// A table of 16 empty (non-present) slots.
    pub fn new() -> (r: Self)
        ensures
            r.wf(),
            forall|i: int| 0 <= i < 16 ==> r.0@[i] == Entry::missing_spec(),
    {
        let missing = Entry::missing();
        proof {
            lemma_missing_matches_spec(missing);
        }
        let mut entries: Vec<Entry> = Vec::new();
        let mut k: usize = 0;
        while k < 16
            invariant
                k <= 16,
                entries.len() == k,
                forall|i: int| 0 <= i < k ==> entries@[i] == Entry::missing_spec(),
                missing == Entry::missing_spec(),
            decreases 16 - k,
        {
            entries.push(missing);
            k = k + 1;
        }
        Idt(entries)
    }

    /// Installs a present, kernel-privilege, interrupt-gate entry for
    /// `vector`, pointing at `handler`, with the given code-segment
    /// selector. Every other slot is left untouched.
    pub fn set_handler(&mut self, vector: u8, gdt_selector: u16, handler: u64)
        requires
            old(self).wf(),
            vector < 16,
        ensures
            final(self).wf(),
            final(self).0@ == old(self).0@.update(
                vector as int,
                final(self).0@[vector as int],
            ),
            final(self).0@[vector as int].gtd_selector == gdt_selector,
            final(self).0@[vector as int].options.0 == new_options_word(),
            spec_handler_addr(final(self).0@[vector as int]) == handler,
            opt_present(final(self).0@[vector as int].options.0),
    {
        let e = Entry::new(gdt_selector, handler);
        proof {
            lemma_new_word_fields();
        }
        self.0[vector as usize] = e;
    }

    /// Selects the alternate stack for an already configured vector: the
    /// hardware-stored index is the logical `index` plus one, so it is
    /// never zero for an installed alternate stack.
    pub fn set_stack_index(&mut self, vector: u8, index: u16)
        requires
            old(self).wf(),
            vector < 16,
            index < 7,
        ensures
            final(self).wf(),
            final(self).0@ == old(self).0@.update(
                vector as int,
                final(self).0@[vector as int],
            ),
            final(self).0@[vector as int].options.0 == set_bits_spec(
                old(self).0@[vector as int].options.0,
                0,
                3,
                (index + 1) as u16,
            ),
            opt_stack_bits(final(self).0@[vector as int].options.0) == index + 1,
            final(self).0@[vector as int].pointer_low == old(self).0@[vector as int].pointer_low,
            final(self).0@[vector as int].pointer_mid == old(self).0@[vector as int].pointer_mid,
            final(self).0@[vector as int].pointer_high == old(self).0@[vector as int].pointer_high,
            final(self).0@[vector as int].gtd_selector == old(self).0@[vector as int].gtd_selector,
            opt_present(final(self).0@[vector as int].options.0) == opt_present(
                old(self).0@[vector as int].options.0,
            ),
    {
        let mut e = self.0[vector as usize];
        e.options.set_stack_index(index);
        proof {
            lemma_stack_index_preserves_rest(
                old(self).0@[vector as int].options.0,
                (index + 1) as u16,
            );
        }
        self.0[vector as usize] = e;
    }
}

impl Entry {
    /// The empty slot as a value, for speaking about fresh tables.
    pub open spec fn missing_spec() -> Entry {
        Entry {
            gtd_selector: 0,
            options: EntryOptions(minimal_options_word()),
            pointer_low: 0,
            pointer_mid: 0,
            pointer_high: 0,
            reserved: 0,
        }
    }
}

/// `Entry::missing` builds exactly the empty-slot value.
proof fn lemma_missing_matches_spec(e: Entry)
    requires
        e.pointer_low == 0,
        e.pointer_mid == 0,
        e.pointer_high == 0,
        e.gtd_selector == 0,
        e.options.0 == minimal_options_word(),
        e.reserved == 0,
    ensures
        e == Entry::missing_spec(),
{
}

} // verus!
