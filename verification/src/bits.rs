//! The bit-range primitive that the descriptor table's option word is
//! packed with: set a half-open bit range of a 16-bit word to a value,
//! leaving every other bit untouched.

use vstd::prelude::*;

verus! {

/// The word whose `n` lowest bits are set (all 16 for `n >= 16`).
pub open spec fn low_mask16(n: u16) -> u16 {
    if n >= 16 {
        0xffffu16
    } else {
        ((1u16 << n) - 1) as u16
    }
}

/// The word whose bits in `[start, end)` are set.
pub open spec fn range_mask16(start: u16, end: u16) -> u16 {
    (low_mask16((end - start) as u16) << start) as u16
}

/// What `set_bits` returns: the range `[start, end)` cleared, and `value`
/// shifted into its place.
pub open spec fn set_bits_spec(word: u16, start: u16, end: u16, value: u16) -> u16 {
    ((word & !range_mask16(start, end)) | (value << start)) as u16
}

/// The value stored in bits `[start, end)` of `word`.
pub open spec fn get_bits_spec(word: u16, start: u16, end: u16) -> u16 {
    ((word >> start) & low_mask16((end - start) as u16)) as u16
}

/// Reads the bit range `[start, end)` of a 16-bit word.
pub fn get_bits(word: u16, start: u16, end: u16) -> (r: u16)
    requires
        start < end <= 16,
    ensures
        r == get_bits_spec(word, start, end),
{
    proof {
        assert(forall|w: u16| w < 16 ==> #[trigger] (1u16 << w) >= 1) by (bit_vector);
    }
    let width: u16 = end - start;
    let mask: u16 = if width >= 16 {
        0xffff
    } else {
        (1u16 << width) - 1
    };
    (word >> start) & mask
}

/// Sets the bit range `[start, end)` of a 16-bit word to `value`, leaving
/// every other bit untouched.
pub fn set_bits(word: u16, start: u16, end: u16, value: u16) -> (r: u16)
    requires
        start < end <= 16,
        value <= low_mask16((end - start) as u16),
    ensures
        r == set_bits_spec(word, start, end, value),
{
    proof {
        assert((1u16 << 0u16) - 1 == 0) by (bit_vector);
    }
    let mut mask: u16 = 0;
    let mut k: u16 = start;
    while k < end
        invariant
            start <= k <= end <= 16,
            mask == low_mask16((k - start) as u16),
        decreases end - k,
    {
        proof {
            let n = (k - start) as u16;
            assert(n < 16 ==> (low_mask16(n) << 1) + 1 == low_mask16((n + 1) as u16)
                && low_mask16(n) <= 0x7fff) by (bit_vector);
        }
        mask = (mask << 1) + 1;
        k = k + 1;
    }
    proof {
        let v = value;
        let s = start;
        let e = end;
        assert(s < e <= 16 && v <= low_mask16(((e - s) as u16)) ==> (v << s) <= 0xffff)
            by (bit_vector);
    }
    (word & !(mask << start)) | (value << start)
}

/// The bits of `set_bits_spec(word, start, end, value)` outside `[start, end)`
/// are those of `word`, and reading the range back yields `value` again,
/// whatever `word` held there; setting the same value twice changes nothing
/// beyond the first application.
pub proof fn lemma_set_bits(word: u16, start: u16, end: u16, value: u16)
    requires
        start < end <= 16,
        value <= low_mask16((end - start) as u16),
    ensures
        set_bits_spec(word, start, end, value) & !range_mask16(start, end) == word & !range_mask16(
            start,
            end,
        ),
        get_bits_spec(set_bits_spec(word, start, end, value), start, end) == value,
        set_bits_spec(set_bits_spec(word, start, end, value), start, end, value) == set_bits_spec(
            word,
            start,
            end,
            value,
        ),
{
    let w = word;
    let s = start;
    let e = end;
    let v = value;
    assert(s < e <= 16 && v <= low_mask16(((e - s) as u16)) ==> {
        let r = set_bits_spec(w, s, e, v);
        &&& r & !range_mask16(s, e) == w & !range_mask16(s, e)
        &&& get_bits_spec(r, s, e) == v
        &&& set_bits_spec(r, s, e, v) == r
    }) by (bit_vector);
}

} // verus!
