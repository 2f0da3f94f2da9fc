//! The physical frame allocator: built once from the firmware memory map,
//! it flattens the usable regions into a sequence of 4 KiB-aligned frame
//! addresses and hands them out by strictly increasing allocation index,
//! never reclaiming.

use vstd::prelude::*;
use vstd::arithmetic::div_mod::lemma_fundamental_div_mod;

verus! {

/// One entry of the firmware memory map: a contiguous physical range and
/// its usability classification.
#[derive(Clone, Copy, Debug, PartialEq, Eq, Structural)]
pub struct MemoryRegion {
    pub start: u64,
    pub end: u64,
    pub usable: bool,
}

/// The 4 KiB-aligned base of the frame containing `addr`.
pub open spec fn frame_base(addr: u64) -> u64 {
    (addr - (addr % 4096)) as u64
}

/// How many frame addresses a region contributes: one per started 4 KiB
/// step of a usable region, none for an unusable or empty one.
pub open spec fn region_frame_count(r: MemoryRegion) -> int {
    if r.usable && r.start < r.end {
        (r.end - r.start - 1) / 4096 + 1
    } else {
        0
    }
}

/// The frame addresses a region contributes, in address order.
pub open spec fn region_frames(r: MemoryRegion) -> Seq<u64> {
    Seq::new(region_frame_count(r) as nat, |k: int| frame_base((r.start + 4096 * k) as u64))
}

/// All usable frame addresses of a memory map, region by region in the
/// map's own order.
pub open spec fn usable_frames_seq(regions: Seq<MemoryRegion>) -> Seq<u64>
    decreases regions.len(),
{
    if regions.len() == 0 {
        Seq::empty()
    } else {
        region_frames(regions[0]) + usable_frames_seq(regions.drop_first())
    }
}

/// Splitting a map splits its frame sequence.
pub proof fn lemma_usable_frames_append(s: Seq<MemoryRegion>, t: Seq<MemoryRegion>)
    ensures
        usable_frames_seq(s + t) == usable_frames_seq(s) + usable_frames_seq(t),
    decreases s.len(),
{
    if s.len() == 0 {
        assert(s + t =~= t);
        assert(usable_frames_seq(s) + usable_frames_seq(t) =~= usable_frames_seq(t));
    } else {
        assert((s + t).drop_first() =~= s.drop_first() + t);
        assert((s + t)[0] == s[0]);
        lemma_usable_frames_append(s.drop_first(), t);
        assert(usable_frames_seq(s + t) =~= usable_frames_seq(s) + usable_frames_seq(t));
    }
}

/// One more region extends the frame sequence by that region's frames.
proof fn lemma_usable_frames_take_step(s: Seq<MemoryRegion>, i: int)
    requires
        0 <= i < s.len(),
    ensures
        usable_frames_seq(s.take(i + 1)) == usable_frames_seq(s.take(i)) + region_frames(s[i]),
    decreases s.len(),
{
    let one = s.subrange(i, i + 1);
    assert(s.take(i + 1) =~= s.take(i) + one);
    lemma_usable_frames_append(s.take(i), one);
    assert(one[0] == s[i]);
    assert(one.drop_first() =~= Seq::<MemoryRegion>::empty());
    assert(usable_frames_seq(Seq::<MemoryRegion>::empty()) == Seq::<u64>::empty());
    assert(usable_frames_seq(one) == region_frames(one[0]) + usable_frames_seq(one.drop_first()));
    assert(usable_frames_seq(one) =~= region_frames(s[i]));
}

/// Frame `k` of a usable region lies strictly inside the region's range.
proof fn lemma_region_frame_offset(r: MemoryRegion, k: int)
    requires
        0 <= k < region_frame_count(r),
    ensures
        r.start + 4096 * k < r.end,
{
    let span = r.end - r.start - 1;
    lemma_fundamental_div_mod(span, 4096);
}

/// Returns frame `n` of the map's usable-frame sequence, or nothing past
/// its end.
fn nth_usable_frame(regions: &Vec<MemoryRegion>, n: u64) -> (r: Option<u64>)
    ensures
        r == (if (n as int) < usable_frames_seq(regions@).len() {
            Some(usable_frames_seq(regions@)[n as int])
        } else {
            None::<u64>
        }),
{
    let ghost all = usable_frames_seq(regions@);
    let mut i: usize = 0;
    let mut remaining: u64 = n;
    while i < regions.len()
        invariant
            i <= regions.len(),
            all == usable_frames_seq(regions@),
            usable_frames_seq(regions@.take(i as int)).len() + remaining == n,
            n - remaining <= all.len(),
            all.take((n - remaining) as int) == usable_frames_seq(regions@.take(i as int)),
        decreases regions.len() - i,
    {
        let region = regions[i];
        let count: u64 = if !region.usable || region.end <= region.start {
            0
        } else {
            (region.end - region.start - 1) / 4096 + 1
        };
        proof {
            lemma_usable_frames_take_step(regions@, i as int);
            assert(regions@.take(regions@.len() as int) =~= regions@);
            if i as int + 1 <= regions@.len() {
                lemma_prefix_of_frames(regions@, i as int + 1);
            }
        }
        if remaining < count {
            proof {
                lemma_region_frame_offset(region, remaining as int);
            }
            let addr: u64 = region.start + 4096 * remaining;
            let frame: u64 = addr - addr % 4096;
            proof {
                let consumed = (n - remaining) as int;
                assert(usable_frames_seq(regions@.take(i as int + 1))[consumed + remaining as int]
                    == region_frames(region)[remaining as int]);
                lemma_frames_take_index(regions@, i as int + 1, n as int);
            }
            return Some(frame);
        }
        remaining = remaining - count;
        i = i + 1;
    }
    proof {
        assert(regions@.take(regions@.len() as int) =~= regions@);
    }
    None
}

/// A prefix of the map contributes a prefix of the frame sequence.
proof fn lemma_prefix_of_frames(s: Seq<MemoryRegion>, i: int)
    requires
        0 <= i <= s.len(),
    ensures
        usable_frames_seq(s.take(i)).len() <= usable_frames_seq(s).len(),
        forall|k: int|
            0 <= k < usable_frames_seq(s.take(i)).len() ==> usable_frames_seq(s)[k]
                == usable_frames_seq(s.take(i))[k],
{
    let rest = s.skip(i);
    assert(s =~= s.take(i) + rest);
    lemma_usable_frames_append(s.take(i), rest);
}

/// Frame `n` of the whole sequence is frame `n` of any prefix long enough
/// to contain it.
proof fn lemma_frames_take_index(s: Seq<MemoryRegion>, i: int, n: int)
    requires
        0 <= i <= s.len(),
        0 <= n < usable_frames_seq(s.take(i)).len(),
    ensures
        usable_frames_seq(s)[n] == usable_frames_seq(s.take(i))[n],
{
    lemma_prefix_of_frames(s, i);
}

/// A well-formed firmware memory map: frame-aligned region bounds, in
/// address order and non-overlapping.
pub open spec fn wf_memory_map(regions: Seq<MemoryRegion>) -> bool {
    &&& (forall|i: int|
        0 <= i < regions.len() ==> (#[trigger] regions[i]).start % 4096 == 0 && regions[i].end
            % 4096 == 0 && regions[i].start <= regions[i].end)
    &&& (forall|i: int, j: int|
        0 <= i < j < regions.len() ==> (#[trigger] regions[i]).end
            <= (#[trigger] regions[j]).start)
}

/// In a region with an aligned start, frame `k` is literally
/// `start + 4096 * k`.
proof fn lemma_region_frames_aligned(r: MemoryRegion, k: int)
    requires
        r.start % 4096 == 0,
        0 <= k < region_frame_count(r),
    ensures
        region_frames(r)[k] == r.start + 4096 * k,
        (r.start + 4096 * k) % 4096 == 0,
{
    lemma_region_frame_offset(r, k);
    let v = r.start + 4096 * k;
    lemma_fundamental_div_mod(r.start as int, 4096);
    vstd::arithmetic::div_mod::lemma_mod_multiples_vanish(
        r.start as int / 4096 + k,
        0,
        4096,
    );
    assert(v == 4096 * (r.start as int / 4096 + k) + 0);
}

/// In a region aligned at both ends, every frame lies wholly inside it.
proof fn lemma_region_frame_contained(r: MemoryRegion, k: int)
    requires
        r.start % 4096 == 0,
        r.end % 4096 == 0,
        0 <= k < region_frame_count(r),
    ensures
        r.usable,
        r.start <= region_frames(r)[k],
        region_frames(r)[k] + 4096 <= r.end,
{
    lemma_region_frames_aligned(r, k);
    lemma_region_frame_offset(r, k);
    let v = r.start + 4096 * k;
    lemma_fundamental_div_mod(v, 4096);
    lemma_fundamental_div_mod(r.end as int, 4096);
    let q = v / 4096;
    let e = r.end as int / 4096;
    assert(4096 * q < 4096 * e);
    assert(q < e) by {
        if q >= e {
            assert(4096 * q >= 4096 * e) by (nonlinear_arith)
                requires
                    q >= e,
            ;
        }
    }
    assert(v + 4096 == 4096 * (q + 1));
    assert(4096 * (q + 1) <= 4096 * e) by (nonlinear_arith)
        requires
            q + 1 <= e,
    ;
}

/// Whether `f` is the base of a frame lying wholly inside some usable
/// region of the map.
pub open spec fn frame_in_usable_region(regions: Seq<MemoryRegion>, f: u64) -> bool {
    exists|i: int|
        0 <= i < regions.len() && (#[trigger] regions[i]).usable && regions[i].start <= f && f
            + 4096 <= regions[i].end
}

/// On a well-formed map the usable-frame sequence is strictly increasing:
/// the allocator never serves the same frame twice, and serves frames in
/// the regions' own order.
pub proof fn lemma_usable_frames_increasing(regions: Seq<MemoryRegion>)
    requires
        wf_memory_map(regions),
    ensures
        forall|a: int, b: int|
            0 <= a < b < usable_frames_seq(regions).len() ==> usable_frames_seq(regions)[a]
                < usable_frames_seq(regions)[b],
        forall|a: int|
            #![trigger usable_frames_seq(regions)[a]]
            0 <= a < usable_frames_seq(regions).len() && regions.len() > 0 ==> regions[0].start
                <= usable_frames_seq(regions)[a],
    decreases regions.len(),
{
    if regions.len() > 0 {
        let r = regions[0];
        let tail = regions.drop_first();
        let head = region_frames(r);
        let f = usable_frames_seq(regions);
        assert(wf_memory_map(tail)) by {
            assert(forall|i: int|
                0 <= i < tail.len() ==> #[trigger] tail[i] == regions[i + 1]);
        }
        lemma_usable_frames_increasing(tail);
        assert forall|a: int|
            #![trigger head[a]]
            0 <= a < head.len() implies r.start <= head[a] && head[a] + 4096 <= r.end by {
            lemma_region_frame_contained(r, a);
        }
        if tail.len() > 0 {
            assert(r.end <= tail[0].start) by {
                assert(tail[0] == regions[1]);
            }
        }
        assert forall|a: int, b: int| 0 <= a < b < f.len() implies f[a] < f[b] by {
            if b < head.len() {
                lemma_region_frames_aligned(r, a);
                lemma_region_frames_aligned(r, b);
            } else if a >= head.len() {
                assert(usable_frames_seq(tail)[a - head.len()] < usable_frames_seq(
                    tail,
                )[b - head.len()]);
            } else {
                assert(head[a] + 4096 <= r.end);
                assert(tail.len() > 0);
                assert(tail[0].start <= usable_frames_seq(tail)[b - head.len()]);
            }
        }
        assert forall|a: int|
            #![trigger f[a]]
            0 <= a < f.len() implies regions[0].start <= f[a] by {
            if a >= head.len() {
                assert(tail[0].start <= usable_frames_seq(tail)[a - head.len()]);
            }
        }
    }
}

/// On a well-formed map, every frame the allocator can serve lies wholly
/// inside a region classified usable.
pub proof fn lemma_usable_frames_in_usable_region(regions: Seq<MemoryRegion>)
    requires
        wf_memory_map(regions),
    ensures
        forall|a: int|
            #![trigger usable_frames_seq(regions)[a]]
            0 <= a < usable_frames_seq(regions).len() ==> frame_in_usable_region(
                regions,
                usable_frames_seq(regions)[a],
            ),
    decreases regions.len(),
{
    if regions.len() > 0 {
        let r = regions[0];
        let tail = regions.drop_first();
        let head = region_frames(r);
        let f = usable_frames_seq(regions);
        assert(wf_memory_map(tail)) by {
            assert(forall|i: int|
                0 <= i < tail.len() ==> #[trigger] tail[i] == regions[i + 1]);
        }
        lemma_usable_frames_in_usable_region(tail);
        assert forall|a: int|
            #![trigger f[a]]
            0 <= a < f.len() implies frame_in_usable_region(regions, f[a]) by {
            if a < head.len() {
                lemma_region_frame_contained(r, a);
                assert(0 <= 0 < regions.len() && regions[0].usable && regions[0].start <= f[a]
                    && f[a] + 4096 <= regions[0].end);
            } else {
                let g = usable_frames_seq(tail)[a - head.len()];
                assert(frame_in_usable_region(tail, g));
                let i = choose|i: int|
                    0 <= i < tail.len() && (#[trigger] tail[i]).usable && tail[i].start <= g && g
                        + 4096 <= tail[i].end;
                assert(regions[i + 1] == tail[i]);
                assert(0 <= i + 1 < regions.len() && regions[i + 1].usable && regions[i
                    + 1].start <= f[a] && f[a] + 4096 <= regions[i + 1].end);
            }
        }
    }
}

/// Hands out unused physical frames from the firmware memory map: a bump
/// allocator over the flattened usable-frame sequence.
pub struct BootInfoFrameAllocator {
    pub memory_map: Vec<MemoryRegion>,
    pub next: usize,
}

impl BootInfoFrameAllocator {
    /// The flattened sequence of usable frame addresses this allocator
    /// serves, in allocation order.
    pub open spec fn spec_frames(self) -> Seq<u64> {
        usable_frames_seq(self.memory_map@)
    }

    /// The frames not yet served: what the next calls will return, in
    /// order.
    pub open spec fn spec_remaining(self) -> Seq<u64> {
        if self.next <= self.spec_frames().len() {
            self.spec_frames().skip(self.next as int)
        } else {
            Seq::empty()
        }
    }

    /// Constructed once from the firmware memory map. The caller vouches
    /// that the map is valid and that frames of `usable` regions are truly
    /// unused; nothing here can check that against the machine.
    pub fn init(memory_map: Vec<MemoryRegion>) -> (r: Self)
        ensures
            r.memory_map@ == memory_map@,
            r.next == 0,
    {
        BootInfoFrameAllocator { memory_map, next: 0 }
    }

    /// Returns the frame at the current allocation index and advances the
    /// index: each index is served at most once, in strictly increasing
    /// order, and the supply ends with the map's usable frames.
    pub fn allocate_frame(&mut self) -> (r: Option<u64>)
        requires
            old(self).next < usize::MAX,
        ensures
            final(self).memory_map == old(self).memory_map,
            final(self).next == old(self).next + 1,
            r == (if (old(self).next as int) < old(self).spec_frames().len() {
                Some(old(self).spec_frames()[old(self).next as int])
            } else {
                None::<u64>
            }),
    {
        let frame = nth_usable_frame(&self.memory_map, self.next as u64);
        self.next = self.next + 1;
        frame
    }
}

} // verus!
