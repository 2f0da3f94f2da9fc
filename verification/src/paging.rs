//! The virtual-memory subsystem over a synthetic model of physical memory:
//! a 4-level page-table hierarchy, the address translator that walks it,
//! and the page mapper that installs new mappings, allocating intermediate
//! tables from the frame allocator.
//!
//! On the machine, tables live in physical frames reached through the
//! fixed physical-memory offset established once at boot; here the same
//! tables are data, held as 512-entry vectors keyed by their frame base,
//! and the entry words carry the hardware bit layout.

use vstd::prelude::*;

use crate::memory::BootInfoFrameAllocator;

verus! {

/// Entry bit 0: the entry maps something.
pub const ENTRY_PRESENT: u64 = 1;

/// Entry bit 1: writes are allowed.
pub const ENTRY_WRITABLE: u64 = 2;

/// Entry bit 7: the entry references a huge frame rather than a
/// next-level table. Unsupported here, and fatal when met.
pub const ENTRY_HUGE: u64 = 0x80;

/// Bits 12..52 of an entry: the physical base it references.
pub const ENTRY_ADDR_MASK: u64 = 0x000f_ffff_ffff_f000;

/// Whether an entry maps anything.
pub open spec fn entry_present(e: u64) -> bool {
    e & 1 != 0
}

/// Whether an entry claims a huge frame.
pub open spec fn entry_huge(e: u64) -> bool {
    e & 0x80 != 0
}

/// The physical base an entry references.
pub open spec fn entry_addr(e: u64) -> u64 {
    e & 0x000f_ffff_ffff_f000
}

/// The 9-bit index a virtual address selects at `level` (4 is the top).
pub open spec fn va_index(va: u64, level: int) -> int {
    if level == 4 {
        ((va >> 39) & 0x1ff) as int
    } else if level == 3 {
        ((va >> 30) & 0x1ff) as int
    } else if level == 2 {
        ((va >> 21) & 0x1ff) as int
    } else {
        ((va >> 12) & 0x1ff) as int
    }
}

/// Each level's index is a table index.
proof fn lemma_va_index_bounds(va: u64)
    ensures
        0 <= va_index(va, 4) < 512,
        0 <= va_index(va, 3) < 512,
        0 <= va_index(va, 2) < 512,
        0 <= va_index(va, 1) < 512,
{
    assert((va >> 39) & 0x1ff < 512 && (va >> 30) & 0x1ff < 512 && (va >> 21) & 0x1ff < 512 && (
    va >> 12) & 0x1ff < 512) by (bit_vector);
}

/// One page table: 512 entry words, located at a physical frame base.
pub struct PageTable {
    pub base: u64,
    pub entries: Vec<u64>,
}

/// The synthetic physical memory the walker reads: the page tables
/// reachable through the fixed offset mapping, keyed by frame base.
pub struct PhysMemory {
    pub tables: Vec<PageTable>,
}

/// The first table at `base`, if any.
pub open spec fn find_table_spec(tables: Seq<PageTable>, base: u64) -> Option<Seq<u64>>
    decreases tables.len(),
{
    if tables.len() == 0 {
        None
    } else if tables[0].base == base {
        Some(tables[0].entries@)
    } else {
        find_table_spec(tables.drop_first(), base)
    }
}

impl PhysMemory {
    /// Every table has its 512 entries, and bases are unique.
    pub open spec fn wf(self) -> bool {
        &&& (forall|i: int|
            0 <= i < self.tables.len() ==> (#[trigger] self.tables[i]).entries.len() == 512)
        &&& (forall|i: int, j: int|
            0 <= i < j < self.tables.len() ==> (#[trigger] self.tables[i]).base
                != (#[trigger] self.tables[j]).base)
    }

    /// Whether a table lives at `base`.
    pub open spec fn has_table(self, base: u64) -> bool {
        find_table_spec(self.tables@, base) is Some
    }
}

/// What the translator resolves a virtual address to: a physical address,
/// no mapping, or the fatal huge-frame case.
#[derive(Clone, Copy, Debug, PartialEq, Eq, Structural)]
pub enum Translation {
    Mapped(u64),
    Unmapped,
    HugeEntry,
}

/// The 4-level walk: at each level the address's 9-bit index selects an
/// entry; an absent entry means no mapping, a huge entry is fatal, and the
/// level-1 entry yields the frame whose base plus the 12-bit page offset
/// is the translation.
pub open spec fn walk_spec(tables: Seq<PageTable>, base: u64, va: u64, level: int) -> Translation
    decreases level,
{
    if level <= 0 {
        Translation::Unmapped
    } else {
        match find_table_spec(tables, base) {
            None => Translation::Unmapped,
            Some(entries) => {
                let e = entries[va_index(va, level)];
                if !entry_present(e) {
                    Translation::Unmapped
                } else if level > 1 && entry_huge(e) {
                    Translation::HugeEntry
                } else if level == 1 {
                    Translation::Mapped((entry_addr(e) + (va & 0xfff)) as u64)
                } else {
                    walk_spec(tables, entry_addr(e), va, level - 1)
                }
            },
        }
    }
}

/// What `translate` returns: the walk from the top-level table.
pub open spec fn spec_translate(mem: PhysMemory, root: u64, va: u64) -> Translation {
    walk_spec(mem.tables@, root, va, 4)
}

/// If no table in the first `i` slots matches, the search outcome is that
/// of the rest.
proof fn lemma_find_skip(tables: Seq<PageTable>, i: int, base: u64)
    requires
        0 <= i <= tables.len(),
        forall|j: int| 0 <= j < i ==> (#[trigger] tables[j]).base != base,
    ensures
        find_table_spec(tables, base) == find_table_spec(tables.skip(i), base),
    decreases i,
{
    if i == 0 {
        assert(tables.skip(0) =~= tables);
    } else {
        assert(tables.drop_first().skip(i - 1) =~= tables.skip(i));
        lemma_find_skip(tables.drop_first(), i - 1, base);
    }
}

/// A found table is one of the slots.
proof fn lemma_find_is_member(tables: Seq<PageTable>, base: u64)
    requires
        find_table_spec(tables, base) is Some,
    ensures
        exists|i: int|
            0 <= i < tables.len() && (#[trigger] tables[i]).base == base && tables[i].entries@
                == find_table_spec(tables, base).unwrap(),
    decreases tables.len(),
{
    if tables[0].base == base {
        assert(tables[0].base == base && tables[0].entries@ == find_table_spec(
            tables,
            base,
        ).unwrap());
    } else {
        lemma_find_is_member(tables.drop_first(), base);
        let i = choose|i: int|
            0 <= i < tables.drop_first().len() && (#[trigger] tables.drop_first()[i]).base == base
                && tables.drop_first()[i].entries@ == find_table_spec(
                tables.drop_first(),
                base,
            ).unwrap();
        assert(tables[i + 1] == tables.drop_first()[i]);
    }
}

/// Finds the table at `base`.
fn find_table<'a>(tables: &'a Vec<PageTable>, base: u64) -> (r: Option<&'a PageTable>)
    ensures
        match r {
            Some(t) => find_table_spec(tables@, base) == Some(t.entries@) && t.base == base && (
            exists|i: int| 0 <= i < tables@.len() && #[trigger] tables@[i] == *t),
            None => find_table_spec(tables@, base) is None,
        },
{
    let mut i: usize = 0;
    while i < tables.len()
        invariant
            i <= tables.len(),
            forall|j: int| 0 <= j < i ==> (#[trigger] tables@[j]).base != base,
        decreases tables.len() - i,
    {
        if tables[i].base == base {
            proof {
                lemma_find_skip(tables@, i as int, base);
                assert(tables@.skip(i as int)[0] == tables@[i as int]);
            }
            return Some(&tables[i]);
        }
        i = i + 1;
    }
    proof {
        lemma_find_skip(tables@, tables@.len() as int, base);
        assert(tables@.skip(tables@.len() as int) =~= Seq::<PageTable>::empty());
    }
    None
}

/// One step of the exec walk at `level`.
fn walk_level(mem: &PhysMemory, base: u64, va: u64, level: u64) -> (r: Translation)
    requires
        mem.wf(),
        1 <= level <= 4,
    ensures
        r == walk_spec(mem.tables@, base, va, level as int),
    decreases level,
{
    proof {
        lemma_va_index_bounds(va);
    }
    let t = match find_table(&mem.tables, base) {
        None => {
            return Translation::Unmapped;
        },
        Some(t) => t,
    };
    let idx: usize = if level == 4 {
        ((va >> 39) & 0x1ff) as usize
    } else if level == 3 {
        ((va >> 30) & 0x1ff) as usize
    } else if level == 2 {
        ((va >> 21) & 0x1ff) as usize
    } else {
        ((va >> 12) & 0x1ff) as usize
    };
    let e = t.entries[idx];
    if e & ENTRY_PRESENT == 0 {
        Translation::Unmapped
    } else if level > 1 && e & ENTRY_HUGE != 0 {
        Translation::HugeEntry
    } else if level == 1 {
        proof {
            assert(e & 0x000f_ffff_ffff_f000 <= 0x000f_ffff_ffff_f000 && (va & 0xfff)
                <= 0xfff) by (bit_vector);
        }
        Translation::Mapped((e & ENTRY_ADDR_MASK) + (va & 0xfff))
    } else {
        walk_level(mem, e & ENTRY_ADDR_MASK, va, level - 1)
    }
}

/// Resolves a virtual address against the table hierarchy rooted at
/// `root`: the physical address for a mapped one, no mapping where any
/// level's entry is unused, and the fatal huge-frame answer rather than a
/// wrong translation where an entry claims a huge frame.
pub fn translate(mem: &PhysMemory, root: u64, virtual_address: u64) -> (r: Translation)
    requires
        mem.wf(),
    ensures
        r == spec_translate(*mem, root, virtual_address),
{
    walk_level(mem, root, virtual_address, 4)
}

/// Why a mapping could not be installed.
#[derive(Clone, Copy, Debug, PartialEq, Eq, Structural)]
pub enum MapError {
    FrameAllocationFailed,
    ParentEntryHugePage,
    PageAlreadyMapped,
}

/// A fresh intermediate table: 512 unused entries.
pub open spec fn zero_entries() -> Seq<u64> {
    Seq::new(512, |i: int| 0u64)
}

/// If the search misses, no slot holds the base.
proof fn lemma_find_none_no_slot(tables: Seq<PageTable>, base: u64)
    requires
        find_table_spec(tables, base) is None,
    ensures
        forall|i: int| 0 <= i < tables.len() ==> (#[trigger] tables[i]).base != base,
    decreases tables.len(),
{
    if tables.len() > 0 {
        lemma_find_none_no_slot(tables.drop_first(), base);
        assert(forall|i: int|
            1 <= i < tables.len() ==> #[trigger] tables[i] == tables.drop_first()[i - 1]);
    }
}

/// Appending a table changes the search only for its own base, and only
/// if that base was absent.
proof fn lemma_find_after_push(tables: Seq<PageTable>, t: PageTable, b: u64)
    ensures
        find_table_spec(tables.push(t), b) == (if find_table_spec(tables, b) is Some {
            find_table_spec(tables, b)
        } else if t.base == b {
            Some(t.entries@)
        } else {
            None::<Seq<u64>>
        }),
    decreases tables.len(),
{
    if tables.len() == 0 {
        assert(tables.push(t)[0] == t);
        assert(tables.push(t).drop_first() =~= tables);
    } else {
        assert(tables.push(t)[0] == tables[0]);
        assert(tables.push(t).drop_first() =~= tables.drop_first().push(t));
        lemma_find_after_push(tables.drop_first(), t, b);
    }
}

/// Replacing slot `i` (whose base is unique) changes the search only for
/// that base.
proof fn lemma_find_after_update(tables: Seq<PageTable>, i: int, t: PageTable, b: u64)
    requires
        0 <= i < tables.len(),
        t.base == tables[i].base,
        forall|k: int| 0 <= k < tables.len() && k != i ==> (#[trigger] tables[k]).base != t.base,
    ensures
        find_table_spec(tables.update(i, t), b) == (if b == t.base {
            Some(t.entries@)
        } else {
            find_table_spec(tables, b)
        }),
    decreases tables.len(),
{
    if i == 0 {
        assert(tables.update(0, t)[0] == t);
        assert(tables.update(0, t).drop_first() =~= tables.drop_first());
        if b == t.base {
        } else {
        }
    } else {
        assert(tables.update(i, t)[0] == tables[0]);
        assert(tables.update(i, t).drop_first() =~= tables.drop_first().update(i - 1, t));
        assert(forall|k: int|
            0 <= k < tables.drop_first().len() && k != i - 1 ==> (
            #[trigger] tables.drop_first()[k]).base != t.base);
        lemma_find_after_update(tables.drop_first(), i - 1, t, b);
        if b == tables[0].base {
            assert(tables[0].base != t.base);
        }
    }
}

/// Adds a fresh, zeroed table at `base`.
fn add_table(mem: &mut PhysMemory, base: u64)
    requires
        old(mem).wf(),
        !old(mem).has_table(base),
    ensures
        final(mem).wf(),
        forall|b: u64|
            #![trigger find_table_spec(final(mem).tables@, b)]
            find_table_spec(final(mem).tables@, b) == (if b == base {
                Some(zero_entries())
            } else {
                find_table_spec(old(mem).tables@, b)
            }),
{
    let mut entries: Vec<u64> = Vec::new();
    let mut k: usize = 0;
    while k < 512
        invariant
            k <= 512,
            entries.len() == k,
            forall|i: int| 0 <= i < k ==> entries@[i] == 0u64,
        decreases 512 - k,
    {
        entries.push(0);
        k = k + 1;
    }
    let t = PageTable { base, entries };
    proof {
        assert(t.entries@ =~= zero_entries());
        lemma_find_none_no_slot(old(mem).tables@, base);
        lemma_find_after_push(old(mem).tables@, t, base);
    }
    let ghost pre = mem.tables@;
    mem.tables.push(t);
    proof {
        assert(mem.tables@ == pre.push(t));
        assert forall|b: u64|
            find_table_spec(mem.tables@, b) == (if b == base {
                Some(zero_entries())
            } else {
                find_table_spec(pre, b)
            }) by {
            lemma_find_after_push(pre, t, b);
        }
        lemma_find_none_no_slot(pre, base);
    }
}

/// Writes entry `idx` of the table at `base`.
fn set_entry(mem: &mut PhysMemory, base: u64, idx: usize, value: u64)
    requires
        old(mem).wf(),
        old(mem).has_table(base),
        idx < 512,
    ensures
        final(mem).wf(),
        forall|b: u64|
            #![trigger find_table_spec(final(mem).tables@, b)]
            find_table_spec(final(mem).tables@, b) == (if b == base {
                Some(find_table_spec(old(mem).tables@, base).unwrap().update(idx as int, value))
            } else {
                find_table_spec(old(mem).tables@, b)
            }),
{
    let ghost pre = mem.tables@;
    let mut i: usize = 0;
    while i < mem.tables.len()
        invariant
            mem.tables@ == pre,
            i <= pre.len(),
            forall|j: int| 0 <= j < i ==> (#[trigger] pre[j]).base != base,
            old(mem).wf(),
            old(mem).has_table(base),
            idx < 512,
            pre == old(mem).tables@,
        decreases pre.len() - i,
    {
        if mem.tables[i].base == base {
            proof {
                lemma_find_skip(pre, i as int, base);
                assert(pre.skip(i as int)[0] == pre[i as int]);
            }
            mem.tables[i].entries[idx] = value;
            proof {
                let t = mem.tables@[i as int];
                assert(t.base == base);
                assert(t.entries@ == pre[i as int].entries@.update(idx as int, value));
                assert(mem.tables@ =~= pre.update(i as int, t));
                assert forall|b: u64|
                    find_table_spec(mem.tables@, b) == (if b == base {
                        Some(find_table_spec(pre, base).unwrap().update(idx as int, value))
                    } else {
                        find_table_spec(pre, b)
                    }) by {
                    lemma_find_after_update(pre, i as int, t, b);
                }
            }
            return;
        }
        i = i + 1;
    }
    proof {
        lemma_find_skip(pre, pre.len() as int, base);
        assert(pre.skip(pre.len() as int) =~= Seq::<PageTable>::empty());
        assert(false);
    }
}

/// Packing a frame base with low-bit flags keeps both readable: the
/// address mask recovers the base, and the low bits recover the flags.
proof fn lemma_entry_encode(f: u64, fl: u64)
    requires
        f % 4096 == 0,
        f <= 0x000f_ffff_ffff_f000,
        fl <= 0xfff,
    ensures
        entry_addr(f | fl) == f,
        entry_present((f | fl)) == (fl & 1 != 0),
        entry_huge((f | fl)) == (fl & 0x80 != 0),
{
    assert(f % 4096 == 0 && f <= 0x000f_ffff_ffff_f000 && fl <= 0xfff ==> ((f | fl)
        & 0x000f_ffff_ffff_f000 == f && ((f | fl) & 1 == fl & 1) && ((f | fl) & 0x80 == fl
        & 0x80))) by (bit_vector);
}

/// Addresses inside one page share every table index, and their low 12
/// bits are their offset in the page.
proof fn lemma_same_page_indices(page: u64, va: u64)
    requires
        page % 4096 == 0,
        page <= va,
        va - page < 4096,
    ensures
        va_index(va, 4) == va_index(page, 4),
        va_index(va, 3) == va_index(page, 3),
        va_index(va, 2) == va_index(page, 2),
        va_index(va, 1) == va_index(page, 1),
        va & 0xfff == va - page,
{
    assert(page % 4096 == 0 && page <= va && va - page < 4096 ==> ((va >> 39) & 0x1ff == (page
        >> 39) & 0x1ff && (va >> 30) & 0x1ff == (page >> 30) & 0x1ff && (va >> 21) & 0x1ff == (
    page >> 21) & 0x1ff && (va >> 12) & 0x1ff == (page >> 12) & 0x1ff && (va & 0xfff) == va
        - page)) by (bit_vector);
}

/// The walk chain `map_to` will follow for `page`, starting from `base` at
/// `level`: each base exists, none repeats an ancestor, and the chain
/// continues through every present, non-huge entry. The mapper refuses to
/// guess at memory it cannot see, so it asks its caller for this much.
pub open spec fn path_ok(
    tables: Seq<PageTable>,
    base: u64,
    page: u64,
    level: int,
    ancestors: Seq<u64>,
) -> bool
    decreases level,
{
    &&& !ancestors.contains(base)
    &&& find_table_spec(tables, base) is Some
    &&& (level > 1 ==> {
        let e = find_table_spec(tables, base).unwrap()[va_index(page, level)];
        (entry_present(e) && !entry_huge(e)) ==> path_ok(
            tables,
            entry_addr(e),
            page,
            level - 1,
            ancestors.push(base),
        )
    })
}

/// What installing a mapping decides, before any memory changes: a huge
/// entry on the existing path is fatal, a missing intermediate table costs
/// one frame from the supply of `budget`, and an already-present leaf
/// entry is refused.
pub open spec fn map_result_spec(
    tables: Seq<PageTable>,
    base: u64,
    page: u64,
    level: int,
    budget: int,
) -> Result<(), MapError>
    decreases level,
{
    match find_table_spec(tables, base) {
        None => Ok(()),
        Some(entries) => {
            if level <= 1 {
                if entry_present(entries[va_index(page, 1)]) {
                    Err(MapError::PageAlreadyMapped)
                } else {
                    Ok(())
                }
            } else {
                let e = entries[va_index(page, level)];
                if entry_present(e) {
                    if entry_huge(e) {
                        Err(MapError::ParentEntryHugePage)
                    } else {
                        map_result_spec(tables, entry_addr(e), page, level - 1, budget)
                    }
                } else {
                    if budget >= level - 1 {
                        Ok(())
                    } else {
                        Err(MapError::FrameAllocationFailed)
                    }
                }
            }
        },
    }
}

/// Frames the allocator can still hand the mapper: page-aligned, small
/// enough for an entry's address bits, backing no existing table, and
/// pairwise distinct.
pub open spec fn fresh_frames_for(mem: PhysMemory, frames: Seq<u64>) -> bool {
    &&& (forall|k: int|
        0 <= k < frames.len() ==> (#[trigger] frames[k]) % 4096 == 0 && frames[k]
            <= 0x000f_ffff_ffff_f000 && !mem.has_table(frames[k]))
    &&& (forall|k: int, l: int| 0 <= k < l < frames.len() ==> frames[k] != frames[l])
}

/// Installs the mapping for one level and everything below it.
fn map_level(
    mem: &mut PhysMemory,
    base: u64,
    page: u64,
    frame: u64,
    flags: u64,
    level: u64,
    alloc: &mut BootInfoFrameAllocator,
    Ghost(ancestors): Ghost<Seq<u64>>,
) -> (r: Result<(), MapError>)
    requires
        1 <= level <= 4,
        old(mem).wf(),
        path_ok(old(mem).tables@, base, page, level as int, ancestors),
        forall|b: u64|
            ancestors.contains(b) ==> find_table_spec(old(mem).tables@, b) is Some,
        fresh_frames_for(*old(mem), old(alloc).spec_remaining()),
        page % 4096 == 0,
        frame % 4096 == 0,
        frame <= 0x000f_ffff_ffff_f000,
        flags & 1 != 0,
        flags <= 0xfff,
        flags & 0x80 == 0,
        old(alloc).next + level <= usize::MAX,
    ensures
        final(mem).wf(),
        final(alloc).memory_map == old(alloc).memory_map,
        old(alloc).next <= final(alloc).next <= old(alloc).next + level - 1,
        forall|b: u64|
            ancestors.contains(b) ==> find_table_spec(final(mem).tables@, b) == find_table_spec(
                old(mem).tables@,
                b,
            ),
        r == map_result_spec(
            old(mem).tables@,
            base,
            page,
            level as int,
            old(alloc).spec_remaining().len() as int,
        ),
        r is Ok ==> forall|va: u64|
            page <= va && va - page < 4096 ==> #[trigger] walk_spec(
                final(mem).tables@,
                base,
                va,
                level as int,
            ) == Translation::Mapped((frame + (va - page)) as u64),
    decreases level,
{
    proof {
        lemma_va_index_bounds(page);
    }
    let idx: usize = if level == 4 {
        ((page >> 39) & 0x1ff) as usize
    } else if level == 3 {
        ((page >> 30) & 0x1ff) as usize
    } else if level == 2 {
        ((page >> 21) & 0x1ff) as usize
    } else {
        ((page >> 12) & 0x1ff) as usize
    };
    let t = match find_table(&mem.tables, base) {
        Some(t) => t,
        None => {
            proof {
                assert(false);
            }
            return Err(MapError::PageAlreadyMapped);
        },
    };
    proof {
        let gi = choose|i: int| 0 <= i < mem.tables@.len() && #[trigger] mem.tables@[i] == *t;
        assert(mem.tables@[gi].entries.len() == 512);
    }
    let e = t.entries[idx];
    if level == 1 {
        if e & ENTRY_PRESENT != 0 {
            return Err(MapError::PageAlreadyMapped);
        }
        let ghost pre = mem.tables@;
        set_entry(mem, base, idx, frame | flags);
        proof {
            lemma_entry_encode(frame, flags);
            assert forall|va: u64| page <= va && va - page < 4096 implies #[trigger] walk_spec(
                mem.tables@,
                base,
                va,
                1,
            ) == Translation::Mapped((frame + (va - page)) as u64) by {
                lemma_same_page_indices(page, va);
                assert(find_table_spec(mem.tables@, base).unwrap()[va_index(va, 1)] == (frame
                    | flags));
            }
        }
        return Ok(());
    }
    // An intermediate level: follow or create the next table.
    if e & ENTRY_PRESENT != 0 {
        if e & ENTRY_HUGE != 0 {
            return Err(MapError::ParentEntryHugePage);
        }
        let next_base = e & ENTRY_ADDR_MASK;
        let ghost pre = mem.tables@;
        proof {
            assert forall|b: u64| ancestors.push(base).contains(b) implies find_table_spec(
                mem.tables@,
                b,
            ) is Some by {
                let i = choose|i: int|
                    0 <= i < ancestors.push(base).len() && ancestors.push(base)[i] == b;
                if i < ancestors.len() {
                    assert(ancestors[i] == b);
                    assert(ancestors.contains(b));
                } else {
                    assert(b == base);
                }
            }
        }
        let r = map_level(mem, next_base, page, frame, flags, level - 1, alloc, Ghost(ancestors.push(base)));
        proof {
            assert forall|b: u64| ancestors.contains(b) implies find_table_spec(mem.tables@, b)
                == find_table_spec(pre, b) by {
                let i = choose|i: int| 0 <= i < ancestors.len() && ancestors[i] == b;
                assert(ancestors.push(base)[i] == b);
                assert(ancestors.push(base).contains(b));
            }
            assert(ancestors.push(base)[ancestors.len() as int] == base);
            assert(ancestors.push(base).contains(base));
            assert(find_table_spec(mem.tables@, base) == find_table_spec(pre, base));
            if r is Ok {
                assert forall|va: u64| page <= va && va - page < 4096 implies #[trigger]
                    walk_spec(mem.tables@, base, va, level as int) == Translation::Mapped(
                    (frame + (va - page)) as u64,
                ) by {
                    lemma_same_page_indices(page, va);
                    assert(va_index(va, level as int) == idx as int);
                    let entries = find_table_spec(mem.tables@, base).unwrap();
                    assert(entries == find_table_spec(pre, base).unwrap());
                    assert(entries[va_index(va, level as int)] == e);
                    assert(entry_present(e) && !entry_huge(e));
                    assert(entry_addr(e) == next_base);
                    assert(walk_spec(mem.tables@, next_base, va, (level - 1) as int)
                        == Translation::Mapped((frame + (va - page)) as u64));
                }
            }
        }
        return r;
    }
    // The entry is unused: a new table for the next level comes from the
    // frame supply.
    let ghost pre = mem.tables@;
    let ghost pre_remaining = alloc.spec_remaining();
    let f0 = match alloc.allocate_frame() {
        Some(f) => f,
        None => {
            return Err(MapError::FrameAllocationFailed);
        },
    };
    proof {
        assert(pre_remaining.len() > 0);
        assert(f0 == pre_remaining[0]);
        assert(alloc.spec_remaining() =~= pre_remaining.drop_first());
    }
    let ghost mid_remaining = alloc.spec_remaining();
    add_table(mem, f0);
    set_entry(mem, base, idx, f0 | (ENTRY_PRESENT | ENTRY_WRITABLE));
    let ghost mid = mem.tables@;
    proof {
        assert((1u64 | 2u64) == 3 && 3u64 & 1 != 0 && 3u64 & 0x80 == 0 && 3u64 <= 0xfff)
            by (bit_vector);
        assert(pre_remaining[0] % 4096 == 0 && pre_remaining[0] <= 0x000f_ffff_ffff_f000);
        lemma_entry_encode(f0, ENTRY_PRESENT | ENTRY_WRITABLE);
        // The fresh base equals no ancestor and not `base`: they all have
        // tables, it does not.
        assert(!ancestors.push(base).contains(f0)) by {
            if ancestors.push(base).contains(f0) {
                let i = choose|i: int|
                    0 <= i < ancestors.push(base).len() && ancestors.push(base)[i] == f0;
                if i < ancestors.len() {
                    assert(ancestors[i] == f0);
                    assert(ancestors.contains(f0));
                }
            }
        }
        // The fresh table's entries are all unused.
        assert(forall|i: int| 0 <= i < 512 ==> zero_entries()[i] == 0u64);
        assert(find_table_spec(mid, f0) == Some(zero_entries()));
        assert(path_ok(mid, f0, page, level as int - 1, ancestors.push(base))) by {
            if level as int - 1 > 1 {
                let e2 = find_table_spec(mid, f0).unwrap()[va_index(page, level as int - 1)];
                lemma_va_index_bounds(page);
                assert(e2 == 0u64);
                assert(!entry_present(e2)) by {
                    assert(0u64 & 1 == 0) by (bit_vector);
                }
            }
        }
        assert forall|b: u64| ancestors.push(base).contains(b) implies find_table_spec(mid, b)
            is Some by {
            if b == base {
            } else if b == f0 {
            } else {
                let i = choose|i: int|
                    0 <= i < ancestors.push(base).len() && ancestors.push(base)[i] == b;
                if i < ancestors.len() {
                    assert(ancestors[i] == b);
                    assert(ancestors.contains(b));
                } else {
                    assert(b == base);
                }
            }
        }
        // Remaining frames stay fresh for the grown memory.
        assert(fresh_frames_for(*mem, mid_remaining)) by {
            assert forall|k: int|
                0 <= k < mid_remaining.len() implies (#[trigger] mid_remaining[k]) % 4096 == 0
                && mid_remaining[k] <= 0x000f_ffff_ffff_f000 && !mem.has_table(
                mid_remaining[k],
            ) by {
                assert(mid_remaining[k] == pre_remaining[k + 1]);
                assert(pre_remaining[k + 1] != f0);
            }
        }
    }
    let r = map_level(mem, f0, page, frame, flags, level - 1, alloc, Ghost(ancestors.push(base)));
    proof {
        assert forall|b: u64| ancestors.contains(b) implies find_table_spec(mem.tables@, b)
            == find_table_spec(pre, b) by {
            let i = choose|i: int| 0 <= i < ancestors.len() && ancestors[i] == b;
            assert(ancestors.push(base)[i] == b);
            assert(ancestors.push(base).contains(b));
            assert(find_table_spec(mem.tables@, b) == find_table_spec(mid, b));
            assert(b != f0);
            assert(b != base);
        }
        assert(ancestors.push(base)[ancestors.len() as int] == base);
        assert(ancestors.push(base).contains(base));
        assert(find_table_spec(mem.tables@, base) == find_table_spec(mid, base));
        // The decision matches the spec made over the untouched memory.
        assert(r == map_result_spec(
            pre,
            base,
            page,
            level as int,
            pre_remaining.len() as int,
        )) by {
            assert(r == map_result_spec(mid, f0, page, level as int - 1, mid_remaining.len() as int));
            assert(mid_remaining.len() == pre_remaining.len() - 1);
            lemma_va_index_bounds(page);
            assert(find_table_spec(mid, f0).unwrap()[va_index(page, level as int - 1)] == 0u64);
            assert(!entry_present(0u64)) by {
                assert(0u64 & 1 == 0) by (bit_vector);
            }
        }
        if r is Ok {
            assert forall|va: u64| page <= va && va - page < 4096 implies #[trigger] walk_spec(
                mem.tables@,
                base,
                va,
                level as int,
            ) == Translation::Mapped((frame + (va - page)) as u64) by {
                lemma_same_page_indices(page, va);
                assert(va_index(va, level as int) == idx as int);
                let e0 = f0 | (ENTRY_PRESENT | ENTRY_WRITABLE);
                assert(find_table_spec(mem.tables@, base).unwrap()[va_index(va, level as int)]
                    == e0);
                assert(entry_present(e0) && !entry_huge(e0));
                assert(entry_addr(e0) == f0);
                assert(walk_spec(mem.tables@, f0, va, (level - 1) as int)
                    == Translation::Mapped((frame + (va - page)) as u64));
            }
        }
    }
    r
}

/// Installs a mapping from the 4 KiB page at `page` to the physical frame
/// at `frame`, walking the hierarchy rooted at `root` and allocating any
/// missing intermediate tables from the frame allocator. The flags must
/// carry at least the present bit (and, for a useful mapping, the writable
/// bit); the caller vouches that `frame` is not otherwise in active use —
/// the mapper tracks no ownership.
pub fn map_to(
    mem: &mut PhysMemory,
    root: u64,
    page: u64,
    frame: u64,
    flags: u64,
    frame_allocator: &mut BootInfoFrameAllocator,
) -> (r: Result<(), MapError>)
    requires
        old(mem).wf(),
        path_ok(old(mem).tables@, root, page, 4, Seq::empty()),
        fresh_frames_for(*old(mem), old(frame_allocator).spec_remaining()),
        page % 4096 == 0,
        frame % 4096 == 0,
        frame <= 0x000f_ffff_ffff_f000,
        flags & 1 != 0,
        flags <= 0xfff,
        flags & 0x80 == 0,
        old(frame_allocator).next + 4 <= usize::MAX,
    ensures
        final(mem).wf(),
        final(frame_allocator).memory_map == old(frame_allocator).memory_map,
        old(frame_allocator).next <= final(frame_allocator).next <= old(frame_allocator).next + 3,
        r == map_result_spec(
            old(mem).tables@,
            root,
            page,
            4,
            old(frame_allocator).spec_remaining().len() as int,
        ),
        r is Ok ==> forall|va: u64|
            page <= va && va - page < 4096 ==> #[trigger] spec_translate(*final(mem), root, va)
                == Translation::Mapped((frame + (va - page)) as u64),
{
    map_level(mem, root, page, frame, flags, 4, frame_allocator, Ghost(Seq::empty()))
}

/// The frame backing the text-mode console buffer.
pub const VGA_BUFFER_FRAME: u64 = 0xb8000;

/// Maps the page at `page` to the frame holding the text-mode console
/// buffer, present and writable, so writes through the new page land on
/// the screen. The caller vouches that nothing else owns that page, and
/// that the walk can succeed: a failed installation would be fatal during
/// initialization.
pub fn create_example_mapping(
    page: u64,
    mem: &mut PhysMemory,
    root: u64,
    frame_allocator: &mut BootInfoFrameAllocator,
)
    requires
        old(mem).wf(),
        path_ok(old(mem).tables@, root, page, 4, Seq::empty()),
        fresh_frames_for(*old(mem), old(frame_allocator).spec_remaining()),
        page % 4096 == 0,
        old(frame_allocator).next + 4 <= usize::MAX,
        map_result_spec(
            old(mem).tables@,
            root,
            page,
            4,
            old(frame_allocator).spec_remaining().len() as int,
        ) is Ok,
    ensures
        final(mem).wf(),
        forall|va: u64|
            page <= va && va - page < 4096 ==> #[trigger] spec_translate(*final(mem), root, va)
                == Translation::Mapped((0xb8000 + (va - page)) as u64),
{
    proof {
        assert(0xb8000u64 % 4096 == 0 && 0xb8000u64 <= 0x000f_ffff_ffff_f000 && (1u64 | 2u64) & 1
            != 0 && (1u64 | 2u64) <= 0xfff && (1u64 | 2u64) & 0x80 == 0) by (bit_vector);
    }
    let frame: u64 = VGA_BUFFER_FRAME;
    let flags: u64 = ENTRY_PRESENT | ENTRY_WRITABLE;
    let map_to_result = map_to(mem, root, page, frame, flags, frame_allocator);
    match map_to_result {
        Ok(()) => (),
        Err(_) => {
            proof {
                assert(false);
            }
        },
    }
}

} // verus!
