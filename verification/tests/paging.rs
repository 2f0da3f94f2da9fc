use rustkernel::memory::BootInfoFrameAllocator;
use rustkernel::memory::MemoryRegion;
use rustkernel::paging::create_example_mapping;
use rustkernel::paging::map_to;
use rustkernel::paging::translate;
use rustkernel::paging::MapError;
use rustkernel::paging::PageTable;
use rustkernel::paging::PhysMemory;
use rustkernel::paging::Translation;

fn table(base: u64, filled: &[(usize, u64)]) -> PageTable {
    let mut entries = vec![0u64; 512];
    for &(index, value) in filled {
        entries[index] = value;
    }
    PageTable { base, entries }
}

/// A synthetic hierarchy that identity-maps the console page at 0xb8000.
fn console_tables() -> PhysMemory {
    // 0xb8000 selects index 0 at the top three levels and 0xb8 at the
    // bottom one.
    PhysMemory {
        tables: vec![
            table(0x1000, &[(0, 0x2000 | 3)]),
            table(0x2000, &[(0, 0x3000 | 3)]),
            table(0x3000, &[(0, 0x4000 | 3)]),
            table(0x4000, &[(0xb8, 0xb8000 | 3)]),
        ],
    }
}

#[test]
fn console_page_translates_to_its_known_frame() {
    let mem = console_tables();
    assert_eq!(translate(&mem, 0x1000, 0xb8000), Translation::Mapped(0xb8000));
    assert_eq!(translate(&mem, 0x1000, 0xb8abc), Translation::Mapped(0xb8abc));
    assert_eq!(translate(&mem, 0x1000, 0xb8fff), Translation::Mapped(0xb8fff));
}

#[test]
fn unused_top_level_entry_means_no_mapping() {
    let mem = console_tables();
    // Index 1 at the top level is unused.
    assert_eq!(translate(&mem, 0x1000, 1u64 << 39), Translation::Unmapped);
    // A neighbouring page of the same bottom-level table is unused too.
    assert_eq!(translate(&mem, 0x1000, 0xb9000), Translation::Unmapped);
}

#[test]
fn huge_entry_is_a_forced_stop() {
    let mut mem = console_tables();
    // Mark the level-2 entry as huge: the walk stops rather than
    // answering wrongly.
    mem.tables[2].entries[0] = 0x4000 | 3 | 0x80;
    assert_eq!(translate(&mem, 0x1000, 0xb8000), Translation::HugeEntry);
}

fn fresh_allocator() -> BootInfoFrameAllocator {
    BootInfoFrameAllocator::init(vec![MemoryRegion {
        start: 0x100000,
        end: 0x104000,
        usable: true,
    }])
}

#[test]
fn map_to_installs_a_working_mapping() {
    let mut mem = PhysMemory { tables: vec![table(0x1000, &[])] };
    let mut allocator = fresh_allocator();
    let r = map_to(&mut mem, 0x1000, 0x20_0000, 0x7000, 3, &mut allocator);
    assert_eq!(r, Ok(()));
    assert_eq!(translate(&mem, 0x1000, 0x20_0000), Translation::Mapped(0x7000));
    assert_eq!(translate(&mem, 0x1000, 0x20_0123), Translation::Mapped(0x7123));
    // Three intermediate tables were allocated.
    assert_eq!(allocator.next, 3);
}

#[test]
fn mapping_twice_is_refused() {
    let mut mem = PhysMemory { tables: vec![table(0x1000, &[])] };
    let mut allocator = fresh_allocator();
    assert_eq!(map_to(&mut mem, 0x1000, 0x20_0000, 0x7000, 3, &mut allocator), Ok(()));
    assert_eq!(
        map_to(&mut mem, 0x1000, 0x20_0000, 0x8000, 3, &mut allocator),
        Err(MapError::PageAlreadyMapped)
    );
}

#[test]
fn huge_parent_entry_is_refused() {
    let mut mem = PhysMemory { tables: vec![table(0x1000, &[(0, 0x2000 | 3 | 0x80)])] };
    let mut allocator = fresh_allocator();
    assert_eq!(
        map_to(&mut mem, 0x1000, 0, 0x7000, 3, &mut allocator),
        Err(MapError::ParentEntryHugePage)
    );
}

#[test]
fn exhausted_frame_supply_is_reported() {
    let mut mem = PhysMemory { tables: vec![table(0x1000, &[])] };
    let mut allocator = BootInfoFrameAllocator::init(vec![]);
    assert_eq!(
        map_to(&mut mem, 0x1000, 0, 0x7000, 3, &mut allocator),
        Err(MapError::FrameAllocationFailed)
    );
}

#[test]
fn example_mapping_reaches_the_console_frame() {
    let mut mem = PhysMemory { tables: vec![table(0x1000, &[])] };
    let mut allocator = fresh_allocator();
    create_example_mapping(0x40_0000, &mut mem, 0x1000, &mut allocator);
    assert_eq!(translate(&mem, 0x1000, 0x40_0000), Translation::Mapped(0xb8000));
    assert_eq!(translate(&mem, 0x1000, 0x40_0abc), Translation::Mapped(0xb8abc));
}
