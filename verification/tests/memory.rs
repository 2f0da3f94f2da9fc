use rustkernel::bits::get_bits;
use rustkernel::bits::set_bits;
use rustkernel::memory::BootInfoFrameAllocator;
use rustkernel::memory::MemoryRegion;

fn two_usable_regions() -> Vec<MemoryRegion> {
    vec![
        MemoryRegion { start: 0x1000, end: 0x4000, usable: true },
        MemoryRegion { start: 0x4000, end: 0x6000, usable: false },
        MemoryRegion { start: 0x10000, end: 0x12000, usable: true },
    ]
}

#[test]
fn allocator_serves_every_usable_frame_once_then_none() {
    // Two usable regions of three and two frames: five pairwise-distinct
    // frames, in the regions' order, then exhaustion.
    let mut allocator = BootInfoFrameAllocator::init(two_usable_regions());
    let mut served = Vec::new();
    for _ in 0..5 {
        served.push(allocator.allocate_frame().expect("supply should last"));
    }
    assert_eq!(served, vec![0x1000, 0x2000, 0x3000, 0x10000, 0x11000]);
    for i in 0..served.len() {
        for j in 0..served.len() {
            if i != j {
                assert_ne!(served[i], served[j]);
            }
        }
    }
    assert_eq!(allocator.allocate_frame(), None);
    assert_eq!(allocator.allocate_frame(), None);
}

#[test]
fn served_frames_lie_inside_usable_regions() {
    let regions = two_usable_regions();
    let mut allocator = BootInfoFrameAllocator::init(regions.clone());
    while let Some(frame) = allocator.allocate_frame() {
        let contained = regions.iter().any(|r| {
            r.usable && r.start <= frame && frame + 4096 <= r.end
        });
        assert!(contained, "frame {frame:#x} outside every usable region");
    }
}

#[test]
fn partial_trailing_frame_is_still_served() {
    // A usable region that ends mid-frame still contributes the frame the
    // range starts into, as stepping the range in frame-size strides does.
    let mut allocator = BootInfoFrameAllocator::init(vec![MemoryRegion {
        start: 0x1000,
        end: 0x1800,
        usable: true,
    }]);
    assert_eq!(allocator.allocate_frame(), Some(0x1000));
    assert_eq!(allocator.allocate_frame(), None);
}

#[test]
fn read_back_is_independent_of_surrounding_bits() {
    for word in [0u16, 0xffff, 0x5a5a, 0xa5a5] {
        let result = set_bits(word, 5, 12, 0x55);
        assert_eq!(get_bits(result, 5, 12), 0x55);
    }
}

#[test]
fn unusable_map_serves_nothing() {
    let mut allocator = BootInfoFrameAllocator::init(vec![MemoryRegion {
        start: 0x1000,
        end: 0x4000,
        usable: false,
    }]);
    assert_eq!(allocator.allocate_frame(), None);
}

#[test]
fn empty_region_contributes_no_frame() {
    let mut allocator = BootInfoFrameAllocator::init(vec![
        MemoryRegion { start: 0x2000, end: 0x2000, usable: true },
        MemoryRegion { start: 0x5000, end: 0x6000, usable: true },
    ]);
    assert_eq!(allocator.allocate_frame(), Some(0x5000));
    assert_eq!(allocator.allocate_frame(), None);
}
