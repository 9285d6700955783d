use frame_paging::area_frame_allocator::{AreaFrameAllocator, MemoryArea};
use frame_paging::frame::{Frame, FrameAllocator, FrameError, MemoryInfo};

fn area(base_addr: u64, length: u64) -> MemoryArea {
    MemoryArea { base_addr, length }
}

fn numbers(allocator: &mut AreaFrameAllocator) -> Vec<u64> {
    let mut out = Vec::new();
    while let Some(f) = allocator.allocate_frame() {
        out.push(f.number);
    }
    out
}

#[test]
fn two_frames_then_exhausted() {
    let mut a = AreaFrameAllocator::new(0x10_0000, 0x10_0fff, 0x20_0000, 0x20_0fff, vec![area(0, 0x2000)]);
    assert_eq!(a.allocate_frame(), Some(Frame { number: 0 }));
    assert_eq!(a.allocate_frame(), Some(Frame { number: 1 }));
    assert_eq!(a.allocate_frame(), None);
}

#[test]
fn kernel_range_is_skipped() {
    let mut a = AreaFrameAllocator::new(0x1000, 0x1fff, 0x80_0000, 0x80_0fff, vec![area(0, 0x4000)]);
    assert_eq!(numbers(&mut a), vec![0, 2, 3]);
    assert_eq!(a.allocate_frame(), None);
}

#[test]
fn boot_information_range_is_skipped() {
    let mut a = AreaFrameAllocator::new(0x80_0000, 0x80_0fff, 0x2000, 0x3fff, vec![area(0, 0x5000)]);
    assert_eq!(numbers(&mut a), vec![0, 1, 4]);
}

#[test]
fn exhaustion_is_final() {
    let mut a = AreaFrameAllocator::new(0x80_0000, 0x80_0fff, 0x90_0000, 0x90_0fff, vec![area(0x1000, 0x1000)]);
    assert_eq!(a.allocate_frame(), Some(Frame { number: 1 }));
    for _ in 0..5 {
        assert_eq!(a.allocate_frame(), None);
    }
}

#[test]
fn areas_are_used_in_increasing_order() {
    let areas = vec![area(0x10_000, 0x2000), area(0x1000, 0x1000), area(0x5000, 0x1800)];
    let mut a = AreaFrameAllocator::new(0x80_0000, 0x80_0fff, 0x90_0000, 0x90_0fff, areas);
    let got = numbers(&mut a);
    assert_eq!(got, vec![1, 5, 0x10, 0x11]);
    for w in got.windows(2) {
        assert!(w[0] < w[1]);
    }
}

#[test]
fn no_areas_gives_nothing() {
    let mut a = AreaFrameAllocator::new(0, 0, 0, 0, Vec::new());
    assert_eq!(a.allocate_frame(), None);
}

#[test]
fn frames_inside_exclusions_are_never_returned() {
    let areas = vec![area(0, 0x10_000)];
    let mut a = AreaFrameAllocator::new(0x3000, 0x5fff, 0x8000, 0x8fff, areas);
    let got = numbers(&mut a);
    assert_eq!(got, vec![0, 1, 2, 6, 7, 9, 10, 11, 12, 13, 14, 15]);
}

#[test]
fn deallocation_is_unsupported() {
    let mut a = AreaFrameAllocator::new(0x80_0000, 0x80_0fff, 0x90_0000, 0x90_0fff, vec![area(0, 0x2000)]);
    let f = a.allocate_frame().unwrap();
    assert_eq!(a.deallocate_frame(f), Err(FrameError::Unsupported));
    assert_eq!(a.allocate_frame(), Some(Frame { number: 1 }));
}

#[test]
fn frame_addresses() {
    assert_eq!(Frame::containing_address(0x1fff).number, 1);
    assert_eq!(Frame::containing_address(0x2000).number, 2);
    assert_eq!(Frame { number: 3 }.start_address(), 0x3000);
}

#[test]
fn memory_info_getters() {
    let m = MemoryInfo::new(1, 2, 3, 4);
    assert_eq!(m.get_kernel_start(), 1);
    assert_eq!(m.get_kernel_end(), 2);
    assert_eq!(m.get_multiboot_start(), 3);
    assert_eq!(m.get_multiboot_end(), 4);
}

#[test]
fn frames_straddling_an_area_edge_are_not_handed_out() {
    let mut a = AreaFrameAllocator::new(0x80_0000, 0x80_0fff, 0x90_0000, 0x90_0fff, vec![area(0x800, 0x1000)]);
    assert_eq!(a.allocate_frame(), None);
    let mut b = AreaFrameAllocator::new(0x80_0000, 0x80_0fff, 0x90_0000, 0x90_0fff, vec![area(0x800, 0x2000)]);
    assert_eq!(numbers(&mut b), vec![1]);
}

#[test]
fn empty_areas_are_skipped() {
    let areas = vec![area(0x3000, 0), area(0x1000, 0x1000)];
    let mut a = AreaFrameAllocator::new(0x80_0000, 0x80_0fff, 0x90_0000, 0x90_0fff, areas);
    assert_eq!(numbers(&mut a), vec![1]);
}
