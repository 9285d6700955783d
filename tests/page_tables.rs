use frame_paging::area_frame_allocator::{AreaFrameAllocator, MemoryArea};
use frame_paging::entry::{Entry, EntryFlags, HUGE_PAGE, PRESENT, WRITABLE};
use frame_paging::frame::{Frame, FrameAllocator, FrameError};
use frame_paging::paging::{table_addresses, ActivePageTable, Page};
use frame_paging::table::{p4_table, PagingError, TableMemory};
use frame_paging::vga_buffer::{Color, ColorCode};

struct Recycler {
    next: u64,
    limit: u64,
    freed: Vec<u64>,
}

impl FrameAllocator for Recycler {
    fn exhausted(&self) -> bool {
        self.freed.is_empty() && self.next >= self.limit
    }

    fn can_hand_out(&self, number: u64) -> bool {
        self.freed.contains(&number) || (self.next <= number && number < self.limit)
    }

    fn allocate_frame(&mut self) -> Option<Frame> {
        if let Some(n) = self.freed.pop() {
            return Some(Frame { number: n });
        }
        if self.next < self.limit {
            self.next += 1;
            Some(Frame { number: self.next - 1 })
        } else {
            None
        }
    }

    fn deallocate_frame(&mut self, frame: Frame) -> Result<(), FrameError> {
        self.freed.push(frame.number);
        Ok(())
    }
}

fn allocator() -> AreaFrameAllocator {
    AreaFrameAllocator::new(0x10_0000, 0x1f_ffff, 0x20_0000, 0x20_0fff, vec![MemoryArea { base_addr: 0, length: 0x40_0000 }])
}

#[test]
fn page_indices() {
    let page = Page::containing_address(42 * 512 * 512 * 4096);
    assert_eq!(page.p4_index(), 0);
    assert_eq!(page.p3_index(), 42);
    assert_eq!(page.p2_index(), 0);
    assert_eq!(page.p1_index(), 0);
    let page = Page::containing_address(0xffff_8000_0040_3000);
    assert_eq!(page.p4_index(), 256);
    assert_eq!(page.p3_index(), 0);
    assert_eq!(page.p2_index(), 2);
    assert_eq!(page.p1_index(), 3);
    assert_eq!(page.start_address(), 0xffff_8000_0040_3000);
}

#[test]
fn map_then_translate() {
    let mut a = allocator();
    let mut table = ActivePageTable::new(a.allocate_frame().unwrap());
    let addr = 42 * 512 * 512 * 4096;
    let frame = a.allocate_frame().unwrap();
    let base = frame.start_address();
    assert_eq!(table.translate(addr), None);
    assert_eq!(table.map_to(Page::containing_address(addr), frame, EntryFlags::empty(), &mut a), Ok(()));
    assert_eq!(table.translate(addr + 7), Some(base + 7));
    assert_eq!(table.translate(addr), Some(base));
    assert_eq!(table.translate(addr + 4095), Some(base + 4095));
    assert_eq!(table.translate(addr + 4096), None);
    assert_eq!(a.allocate_frame(), Some(Frame { number: 5 }));
}

#[test]
fn mapping_twice_is_refused() {
    let mut a = allocator();
    let mut table = ActivePageTable::new(a.allocate_frame().unwrap());
    let page = Page::containing_address(0x40_0000);
    let f1 = a.allocate_frame().unwrap();
    let f2 = a.allocate_frame().unwrap();
    assert_eq!(table.map_to(page, f1, EntryFlags::empty(), &mut a), Ok(()));
    assert_eq!(table.map_to(page, f2, EntryFlags::empty(), &mut a), Err(PagingError::AlreadyMapped));
    assert_eq!(table.translate(0x40_0000), Some(0x1000));
}

#[test]
fn map_takes_a_frame() {
    let mut a = allocator();
    let mut table = ActivePageTable::new(a.allocate_frame().unwrap());
    let page = Page::containing_address(0x7000_0000);
    assert_eq!(table.map(page, EntryFlags::from_bits_truncate(WRITABLE), &mut a), Ok(()));
    assert_eq!(table.translate(0x7000_0010), Some(0x1010));
}

#[test]
fn map_without_frames_fails() {
    let mut a = Recycler { next: 1, limit: 2, freed: Vec::new() };
    let mut table = ActivePageTable::new(Frame { number: 0 });
    let page = Page::containing_address(0x1000);
    assert_eq!(table.map(page, EntryFlags::empty(), &mut a), Err(PagingError::OutOfMemory));
}

#[test]
fn identity_map_maps_frame_to_itself() {
    let mut a = allocator();
    let mut table = ActivePageTable::new(a.allocate_frame().unwrap());
    let frame = Frame { number: 0xb8 };
    assert_eq!(table.identity_map(frame, EntryFlags::from_bits_truncate(WRITABLE), &mut a), Ok(()));
    assert_eq!(table.translate(0xb8123), Some(0xb8123));
}

#[test]
fn unmap_clears_and_returns_frame() {
    let mut a = Recycler { next: 1, limit: 100, freed: Vec::new() };
    let mut table = ActivePageTable::new(Frame { number: 0 });
    let page = Page::containing_address(0x1234_5000);
    assert_eq!(table.map_to(page, Frame { number: 77 }, EntryFlags::empty(), &mut a), Ok(()));
    assert_eq!(table.translate(0x1234_5abc), Some(77 * 4096 + 0xabc));
    assert_eq!(table.unmap(page, &mut a), Ok(()));
    assert_eq!(table.translate(0x1234_5abc), None);
    assert!(!a.exhausted());
    assert!(a.can_hand_out(77));
    assert_eq!(a.allocate_frame(), Some(Frame { number: 77 }));
    assert_eq!(table.unmap(page, &mut a), Err(PagingError::NotMapped));
}

#[test]
fn unmap_with_area_allocator_reports_frame_not_returned() {
    let mut a = allocator();
    let mut table = ActivePageTable::new(a.allocate_frame().unwrap());
    let page = Page::containing_address(0x9000);
    let frame = a.allocate_frame().unwrap();
    assert_eq!(table.map_to(page, frame, EntryFlags::empty(), &mut a), Ok(()));
    assert_eq!(table.unmap(page, &mut a), Err(PagingError::FrameNotReturned));
    assert_eq!(table.translate(0x9000), None);
}

#[test]
fn next_table_create_without_frames_fails() {
    let mut mem = TableMemory::new();
    let mut empty = AreaFrameAllocator::new(0, 0, 0, 0, Vec::new());
    assert!(matches!(p4_table().next_table_create(&mut mem, 0, &mut empty), Err(PagingError::OutOfMemory)));
}

#[test]
fn next_table_create_refuses_huge_pages() {
    let mut mem = TableMemory::new();
    let p4 = p4_table();
    p4.set_entry(&mut mem, 3, Entry { raw: 0x5000 | PRESENT | HUGE_PAGE });
    let mut a = allocator();
    assert!(matches!(p4.next_table_create(&mut mem, 3, &mut a), Err(PagingError::HugePage)));
    assert!(p4.next_table(&mem, 3).is_none());
}

#[test]
fn next_table_create_builds_zeroed_table() {
    let mut mem = TableMemory::new();
    let p4 = p4_table();
    let mut a = allocator();
    let p3 = match p4.next_table_create(&mut mem, 5, &mut a) {
        Ok(t) => t,
        Err(_) => panic!("no table"),
    };
    let e = p4.entry(&mem, 5);
    assert_eq!(e.pointed_frame(), Some(Frame { number: 0 }));
    assert!(e.flags().contains(EntryFlags::from_bits_truncate(PRESENT | WRITABLE)));
    assert!(p3.entry(&mem, 0).is_unused());
    assert!(p4.next_table(&mem, 5).is_some());
}

#[test]
fn entry_bits() {
    let mut e = Entry { raw: 0 };
    assert!(e.is_unused());
    assert_eq!(e.pointed_frame(), None);
    e.set(Frame { number: 0x1234 }, EntryFlags::from_bits_truncate(PRESENT | WRITABLE));
    assert_eq!(e.raw, 0x123_4003);
    assert_eq!(e.pointed_frame(), Some(Frame { number: 0x1234 }));
    e.set_unused();
    assert!(e.is_unused());
    assert_eq!(EntryFlags::from_bits_truncate(0xffff).bits, 0x1ff);
    assert_eq!(EntryFlags::empty().union(EntryFlags::from_bits_truncate(PRESENT)).bits, 1);
}

#[test]
fn color_code_packs_both_colours() {
    assert_eq!(ColorCode::new(Color::Blue, Color::Pink).value, 0xd1);
    assert_eq!(ColorCode::new(Color::White, Color::Black).value, 0x0f);
}

#[test]
fn unmap_entry_returns_the_frame() {
    let mut a = Recycler { next: 1, limit: 100, freed: Vec::new() };
    let mut table = ActivePageTable::new(Frame { number: 0 });
    let page = Page::containing_address(0x5000);
    assert_eq!(table.map_to(page, Frame { number: 42 }, EntryFlags::empty(), &mut a), Ok(()));
    assert_eq!(table.unmap_entry(page), Ok(Frame { number: 42 }));
    assert_eq!(table.translate(0x5000), None);
    assert_eq!(table.unmap_entry(page), Err(PagingError::NotMapped));
}

#[test]
fn install_next_table_without_frame_changes_nothing() {
    let mut mem = TableMemory::new();
    let p4 = p4_table();
    assert!(matches!(p4.install_next_table(&mut mem, 7, None), Err(PagingError::OutOfMemory)));
    assert!(p4.entry(&mem, 7).is_unused());
    let p3 = match p4.install_next_table(&mut mem, 7, Some(Frame { number: 9 })) {
        Ok(t) => t,
        Err(_) => panic!("no table"),
    };
    assert_eq!(p4.entry(&mem, 7).raw, 0x9003);
    assert!(p3.entry(&mem, 511).is_unused());
}

#[test]
fn loaded_entries_are_walked() {
    let mut table = ActivePageTable::new(Frame { number: 0 });
    let page = Page::containing_address(0x20_0000);
    let (p3, p2, p1) = table_addresses(&page);
    table.load_entry(0xffff_ffff_ffff_f000, 0x1003);
    table.load_entry(p3, 0x2003);
    table.load_entry(p2 + 8, 0x3003);
    table.load_entry(p1, 0x7001);
    assert_eq!(table.read_entry(p1), 0x7001);
    assert_eq!(table.translate(0x20_0010), Some(0x7010));
}
