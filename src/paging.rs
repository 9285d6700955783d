//! Virtual pages and the active four-level page table: address lookup, mapping
//! and unmapping.

use vstd::prelude::*;
use crate::entry::{Entry, EntryFlags, PRESENT, raw_descends, raw_frame, raw_huge, raw_of, raw_present};
use crate::frame::{Frame, FrameAllocator, MAX_FRAME_COUNT};
use crate::table::{
    next_address, p4_table, read, slot, Level4, PagingError, Table,
    TableMemory, P4_ADDRESS,
};

verus! {

pub type VirtualAddress = u64;

/// The highest page number: that of the last page of the address space.
pub const MAX_PAGE_NUMBER: u64 = 0xf_ffff_ffff_ffff;

/// The address lies in the lower or the upper canonical half of the address space.
pub open spec fn canonical(address: u64) -> bool {
    address < 0x0000_8000_0000_0000 || address >= 0xffff_8000_0000_0000
}

pub open spec fn p4_index_of(n: u64) -> u64 {
    (n >> 27) & 0x1ff
}

pub open spec fn p3_index_of(n: u64) -> u64 {
    (n >> 18) & 0x1ff
}

pub open spec fn p2_index_of(n: u64) -> u64 {
    (n >> 9) & 0x1ff
}

pub open spec fn p1_index_of(n: u64) -> u64 {
    n & 0x1ff
}

/// Address of the level-3 table on the way to page `n`.
pub open spec fn p3_address(n: u64) -> u64 {
    next_address(P4_ADDRESS, p4_index_of(n))
}

/// Address of the level-2 table on the way to page `n`.
pub open spec fn p2_address(n: u64) -> u64 {
    next_address(p3_address(n), p3_index_of(n))
}

/// Address of the level-1 table on the way to page `n`.
pub open spec fn p1_address(n: u64) -> u64 {
    next_address(p2_address(n), p2_index_of(n))
}

pub open spec fn p4_entry(m: Map<u64, u64>, n: u64) -> u64 {
    read(m, slot(P4_ADDRESS, p4_index_of(n) as int))
}

pub open spec fn p3_entry(m: Map<u64, u64>, n: u64) -> u64 {
    read(m, slot(p3_address(n), p3_index_of(n) as int))
}

pub open spec fn p2_entry(m: Map<u64, u64>, n: u64) -> u64 {
    read(m, slot(p2_address(n), p2_index_of(n) as int))
}

pub open spec fn p1_entry(m: Map<u64, u64>, n: u64) -> u64 {
    read(m, slot(p1_address(n), p1_index_of(n) as int))
}

/// The first entry on the way down to page `n` that does not lead to a
/// next-level table, if any.
pub open spec fn first_blocking_entry(m: Map<u64, u64>, n: u64) -> Option<u64> {
    if !raw_descends(p4_entry(m, n)) {
        Some(p4_entry(m, n))
    } else if !raw_descends(p3_entry(m, n)) {
        Some(p3_entry(m, n))
    } else if !raw_descends(p2_entry(m, n)) {
        Some(p2_entry(m, n))
    } else {
        None
    }
}

/// The level-1 entry of page `n`, when the walk reaches it.
pub open spec fn leaf_entry(m: Map<u64, u64>, n: u64) -> Option<u64> {
    if first_blocking_entry(m, n) is None {
        Some(p1_entry(m, n))
    } else {
        None
    }
}

/// The number of the frame page `n` is mapped to, if any.
pub open spec fn translate_page_spec(m: Map<u64, u64>, n: u64) -> Option<u64> {
    match leaf_entry(m, n) {
        Some(e) => if raw_present(e) {
            Some(raw_frame(e))
        } else {
            None
        },
        None => None,
    }
}

/// The physical address virtual address `va` is mapped to, if any.
pub open spec fn translate_spec(m: Map<u64, u64>, va: u64) -> Option<u64> {
    match translate_page_spec(m, va / 4096) {
        Some(f) => Some((f * 4096 + va % 4096) as u64),
        None => None,
    }
}

/// Address `x` lies in the page that starts at `a`.
pub open spec fn in_page(a: u64, x: int) -> bool {
    a <= x < a + 4096
}

/// The entries that mapping page `n` over memory `m` may write: the
/// level-1 entry, each entry on the walk that does not yet lead to a table,
/// and every entry of the tables created below such an entry.
pub open spec fn map_footprint(m: Map<u64, u64>, n: u64, x: int) -> bool {
    let c4 = !raw_descends(p4_entry(m, n));
    let c3 = c4 || !raw_descends(p3_entry(m, n));
    let c2 = c3 || !raw_descends(p2_entry(m, n));
    ||| x == slot(p1_address(n), p1_index_of(n) as int)
    ||| c4 && (x == slot(P4_ADDRESS, p4_index_of(n) as int) || in_page(p3_address(n), x))
    ||| c3 && (x == slot(p3_address(n), p3_index_of(n) as int) || in_page(p2_address(n), x))
    ||| c2 && (x == slot(p2_address(n), p2_index_of(n) as int) || in_page(p1_address(n), x))
}

/// Outside the recursive slot, the four tables on the way to a page lie in
/// four different pages, in increasing order from level 1 to level 4.
proof fn lemma_table_chain(n: u64)
    requires
        p4_index_of(n) != 511,
    ensures
        p3_address(n) + 4096 <= P4_ADDRESS,
        p2_address(n) + 4096 <= p3_address(n),
        p1_address(n) + 4096 <= p2_address(n),
        P4_ADDRESS + 4096 <= 0x1_0000_0000_0000_0000,
{
    let i4 = p4_index_of(n);
    let i3 = p3_index_of(n);
    let i2 = p2_index_of(n);
    let a4 = 0xffff_ffff_ffff_f000u64;
    assert((n >> 27) & 0x1ff < 512) by (bit_vector);
    assert((n >> 18) & 0x1ff < 512) by (bit_vector);
    assert((n >> 9) & 0x1ff < 512) by (bit_vector);
    assert(((a4 << 9) | (i4 << 12)) + 4096 <= a4) by (bit_vector)
        requires
            i4 < 511,
            a4 == 0xffff_ffff_ffff_f000u64,
    ;
    let a3 = (a4 << 9) | (i4 << 12);
    assert(((a3 << 9) | (i3 << 12)) + 4096 <= a3) by (bit_vector)
        requires
            i4 < 511,
            i3 < 512,
            a4 == 0xffff_ffff_ffff_f000u64,
            a3 == (a4 << 9) | (i4 << 12),
    ;
    let a2 = (a3 << 9) | (i3 << 12);
    assert(((a2 << 9) | (i2 << 12)) + 4096 <= a2) by (bit_vector)
        requires
            i4 < 511,
            i3 < 512,
            i2 < 512,
            a4 == 0xffff_ffff_ffff_f000u64,
            a3 == (a4 << 9) | (i4 << 12),
            a2 == (a3 << 9) | (i3 << 12),
    ;
}

proof fn lemma_unused_entry()
    ensures
        !raw_present(0),
        !raw_huge(0),
        !raw_descends(0),
{
    assert(0u64 & 0x1 == 0) by (bit_vector);
    assert(0u64 & 0x80 == 0) by (bit_vector);
}

/// A virtual page, identified by its index.
#[derive(Debug, Clone, Copy, PartialEq, Eq, Structural)]
pub struct Page {
    number: u64,
}

impl Page {
    #[verifier::type_invariant]
    closed spec fn in_range(&self) -> bool {
        self.number <= MAX_PAGE_NUMBER
    }

    pub closed spec fn spec_number(&self) -> u64 {
        self.number
    }

    /// The page that holds the virtual address `address`.
    pub fn containing_address(address: VirtualAddress) -> (r: Page)
        requires
            canonical(address),
        ensures
            r.spec_number() == address / 4096,
            r.spec_number() <= MAX_PAGE_NUMBER,
    {
        Page { number: address / 4096 }
    }

    /// The first virtual address of the page.
    pub fn start_address(&self) -> (r: VirtualAddress)
        ensures
            r == self.spec_number() * 4096,
    {
        proof {
            use_type_invariant(self);
        }
        self.number * 4096
    }

    pub fn p4_index(&self) -> (r: usize)
        ensures
            r == p4_index_of(self.spec_number()),
            r < 512,
    {
        let n = self.number;
        assert((n >> 27) & 0x1ff < 512) by (bit_vector);
        ((self.number >> 27) & 0o777) as usize
    }

    pub fn p3_index(&self) -> (r: usize)
        ensures
            r == p3_index_of(self.spec_number()),
            r < 512,
    {
        let n = self.number;
        assert((n >> 18) & 0x1ff < 512) by (bit_vector);
        ((self.number >> 18) & 0o777) as usize
    }

    pub fn p2_index(&self) -> (r: usize)
        ensures
            r == p2_index_of(self.spec_number()),
            r < 512,
    {
        let n = self.number;
        assert((n >> 9) & 0x1ff < 512) by (bit_vector);
        ((self.number >> 9) & 0o777) as usize
    }

    pub fn p1_index(&self) -> (r: usize)
        ensures
            r == p1_index_of(self.spec_number()),
            r < 512,
    {
        let n = self.number;
        assert(n & 0x1ff < 512) by (bit_vector);
        (self.number & 0o777) as usize
    }
}

/// The addresses of the level-3, level-2 and level-1 tables on the way to
/// `page`.
pub fn table_addresses(page: &Page) -> (r: (u64, u64, u64))
    ensures
        r == (p3_address(page.spec_number()), p2_address(page.spec_number()), p1_address(
            page.spec_number(),
        )),
{
    let a3 = (P4_ADDRESS << 9) | ((page.p4_index() as u64) << 12);
    let a2 = (a3 << 9) | ((page.p3_index() as u64) << 12);
    let a1 = (a2 << 9) | ((page.p2_index() as u64) << 12);
    (a3, a2, a1)
}

/// The page table in use: the top-level table, reached through its recursive
/// entry, and the memory that holds every table's entries.
pub struct ActivePageTable {
    memory: TableMemory,
}

impl ActivePageTable {
    /// The entries of all tables, by virtual address.
    pub closed spec fn mem(&self) -> Map<u64, u64> {
        self.memory@
    }

    /// A page table whose top-level table lives in `p4_frame` and maps only
    /// itself, through its last entry.
    pub fn new(p4_frame: Frame) -> (r: ActivePageTable)
        requires
            p4_frame.number < MAX_FRAME_COUNT,
        ensures
            forall|x: int| #[trigger] read(r.mem(), x) == if x == slot(P4_ADDRESS, 511) {
                raw_of(p4_frame.number, 0x3)
            } else {
                0
            },
    {
        let p4 = p4_table();
        let mut memory = TableMemory::new();
        let mut e = Entry { raw: 0 };
        e.set(p4_frame, EntryFlags::from_bits_truncate(0x3));
        assert(0x3u64 & 0x8000_0000_0000_01ff == 0x3) by (bit_vector);
        p4.set_entry(&mut memory, 511, e);
        ActivePageTable { memory }
    }

    /// The raw entry stored at virtual address `address`.
    pub fn read_entry(&self, address: u64) -> (r: u64)
        ensures
            r == read(self.mem(), address as int),
    {
        self.memory.read(address)
    }

    /// Records an entry that already holds `raw` at virtual address `address`,
    /// as found in the live tables.
    pub fn load_entry(&mut self, address: u64, raw: u64)
        ensures
            forall|x: int| #[trigger] read(final(self).mem(), x) == if x == address {
                raw
            } else {
                read(old(self).mem(), x)
            },
    {
        self.memory.write(address, raw);
    }

    /// The top-level table, at its fixed recursive address.
    fn p4(&self) -> (r: Table<Level4>)
        ensures
            r.addr() == P4_ADDRESS,
    {
        p4_table()
    }

    /// The frame `page` is mapped to, if any.
    pub fn translate_page(&self, page: Page) -> (r: Option<Frame>)
        ensures
            translate_page_spec(self.mem(), page.spec_number()) == match r {
                Some(f) => Some(f.number),
                None => None::<u64>,
            },
            r matches Some(f) ==> f.number < MAX_FRAME_COUNT,
    {
        let p4 = self.p4();
        match p4.next_table(&self.memory, page.p4_index()) {
            None => None,
            Some(p3) => match p3.next_table(&self.memory, page.p3_index()) {
                None => None,
                Some(p2) => match p2.next_table(&self.memory, page.p2_index()) {
                    None => None,
                    Some(p1) => p1.entry(&self.memory, page.p1_index()).pointed_frame(),
                },
            },
        }
    }

    /// The physical address `virtual_address` is mapped to, if any.
    pub fn translate(&self, virtual_address: VirtualAddress) -> (r: Option<u64>)
        requires
            canonical(virtual_address),
        ensures
            r == translate_spec(self.mem(), virtual_address),
    {
        let offset = virtual_address % 4096;
        match self.translate_page(Page::containing_address(virtual_address)) {
            Some(frame) => Some(frame.number * 4096 + offset),
            None => None,
        }
    }
    /// Maps `page` to `frame` with `flags` and the present flag, creating the
    /// missing level-3, level-2 and level-1 tables with frames from
    /// `allocator`.
    pub fn map_to<A: FrameAllocator>(
        &mut self,
        page: Page,
        frame: Frame,
        flags: EntryFlags,
        allocator: &mut A,
    ) -> (r: Result<(), PagingError>)
        requires
            frame.number < MAX_FRAME_COUNT,
            p4_index_of(page.spec_number()) != 511,
        ensures
            ({
                let n = page.spec_number();
                let m0 = old(self).mem();
                let m1 = final(self).mem();
                &&& (r == Err::<(), PagingError>(PagingError::HugePage)) == (first_blocking_entry(m0, n) matches Some(e) && raw_huge(e))
                &&& r == Err::<(), PagingError>(PagingError::OutOfMemory) ==> (first_blocking_entry(m0, n) matches Some(e) && !raw_huge(e))
                &&& (r == Err::<(), PagingError>(PagingError::AlreadyMapped)) == (leaf_entry(m0, n) matches Some(e) && e != 0)
                &&& leaf_entry(m0, n) == Some(0u64) ==> r is Ok
                &&& (r == Err::<(), PagingError>(PagingError::HugePage) || r == Err::<(), PagingError>(PagingError::AlreadyMapped)) ==> m1 == m0
                &&& r is Ok ==> translate_page_spec(m0, n) is None
                &&& r is Ok ==> leaf_entry(m1, n) == Some(raw_of(frame.number, flags.bits | 0x1))
                &&& r is Ok ==> translate_page_spec(m1, n) == Some(frame.number)
                &&& r == Err::<(), PagingError>(PagingError::OutOfMemory) ==> final(allocator).exhausted()
                &&& r == Err::<(), PagingError>(PagingError::OutOfMemory) ==> translate_page_spec(m1, n) is None
                &&& first_blocking_entry(m0, n) is None ==> *final(allocator) == *old(allocator)
                &&& (first_blocking_entry(m0, n) matches Some(e) && !raw_huge(e)) ==> (r is Ok || r
                    == Err::<(), PagingError>(PagingError::OutOfMemory))
                &&& (first_blocking_entry(m0, n) matches Some(e) && !raw_huge(e)) && old(allocator).exhausted()
                    ==> r == Err::<(), PagingError>(PagingError::OutOfMemory)
                &&& forall|x: int| #[trigger] read(m1, x) != read(m0, x) ==> map_footprint(m0, n, x)
            }),
    {
        proof {
            lemma_table_chain(page.spec_number());
            lemma_unused_entry();
        }
        let p4 = self.p4();
        let ghost n = page.spec_number();
        let ghost m0 = self.memory@;
        let p3 = match p4.next_table_create(&mut self.memory, page.p4_index(), allocator) {
            Ok(t) => t,
            Err(e) => {
                return Err(e);
            },
        };
        let ghost m1 = self.memory@;
        let p2 = match p3.next_table_create(&mut self.memory, page.p3_index(), allocator) {
            Ok(t) => t,
            Err(e) => {
                return Err(e);
            },
        };
        let ghost m2 = self.memory@;
        let p1 = match p2.next_table_create(&mut self.memory, page.p2_index(), allocator) {
            Ok(t) => t,
            Err(e) => {
                return Err(e);
            },
        };
        let ghost m3 = self.memory@;
        assert(raw_descends(p4_entry(m3, n)));
        assert(raw_descends(p3_entry(m3, n)));
        assert(raw_descends(p2_entry(m3, n)));
        let mut e = p1.entry(&self.memory, page.p1_index());
        if !e.is_unused() {
            return Err(PagingError::AlreadyMapped);
        }
        let present = EntryFlags::from_bits_truncate(PRESENT);
        assert(0x1u64 & 0x8000_0000_0000_01ff == 0x1) by (bit_vector);
        let fl = flags.union(present);
        let b = flags.bits;
        assert((b | 0x1) & 0x1 != 0) by (bit_vector);
        e.set(frame, fl);
        p1.set_entry(&mut self.memory, page.p1_index(), e);
        Ok(())
    }

    /// Maps `page` to a frame taken from `allocator`.
    pub fn map<A: FrameAllocator>(&mut self, page: Page, flags: EntryFlags, allocator: &mut A) -> (r:
        Result<(), PagingError>)
        requires
            p4_index_of(page.spec_number()) != 511,
        ensures
            ({
                let n = page.spec_number();
                let m0 = old(self).mem();
                let m1 = final(self).mem();
                &&& old(allocator).exhausted() ==> r == Err::<(), PagingError>(PagingError::OutOfMemory) && m1 == m0
                &&& r == Err::<(), PagingError>(PagingError::OutOfMemory) ==> final(allocator).exhausted()
                &&& !old(allocator).exhausted() ==> ((r == Err::<(), PagingError>(PagingError::AlreadyMapped)) == (
                    leaf_entry(m0, n) matches Some(e) && e != 0))
                &&& !old(allocator).exhausted() ==> ((r == Err::<(), PagingError>(PagingError::HugePage)) == (
                    first_blocking_entry(m0, n) matches Some(e) && raw_huge(e)))
                &&& !old(allocator).exhausted() && leaf_entry(m0, n) == Some(0u64) ==> r is Ok
                &&& (first_blocking_entry(m0, n) matches Some(e) && !raw_huge(e)) ==> (r is Ok || r
                    == Err::<(), PagingError>(PagingError::OutOfMemory))
                &&& r is Ok ==> translate_page_spec(m0, n) is None
                &&& r is Ok ==> exists|f: u64|
                    f < MAX_FRAME_COUNT && leaf_entry(m1, n) == Some(#[trigger] raw_of(f, flags.bits | 0x1))
                        && translate_page_spec(m1, n) == Some(f)
                &&& forall|x: int| #[trigger] read(m1, x) != read(m0, x) ==> map_footprint(m0, n, x)
            }),
    {
        let frame = match allocator.allocate_frame() {
            Some(f) => f,
            None => {
                return Err(PagingError::OutOfMemory);
            },
        };
        let ghost number = frame.number;
        let r = self.map_to(page, frame, flags, allocator);
        proof {
            if r is Ok {
                assert(leaf_entry(self.mem(), page.spec_number()) == Some(raw_of(number, flags.bits | 0x1)));
            }
        }
        r
    }

    /// Maps the page whose number equals `frame`'s number to `frame`.
    pub fn identity_map<A: FrameAllocator>(
        &mut self,
        frame: Frame,
        flags: EntryFlags,
        allocator: &mut A,
    ) -> (r: Result<(), PagingError>)
        requires
            frame.number < 0x8_0000_0000,
        ensures
            r is Ok ==> translate_page_spec(final(self).mem(), frame.number) == Some(frame.number),
            (r == Err::<(), PagingError>(PagingError::AlreadyMapped)) == (leaf_entry(
                old(self).mem(),
                frame.number,
            ) matches Some(e) && e != 0),
            leaf_entry(old(self).mem(), frame.number) == Some(0u64) ==> r is Ok,
            r == Err::<(), PagingError>(PagingError::OutOfMemory) ==> final(allocator).exhausted(),
            (first_blocking_entry(old(self).mem(), frame.number) matches Some(e) && !raw_huge(e)) ==> (
            r is Ok || r == Err::<(), PagingError>(PagingError::OutOfMemory)),
            (first_blocking_entry(old(self).mem(), frame.number) matches Some(e) && !raw_huge(e))
                && old(allocator).exhausted() ==> r == Err::<(), PagingError>(PagingError::OutOfMemory),
            forall|x: int| #[trigger] read(final(self).mem(), x) != read(old(self).mem(), x) ==> map_footprint(
                old(self).mem(),
                frame.number,
                x,
            ),
    {
        let number = frame.number;
        assert((number >> 27) & 0x1ff < 256) by (bit_vector)
            requires
                number < 0x8_0000_0000u64,
        ;
        let page = Page::containing_address(frame.start_address());
        self.map_to(page, frame, flags, allocator)
    }
    /// Clears the level-1 entry of the mapped `page` and returns the frame it
    /// pointed to. Tables left empty are kept. The caller flushes the TLB
    /// entry for the page's start address before the frame is reused.
    pub fn unmap_entry(&mut self, page: Page) -> (r: Result<Frame, PagingError>)
        ensures
            ({
                let n = page.spec_number();
                let m0 = old(self).mem();
                let m1 = final(self).mem();
                &&& (translate_page_spec(m0, n) is None) == (r == Err::<Frame, PagingError>(PagingError::NotMapped))
                &&& r is Err ==> m1 == m0 && r == Err::<Frame, PagingError>(PagingError::NotMapped)
                &&& r matches Ok(f) ==> translate_page_spec(m0, n) == Some(f.number)
                &&& r is Ok ==> translate_page_spec(m1, n) is None
                &&& r is Ok ==> read(m1, slot(p1_address(n), p1_index_of(n) as int)) == 0
                &&& forall|x: int| x != slot(p1_address(n), p1_index_of(n) as int) ==> #[trigger] read(m1, x) == read(m0, x)
            }),
    {
        proof {
            lemma_unused_entry();
        }
        if self.translate_page(page).is_none() {
            return Err(PagingError::NotMapped);
        }
        let p4 = self.p4();
        let p3 = match p4.next_table(&self.memory, page.p4_index()) {
            Some(t) => t,
            None => {
                return Err(PagingError::NotMapped);
            },
        };
        let p2 = match p3.next_table(&self.memory, page.p3_index()) {
            Some(t) => t,
            None => {
                return Err(PagingError::NotMapped);
            },
        };
        let p1 = match p2.next_table(&self.memory, page.p2_index()) {
            Some(t) => t,
            None => {
                return Err(PagingError::NotMapped);
            },
        };
        let mut e = p1.entry(&self.memory, page.p1_index());
        let frame = match e.pointed_frame() {
            Some(f) => f,
            None => {
                return Err(PagingError::NotMapped);
            },
        };
        e.set_unused();
        p1.set_entry(&mut self.memory, page.p1_index(), e);
        Ok(frame)
    }

    /// Clears the entry of the mapped `page` and hands its frame back to
    /// `allocator` at once. A caller that must flush the TLB entry before
    /// the frame can be reused calls `unmap_entry`, flushes, and then hands
    /// the frame back itself.
    pub fn unmap<A: FrameAllocator>(&mut self, page: Page, allocator: &mut A) -> (r: Result<(), PagingError>)
        ensures
            ({
                let n = page.spec_number();
                let m0 = old(self).mem();
                let m1 = final(self).mem();
                &&& translate_page_spec(m0, n) is None ==> r == Err::<(), PagingError>(PagingError::NotMapped) && m1 == m0
                    && *final(allocator) == *old(allocator)
                &&& translate_page_spec(m0, n) is Some ==> (r == Ok::<(), PagingError>(()) || r == Err::<(), PagingError>(PagingError::FrameNotReturned))
                &&& translate_page_spec(m0, n) is Some ==> translate_page_spec(m1, n) is None
                &&& r is Ok ==> !final(allocator).exhausted()
                &&& r is Ok ==> (translate_page_spec(m0, n) matches Some(f) && final(allocator).can_hand_out(f))
                &&& forall|x: int| x != slot(p1_address(n), p1_index_of(n) as int) ==> #[trigger] read(m1, x) == read(m0, x)
            }),
    {
        let frame = match self.unmap_entry(page) {
            Ok(f) => f,
            Err(e) => {
                return Err(e);
            },
        };
        match allocator.deallocate_frame(frame) {
            Ok(()) => Ok(()),
            Err(_) => Err(PagingError::FrameNotReturned),
        }
    }
}

/// After a page has been mapped to a frame, each address in the page
/// translates to the same offset in the frame, where before it translated to
/// nothing.
pub proof fn lemma_map_round_trip(before: Map<u64, u64>, after: Map<u64, u64>, page: Page, frame: Frame, k: u64)
    requires
        translate_page_spec(before, page.spec_number()) is None,
        translate_page_spec(after, page.spec_number()) == Some(frame.number),
        frame.number < MAX_FRAME_COUNT,
        page.spec_number() <= MAX_PAGE_NUMBER,
        k < 4096,
    ensures
        translate_spec(after, (page.spec_number() * 4096 + k) as u64) == Some((frame.number * 4096 + k) as u64),
        translate_spec(before, (page.spec_number() * 4096 + k) as u64) is None,
{
    lemma_page_offset(page, k);
}

/// After a page has been unmapped, no address in it translates.
pub proof fn lemma_unmapped_page(m: Map<u64, u64>, page: Page, k: u64)
    requires
        translate_page_spec(m, page.spec_number()) is None,
        page.spec_number() <= MAX_PAGE_NUMBER,
        k < 4096,
    ensures
        translate_spec(m, (page.spec_number() * 4096 + k) as u64) is None,
{
    lemma_page_offset(page, k);
}

proof fn lemma_page_offset(page: Page, k: u64)
    requires
        page.spec_number() <= MAX_PAGE_NUMBER,
        k < 4096,
    ensures
        page.spec_number() * 4096 + k <= u64::MAX,
        ((page.spec_number() * 4096 + k) as u64) / 4096 == page.spec_number(),
        ((page.spec_number() * 4096 + k) as u64) % 4096 == k,
{
    let n = page.spec_number() as int;
    assert(n * 4096 + k <= u64::MAX) by (nonlinear_arith)
        requires
            n <= 0xf_ffff_ffff_ffff,
            k < 4096,
    ;
    vstd::arithmetic::div_mod::lemma_fundamental_div_mod_converse(n * 4096 + k, 4096, n, k as int);
}

} // verus!
