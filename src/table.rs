//! Page tables of the four levels, reached through the recursive mapping of
//! the top-level table, and the memory that holds their entries.

use vstd::prelude::*;
use std::collections::HashMap;
use core::marker::PhantomData;
use crate::entry::{Entry, EntryFlags, PRESENT, WRITABLE, HUGE_PAGE, raw_descends, raw_huge, raw_of, lemma_raw_of};
use crate::frame::{Frame, FrameAllocator, MAX_FRAME_COUNT};

verus! {

broadcast use vstd::std_specs::hash::group_hash_axioms;

/// Number of entries in a table.
pub const ENTRY_COUNT: usize = 512;

/// Virtual address of the top-level table, through its own last entry.
pub const P4_ADDRESS: u64 = 0xffff_ffff_ffff_f000;

/// Why a page-table operation could not be carried out.
#[derive(Debug, PartialEq, Eq, Structural)]
pub enum PagingError {
    /// The allocator had no frame for a new table or page.
    OutOfMemory,
    /// An entry on the way down is a huge page, which is not supported.
    HugePage,
    /// The page is mapped already.
    AlreadyMapped,
    /// The page is not mapped.
    NotMapped,
    /// The entry was cleared, but the allocator would not take the frame back.
    FrameNotReturned,
}

/// The entries of all page tables, keyed by the virtual address of each entry.
/// An address never written holds an unused entry.
pub struct TableMemory {
    entries: HashMap<u64, u64>,
}

/// The raw entry stored at virtual address `a`.
pub open spec fn read(m: Map<u64, u64>, a: int) -> u64 {
    if a >= 0 && a <= u64::MAX && m.contains_key(a as u64) {
        m[a as u64]
    } else {
        0
    }
}

/// Virtual address of entry `i` of the table at `table`.
pub open spec fn slot(table: u64, i: int) -> int {
    table + 8 * i
}

/// Virtual address of the next-level table behind entry `i` of the table at
/// `table`, through the recursive mapping.
pub open spec fn next_address(table: u64, i: u64) -> u64 {
    (table << 9) | (i << 12)
}

proof fn lemma_next_address_aligned(table: u64, i: u64)
    requires
        table & 0xfff == 0,
        i < 512,
    ensures
        next_address(table, i) & 0xfff == 0,
{
    assert(((table << 9) | (i << 12)) & 0xfff == 0) by (bit_vector)
        requires
            table & 0xfff == 0,
            i < 512,
    ;
}

proof fn lemma_aligned_bound(a: u64)
    requires
        a & 0xfff == 0,
    ensures
        a + 4096 <= 0x1_0000_0000_0000_0000,
{
    assert(a <= 0xffff_ffff_ffff_f000) by (bit_vector)
        requires
            a & 0xfff == 0,
    ;
}

proof fn lemma_flag_bits(raw: u64)
    ensures
        ((raw & 0x8000_0000_0000_01ff) & (0x1u64 & 0x8000_0000_0000_01ff) == (0x1u64
            & 0x8000_0000_0000_01ff)) == (raw & 0x1 != 0),
        ((raw & 0x8000_0000_0000_01ff) & (0x80u64 & 0x8000_0000_0000_01ff) == (0x80u64
            & 0x8000_0000_0000_01ff)) == (raw & 0x80 != 0),
{
    assert(((raw & 0x8000_0000_0000_01ff) & (0x1u64 & 0x8000_0000_0000_01ff) == (0x1u64
        & 0x8000_0000_0000_01ff)) == (raw & 0x1 != 0)) by (bit_vector);
    assert(((raw & 0x8000_0000_0000_01ff) & (0x80u64 & 0x8000_0000_0000_01ff) == (0x80u64
        & 0x8000_0000_0000_01ff)) == (raw & 0x80 != 0)) by (bit_vector);
}

/// Two different page-aligned addresses lie in different pages.
pub proof fn lemma_aligned_apart(a: u64, b: u64)
    requires
        a & 0xfff == 0,
        b & 0xfff == 0,
        a != b,
    ensures
        a + 4096 <= b || b + 4096 <= a,
{
    assert(a < b ==> a + 4096 <= b) by (bit_vector)
        requires
            a & 0xfff == 0,
            b & 0xfff == 0,
    ;
    assert(b < a ==> b + 4096 <= a) by (bit_vector)
        requires
            a & 0xfff == 0,
            b & 0xfff == 0,
    ;
}

impl TableMemory {
    pub closed spec fn view(&self) -> Map<u64, u64> {
        self.entries@
    }

    /// A memory where no entry has been written.
    pub fn new() -> (r: TableMemory)
        ensures
            r@ == Map::<u64, u64>::empty(),
    {
        TableMemory { entries: HashMap::new() }
    }

    pub fn read(&self, a: u64) -> (r: u64)
        ensures
            r == read(self@, a as int),
    {
        match self.entries.get(&a) {
            Some(v) => *v,
            None => 0,
        }
    }

    pub fn write(&mut self, a: u64, v: u64)
        ensures
            forall|x: int| #[trigger] read(final(self)@, x) == if x == a { v } else { read(old(self)@, x) },
    {
        self.entries.insert(a, v);
        assert forall|x: int| #[trigger] read(self@, x) == if x == a { v } else { read(old(self)@, x) } by {
            if x != a as int && 0 <= x <= u64::MAX {
                assert(self@.contains_key(x as u64) == old(self)@.contains_key(x as u64));
            }
        }
    }
}

pub trait TableLevel {}

pub struct Level4;

pub struct Level3;

pub struct Level2;

pub struct Level1;

impl TableLevel for Level4 {}

impl TableLevel for Level3 {}

impl TableLevel for Level2 {}

impl TableLevel for Level1 {}

/// A level that has a level below it.
pub trait HierarchicalLevel: TableLevel {
    type NextLevel: TableLevel;
}

impl HierarchicalLevel for Level4 {
    type NextLevel = Level3;
}

impl HierarchicalLevel for Level3 {
    type NextLevel = Level2;
}

impl HierarchicalLevel for Level2 {
    type NextLevel = Level1;
}

/// The table of level `L` at a page-aligned virtual address.
pub struct Table<L: TableLevel> {
    address: u64,
    level: PhantomData<L>,
}

impl<L: TableLevel> Table<L> {
    #[verifier::type_invariant]
    closed spec fn aligned(&self) -> bool {
        self.address & 0xfff == 0
    }

    pub closed spec fn addr(&self) -> u64 {
        self.address
    }

    /// The address of entry `index`.
    fn slot_address(&self, index: usize) -> (r: u64)
        requires
            index < ENTRY_COUNT,
        ensures
            r == slot(self.addr(), index as int),
    {
        proof {
            use_type_invariant(self);
            lemma_aligned_bound(self.address);
        }
        self.address + (index as u64) * 8
    }

    pub fn entry(&self, mem: &TableMemory, index: usize) -> (r: Entry)
        requires
            index < ENTRY_COUNT,
        ensures
            r.raw == read(mem@, slot(self.addr(), index as int)),
    {
        Entry { raw: mem.read(self.slot_address(index)) }
    }

    pub fn set_entry(&self, mem: &mut TableMemory, index: usize, e: Entry)
        requires
            index < ENTRY_COUNT,
        ensures
            forall|x: int| #[trigger] read(final(mem)@, x) == if x == slot(self.addr(), index as int) {
                e.raw
            } else {
                read(old(mem)@, x)
            },
    {
        let a = self.slot_address(index);
        mem.write(a, e.raw);
    }

    /// Clears every entry of the table.
    pub fn zero(&self, mem: &mut TableMemory)
        ensures
            forall|i: int| 0 <= i < 512 ==> read(final(mem)@, #[trigger] slot(self.addr(), i)) == 0,
            forall|x: int|
                (x < self.addr() || x >= self.addr() + 4096) ==> #[trigger] read(final(mem)@, x)
                    == read(old(mem)@, x),
    {
        proof {
            use_type_invariant(self);
            lemma_aligned_bound(self.address);
        }
        let mut i: usize = 0;
        while i < ENTRY_COUNT
            invariant
                i <= 512,
                forall|k: int| 0 <= k < i ==> read(mem@, #[trigger] slot(self.addr(), k)) == 0,
                forall|x: int|
                    (x < self.addr() || x >= self.addr() + 4096) ==> #[trigger] read(mem@, x)
                        == read(old(mem)@, x),
            decreases 512 - i,
        {
            let mut e = self.entry(mem, i);
            e.set_unused();
            self.set_entry(mem, i, e);
            i = i + 1;
        }
    }
}

impl<L: HierarchicalLevel> Table<L> {
    /// The address of the next-level table behind entry `index`, when the
    /// entry is present and not a huge page.
    fn next_table_address(&self, mem: &TableMemory, index: usize) -> (r: Option<u64>)
        requires
            index < ENTRY_COUNT,
        ensures
            raw_descends(read(mem@, slot(self.addr(), index as int))) ==> r == Some(
                next_address(self.addr(), index as u64),
            ),
            !raw_descends(read(mem@, slot(self.addr(), index as int))) ==> r is None,
    {
        let entry_flags = self.entry(mem, index).flags();
        let raw = self.entry(mem, index).raw;
        proof {
            lemma_flag_bits(raw);
        }
        if entry_flags.contains(EntryFlags::from_bits_truncate(PRESENT))
            && !entry_flags.contains(EntryFlags::from_bits_truncate(HUGE_PAGE)) {
            Some((self.address << 9) | ((index as u64) << 12))
        } else {
            None
        }
    }

    /// The next-level table behind entry `index`, when the entry is present
    /// and not a huge page.
    pub fn next_table(&self, mem: &TableMemory, index: usize) -> (r: Option<Table<L::NextLevel>>)
        requires
            index < ENTRY_COUNT,
        ensures
            raw_descends(read(mem@, slot(self.addr(), index as int))) ==> (r matches Some(t) && t.addr()
                == next_address(self.addr(), index as u64)),
            !raw_descends(read(mem@, slot(self.addr(), index as int))) ==> r is None,
    {
        proof {
            use_type_invariant(self);
        }
        match self.next_table_address(mem, index) {
            Some(address) => {
                proof {
                    lemma_next_address_aligned(self.address, index as u64);
                }
                Some(Table { address, level: PhantomData })
            },
            None => None,
        }
    }

    /// Installs `frame` behind entry `index`, present and writable, and
    /// clears the new table; with no frame, fails and changes nothing.
    pub fn install_next_table(&self, mem: &mut TableMemory, index: usize, frame: Option<Frame>) -> (r:
        Result<Table<L::NextLevel>, PagingError>)
        requires
            index < ENTRY_COUNT,
            next_address(self.addr(), index as u64) != self.addr(),
            frame matches Some(f) ==> f.number < MAX_FRAME_COUNT,
        ensures
            ({
                let s = slot(self.addr(), index as int);
                let next = next_address(self.addr(), index as u64);
                &&& frame is None <==> r == Err::<Table<L::NextLevel>, PagingError>(PagingError::OutOfMemory)
                &&& frame is None ==> final(mem)@ == old(mem)@
                &&& frame matches Some(f) ==> (r matches Ok(t) && t.addr() == next)
                &&& frame matches Some(f) ==> read(final(mem)@, s) == raw_of(f.number, 0x3)
                &&& frame is Some ==> forall|i: int|
                    0 <= i < 512 ==> read(final(mem)@, #[trigger] slot(next, i)) == 0
                &&& forall|x: int|
                    x != s && (x < next || x >= next + 4096) ==> #[trigger] read(final(mem)@, x)
                        == read(old(mem)@, x)
            }),
    {
        proof {
            use_type_invariant(self);
            lemma_next_address_aligned(self.address, index as u64);
            lemma_aligned_apart(self.address, next_address(self.address, index as u64));
            lemma_aligned_bound(self.address);
        }
        let frame = match frame {
            Some(f) => f,
            None => {
                return Err(PagingError::OutOfMemory);
            },
        };
        let mut e = self.entry(mem, index);
        let flags = EntryFlags::from_bits_truncate(PRESENT).union(
            EntryFlags::from_bits_truncate(WRITABLE),
        );
        assert(((0x1u64 & 0x8000_0000_0000_01ff) | (0x2u64 & 0x8000_0000_0000_01ff)) == 0x3)
            by (bit_vector);
        e.set(frame, flags);
        self.set_entry(mem, index, e);
        let next = Table::<L::NextLevel> {
            address: (self.address << 9) | ((index as u64) << 12),
            level: PhantomData,
        };
        proof {
            use_type_invariant(&next);
            lemma_aligned_bound(next.address);
        }
        next.zero(mem);
        Ok(next)
    }

    /// The next-level table behind entry `index`; when there is none, a frame
    /// is taken from `allocator`, installed present and writable, and the new
    /// table is cleared.
    pub fn next_table_create<A: FrameAllocator>(
        &self,
        mem: &mut TableMemory,
        index: usize,
        allocator: &mut A,
    ) -> (r: Result<Table<L::NextLevel>, PagingError>)
        requires
            index < ENTRY_COUNT,
            next_address(self.addr(), index as u64) != self.addr(),
        ensures
            ({
                let s = slot(self.addr(), index as int);
                let e = read(old(mem)@, s);
                let next = next_address(self.addr(), index as u64);
                &&& raw_descends(e) ==> (r matches Ok(t) && t.addr() == next)
                &&& raw_descends(e) ==> final(mem)@ == old(mem)@ && *final(allocator) == *old(allocator)
                &&& !raw_descends(e) && raw_huge(e) ==> r == Err::<Table<L::NextLevel>, PagingError>(
                    PagingError::HugePage,
                ) && final(mem)@ == old(mem)@ && *final(allocator) == *old(allocator)
                &&& !raw_descends(e) && !raw_huge(e) ==> ((r == Err::<Table<L::NextLevel>, PagingError>(
                    PagingError::OutOfMemory)) <==> old(allocator).exhausted())
                &&& !raw_descends(e) && !raw_huge(e) ==> (r is Ok || r == Err::<
                    Table<L::NextLevel>,
                    PagingError,
                >(PagingError::OutOfMemory))
                &&& r == Err::<Table<L::NextLevel>, PagingError>(PagingError::OutOfMemory)
                    ==> final(allocator).exhausted()
                &&& r is Err ==> final(mem)@ == old(mem)@
                &&& r matches Ok(t) ==> t.addr() == next && raw_descends(read(final(mem)@, s))
                &&& r is Ok && !raw_descends(e) ==> exists|f: u64|
                    f < MAX_FRAME_COUNT && read(final(mem)@, s) == #[trigger] raw_of(f, 0x3)
                &&& r is Ok && !raw_descends(e) ==> forall|i: int|
                    0 <= i < 512 ==> read(final(mem)@, #[trigger] slot(next, i)) == 0
                &&& forall|x: int|
                    x != s && (x < next || x >= next + 4096) ==> #[trigger] read(final(mem)@, x)
                        == read(old(mem)@, x)
            }),
    {
        proof {
            use_type_invariant(self);
            lemma_next_address_aligned(self.address, index as u64);
            lemma_aligned_apart(self.address, next_address(self.address, index as u64));
        }
        match self.next_table(mem, index) {
            Some(t) => Ok(t),
            None => {
                let e = self.entry(mem, index);
                let raw = e.raw;
                proof {
                    lemma_flag_bits(raw);
                }
                if e.flags().contains(EntryFlags::from_bits_truncate(HUGE_PAGE)) {
                    return Err(PagingError::HugePage);
                }
                let frame = allocator.allocate_frame();
                let ghost g = frame;
                let r = self.install_next_table(mem, index, frame);
                proof {
                    if let Some(f) = g {
                        lemma_raw_of(f.number, 0x3);
                        assert(0x3u64 & 0x1 != 0) by (bit_vector);
                        assert(0x3u64 & 0x80 == 0) by (bit_vector);
                        assert(read(mem@, slot(self.addr(), index as int)) == raw_of(f.number, 0x3));
                        assert(raw_descends(raw_of(f.number, 0x3)));
                    }
                }
                r
            },
        }
    }
}

/// The top-level table.
pub fn p4_table() -> (r: Table<Level4>)
    ensures
        r.addr() == P4_ADDRESS,
{
    assert(0xffff_ffff_ffff_f000u64 & 0xfff == 0) by (bit_vector);
    Table { address: P4_ADDRESS, level: PhantomData }
}

} // verus!
