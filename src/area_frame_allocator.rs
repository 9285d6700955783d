//! A frame allocator that walks the firmware's memory areas in increasing
//! physical order, skipping the kernel image and the boot information.

use vstd::prelude::*;
use crate::frame::{Frame, FrameAllocator, FrameError, MAX_FRAME_COUNT};

verus! {

/// Bytes in the 52-bit physical address space.
pub const PHYSICAL_LIMIT: u64 = 0x10_0000_0000_0000;

/// Upper bound on `next_free_frame`: one past the last frame a `u64` address reaches.
const FRAME_BOUND: u64 = 0x10_0000_0000_0000;

/// A range of usable physical memory reported by the firmware.
#[derive(Debug, Clone, Copy, PartialEq, Eq, Structural)]
pub struct MemoryArea {
    pub base_addr: u64,
    pub length: u64,
}

/// A non-empty area that lies inside the physical address space.
pub open spec fn area_valid(a: MemoryArea) -> bool {
    a.base_addr + a.length <= PHYSICAL_LIMIT
}

/// First frame that lies wholly inside an area.
pub open spec fn area_first(a: MemoryArea) -> int {
    (a.base_addr + 4095) / 4096
}

/// One past the last frame that lies wholly inside an area.
pub open spec fn area_end(a: MemoryArea) -> int {
    (a.base_addr + a.length) / 4096
}

/// Frame `f` lies wholly inside the area.
pub open spec fn in_area(a: MemoryArea, f: int) -> bool {
    area_first(a) <= f < area_end(a)
}

/// Where the allocator stands: the first frame not passed over yet, and the
/// area being consumed (`None` once every area lies behind).
struct Cursor {
    next_free_frame: Frame,
    current_area: Option<usize>,
}

pub struct AreaFrameAllocator {
    cursor: Cursor,
    areas: Vec<MemoryArea>,
    kernel_start: Frame,
    kernel_end: Frame,
    multiboot_start: Frame,
    multiboot_end: Frame,
}

fn end_frame(a: &MemoryArea) -> (r: u64)
    requires
        area_valid(*a),
    ensures
        r == area_end(*a),
        r <= MAX_FRAME_COUNT,
{
    (a.base_addr + a.length) / 4096
}

pub open spec fn areas_valid(areas: Seq<MemoryArea>) -> bool {
    forall|i: int| 0 <= i < areas.len() ==> area_valid(#[trigger] areas[i])
}

pub open spec fn in_areas(areas: Seq<MemoryArea>, f: int) -> bool {
    exists|i: int| 0 <= i < areas.len() && in_area(#[trigger] areas[i], f)
}

spec fn cursor_ok(areas: Seq<MemoryArea>, c: Cursor) -> bool {
    &&& c.next_free_frame.number <= FRAME_BOUND
    &&& match c.current_area {
        Some(i) => i < areas.len() && area_first(areas[i as int]) <= c.next_free_frame.number,
        None => forall|j: int|
            0 <= j < areas.len() ==> area_end(#[trigger] areas[j]) <= c.next_free_frame.number,
    }
}

/// Area `b` is, among the areas that hold a whole frame at or after frame `nf`,
/// one with the lowest base address.
pub open spec fn lowest_reaching(areas: Seq<MemoryArea>, nf: int, b: int) -> bool {
    &&& 0 <= b < areas.len()
    &&& area_end(areas[b]) > nf
    &&& forall|k: int|
        0 <= k < areas.len() && area_end(#[trigger] areas[k]) > nf ==> areas[b].base_addr
            <= areas[k].base_addr
}

/// Among the areas that hold a whole frame at or after `nf`, the one with the
/// lowest base address; the cursor starts at `nf` or at that area's first
/// frame, whichever is later. No frame of any area is skipped.
fn pick_area(areas: &Vec<MemoryArea>, nf: u64) -> (r: Cursor)
    requires
        areas_valid(areas@),
        nf <= FRAME_BOUND,
    ensures
        cursor_ok(areas@, r),
        r.next_free_frame.number >= nf,
        forall|f: int|
            nf <= f < r.next_free_frame.number ==> !#[trigger] in_areas(areas@, f),
        r.current_area matches Some(i) ==> (r.next_free_frame.number < area_end(areas@[i as int])
            || r.next_free_frame.number > nf),
        r.current_area matches Some(b) ==> lowest_reaching(areas@, nf as int, b as int),
        r.current_area is None <==> forall|k: int|
            0 <= k < areas@.len() ==> area_end(#[trigger] areas@[k]) <= nf,
        r.next_free_frame.number == match r.current_area {
            Some(b) => if area_first(areas@[b as int]) > nf { area_first(areas@[b as int]) } else { nf as int },
            None => nf as int,
        },
{
    let mut best: Option<usize> = None;
    let mut j: usize = 0;
    while j < areas.len()
        invariant
            j <= areas@.len(),
            areas_valid(areas@),
            match best {
                Some(b) => b < j && area_end(areas@[b as int]) > nf && forall|k: int|
                    0 <= k < j && area_end(#[trigger] areas@[k]) > nf
                        ==> areas@[b as int].base_addr <= areas@[k].base_addr,
                None => forall|k: int| 0 <= k < j ==> area_end(#[trigger] areas@[k]) <= nf,
            },
        decreases areas@.len() - j,
    {
        let end = end_frame(&areas[j]);
        if end > nf {
            match best {
                None => {
                    best = Some(j);
                },
                Some(b) => {
                    if areas[j].base_addr < areas[b].base_addr {
                        best = Some(j);
                    }
                },
            }
        }
        j = j + 1;
    }
    match best {
        None => Cursor { next_free_frame: Frame { number: nf }, current_area: None },
        Some(b) => {
            let start = (areas[b].base_addr + 4095) / 4096;
            if start > nf {
                assert forall|f: int| nf <= f < start implies !#[trigger] in_areas(areas@, f) by {
                    if in_areas(areas@, f) {
                        let k = choose|k: int| 0 <= k < areas@.len() && in_area(#[trigger] areas@[k], f);
                        let ak = areas@[k];
                        let ab = areas@[b as int];
                        if ak.base_addr < ab.base_addr {
                        } else {
                            vstd::arithmetic::div_mod::lemma_div_is_ordered(
                                ab.base_addr + 4095,
                                ak.base_addr + 4095,
                                4096,
                            );
                        }
                    }
                }
                Cursor { next_free_frame: Frame { number: start }, current_area: Some(b) }
            } else {
                Cursor { next_free_frame: Frame { number: nf }, current_area: Some(b) }
            }
        },
    }
}

impl AreaFrameAllocator {
    #[verifier::type_invariant]
    closed spec fn wf(&self) -> bool {
        &&& areas_valid(self.areas@)
        &&& self.kernel_end.number < FRAME_BOUND
        &&& self.multiboot_end.number < FRAME_BOUND
        &&& cursor_ok(self.areas@, self.cursor)
    }

    /// The memory areas this allocator draws from.
    pub closed spec fn spec_areas(&self) -> Seq<MemoryArea> {
        self.areas@
    }

    /// Frame `f` lies in some memory area.
    pub open spec fn in_some_area(&self, f: int) -> bool {
        in_areas(self.spec_areas(), f)
    }

    /// Frame `f` lies in the kernel image's frames.
    pub closed spec fn in_kernel(&self, f: int) -> bool {
        self.kernel_start.number <= f <= self.kernel_end.number
    }

    /// Frame `f` lies in the boot information's frames.
    pub closed spec fn in_multiboot(&self, f: int) -> bool {
        self.multiboot_start.number <= f <= self.multiboot_end.number
    }

    /// Frame `f` may be handed out at all: it lies in a memory area and in
    /// neither exclusion range.
    pub open spec fn usable(&self, f: int) -> bool {
        self.in_some_area(f) && !self.in_kernel(f) && !self.in_multiboot(f)
    }

    /// The first frame that has not been passed over yet.
    pub closed spec fn next_free(&self) -> int {
        self.cursor.next_free_frame.number as int
    }

    /// Frame `f` has not been handed out yet and still can be.
    pub open spec fn available(&self, f: int) -> bool {
        f >= self.next_free() && self.usable(f)
    }

    /// Same areas and exclusion ranges.
    pub closed spec fn same_layout(&self, other: &Self) -> bool {
        &&& self.areas@ == other.areas@
        &&& self.kernel_start == other.kernel_start
        &&& self.kernel_end == other.kernel_end
        &&& self.multiboot_start == other.multiboot_start
        &&& self.multiboot_end == other.multiboot_end
    }

    /// Moves on to the next area that still holds frames at or after the
    /// cursor, skipping nothing that lies in an area.
    fn choose_next_area(&mut self)
        ensures
            final(self).same_layout(old(self)),
            final(self).next_free() >= old(self).next_free(),
            forall|f: int|
                #![trigger final(self).available(f)]
                #![trigger old(self).available(f)]
                final(self).available(f) <==> old(self).available(f),
            final(self).cursor.current_area matches Some(i) ==> (final(self).next_free() < area_end(
                final(self).areas@[i as int],
            ) || final(self).next_free() > old(self).next_free()),
            final(self).cursor.current_area matches Some(b) ==> lowest_reaching(
                final(self).areas@,
                old(self).next_free(),
                b as int,
            ),
            final(self).cursor.current_area is None <==> forall|k: int|
                0 <= k < final(self).areas@.len() ==> area_end(#[trigger] final(self).areas@[k])
                    <= old(self).next_free(),
            final(self).next_free() == match final(self).cursor.current_area {
                Some(b) => if area_first(final(self).areas@[b as int]) > old(self).next_free() {
                    area_first(final(self).areas@[b as int])
                } else {
                    old(self).next_free()
                },
                None => old(self).next_free(),
            },
    {
        proof {
            use_type_invariant(&*self);
        }
        let c = pick_area(&self.areas, self.cursor.next_free_frame.number);
        self.cursor = c;
    }

    /// Builds an allocator over `memory_areas` that never hands out the frames
    /// holding the addresses `kernel_start..=kernel_end` or
    /// `multiboot_start..=multiboot_end`.
    pub fn new(
        kernel_start: usize,
        kernel_end: usize,
        multiboot_start: usize,
        multiboot_end: usize,
        memory_areas: Vec<MemoryArea>,
    ) -> (r: AreaFrameAllocator)
        requires
            areas_valid(memory_areas@),
        ensures
            r.spec_areas() == memory_areas@,
            forall|f: int| #[trigger] r.in_kernel(f) <==> kernel_start / 4096 <= f <= kernel_end / 4096,
            forall|f: int|
                #[trigger] r.in_multiboot(f) <==> multiboot_start / 4096 <= f <= multiboot_end / 4096,
            forall|f: int| #[trigger] r.available(f) <==> f >= 0 && r.usable(f),
    {
        let cursor = pick_area(&memory_areas, 0);
        AreaFrameAllocator {
            cursor,
            areas: memory_areas,
            kernel_start: Frame::containing_address(kernel_start as u64),
            kernel_end: Frame::containing_address(kernel_end as u64),
            multiboot_start: Frame::containing_address(multiboot_start as u64),
            multiboot_end: Frame::containing_address(multiboot_end as u64),
        }
    }
}

/// One call of `allocate_frame` took `before` to `after` and returned `r`:
/// the lowest available frame is handed out and no longer available, or,
/// when none is available, nothing is.
pub open spec fn allocation_step(before: AreaFrameAllocator, after: AreaFrameAllocator, r: Option<Frame>) -> bool {
    &&& after.same_layout(&before)
    &&& match r {
        Some(fr) => {
            &&& before.available(fr.number as int)
            &&& forall|f: int| #[trigger] before.available(f) ==> fr.number <= f
            &&& forall|f: int| #[trigger] after.available(f) <==> before.available(f) && f > fr.number
        },
        None => {
            &&& forall|f: int| !#[trigger] before.available(f)
            &&& forall|f: int| !#[trigger] after.available(f)
        },
    }
}

impl FrameAllocator for AreaFrameAllocator {
    open spec fn exhausted(&self) -> bool {
        forall|f: int| !#[trigger] self.available(f)
    }

    open spec fn can_hand_out(&self, number: u64) -> bool {
        self.available(number as int)
    }

    fn allocate_frame(&mut self) -> (r: Option<Frame>)
        ensures
            allocation_step(*old(self), *final(self), r),
    {
        proof {
            use_type_invariant(&*self);
        }
        loop
            invariant
                self.same_layout(old(self)),
                self.next_free() >= old(self).next_free(),
                forall|f: int|
                    #![trigger self.available(f)]
                    #![trigger old(self).available(f)]
                    self.available(f) <==> old(self).available(f),
                self.cursor.next_free_frame.number <= FRAME_BOUND,
                self.cursor.current_area matches Some(i) ==> i < self.areas@.len(),
            decreases FRAME_BOUND + 1 - self.next_free(),
                (match self.cursor.current_area {
                    Some(i) => if self.next_free() >= area_end(self.areas@[i as int]) { 1int } else { 0int },
                    None => 0int,
                }),
        {
            proof {
                use_type_invariant(&*self);
            }
            match self.cursor.current_area {
                None => {
                    assert forall|f: int| !#[trigger] self.available(f) by {
                        if self.in_some_area(f) && f >= self.next_free() {
                            let k = choose|k: int|
                                0 <= k < self.areas@.len() && in_area(#[trigger] self.areas@[k], f);
                        }
                    }
                    return None;
                },
                Some(i) => {
                    let nf = self.cursor.next_free_frame.number;
                    let end = end_frame(&self.areas[i]);
                    if nf >= end {
                        self.choose_next_area();
                    } else if self.kernel_start.number <= nf && nf <= self.kernel_end.number {
                        self.cursor = Cursor {
                            next_free_frame: Frame { number: self.kernel_end.number + 1 },
                            current_area: Some(i),
                        };
                    } else if self.multiboot_start.number <= nf && nf <= self.multiboot_end.number {
                        self.cursor = Cursor {
                            next_free_frame: Frame { number: self.multiboot_end.number + 1 },
                            current_area: Some(i),
                        };
                    } else {
                        self.cursor = Cursor {
                            next_free_frame: Frame { number: nf + 1 },
                            current_area: Some(i),
                        };
                        assert(old(self).available(nf as int));
                        return Some(Frame { number: nf });
                    }
                },
            }
            proof {
                use_type_invariant(&*self);
            }
        }
    }

    /// Giving frames back is not supported by this allocator.
    fn deallocate_frame(&mut self, frame: Frame) -> (r: Result<(), FrameError>)
        ensures
            r == Err::<(), FrameError>(FrameError::Unsupported),
            *final(self) == *old(self),
    {
        Err(FrameError::Unsupported)
    }
}

/// Two frames handed out one after the other come in strictly increasing
/// order, and each lies inside one of the memory areas.
pub proof fn lemma_allocations_increase(
    a0: AreaFrameAllocator,
    a1: AreaFrameAllocator,
    a2: AreaFrameAllocator,
    f1: Frame,
    f2: Frame,
)
    requires
        allocation_step(a0, a1, Some(f1)),
        allocation_step(a1, a2, Some(f2)),
    ensures
        f1.number < f2.number,
        a0.in_some_area(f1.number as int),
        a1.in_some_area(f2.number as int),
{
}

/// No frame handed out lies in the kernel image's or the boot information's
/// frames.
pub proof fn lemma_exclusions_never_handed_out(a0: AreaFrameAllocator, a1: AreaFrameAllocator, f: Frame)
    requires
        allocation_step(a0, a1, Some(f)),
    ensures
        !a0.in_kernel(f.number as int),
        !a0.in_multiboot(f.number as int),
{
}

/// Once every usable frame has been handed out, the next allocation yields
/// nothing, and so does every allocation after it.
pub proof fn lemma_exhaustion_is_final(
    a0: AreaFrameAllocator,
    a1: AreaFrameAllocator,
    a2: AreaFrameAllocator,
    r1: Option<Frame>,
    r2: Option<Frame>,
)
    requires
        forall|f: int| !#[trigger] a0.available(f),
        allocation_step(a0, a1, r1),
        allocation_step(a1, a2, r2),
    ensures
        r1 is None,
        r2 is None,
        forall|f: int| !#[trigger] a2.available(f),
{
    if let Some(f) = r1 {
        assert(a0.available(f.number as int));
    }
    if let Some(f) = r2 {
        assert(a1.available(f.number as int));
    }
}

} // verus!
