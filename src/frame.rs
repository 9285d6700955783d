//! Physical frames, the allocator capability, and the boot-time memory layout.

use vstd::prelude::*;

verus! {

/// Size in bytes of a page and of a frame.
pub const PAGE_SIZE: u64 = 4096;

/// Number of frames in the 52-bit physical address space.
pub const MAX_FRAME_COUNT: u64 = 0x100_0000_0000;

/// A physical address.
pub type PhysicalAddress = u64;

/// A physical frame, identified by its index.
#[derive(Debug, PartialEq, Eq, Structural, PartialOrd, Ord)]
pub struct Frame {
    pub number: u64,
}

impl Frame {
    /// The frame that holds the physical address `address`.
    pub fn containing_address(address: PhysicalAddress) -> (r: Frame)
        ensures
            r.number == address / 4096,
    {
        Frame { number: address / 4096 }
    }

    /// The first physical address of the frame.
    pub fn start_address(&self) -> (r: PhysicalAddress)
        requires
            self.number < MAX_FRAME_COUNT,
        ensures
            r == self.number * 4096,
    {
        self.number * 4096
    }
}

/// Why a frame could not be given back to an allocator.
#[derive(Debug, PartialEq, Eq, Structural)]
pub enum FrameError {
    /// The allocator has no way of taking frames back.
    Unsupported,
}

/// The capability of handing out physical frames and taking them back.
pub trait FrameAllocator {
    /// No frame is left to hand out.
    spec fn exhausted(&self) -> bool;

    /// The frame numbered `number` is among those left to hand out.
    spec fn can_hand_out(&self, number: u64) -> bool;

    /// Hands out one frame that lies in the physical address space, or
    /// `None` exactly when no frame is left.
    fn allocate_frame(&mut self) -> (r: Option<Frame>)
        ensures
            r matches Some(f) ==> f.number < MAX_FRAME_COUNT,
            r matches Some(f) ==> old(self).can_hand_out(f.number),
            r is None <==> old(self).exhausted(),
            r is None ==> final(self).exhausted(),
    ;

    /// Takes back a frame that was handed out earlier; once taken back, a
    /// frame is left to hand out.
    fn deallocate_frame(&mut self, frame: Frame) -> (r: Result<(), FrameError>)
        ensures
            r is Ok ==> !final(self).exhausted(),
            r is Ok ==> final(self).can_hand_out(frame.number),
    ;
}

/// Where the kernel image and the boot information lie in physical memory.
pub struct MemoryInfo {
    kernel_start: usize,
    kernel_end: usize,
    multiboot_start: usize,
    multiboot_end: usize,
}

impl MemoryInfo {
    pub closed spec fn spec_kernel_start(&self) -> usize {
        self.kernel_start
    }

    pub closed spec fn spec_kernel_end(&self) -> usize {
        self.kernel_end
    }

    pub closed spec fn spec_multiboot_start(&self) -> usize {
        self.multiboot_start
    }

    pub closed spec fn spec_multiboot_end(&self) -> usize {
        self.multiboot_end
    }

    /// Records the kernel image's extent and the boot information's extent,
    /// each as its first and its last byte address (both inclusive).
    pub fn new(kernel_start: usize, kernel_end: usize, multiboot_start: usize, multiboot_end: usize)
        -> (r: MemoryInfo)
        ensures
            r.spec_kernel_start() == kernel_start,
            r.spec_kernel_end() == kernel_end,
            r.spec_multiboot_start() == multiboot_start,
            r.spec_multiboot_end() == multiboot_end,
    {
        MemoryInfo { kernel_start, kernel_end, multiboot_start, multiboot_end }
    }

    pub fn get_kernel_start(&self) -> (r: usize)
        ensures
            r == self.spec_kernel_start(),
    {
        self.kernel_start
    }

    pub fn get_kernel_end(&self) -> (r: usize)
        ensures
            r == self.spec_kernel_end(),
    {
        self.kernel_end
    }

    pub fn get_multiboot_start(&self) -> (r: usize)
        ensures
            r == self.spec_multiboot_start(),
    {
        self.multiboot_start
    }

    pub fn get_multiboot_end(&self) -> (r: usize)
        ensures
            r == self.spec_multiboot_end(),
    {
        self.multiboot_end
    }
}

} // verus!
