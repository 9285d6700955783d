//! Physical frame allocation and four-level page-table mapping for a small
//! x86_64 kernel, modelled over explicit state so that every step is checked.

use vstd::prelude::*;

pub mod area_frame_allocator;
pub mod entry;
pub mod frame;
pub mod paging;
pub mod table;
pub mod vga_buffer;

verus! {

} // verus!
