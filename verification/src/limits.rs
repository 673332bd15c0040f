//! Declared resource limits and the size of linear memory in bytes.
use vstd::prelude::*;

verus! {

/// Bytes in one page of linear memory.
pub const PAGE_SIZE: usize = 65536;

/// Declared maxima of a module, or the fixed capacity of one pool slot.
#[derive(Clone, Copy, Debug, PartialEq, Eq, Structural)]
pub struct ModuleLimits {
    pub memory_pages: u32,
    pub table_elements: u32,
    pub types: u32,
}

/// Size in bytes of `pages` pages of linear memory.
pub open spec fn page_bytes(pages: u32) -> int {
    pages as int * 65536
}

impl ModuleLimits {
    /// `self`, as a capacity, is at least `need` in every dimension.
    pub open spec fn covers(self, need: ModuleLimits) -> bool {
        &&& need.memory_pages <= self.memory_pages
        &&& need.table_elements <= self.table_elements
        &&& need.types <= self.types
    }

    /// Whether requirements `self` fit within `capacity`.
    pub fn fits_within(&self, capacity: &ModuleLimits) -> (ok: bool)
        ensures
            ok == capacity.covers(*self),
    {
        self.memory_pages <= capacity.memory_pages
            && self.table_elements <= capacity.table_elements
            && self.types <= capacity.types
    }
}

/// The byte size of `pages` pages, or `None` where the host's address space
/// cannot express it.
pub fn bytes_for_pages(pages: u32) -> (bytes: Option<usize>)
    ensures
        page_bytes(pages) <= usize::MAX ==> bytes == Some(page_bytes(pages) as usize),
        page_bytes(pages) > usize::MAX ==> bytes is None,
{
    let wide: u64 = pages as u64 * 65536;
    if wide <= usize::MAX as u64 {
        Some(wide as usize)
    } else {
        None
    }
}

} // verus!
