use super::alt_alloc::AllocError;
use super::alt_alloc::AltAllocator;
use super::alt_alloc::Block;
use super::layout::Layout;
use vstd::prelude::*;

verus! {

/// How a block of `old_size` bytes comes to `new_size` bytes with zero in the
/// new ones.
#[derive(Debug, Copy, Clone, PartialEq, Eq, Structural)]
pub enum ZeroedGrowth {
    /// There are no old bytes to keep: a new zeroed block is asked for.
    Fresh,
    /// There is nothing to add: the block stays as it is.
    Stays,
    /// The block is exchanged for a larger one, and the bytes beyond the old
    /// size are set to zero.
    Exchange,
}

/// How a heap grows a block of `old_size` bytes to `new_size` bytes with zero
/// in the new ones.
pub fn zeroed_growth(old_size: usize, new_size: usize) -> (r: ZeroedGrowth)
    ensures
        r == if old_size == 0 {
            ZeroedGrowth::Fresh
        } else if new_size <= old_size {
            ZeroedGrowth::Stays
        } else {
            ZeroedGrowth::Exchange
        },
{
    if old_size == 0 {
        ZeroedGrowth::Fresh
    } else if new_size <= old_size {
        ZeroedGrowth::Stays
    } else {
        ZeroedGrowth::Exchange
    }
}

/// The memory source of a container that names no other.
///
/// The elements of a container lie in the process heap, which its element
/// store draws on by itself; this source therefore keeps no memory of its own.
/// It grants every request of a size above zero, refuses a request of size
/// zero as a heap does, and reports each block at the least address of its
/// alignment. An exchanged block stays where it was.
#[derive(Debug, Copy, Clone)]
pub struct Global;

impl AltAllocator for Global {
    fn allocate(&self, layout: Layout) -> (r: Result<Block, AllocError>)
        ensures
            r is Ok <==> layout.spec_size() != 0,
            r matches Ok(b) ==> b.spec_addr() == layout.spec_align() && b.spec_size()
                == layout.spec_size(),
    {
        if layout.size() == 0 {
            return Err(AllocError);
        }
        Ok(Block::new(layout.align(), layout.size()))
    }

    fn allocate_zeroed(&self, layout: Layout) -> (r: Result<Block, AllocError>)
        ensures
            r is Ok <==> layout.spec_size() != 0,
            r matches Ok(b) ==> b.spec_addr() == layout.spec_align() && b.spec_size()
                == layout.spec_size(),
    {
        if layout.size() == 0 {
            return Err(AllocError);
        }
        Ok(Block::new(layout.align(), layout.size()))
    }

    fn deallocate(&self, addr: usize, layout: Layout) {
    }

    fn grow(&self, old_addr: usize, old_layout: Layout, new_layout: Layout) -> (r: Result<
        Block,
        AllocError,
    >)
        ensures
            r is Ok <==> new_layout.spec_size() != 0,
            r matches Ok(b) ==> b.spec_addr() == old_addr && b.spec_size()
                == new_layout.spec_size(),
    {
        if new_layout.size() == 0 {
            return Err(AllocError);
        }
        Ok(Block::new(old_addr, new_layout.size()))
    }

    fn grow_zeroed(&self, old_addr: usize, old_layout: Layout, new_layout: Layout) -> (r: Result<
        Block,
        AllocError,
    >)
        ensures
            r is Ok <==> new_layout.spec_size() != 0,
            r matches Ok(b) ==> b.spec_size() == new_layout.spec_size() && b.spec_addr() == (
            if old_layout.spec_size() == 0 {
                new_layout.spec_align()
            } else {
                old_addr
            }),
    {
        match zeroed_growth(old_layout.size(), new_layout.size()) {
            ZeroedGrowth::Fresh => self.allocate_zeroed(new_layout),
            ZeroedGrowth::Stays => Ok(Block::new(old_addr, old_layout.size())),
            ZeroedGrowth::Exchange => Ok(Block::new(old_addr, new_layout.size())),
        }
    }

    fn shrink(&self, old_addr: usize, old_layout: Layout, new_layout: Layout) -> (r: Result<
        Block,
        AllocError,
    >)
        ensures
            r is Ok <==> new_layout.spec_size() != 0,
            r matches Ok(b) ==> b.spec_addr() == old_addr && b.spec_size()
                == new_layout.spec_size(),
    {
        if new_layout.size() == 0 {
            return Err(AllocError);
        }
        Ok(Block::new(old_addr, new_layout.size()))
    }
}

} // verus!
