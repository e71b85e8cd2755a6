use super::layout::Layout;
use vstd::prelude::*;

verus! {

/// Says that the memory source refused a request. Nothing more is known of
/// the cause.
#[derive(Debug, Copy, Clone, PartialEq, Eq, Structural)]
pub struct AllocError;

impl AllocError {
    /// A sentence that describes the error.
    pub fn message(self) -> (s: &'static str)
        ensures
            s@ == "A memory allocation error occurred."@,
    {
        "A memory allocation error occurred."
    }
}

/// A block that a memory source has granted: the address at which it starts
/// and its size in bytes.
#[derive(Debug, Copy, Clone, PartialEq, Eq, Structural)]
pub struct Block {
    addr: usize,
    size: usize,
}

impl Block {
    /// The address at which the block starts.
    pub closed spec fn spec_addr(&self) -> usize {
        self.addr
    }

    /// The size of the block in bytes.
    pub closed spec fn spec_size(&self) -> usize {
        self.size
    }

    /// The block of the given address and size.
    pub fn new(addr: usize, size: usize) -> (b: Block)
        ensures
            b.spec_addr() == addr,
            b.spec_size() == size,
    {
        Block { addr, size }
    }

    /// The address at which the block starts.
    #[verifier::when_used_as_spec(spec_addr)]
    pub fn addr(&self) -> (r: usize)
        ensures
            r == self.spec_addr(),
    {
        self.addr
    }

    /// The size of the block in bytes.
    #[verifier::when_used_as_spec(spec_size)]
    pub fn size(&self) -> (r: usize)
        ensures
            r == self.spec_size(),
    {
        self.size
    }
}

/// The capability of a memory source. A container asks it for a block of a
/// layout, asks it to exchange a block for a larger or a smaller one, and gives
/// blocks back; the source grants or refuses, and a refusal carries no cause.
///
/// A block is given back, or exchanged, with the address that the source
/// reported for it and the layout that it was asked for with. A granted block is
/// at least as large as the layout asked for.
pub trait AltAllocator {
    /// Asks for a block of the layout.
    fn allocate(&self, layout: Layout) -> (r: Result<Block, AllocError>)
        ensures
            r matches Ok(b) ==> b.spec_size() >= layout.spec_size(),
    ;

    /// Asks for a block of the layout whose bytes are zero. A source that can
    /// hand out zeroed memory at less cost says so here.
    fn allocate_zeroed(&self, layout: Layout) -> (r: Result<Block, AllocError>)
        ensures
            r matches Ok(b) ==> b.spec_size() >= layout.spec_size(),
    {
        self.allocate(layout)
    }

    /// Gives back the block at `addr`, which was granted for `layout`.
    fn deallocate(&self, addr: usize, layout: Layout);

    /// Exchanges the block at `old_addr` for one of the larger `new_layout`.
    /// Where the source refuses, the old block stays as it was; where it
    /// grants, the old block is given back.
    fn grow(&self, old_addr: usize, old_layout: Layout, new_layout: Layout) -> (r: Result<
        Block,
        AllocError,
    >)
        requires
            new_layout.spec_size() >= old_layout.spec_size(),
        ensures
            r matches Ok(b) ==> b.spec_size() >= new_layout.spec_size(),
    {
        match self.allocate(new_layout) {
            Ok(block) => {
                self.deallocate(old_addr, old_layout);
                Ok(block)
            },
            Err(e) => Err(e),
        }
    }

    /// As `grow`, with zero in the bytes beyond the old size.
    fn grow_zeroed(&self, old_addr: usize, old_layout: Layout, new_layout: Layout) -> (r: Result<
        Block,
        AllocError,
    >)
        requires
            new_layout.spec_size() >= old_layout.spec_size(),
        ensures
            r matches Ok(b) ==> b.spec_size() >= new_layout.spec_size(),
    {
        match self.allocate_zeroed(new_layout) {
            Ok(block) => {
                self.deallocate(old_addr, old_layout);
                Ok(block)
            },
            Err(e) => Err(e),
        }
    }

    /// Exchanges the block at `old_addr` for one of the smaller `new_layout`.
    /// Where the source refuses, the old block stays as it was; where it
    /// grants, the old block is given back.
    fn shrink(&self, old_addr: usize, old_layout: Layout, new_layout: Layout) -> (r: Result<
        Block,
        AllocError,
    >)
        requires
            new_layout.spec_size() <= old_layout.spec_size(),
        ensures
            r matches Ok(b) ==> b.spec_size() >= new_layout.spec_size(),
    {
        match self.allocate(new_layout) {
            Ok(block) => {
                self.deallocate(old_addr, old_layout);
                Ok(block)
            },
            Err(e) => Err(e),
        }
    }
}

} // verus!
