use super::buffer::Buffer;
use crate::allocator::lemma_max_size_is_multiple;
use crate::allocator::max_size_for;
use crate::allocator::padded_size;
use crate::allocator::AllocError;
use crate::allocator::AltAllocator;
use crate::allocator::Block;
use crate::allocator::Global;
use crate::allocator::Layout;
use crate::types::fails_with;
use crate::types::ErrorReason;
use crate::types::FlexArrErr;
use crate::types::FlexArrResult;
use crate::types::LengthType;
use vstd::arithmetic::power2::is_pow2;
use vstd::layout::align_of;
use vstd::layout::size_of;
use vstd::layout::valid_layout;
use vstd::prelude::*;

verus! {

/// The size in bytes of `length` elements of the given size and alignment, or
/// the reason why such an array has no layout.
pub open spec fn array_size(size: nat, align: nat, length: nat) -> Result<nat, ErrorReason> {
    let bytes = length * padded_size(size, align);
    if bytes > usize::MAX {
        Err(ErrorReason::UsizeOverflow)
    } else if !valid_layout(bytes as usize, align as usize) {
        Err(ErrorReason::LayoutFailure)
    } else {
        Ok(bytes)
    }
}

/// The layout of `length` elements of the layout `layout`, each padded to its
/// alignment.
pub fn layout_array(layout: Layout, length: usize) -> (r: FlexArrResult<Layout>)
    ensures
        match array_size(layout.spec_size() as nat, layout.spec_align() as nat, length as nat) {
            Ok(bytes) => r matches Ok(l) && l.spec_size() == bytes && l.spec_align()
                == layout.spec_align(),
            Err(reason) => fails_with(r, reason),
        },
{
    let lay = layout.pad_to_align();
    let Some(len) = length.checked_mul(lay.size()) else {
        return Err(FlexArrErr::new(ErrorReason::UsizeOverflow));
    };
    let Some(lay) = layout.with_size(len) else {
        return Err(FlexArrErr::new(ErrorReason::LayoutFailure));
    };
    Ok(lay)
}

/// The largest size in bytes of a block that is asked for: half of
/// `isize::MAX`.
pub open spec fn max_request() -> nat {
    (isize::MAX as int / 2) as nat
}

/// The size in bytes of the block that holds `capacity` elements of the given
/// size and alignment, or the reason why no such block is asked for: a `usize`
/// cannot count the elements, the array has no layout, or it is larger than
/// `max_request()`.
pub open spec fn expansion_request(capacity: nat, size: nat, align: nat) -> Result<
    nat,
    ErrorReason,
> {
    if capacity > usize::MAX {
        Err(ErrorReason::UsizeOverflow)
    } else {
        match array_size(size, align, capacity) {
            Err(reason) => Err(reason),
            Ok(bytes) => if bytes > max_request() {
                Err(ErrorReason::UsizeOverflow)
            } else {
                Ok(bytes)
            },
        }
    }
}

/// A block is asked for wherever a `usize` can count the elements and their
/// size in bytes is within the largest size for their alignment and within
/// `max_request()`.
pub proof fn lemma_request_in_range(capacity: nat, size: nat, align: nat)
    requires
        is_pow2(align as int),
        align <= usize::MAX,
        size % align == 0,
        capacity <= usize::MAX,
        capacity * size <= max_size_for(align),
        capacity * size <= max_request(),
    ensures
        expansion_request(capacity, size, align) == Ok::<nat, ErrorReason>(capacity * size),
{
    reveal(is_pow2);
    lemma_max_size_is_multiple(align);
    vstd::arithmetic::div_mod::lemma_mod_decreases(isize::MAX as nat, align);
}

/// The capacity that amortized growth aims at: half as much again as the old
/// capacity, counted round at the largest value of the length type, but no
/// less than what is asked for and no less than eight.
pub open spec fn grown_capacity(old: nat, target: nat, max: nat) -> nat {
    let raised = (old + old / 2) % (max + 1);
    let wanted = if raised <= target {
        target
    } else {
        raised
    };
    if wanted <= 8 {
        8
    } else {
        wanted
    }
}

/// Where nothing is counted round, growth reaches the old capacity and half of
/// it, the target and eight.
pub proof fn lemma_growth_floor_and_factor(old: nat, target: nat, max: nat)
    requires
        old + old / 2 <= max,
    ensures
        grown_capacity(old, target, max) >= old + old / 2,
        grown_capacity(old, target, max) >= target,
        grown_capacity(old, target, max) >= 8,
        2 * grown_capacity(old, target, max) + 1 >= 3 * old,
        old == 0 ==> grown_capacity(old, target, max) == if target <= 8 {
            8
        } else {
            target
        },
{
    vstd::arithmetic::div_mod::lemma_small_mod(old + old / 2, max + 1);
}

/// Whatever is counted round, growth reaches the target and eight, and stays
/// within the length type where the target does.
pub proof fn lemma_growth_reaches_target(old: nat, target: nat, max: nat)
    requires
        target <= max,
        8 <= max,
    ensures
        grown_capacity(old, target, max) >= target,
        grown_capacity(old, target, max) >= 8,
        grown_capacity(old, target, max) <= max,
{
    vstd::arithmetic::div_mod::lemma_mod_bound((old + old / 2) as int, (max + 1) as int);
}

/// What a manager asks its memory source for when its capacity changes: a
/// block of the layout `wanted`, in exchange for the block of the layout `held`
/// where it holds one.
#[derive(Debug, Copy, Clone, PartialEq, Eq)]
pub struct Request {
    pub held: Option<Layout>,
    pub wanted: Layout,
}

/// The storage manager of a container: the buffer, the capacity that the
/// memory source has granted for it, and the source.
///
/// `length` is kept here for the container and plays no part in what the
/// manager does.
#[derive(Debug)]
pub struct Inner<T, A: AltAllocator = Global, L: LengthType = u32> {
    buf: Buffer<T>,
    alloc: A,
    pub length: L,
    capacity: L,
}

impl<T, A: AltAllocator, L: LengthType> Inner<T, A, L> {
    /// The buffer.
    pub closed spec fn buffer(&self) -> Buffer<T> {
        self.buf
    }

    /// The memory source.
    pub closed spec fn source(&self) -> A {
        self.alloc
    }

    /// The capacity that the memory source has granted.
    pub closed spec fn granted(&self) -> L {
        self.capacity
    }

    /// The length that is kept for the container.
    pub closed spec fn spec_length(&self) -> L {
        self.length
    }

    /// The elements in the buffer.
    pub open spec fn items(&self) -> Seq<T> {
        self.buffer()@
    }

    /// The capacity for elements of `item_sz` bytes: without bound but for the
    /// length type where they take no room, else what was granted.
    pub open spec fn spec_capacity(&self, item_sz: usize) -> nat {
        if item_sz == 0 {
            L::spec_max()
        } else {
            self.granted().as_nat()
        }
    }

    /// Nothing is ever granted for elements that take no room; what is granted
    /// otherwise is a number of elements that a block is asked for, and the
    /// buffer has room on the heap for as many. The buffer is a valid one.
    pub open spec fn wf(&self) -> bool {
        &&& size_of::<T>() == 0 ==> self.granted().as_nat() == 0
        &&& self.granted().as_nat() > 0 ==> expansion_request(
            self.granted().as_nat(),
            size_of::<T>(),
            align_of::<T>(),
        ) is Ok
        &&& self.granted().as_nat() <= self.buffer().spec_room()
        &&& self.buffer().wf()
    }

    /// Whether `other` differs from this manager at most in what its buffer
    /// has reserved.
    pub open spec fn same_as(&self, other: &Self) -> bool {
        &&& self.items() == other.items()
        &&& self.buffer().spec_addr() == other.buffer().spec_addr()
        &&& self.granted() == other.granted()
        &&& self.source() == other.source()
        &&& self.spec_length() == other.spec_length()
    }

    /// A manager with an empty buffer, for which nothing was asked of the
    /// source.
    pub fn new_in(alloc: A) -> (r: Self)
        ensures
            r.wf(),
            r.items() == Seq::<T>::empty(),
            r.buffer().spec_addr() == Buffer::<T>::dangling(),
            r.granted().as_nat() == 0,
            r.spec_length().as_nat() == 0,
            r.source() == alloc,
    {
        proof {
            L::lemma_constants();
        }
        Self { buf: Buffer::new(), alloc, length: L::ZERO_VALUE, capacity: L::ZERO_VALUE }
    }

    /// The capacity for elements of `item_sz` bytes.
    pub fn capacity(&self, item_sz: usize) -> (r: L)
        ensures
            r.as_nat() == self.spec_capacity(item_sz),
            item_sz != 0 ==> r == self.granted(),
    {
        if item_sz == 0 {
            proof {
                L::lemma_constants();
            }
            return L::MAX_VALUE;
        }
        self.capacity
    }

    /// The address at which the storage starts.
    pub fn get_ptr(&self) -> (r: usize)
        ensures
            r == self.buffer().spec_addr(),
    {
        self.buf.addr()
    }

    /// The memory source.
    pub fn allocator(&self) -> (r: &A)
        ensures
            *r == self.source(),
    {
        &self.alloc
    }

    /// The length that is kept for the container.
    pub fn length(&self) -> (r: L)
        ensures
            r == self.spec_length(),
    {
        self.length
    }

    /// Sets the length that is kept for the container.
    pub(crate) fn set_length(&mut self, length: L)
        ensures
            final(self).spec_length() == length,
            final(self).buffer() == old(self).buffer(),
            final(self).granted() == old(self).granted(),
            final(self).source() == old(self).source(),
    {
        self.length = length;
    }

    /// The buffer, to read.
    pub fn buf(&self) -> (r: &Buffer<T>)
        ensures
            *r == self.buffer(),
    {
        &self.buf
    }

    /// The buffer, to change.
    pub(crate) fn buf_mut(&mut self) -> (r: &mut Buffer<T>)
        ensures
            *r == old(self).buffer(),
            final(self).buffer() == *final(r),
            final(self).granted() == old(self).granted(),
            final(self).source() == old(self).source(),
            final(self).spec_length() == old(self).spec_length(),
    {
        &mut self.buf
    }

    /// Whether the four parts may stand together in a manager: the buffer is a
    /// valid one, and a block is held for elements that take room only, for a
    /// number of them that a block is asked for and that the buffer has room
    /// for on the heap.
    pub open spec fn parts_fit(buf: Buffer<T>, capacity: L) -> bool {
        &&& buf.wf()
        &&& size_of::<T>() != 0 && capacity.as_nat() > 0 ==> expansion_request(
            capacity.as_nat(),
            size_of::<T>(),
            align_of::<T>(),
        ) is Ok && capacity.as_nat() <= buf.spec_room()
    }

    /// The manager of the four parts. For elements that take no room the
    /// capacity is not kept: it is always the largest value.
    pub fn from_parts(buf: Buffer<T>, length: L, capacity: L, alloc: A) -> (r: Self)
        requires
            Self::parts_fit(buf, capacity),
        ensures
            r.wf(),
            r.buffer() == buf,
            r.spec_length() == length,
            r.source() == alloc,
            size_of::<T>() != 0 ==> r.granted() == capacity,
            size_of::<T>() == 0 ==> r.granted().as_nat() == 0,
    {
        proof {
            L::lemma_constants();
        }
        let kept = if core::mem::size_of::<T>() == 0 {
            L::ZERO_VALUE
        } else {
            capacity
        };
        Self { buf, alloc, length, capacity: kept }
    }

    /// The four parts of the manager: the buffer, the length, the capacity
    /// for elements of `item_sz` bytes, and the memory source.
    pub fn into_parts(self, item_sz: usize) -> (r: (Buffer<T>, L, L, A))
        ensures
            r.0 == self.buffer(),
            r.1 == self.spec_length(),
            r.2.as_nat() == self.spec_capacity(item_sz),
            item_sz != 0 ==> r.2 == self.granted(),
            r.3 == self.source(),
    {
        let cap = self.capacity(item_sz);
        (self.buf, self.length, cap, self.alloc)
    }

    /// Whether `held` is the layout of the block that is held: none where
    /// nothing was granted, else that of as many elements as were granted.
    pub open spec fn holds_layout(&self, held: Option<Layout>) -> bool {
        match held {
            None => self.granted().as_nat() == 0,
            Some(l) => self.granted().as_nat() > 0 && Ok::<nat, ErrorReason>(l.spec_size() as nat)
                == array_size(size_of::<T>(), align_of::<T>(), self.granted().as_nat())
                && l.spec_align() == align_of::<T>(),
        }
    }

    /// The layout of the block that is held, if one is.
    pub fn current_layout(&self, layout: Layout) -> (r: Option<Layout>)
        requires
            self.wf(),
            layout.is_layout_of::<T>(),
        ensures
            self.holds_layout(r),
    {
        // Nothing was ever granted, so there is no block.
        if self.capacity.at_most(L::ZERO_VALUE) {
            proof {
                L::lemma_constants();
            }
            return None;
        }
        proof {
            L::lemma_constants();
        }
        let lay = layout.pad_to_align();
        let cap = self.capacity.as_usize();
        assert(lay.spec_size() * cap == self.granted().as_nat() * padded_size(
            size_of::<T>(),
            align_of::<T>(),
        )) by (nonlinear_arith)
            requires
                cap == self.granted().as_nat(),
                lay.spec_size() == padded_size(size_of::<T>(), align_of::<T>()),
        ;
        let size = lay.size() * cap;
        lay.with_size(size)
    }

    /// Takes the answer of the memory source to a request for a block that
    /// holds `capacity` elements, for which the buffer has its room already: a
    /// granted block becomes the storage, a refusal leaves everything as it
    /// was.
    pub fn install(&mut self, capacity: L, answer: Result<Block, AllocError>) -> (r: FlexArrResult<
        (),
    >)
        requires
            old(self).wf(),
            answer is Ok ==> size_of::<T>() != 0 && expansion_request(
                capacity.as_nat(),
                size_of::<T>(),
                align_of::<T>(),
            ) is Ok && capacity.as_nat() <= old(self).buffer().spec_room(),
        ensures
            final(self).wf(),
            final(self).items() == old(self).items(),
            final(self).source() == old(self).source(),
            final(self).spec_length() == old(self).spec_length(),
            match answer {
                Ok(block) => r is Ok && final(self).granted() == capacity
                    && final(self).buffer().spec_addr() == block.spec_addr(),
                Err(_) => fails_with(r, ErrorReason::AllocFailure)
                    && final(self).same_as(old(self)),
            },
    {
        match answer {
            Ok(block) => {
                self.buf.set_addr(block.addr());
                self.capacity = capacity;
                Ok(())
            },
            Err(_) => Err(FlexArrErr::new(ErrorReason::AllocFailure)),
        }
    }

    /// What is asked of the memory source to bring the capacity to `capacity`
    /// elements: nothing for elements that take no room; else a block for that
    /// many elements, in exchange for the block that is held, if one is.
    pub fn request_for(&self, capacity: L, layout: Layout) -> (r: FlexArrResult<Option<Request>>)
        requires
            self.wf(),
            layout.is_layout_of::<T>(),
        ensures
            layout.spec_size() == 0 ==> r == Ok::<Option<Request>, FlexArrErr>(None),
            layout.spec_size() != 0 ==> match expansion_request(
                capacity.as_nat(),
                size_of::<T>(),
                align_of::<T>(),
            ) {
                Err(reason) => fails_with(r, reason),
                Ok(bytes) => r matches Ok(Some(request)) && request.wanted.spec_size() == bytes
                    && request.wanted.spec_align() == layout.spec_align()
                    && self.holds_layout(request.held),
            },
    {
        if layout.size() == 0 {
            // Elements that take no room need no block.
            return Ok(None);
        }
        let Some(usz_cap) = capacity.try_into_usize() else {
            return Err(FlexArrErr::new(ErrorReason::UsizeOverflow));
        };
        let wanted = match layout_array(layout, usz_cap) {
            Ok(l) => l,
            Err(e) => {
                return Err(e);
            },
        };
        proof {
            use_type_invariant(&wanted);
            wanted.lemma_valid();
        }
        // No block larger than half of `isize::MAX` bytes is asked for.
        if wanted.size() > (isize::MAX as usize) / 2 {
            return Err(FlexArrErr::new(ErrorReason::UsizeOverflow));
        }
        let held = self.current_layout(layout);
        Ok(Some(Request { held, wanted }))
    }

    /// Brings the capacity to `capacity` elements exactly, with a new block or
    /// with the old one exchanged. Elements that take no room need none.
    pub fn expand_capacity_to(&mut self, capacity: L, layout: Layout) -> (r: FlexArrResult<()>)
        requires
            old(self).wf(),
            layout.is_layout_of::<T>(),
            old(self).granted().as_nat() <= capacity.as_nat(),
        ensures
            final(self).wf(),
            final(self).items() == old(self).items(),
            final(self).source() == old(self).source(),
            final(self).spec_length() == old(self).spec_length(),
            r is Err ==> final(self).same_as(old(self)),
            layout.spec_size() == 0 ==> r is Ok && final(self).same_as(old(self)),
            layout.spec_size() != 0 ==> match expansion_request(
                capacity.as_nat(),
                size_of::<T>(),
                align_of::<T>(),
            ) {
                Err(reason) => fails_with(r, reason),
                Ok(_) => match r {
                    Ok(_) => final(self).granted() == capacity,
                    Err(e) => e.spec_reason() == ErrorReason::AllocFailure,
                },
            },
    {
        let request = match self.request_for(capacity, layout) {
            Ok(Some(request)) => request,
            Ok(None) => {
                return Ok(());
            },
            Err(e) => {
                return Err(e);
            },
        };
        // The elements themselves need the room too.
        let len = self.buf.len();
        let wanted_len = capacity.as_usize();
        let additional: usize = if wanted_len > len {
            wanted_len - len
        } else {
            0
        };
        if !self.buf.reserve(additional) {
            return Err(FlexArrErr::new(ErrorReason::AllocFailure));
        }
        // Exchange the block that is held, or ask for the first one.
        let answer = match request.held {
            Some(held) => {
                proof {
                    lemma_array_size_grows(
                        size_of::<T>(),
                        align_of::<T>(),
                        self.granted().as_nat(),
                        capacity.as_nat(),
                    );
                }
                self.alloc.grow(self.buf.addr(), held, request.wanted)
            },
            None => self.alloc.allocate(request.wanted),
        };
        self.install(capacity, answer)
    }

    /// Brings the capacity to `capacity` elements at least, and to half as much
    /// again as it was where that is more, so that a run of insertions asks the
    /// source only now and then.
    pub fn expand_capacity_at_least(&mut self, capacity: L, layout: Layout) -> (r: FlexArrResult<
        (),
    >)
        requires
            old(self).wf(),
            layout.is_layout_of::<T>(),
            old(self).granted().as_nat() <= grown_capacity(
                old(self).granted().as_nat(),
                capacity.as_nat(),
                L::spec_max(),
            ),
        ensures
            final(self).wf(),
            final(self).items() == old(self).items(),
            final(self).source() == old(self).source(),
            final(self).spec_length() == old(self).spec_length(),
            r is Err ==> final(self).same_as(old(self)),
            layout.spec_size() == 0 ==> r is Ok && final(self).same_as(old(self)),
            layout.spec_size() != 0 ==> match expansion_request(
                grown_capacity(old(self).granted().as_nat(), capacity.as_nat(), L::spec_max()),
                size_of::<T>(),
                align_of::<T>(),
            ) {
                Err(reason) => fails_with(r, reason),
                Ok(_) => match r {
                    Ok(_) => final(self).granted().as_nat() == grown_capacity(
                        old(self).granted().as_nat(),
                        capacity.as_nat(),
                        L::spec_max(),
                    ),
                    Err(e) => e.spec_reason() == ErrorReason::AllocFailure,
                },
            },
    {
        // For elements that take no room this is the largest value.
        let old_cap = self.capacity(layout.size());
        // Half as much again. Where the sum is counted round, the two
        // comparisons below still reach what is asked for.
        let raised = old_cap.wrapping_add(old_cap.half());
        let wanted = if raised.at_most(capacity) {
            capacity
        } else {
            raised
        };
        let eight = L::from_u8(8u8);
        let new_cap = if wanted.at_most(eight) {
            eight
        } else {
            wanted
        };
        self.expand_capacity_to(new_cap, layout)
    }

    /// Gives the block that is held back to the source. Without a block
    /// nothing happens.
    pub fn deallocate(&mut self, layout: Layout)
        requires
            old(self).wf(),
            layout.is_layout_of::<T>(),
        ensures
            final(self).wf(),
            final(self).items() == old(self).items(),
            final(self).source() == old(self).source(),
            final(self).spec_length() == old(self).spec_length(),
            final(self).granted().as_nat() == 0,
            old(self).granted().as_nat() == 0 ==> final(self).same_as(old(self)),
            old(self).granted().as_nat() > 0 ==> final(self).buffer().spec_addr() == Buffer::<
                T,
            >::dangling(),
    {
        let Some(held) = self.current_layout(layout) else {
            // Nothing was ever granted, so nothing is given back.
            proof {
                L::lemma_constants();
                self.capacity.lemma_one_value_per_number(L::ZERO_VALUE);
            }
            return ;
        };
        self.alloc.deallocate(self.buf.addr(), held);
        proof {
            L::lemma_constants();
        }
        self.buf.set_addr(core::mem::align_of::<T>());
        self.capacity = L::ZERO_VALUE;
    }
}

/// The size of an array does not shrink as its length grows.
proof fn lemma_array_size_grows(size: nat, align: nat, shorter: nat, longer: nat)
    requires
        shorter <= longer,
        array_size(size, align, shorter) is Ok,
        array_size(size, align, longer) is Ok,
    ensures
        array_size(size, align, shorter)->Ok_0 <= array_size(size, align, longer)->Ok_0,
{
    let p = padded_size(size, align);
    assert(shorter * p <= longer * p) by (nonlinear_arith)
        requires
            shorter <= longer,
            p >= 0,
    ;
}

} // verus!
