use super::buffer::Buffer;
use super::inner::expansion_request;
use super::inner::grown_capacity;
use super::inner::Inner;
use crate::allocator::AltAllocator;
use crate::allocator::Global;
use crate::allocator::Layout;
use crate::types::fails_with;
use crate::types::ErrorReason;
use crate::types::FlexArrErr;
use crate::types::FlexArrResult;
use crate::types::LengthType;
use vstd::layout::align_of;
use vstd::layout::size_of;
use vstd::prelude::*;

verus! {

/// A growable array whose elements lie one after the other.
///
/// A request for memory that is refused comes back as an error, and the array
/// is then as it was before. The type `L` of the length, the capacity and the
/// indices is the caller's choice: with `u32` the array itself takes a pointer
/// and two `u32`. The memory source `A` is asked whenever the capacity
/// changes.
///
/// Elements that take no room need no memory: their capacity is the largest
/// value of `L`, and the source is never asked. There may be more of them than
/// a `usize` counts; a slice of the array then shows the first `usize::MAX`.
///
/// An array that goes out of scope drops its elements. `release` does so too,
/// and gives the block back to the memory source.
#[derive(Debug)]
pub struct FlexArr<T, A: AltAllocator = Global, L: LengthType = u32> {
    inner: Inner<T, A, L>,
}

impl<T, A: AltAllocator, L: LengthType> View for FlexArr<T, A, L> {
    type V = Seq<T>;

    /// The elements, in their order.
    open spec fn view(&self) -> Seq<T> {
        self.manager().items()
    }
}

// Creation and reservation.
impl<T, A: AltAllocator, L: LengthType> FlexArr<T, A, L> {
    /// The storage manager.
    pub closed spec fn manager(&self) -> Inner<T, A, L> {
        self.inner
    }

    /// The length.
    pub open spec fn spec_len(&self) -> L {
        self.manager().spec_length()
    }

    /// The number of elements that the array holds without asking its memory
    /// source again: the largest value of `L` for elements that take no room.
    pub open spec fn spec_capacity(&self) -> nat {
        if size_of::<T>() == 0 {
            L::spec_max()
        } else {
            self.manager().granted().as_nat()
        }
    }

    /// The memory source.
    pub open spec fn spec_allocator(&self) -> A {
        self.manager().source()
    }

    /// The address at which the storage starts.
    pub open spec fn spec_addr(&self) -> usize {
        self.manager().buffer().spec_addr()
    }

    /// The length is the number of elements, and is within the capacity.
    pub open spec fn wf(&self) -> bool {
        &&& self.manager().wf()
        &&& self.spec_len().as_nat() == self@.len()
        &&& self@.len() <= self.spec_capacity()
    }

    /// The elements that the array shows as a slice.
    pub open spec fn shown(&self) -> Seq<T> {
        self.manager().buffer().shown()
    }

    /// The elements that lie behind those that the array shows as a slice.
    pub open spec fn hidden(&self) -> Seq<T> {
        self.manager().buffer().hidden()
    }

    /// A `usize` can count the elements of an array whose elements take room,
    /// and a slice shows them all.
    pub proof fn lemma_len_fits(&self)
        requires
            self.wf(),
            size_of::<T>() != 0,
        ensures
            self@.len() <= usize::MAX,
            self.spec_len().as_nat() <= usize::MAX,
            self.shown() == self@,
    {
        self.manager().buffer().lemma_shown();
        assert(self.shown() =~= self@);
    }

    /// Whether `other` has the same elements, length, capacity, address and
    /// memory source.
    pub open spec fn same_as(&self, other: &Self) -> bool {
        self.manager().same_as(&other.manager())
    }

    /// What an attempt to bring the capacity to `target` elements comes to, for
    /// elements that take room: the error that the request itself gives, or
    /// else the new capacity, or `AllocFailure` where the memory source or the
    /// heap that holds the elements refuses.
    pub open spec fn expanded_to(&self, target: nat, r: FlexArrResult<()>) -> bool {
        match expansion_request(target, size_of::<T>(), align_of::<T>()) {
            Err(reason) => fails_with(r, reason),
            Ok(_) => match r {
                Ok(_) => self.spec_capacity() == target,
                Err(e) => e.spec_reason() == ErrorReason::AllocFailure,
            },
        }
    }

    /// How making room ahead for `additional` elements ends, `before` being the
    /// array as it was and `target` the capacity that growth aims at: the
    /// length has no value, there is room already, or the capacity grows.
    pub open spec fn reserved(
        &self,
        before: &Self,
        additional: nat,
        target: nat,
        r: FlexArrResult<()>,
    ) -> bool {
        let needed = before@.len() + additional;
        if needed > L::spec_max() {
            fails_with(r, ErrorReason::CapacityOverflow)
        } else if needed <= before.spec_capacity() {
            r is Ok && self.same_as(before)
        } else {
            self.expanded_to(target, r)
        }
    }

    /// The target of amortized growth from this array's capacity.
    pub open spec fn growth_target(&self, needed: nat) -> nat {
        grown_capacity(self.spec_capacity(), needed, L::spec_max())
    }

    fn layout() -> (r: Layout)
        ensures
            r.is_layout_of::<T>(),
    {
        Layout::new::<T>()
    }

    /// An empty array with the given memory source, of which nothing is asked
    /// yet.
    pub fn new_in(alloc: A) -> (r: Self)
        ensures
            r.wf(),
            r@ == Seq::<T>::empty(),
            r.spec_len().as_nat() == 0,
            r.manager().granted().as_nat() == 0,
            r.spec_addr() == Buffer::<T>::dangling(),
            r.spec_allocator() == alloc,
    {
        proof {
            L::lemma_constants();
        }
        Self { inner: Inner::new_in(alloc) }
    }

    /// An empty array with room for `capacity` elements.
    pub fn with_capacity_in(alloc: A, capacity: L) -> (r: FlexArrResult<Self>)
        ensures
            r matches Ok(arr) ==> arr.wf() && arr@ == Seq::<T>::empty() && arr.spec_allocator()
                == alloc,
            size_of::<T>() == 0 ==> r is Ok,
            size_of::<T>() != 0 ==> match expansion_request(
                capacity.as_nat(),
                size_of::<T>(),
                align_of::<T>(),
            ) {
                Err(reason) => fails_with(r, reason),
                Ok(_) => match r {
                    Ok(arr) => arr.spec_capacity() == capacity.as_nat(),
                    Err(e) => e.spec_reason() == ErrorReason::AllocFailure,
                },
            },
    {
        let mut inner = Inner::new_in(alloc);
        match inner.expand_capacity_to(capacity, Self::layout()) {
            Ok(_) => {
                proof {
                    L::lemma_constants();
                }
                Ok(Self { inner })
            },
            Err(e) => Err(e),
        }
    }

    /// The length that `requested` more elements bring the array to.
    pub fn capacity_needed(&self, requested: L) -> (r: FlexArrResult<L>)
        ensures
            match r {
                Ok(needed) => needed.as_nat() == self.spec_len().as_nat() + requested.as_nat(),
                Err(e) => e.spec_reason() == ErrorReason::CapacityOverflow
                    && self.spec_len().as_nat() + requested.as_nat() > L::spec_max(),
            },
    {
        let Some(needed) = self.inner.length().checked_add(requested) else {
            return Err(FlexArrErr::new(ErrorReason::CapacityOverflow));
        };
        Ok(needed)
    }

    /// Makes room for `additional` more elements at least. Where the capacity
    /// has to grow, it grows to half as much again where that is more.
    pub fn reserve(&mut self, additional: L) -> (r: FlexArrResult<()>)
        requires
            old(self).wf(),
        ensures
            final(self).wf(),
            final(self)@ == old(self)@,
            final(self).spec_len() == old(self).spec_len(),
            final(self).spec_allocator() == old(self).spec_allocator(),
            r is Err ==> final(self).same_as(old(self)),
            r is Ok ==> old(self)@.len() + additional.as_nat() <= final(self).spec_capacity(),
            final(self).reserved(
                old(self),
                additional.as_nat(),
                old(self).growth_target(old(self)@.len() + additional.as_nat()),
                r,
            ),
    {
        let needed = match self.capacity_needed(additional) {
            Ok(n) => n,
            Err(e) => {
                proof {
                    self.manager().granted().lemma_in_range();
                }
                return Err(e);
            },
        };
        proof {
            needed.lemma_in_range();
            L::lemma_constants();
        }
        let cap = self.capacity();
        if needed.at_most(cap) {
            return Ok(());
        }
        self.inner.expand_capacity_at_least(needed, Self::layout())
    }

    /// As `reserve`, with the number of elements given as a `usize`.
    pub fn reserve_usize(&mut self, additional: usize) -> (r: FlexArrResult<()>)
        requires
            old(self).wf(),
        ensures
            final(self).wf(),
            final(self)@ == old(self)@,
            final(self).spec_len() == old(self).spec_len(),
            final(self).spec_allocator() == old(self).spec_allocator(),
            r is Err ==> final(self).same_as(old(self)),
            r is Ok ==> old(self)@.len() + additional <= final(self).spec_capacity(),
            final(self).reserved(
                old(self),
                additional as nat,
                old(self).growth_target(old(self)@.len() + additional as nat),
                r,
            ),
    {
        let Some(add) = L::try_from_usize(additional) else {
            proof {
                self.manager().granted().lemma_in_range();
            }
            return Err(FlexArrErr::new(ErrorReason::CapacityOverflow));
        };
        self.reserve(add)
    }

    /// Makes room for `additional` more elements. Where the capacity has to
    /// grow, it grows to what is needed and no further.
    pub fn reserve_exact(&mut self, additional: L) -> (r: FlexArrResult<()>)
        requires
            old(self).wf(),
        ensures
            final(self).wf(),
            final(self)@ == old(self)@,
            final(self).spec_len() == old(self).spec_len(),
            final(self).spec_allocator() == old(self).spec_allocator(),
            r is Err ==> final(self).same_as(old(self)),
            r is Ok ==> old(self)@.len() + additional.as_nat() <= final(self).spec_capacity(),
            final(self).reserved(
                old(self),
                additional.as_nat(),
                old(self)@.len() + additional.as_nat(),
                r,
            ),
    {
        let needed = match self.capacity_needed(additional) {
            Ok(n) => n,
            Err(e) => {
                proof {
                    self.manager().granted().lemma_in_range();
                }
                return Err(e);
            },
        };
        proof {
            needed.lemma_in_range();
            L::lemma_constants();
        }
        let cap = self.capacity();
        if needed.at_most(cap) {
            return Ok(());
        }
        self.inner.expand_capacity_to(needed, Self::layout())
    }

    /// The memory source of the array.
    pub fn allocator(array: &Self) -> (r: &A)
        ensures
            *r == array.spec_allocator(),
    {
        array.inner.allocator()
    }

    /// Whether the array holds no element.
    pub fn is_empty(&self) -> (r: bool)
        requires
            self.wf(),
        ensures
            r == (self@.len() == 0),
    {
        proof {
            L::lemma_constants();
        }
        self.len().at_most(L::ZERO_VALUE)
    }

    /// The number of elements.
    pub fn len(&self) -> (r: L)
        ensures
            r == self.spec_len(),
            self.wf() ==> r.as_nat() == self@.len(),
    {
        self.inner.length()
    }

    /// The number of elements that the array holds without asking its memory
    /// source again. For elements that take no room this is the largest value
    /// of `L`.
    pub fn capacity(&self) -> (r: L)
        ensures
            r.as_nat() == self.spec_capacity(),
            size_of::<T>() == 0 ==> r.as_nat() == L::spec_max(),
            size_of::<T>() != 0 ==> r == self.manager().granted(),
    {
        self.inner.capacity(core::mem::size_of::<T>())
    }

    /// The address at which the storage starts. Before the memory source has
    /// granted anything, and for elements that take no room, it is the least
    /// address at which a `T` could lie.
    pub fn as_ptr(&self) -> (r: usize)
        ensures
            r == self.spec_addr(),
    {
        self.inner.get_ptr()
    }

    /// The address at which the storage starts, as `as_ptr` gives it.
    pub fn as_mut_ptr(&mut self) -> (r: usize)
        ensures
            r == old(self).spec_addr(),
            *final(self) == *old(self),
    {
        self.inner.get_ptr()
    }
}

// Single elements.
impl<T, A: AltAllocator, L: LengthType> FlexArr<T, A, L> {
    /// How making room for `count` more elements ends, `before` being the
    /// array as it was: the length has a value or the capacity overflows; there
    /// is room already; or the capacity grows to its amortized target, as far
    /// as the memory source grants it.
    pub open spec fn room_made(&self, before: &Self, count: nat, r: FlexArrResult<()>) -> bool {
        let needed = before@.len() + count;
        if needed > L::spec_max() {
            fails_with(r, ErrorReason::CapacityOverflow)
        } else if needed <= before.spec_capacity() {
            r is Ok && self.spec_capacity() == before.spec_capacity() && self.spec_addr()
                == before.spec_addr()
        } else {
            self.expanded_to(before.growth_target(needed), r)
        }
    }

    /// Makes room for one more element, and says where the new length stands.
    fn make_room(&mut self) -> (r: FlexArrResult<L>)
        requires
            old(self).wf(),
        ensures
            final(self).wf(),
            final(self)@ == old(self)@,
            final(self).spec_len() == old(self).spec_len(),
            final(self).spec_allocator() == old(self).spec_allocator(),
            match r {
                Ok(needed) => needed.as_nat() == old(self)@.len() + 1 && needed.as_nat()
                    <= final(self).spec_capacity() && final(self).room_made(
                    old(self),
                    1,
                    Ok(()),
                ),
                Err(e) => final(self).same_as(old(self)) && final(self).room_made(
                    old(self),
                    1,
                    Err(e),
                ),
            },
    {
        proof {
            L::lemma_constants();
            self.manager().granted().lemma_in_range();
        }
        let needed = match self.capacity_needed(L::ONE_VALUE) {
            Ok(n) => n,
            Err(e) => {
                return Err(e);
            },
        };
        proof {
            needed.lemma_in_range();
        }
        if !needed.at_most(self.capacity()) {
            match self.inner.expand_capacity_at_least(needed, Self::layout()) {
                Ok(_) => {},
                Err(e) => {
                    return Err(e);
                },
            }
        }
        Ok(needed)
    }

    /// Takes the last element out of the array. The capacity stays.
    pub fn pop(&mut self) -> (r: Option<T>)
        requires
            old(self).wf(),
        ensures
            final(self).wf(),
            final(self).spec_capacity() == old(self).spec_capacity(),
            final(self).spec_addr() == old(self).spec_addr(),
            final(self).spec_allocator() == old(self).spec_allocator(),
            match r {
                Some(item) => old(self)@.len() > 0 && item == old(self)@.last() && final(self)@
                    == old(self)@.drop_last(),
                None => old(self)@.len() == 0 && final(self).same_as(old(self)),
            },
    {
        proof {
            L::lemma_constants();
        }
        let len = self.inner.length();
        if len.at_most(L::ZERO_VALUE) {
            return None;
        }
        let ret = self.inner.buf_mut().pop();
        self.inner.set_length(len.minus(L::ONE_VALUE));
        ret
    }

    /// Puts `item` behind the last element. Where there is no room for it, the
    /// capacity grows first; where that fails, the array stays as it was.
    pub fn push(&mut self, item: T) -> (r: FlexArrResult<()>)
        requires
            old(self).wf(),
        ensures
            final(self).wf(),
            final(self).spec_allocator() == old(self).spec_allocator(),
            final(self).room_made(old(self), 1, r),
            match r {
                Ok(_) => final(self)@ == old(self)@.push(item),
                Err(_) => final(self).same_as(old(self)),
            },
    {
        let needed = match self.make_room() {
            Ok(n) => n,
            Err(e) => {
                return Err(e);
            },
        };
        self.inner.buf_mut().push(item);
        self.inner.set_length(needed);
        Ok(())
    }

    /// Takes the element at `index` out of the array. The elements behind it
    /// move one place to the front, in their order.
    pub fn remove(&mut self, index: L) -> (r: Option<T>)
        requires
            old(self).wf(),
        ensures
            final(self).wf(),
            final(self).spec_capacity() == old(self).spec_capacity(),
            final(self).spec_addr() == old(self).spec_addr(),
            final(self).spec_allocator() == old(self).spec_allocator(),
            match r {
                Some(item) => {
                    &&& index.as_nat() < old(self)@.len()
                    &&& item == old(self)@[index.as_nat() as int]
                    &&& final(self)@ == old(self)@.remove(index.as_nat() as int)
                },
                None => index.as_nat() >= old(self)@.len() && final(self).same_as(old(self)),
            },
    {
        proof {
            L::lemma_constants();
        }
        let len = self.len();
        if len.at_most(index) {
            return None;
        }
        let item = self.inner.buf_mut().remove(index);
        self.inner.set_length(len.minus(L::ONE_VALUE));
        Some(item)
    }

    /// Takes the element at `index` out of the array and puts the last element
    /// in its place. The other elements stay where they are.
    pub fn swap_remove(&mut self, index: L) -> (r: Option<T>)
        requires
            old(self).wf(),
        ensures
            final(self).wf(),
            final(self).spec_capacity() == old(self).spec_capacity(),
            final(self).spec_addr() == old(self).spec_addr(),
            final(self).spec_allocator() == old(self).spec_allocator(),
            match r {
                Some(item) => {
                    &&& index.as_nat() < old(self)@.len()
                    &&& item == old(self)@[index.as_nat() as int]
                    &&& final(self)@ == old(self)@.update(
                        index.as_nat() as int,
                        old(self)@.last(),
                    ).drop_last()
                },
                None => index.as_nat() >= old(self)@.len() && final(self).same_as(old(self)),
            },
    {
        proof {
            L::lemma_constants();
        }
        let len = self.len();
        if len.at_most(index) {
            return None;
        }
        // There is at least one element here: the last one leaves its place.
        let Some(mut item) = self.inner.buf_mut().pop() else {
            return vstd::pervasive::unreached();
        };
        let new_len = len.minus(L::ONE_VALUE);
        self.inner.set_length(new_len);
        if !new_len.at_most(index) {
            // It takes the place of the element at `index`.
            let place = self.inner.buf_mut().get_mut(index);
            core::mem::swap(place, &mut item);
        }
        assert(self@ =~= old(self)@.update(index.as_nat() as int, old(self)@.last()).drop_last());
        Some(item)
    }

    /// The element at `index`, if there is one.
    pub fn get(&self, index: L) -> (r: Option<&T>)
        requires
            self.wf(),
        ensures
            match r {
                Some(item) => index.as_nat() < self@.len() && *item == self@[index.as_nat() as int],
                None => index.as_nat() >= self@.len(),
            },
    {
        let len = self.len();
        if len.at_most(index) {
            return None;
        }
        Some(self.get_unchecked(index))
    }

    /// The element at `index`, for an index that is known to be in bounds.
    pub fn get_unchecked(&self, index: L) -> (r: &T)
        requires
            self.wf(),
            index.as_nat() < self@.len(),
        ensures
            *r == self@[index.as_nat() as int],
    {
        self.inner.buf().get(index)
    }

    /// The element at `index`, to change it, if there is one.
    pub fn get_mut(&mut self, index: L) -> (r: Option<&mut T>)
        requires
            old(self).wf(),
        ensures
            final(self).wf(),
            final(self).spec_len() == old(self).spec_len(),
            final(self).spec_capacity() == old(self).spec_capacity(),
            final(self).spec_addr() == old(self).spec_addr(),
            final(self).spec_allocator() == old(self).spec_allocator(),
            match r {
                Some(item) => {
                    &&& index.as_nat() < old(self)@.len()
                    &&& *item == old(self)@[index.as_nat() as int]
                    &&& final(self)@ == old(self)@.update(index.as_nat() as int, *final(item))
                },
                None => index.as_nat() >= old(self)@.len() && final(self)@ == old(self)@,
            },
    {
        let len = self.len();
        if len.at_most(index) {
            return None;
        }
        Some(self.get_mut_unchecked(index))
    }

    /// The element at `index`, to change it, for an index that is known to be
    /// in bounds.
    pub fn get_mut_unchecked(&mut self, index: L) -> (r: &mut T)
        requires
            old(self).wf(),
            index.as_nat() < old(self)@.len(),
        ensures
            final(self).wf(),
            final(self).spec_len() == old(self).spec_len(),
            final(self).spec_capacity() == old(self).spec_capacity(),
            final(self).spec_addr() == old(self).spec_addr(),
            final(self).spec_allocator() == old(self).spec_allocator(),
            *r == old(self)@[index.as_nat() as int],
            final(self)@ == old(self)@.update(index.as_nat() as int, *final(r)),
    {
        self.inner.buf_mut().get_mut(index)
    }

    /// Puts `item` at `index`. The elements from there on move one place to
    /// the back, in their order. Where there is no room, the capacity grows
    /// first; where anything fails, the array stays as it was.
    pub fn insert(&mut self, index: L, item: T) -> (r: FlexArrResult<()>)
        requires
            old(self).wf(),
        ensures
            final(self).wf(),
            final(self).spec_allocator() == old(self).spec_allocator(),
            match r {
                Ok(_) => index.as_nat() <= old(self)@.len() && final(self)@ == old(self)@.insert(
                    index.as_nat() as int,
                    item,
                ),
                Err(_) => final(self).same_as(old(self)),
            },
            if index.as_nat() > usize::MAX {
                fails_with(r, ErrorReason::UsizeOverflow)
            } else if index.as_nat() > old(self)@.len() {
                fails_with(r, ErrorReason::IndexOutOfBounds)
            } else {
                final(self).room_made(old(self), 1, r)
            },
    {
        let len = self.inner.length();
        let Some(usz_ind) = index.try_into_usize() else {
            return Err(FlexArrErr::new(ErrorReason::UsizeOverflow));
        };
        if !index.at_most(len) {
            return Err(FlexArrErr::new(ErrorReason::IndexOutOfBounds));
        }
        let needed = match self.make_room() {
            Ok(n) => n,
            Err(e) => {
                return Err(e);
            },
        };
        // The elements from `index` on move over, and the item takes the place.
        self.inner.buf_mut().insert(usz_ind, item);
        self.inner.set_length(needed);
        Ok(())
    }
}

// Slices and whole contents.
impl<T, A: AltAllocator, L: LengthType> FlexArr<T, A, L> {
    /// Puts copies of the elements of `slice` behind the last element, in
    /// their order. Where there is no room for them, the capacity grows first;
    /// where that fails, the array stays as it was.
    pub fn extend_from_slice(&mut self, slice: &[T]) -> (r: FlexArrResult<()>) where T: Copy
        requires
            old(self).wf(),
        ensures
            final(self).wf(),
            final(self).spec_allocator() == old(self).spec_allocator(),
            final(self).room_made(old(self), slice@.len(), r),
            match r {
                Ok(_) => final(self)@ == old(self)@ + slice@,
                Err(_) => final(self).same_as(old(self)),
            },
    {
        let slc_len = slice.len();
        proof {
            L::lemma_constants();
            self.manager().granted().lemma_in_range();
        }
        let Some(add) = L::try_from_usize(slc_len) else {
            return Err(FlexArrErr::new(ErrorReason::CapacityOverflow));
        };
        let needed = match self.capacity_needed(add) {
            Ok(n) => n,
            Err(e) => {
                return Err(e);
            },
        };
        proof {
            needed.lemma_in_range();
        }
        match self.reserve(add) {
            Ok(_) => {},
            Err(e) => {
                return Err(e);
            },
        }
        if core::mem::size_of::<T>() == 0 {
            // Elements that take no room are taken over at once: there may be
            // more of them than could be counted one by one.
            self.inner.buf_mut().append_copies(slice);
        } else {
            let ghost reserved = *self;
            let mut i: usize = 0;
            while i < slc_len
                invariant
                    i <= slc_len,
                    slc_len == slice@.len(),
                    self.manager().wf(),
                    self@ == old(self)@ + slice@.subrange(0, i as int),
                    self.manager().granted() == reserved.manager().granted(),
                    self.manager().source() == reserved.manager().source(),
                    self.spec_addr() == reserved.spec_addr(),
                decreases slc_len - i,
            {
                let item = slice[i];
                self.inner.buf_mut().push(item);
                i += 1;
                assert(slice@.subrange(0, i as int) =~= slice@.subrange(0, i - 1).push(item));
                assert(self@ =~= old(self)@ + slice@.subrange(0, i as int));
            }
            assert(slice@.subrange(0, slc_len as int) =~= slice@);
        }
        self.inner.set_length(needed);
        Ok(())
    }

    /// The elements as a slice: all of them, or the first `usize::MAX` where
    /// there are more.
    pub fn as_slice(&self) -> (r: &[T])
        ensures
            r@ == self.shown(),
            self.wf() && self@.len() <= usize::MAX ==> r@ == self@,
            self.wf() && self@.len() > usize::MAX ==> r@ == self@.subrange(0, usize::MAX as int),
    {
        proof {
            self.manager().buffer().lemma_shown();
            if self.wf() && self@.len() <= usize::MAX {
                assert(self.shown() =~= self@);
            }
        }
        self.inner.buf().as_slice()
    }

    /// The elements as a slice, to change them: all of them, or the first
    /// `usize::MAX` where there are more.
    pub fn as_mut_slice(&mut self) -> (r: &mut [T])
        ensures
            r@ == old(self).shown(),
            final(self).shown() == final(r)@,
            final(self).hidden() == old(self).hidden(),
            final(self)@ == final(r)@ + old(self).hidden(),
            final(self).spec_len() == old(self).spec_len(),
            final(self).spec_capacity() == old(self).spec_capacity(),
            final(self).spec_addr() == old(self).spec_addr(),
            final(self).spec_allocator() == old(self).spec_allocator(),
            old(self).wf() && final(r)@.len() == r@.len() ==> final(self).wf(),
    {
        proof {
            self.manager().buffer().lemma_shown();
        }
        self.inner.buf_mut().as_mut_slice()
    }

    /// Drops every element. The capacity stays.
    pub fn clear(&mut self)
        requires
            old(self).wf(),
        ensures
            final(self).wf(),
            final(self)@ == Seq::<T>::empty(),
            final(self).spec_capacity() == old(self).spec_capacity(),
            final(self).spec_addr() == old(self).spec_addr(),
            final(self).spec_allocator() == old(self).spec_allocator(),
    {
        proof {
            L::lemma_constants();
        }
        self.inner.buf_mut().truncate(L::ZERO_VALUE);
        self.inner.set_length(L::ZERO_VALUE);
    }

    /// Drops the elements from `length` on. Where the array is no longer than
    /// that, nothing happens. The capacity stays.
    pub fn truncate(&mut self, length: L)
        requires
            old(self).wf(),
        ensures
            final(self).wf(),
            final(self).spec_capacity() == old(self).spec_capacity(),
            final(self).spec_addr() == old(self).spec_addr(),
            final(self).spec_allocator() == old(self).spec_allocator(),
            length.as_nat() >= old(self)@.len() ==> final(self).same_as(old(self)),
            length.as_nat() < old(self)@.len() ==> final(self)@ == old(self)@.subrange(
                0,
                length.as_nat() as int,
            ),
    {
        let len = self.len();
        if len.at_most(length) {
            return ;
        }
        self.inner.buf_mut().truncate(length);
        self.inner.set_length(length);
    }
}

// The parts of an array.
impl<T, A: AltAllocator, L: LengthType> FlexArr<T, A, L> {
    /// Whether a buffer, a length and a capacity may stand together in an
    /// array: the length counts the elements of the buffer and, for elements
    /// that take room, is within the capacity, which is one that a block can
    /// be held for and that the buffer has room for.
    pub open spec fn parts_fit(buf: Buffer<T>, length: L, capacity: L) -> bool {
        &&& length.as_nat() == buf@.len()
        &&& size_of::<T>() != 0 ==> length.as_nat() <= capacity.as_nat()
        &&& Inner::<T, A, L>::parts_fit(buf, capacity)
    }

    /// Whether the four parts are those of this array.
    pub open spec fn split_into(&self, buf: Buffer<T>, length: L, capacity: L, alloc: A) -> bool {
        &&& buf == self.manager().buffer()
        &&& length == self.spec_len()
        &&& capacity.as_nat() == self.spec_capacity()
        &&& alloc == self.spec_allocator()
    }

    /// Whether this array is the one of the four parts.
    pub open spec fn built_from(&self, buf: Buffer<T>, length: L, capacity: L, alloc: A) -> bool {
        &&& self.manager().buffer() == buf
        &&& self.spec_len() == length
        &&& self.spec_capacity() == if size_of::<T>() == 0 {
            L::spec_max()
        } else {
            capacity.as_nat()
        }
        &&& self.spec_allocator() == alloc
    }

    /// The array of the four parts, which together are all that an array is.
    /// The parts are taken as they come: they have to be those that
    /// `into_parts` gave, or parts that fit together as those do.
    pub fn from_parts(buf: Buffer<T>, length: L, capacity: L, alloc: A) -> (r: Self)
        requires
            Self::parts_fit(buf, length, capacity),
        ensures
            r.wf(),
            r.built_from(buf, length, capacity, alloc),
    {
        proof {
            length.lemma_in_range();
        }
        Self { inner: Inner::from_parts(buf, length, capacity, alloc) }
    }

    /// Takes the array apart: the buffer with the elements, the length, the
    /// capacity and the memory source. Nothing is given back to the source;
    /// the block stays with the buffer for whoever puts the parts together
    /// again.
    pub fn into_parts(self) -> (r: (Buffer<T>, L, L, A))
        requires
            self.wf(),
        ensures
            self.split_into(r.0, r.1, r.2, r.3),
            Self::parts_fit(r.0, r.1, r.2),
    {
        self.inner.into_parts(core::mem::size_of::<T>())
    }

    /// Ends the array: drops the elements, first to last, gives the block back
    /// to the memory source, and hands out the source.
    pub fn release(self) -> (r: A)
        requires
            self.wf(),
        ensures
            r == self.spec_allocator(),
    {
        let mut arr = self;
        arr.clear();
        arr.inner.deallocate(Self::layout());
        let parts = arr.inner.into_parts(core::mem::size_of::<T>());
        parts.3
    }
}

impl<T, L: LengthType> FlexArr<T, Global, L> {
    /// An empty array with `Global` as its memory source.
    pub fn new() -> (r: Self)
        ensures
            r.wf(),
            r@ == Seq::<T>::empty(),
            r.spec_len().as_nat() == 0,
            r.manager().granted().as_nat() == 0,
            r.spec_addr() == Buffer::<T>::dangling(),
    {
        Self::new_in(Global)
    }

    /// An empty array with room for `capacity` elements and `Global` as its
    /// memory source.
    pub fn with_capacity(capacity: L) -> (r: FlexArrResult<Self>)
        ensures
            r matches Ok(arr) ==> arr.wf() && arr@ == Seq::<T>::empty(),
            size_of::<T>() == 0 ==> r is Ok,
            size_of::<T>() != 0 ==> match expansion_request(
                capacity.as_nat(),
                size_of::<T>(),
                align_of::<T>(),
            ) {
                Err(reason) => fails_with(r, reason),
                Ok(_) => match r {
                    Ok(arr) => arr.spec_capacity() == capacity.as_nat(),
                    Err(e) => e.spec_reason() == ErrorReason::AllocFailure,
                },
            },
    {
        Self::with_capacity_in(Global, capacity)
    }
}

} // verus!
