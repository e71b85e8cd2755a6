use super::array::FlexArr;
use super::buffer::Buffer;
use crate::allocator::AltAllocator;
use crate::types::fails_with;
use crate::types::ErrorReason;
use crate::types::FlexArrResult;
use crate::types::LengthType;
use vstd::layout::size_of;
use vstd::prelude::*;

verus! {

/// The place that the element at `j` had before the element at `removed` was
/// taken out.
pub open spec fn place_before_removal(removed: int, j: int) -> int {
    if j < removed {
        j
    } else {
        j + 1
    }
}

/// Taking one element out leaves the others in their order: each keeps its
/// value, and two of them stand after the removal as they stood before it.
pub proof fn lemma_remove_keeps_order<T>(s: Seq<T>, removed: int)
    requires
        0 <= removed < s.len(),
    ensures
        s.remove(removed).len() == s.len() - 1,
        forall|j: int|
            0 <= j < s.len() - 1 ==> #[trigger] s.remove(removed)[j] == s[place_before_removal(
                removed,
                j,
            )],
        forall|j: int, k: int|
            0 <= j < k < s.len() - 1 ==> place_before_removal(removed, j) < place_before_removal(
                removed,
                k,
            ),
        forall|j: int|
            0 <= j < s.len() - 1 ==> 0 <= #[trigger] place_before_removal(removed, j) < s.len()
                && place_before_removal(removed, j) != removed,
{
}

/// Taking one element out by a swap moves the last element into its place and
/// leaves every other element where it was.
pub proof fn lemma_swap_remove_moves_last<T>(s: Seq<T>, removed: int)
    requires
        0 <= removed < s.len(),
    ensures
        s.update(removed, s.last()).drop_last().len() == s.len() - 1,
        forall|j: int|
            0 <= j < s.len() - 1 ==> #[trigger] s.update(removed, s.last()).drop_last()[j] == if j
                == removed {
                s.last()
            } else {
                s[j]
            },
{
}

impl<T, A: AltAllocator, L: LengthType> FlexArr<T, A, L> {
    /// In every array the length counts the elements and is within the
    /// capacity. Elements that take room are no more than a `usize` counts.
    pub proof fn lemma_length_within_capacity(&self)
        requires
            self.wf(),
        ensures
            self.spec_len().as_nat() == self@.len(),
            self.spec_len().as_nat() <= self.spec_capacity(),
            self.spec_capacity() <= L::spec_max(),
            size_of::<T>() != 0 ==> self@.len() <= usize::MAX,
    {
        self.manager().granted().lemma_in_range();
    }

    /// A slice of the array shows all of its elements, or the first
    /// `usize::MAX` of them where there are more, which only elements that
    /// take no room can be.
    pub proof fn lemma_what_a_slice_shows(&self)
        requires
            self.wf(),
        ensures
            self@.len() <= usize::MAX ==> self.shown() == self@,
            self@.len() > usize::MAX ==> self.shown() == self@.subrange(0, usize::MAX as int),
            self@ == self.shown() + self.hidden(),
            size_of::<T>() != 0 ==> self.shown() == self@,
    {
        self.manager().buffer().lemma_shown();
        if self@.len() <= usize::MAX {
            assert(self.shown() =~= self@);
        }
    }

    /// The capacity for elements that take no room is the largest value of the
    /// length type, and nothing is ever granted for them.
    pub proof fn lemma_zero_sized_capacity(&self)
        requires
            self.wf(),
            size_of::<T>() == 0,
        ensures
            self.spec_capacity() == L::spec_max(),
            self.manager().granted().as_nat() == 0,
    {
    }

    /// Making room for elements that take no room never grows anything: it
    /// succeeds exactly where the length type can count the elements, and
    /// leaves the capacity and the address as they were. The only error is
    /// `CapacityOverflow`.
    pub proof fn lemma_zero_sized_never_grows(
        &self,
        before: &Self,
        count: nat,
        r: FlexArrResult<()>,
    )
        requires
            before.wf(),
            size_of::<T>() == 0,
            self.room_made(before, count, r),
        ensures
            r is Ok <==> before@.len() + count <= L::spec_max(),
            r is Ok ==> self.spec_capacity() == L::spec_max() && self.spec_addr()
                == before.spec_addr(),
            r is Err ==> fails_with(r, ErrorReason::CapacityOverflow),
    {
    }

    /// Where there is room already, making room succeeds and changes nothing.
    pub proof fn lemma_room_at_hand(&self, before: &Self, count: nat, r: FlexArrResult<()>)
        requires
            before.wf(),
            size_of::<T>() != 0,
            before@.len() + count <= before.spec_capacity(),
            self.room_made(before, count, r),
        ensures
            r is Ok,
            self.spec_capacity() == before.spec_capacity(),
            self.spec_addr() == before.spec_addr(),
    {
        before.lemma_length_within_capacity();
    }

    /// An array that is taken apart and put together again from the same parts
    /// is as it was: the same elements, length, capacity, address and memory
    /// source.
    pub proof fn lemma_round_trip(
        &self,
        rebuilt: &Self,
        buf: Buffer<T>,
        length: L,
        capacity: L,
        alloc: A,
    )
        requires
            self.wf(),
            self.split_into(buf, length, capacity, alloc),
            rebuilt.built_from(buf, length, capacity, alloc),
        ensures
            Self::parts_fit(buf, length, capacity),
            rebuilt@ == self@,
            rebuilt.spec_len() == self.spec_len(),
            rebuilt.spec_capacity() == self.spec_capacity(),
            rebuilt.spec_addr() == self.spec_addr(),
            rebuilt.spec_allocator() == self.spec_allocator(),
    {
        self.lemma_length_within_capacity();
    }
}

} // verus!
