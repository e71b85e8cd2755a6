use super::array::FlexArr;
use crate::allocator::AltAllocator;
use crate::types::LengthType;
use vstd::prelude::*;

verus! {

impl<T, A: AltAllocator, L: LengthType> core::ops::Index<L> for FlexArr<T, A, L> {
    type Output = T;

    /// The element at `index`, which has to be within what the array shows
    /// as a slice.
    fn index(&self, index: L) -> (r: &T)
        ensures
            *r == self@[index.as_nat() as int],
    {
        proof {
            self.manager().buffer().lemma_shown();
        }
        // An index that a `usize` cannot hold is beyond every slice.
        let Some(i) = index.try_into_usize() else {
            return vstd::pervasive::unreached();
        };
        &self.as_slice()[i]
    }
}

impl<T, A: AltAllocator, L: LengthType> vstd::std_specs::core::IndexSpecImpl<L> for FlexArr<T, A, L> {
    open spec fn index_req(&self, index: &L) -> bool {
        self.wf() && index.as_nat() < self.shown().len()
    }
}

impl<T, A: AltAllocator, L: LengthType> core::ops::IndexMut<L> for FlexArr<T, A, L> {
    /// The element at `index`, which has to be within what the array shows
    /// as a slice, to change it.
    fn index_mut(&mut self, index: L) -> (r: &mut T)
        requires
            old(self).wf(),
            index.as_nat() < old(self).shown().len(),
        ensures
            final(self).wf(),
            final(self).spec_len() == old(self).spec_len(),
            final(self).spec_capacity() == old(self).spec_capacity(),
            final(self).spec_addr() == old(self).spec_addr(),
            final(self).spec_allocator() == old(self).spec_allocator(),
            *r == old(self)@[index.as_nat() as int],
            final(self)@ == old(self)@.update(index.as_nat() as int, *final(r)),
    {
        proof {
            self.manager().buffer().lemma_shown();
        }
        // An index that a `usize` cannot hold is beyond every slice.
        let Some(i) = index.try_into_usize() else {
            return vstd::pervasive::unreached();
        };
        &mut self.as_mut_slice()[i]
    }
}

impl<T, A: AltAllocator, L: LengthType> core::ops::Deref for FlexArr<T, A, L> {
    type Target = [T];

    /// The elements as a slice, as `as_slice` gives them.
    fn deref(&self) -> (r: &[T])
        ensures
            r@ == self.shown(),
    {
        self.as_slice()
    }
}

impl<T, A: AltAllocator, L: LengthType> core::ops::DerefMut for FlexArr<T, A, L> {
    /// The elements as a slice to change them, as `as_mut_slice` gives them.
    fn deref_mut(&mut self) -> (r: &mut [T])
        ensures
            r@ == old(self).shown(),
            final(self)@ == final(r)@ + old(self).hidden(),
            final(self).spec_len() == old(self).spec_len(),
            final(self).spec_capacity() == old(self).spec_capacity(),
            final(self).spec_addr() == old(self).spec_addr(),
            final(self).spec_allocator() == old(self).spec_allocator(),
            old(self).wf() && final(r)@.len() == r@.len() ==> final(self).wf(),
    {
        self.as_mut_slice()
    }
}

impl<'a, T, A: AltAllocator, L: LengthType> core::iter::IntoIterator for &'a FlexArr<T, A, L> {
    type Item = &'a T;

    type IntoIter = core::slice::Iter<'a, T>;

    /// The iterator over the elements that the array shows as a slice, first
    /// to last.
    fn into_iter(self) -> (r: core::slice::Iter<'a, T>)
        ensures
            vstd::std_specs::slice::into_iter_elts(r) == self.shown(),
    {
        let iter = self.as_slice().iter();
        proof {
            broadcast use vstd::std_specs::slice::axiom_spec_slice_iter;
            assert(self.shown().as_ref().unref() =~= self.shown());
        }
        iter
    }
}

/// `core::slice::IterMut` of std: the iterator over a slice that hands out
/// each element to be changed. Nothing inside it is looked at here.
#[verifier::external_type_specification]
#[verifier::external_body]
#[verifier::reject_recursive_types(Item)]
pub struct ExIterMut<'a, Item: 'a>(core::slice::IterMut<'a, Item>);

/// `iter_mut` of std's slices. Nothing is claimed of the iterator it returns.
/// Of the slice it is claimed that it keeps its length: the iterator hands out
/// the elements to be changed, one by one, and a slice has no other length
/// than the one it was made with.
#[verifier::external_body]
fn slice_iter_mut<'a, T>(slice: &'a mut [T]) -> (iter: core::slice::IterMut<'a, T>)
    ensures
        final(slice)@.len() == old(slice)@.len(),
{
    slice.iter_mut()
}

impl<'a, T, A: AltAllocator, L: LengthType> core::iter::IntoIterator for &'a mut FlexArr<T, A, L> {
    type Item = &'a mut T;

    type IntoIter = core::slice::IterMut<'a, T>;

    /// The iterator that hands out each element that the array shows as a
    /// slice to be changed, first to last.
    /// The array stays valid and keeps its length, its capacity, its address
    /// and its memory source; what its elements are afterwards is up to the
    /// iterator's user.
    fn into_iter(self) -> (r: core::slice::IterMut<'a, T>)
        ensures
            final(self).spec_len() == old(self).spec_len(),
            final(self).spec_capacity() == old(self).spec_capacity(),
            final(self).spec_addr() == old(self).spec_addr(),
            final(self).spec_allocator() == old(self).spec_allocator(),
            final(self)@.len() == old(self)@.len(),
            old(self).wf() ==> final(self).wf(),
    {
        proof {
            self.manager().buffer().lemma_shown();
        }
        slice_iter_mut(self.as_mut_slice())
    }
}

} // verus!
