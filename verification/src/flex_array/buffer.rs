use super::spill::spill_append;
use super::spill::spill_get;
use super::spill::spill_get_mut;
use super::spill::spill_is_empty;
use super::spill::spill_pop_back;
use super::spill::spill_push_back;
use super::spill::spill_push_front;
use super::spill::spill_remove;
use super::spill::spill_truncate;
use super::spill::spill_view;
use super::spill::Node;
use crate::types::LengthType;
use vstd::layout::align_of;
use vstd::prelude::*;
use vstd::slice::slice_to_vec;

verus! {

/// What lies behind the one pointer of a buffer that holds anything.
#[derive(Debug)]
struct Store<T> {
    base: usize,
    room: usize,
    items: Vec<T>,
    spill: Option<Box<Node<T>>>,
}

/// The storage of a container: the address at which it starts and the elements
/// that lie in it, in their order.
///
/// The elements lie on the heap. The buffer keeps count of the room that the
/// heap has granted it: the largest number of elements that a `reserve` was
/// granted for. Up to that number the elements find their room without another
/// request to the heap.
///
/// One vector holds the elements as far as a `usize` counts them, and it is
/// what the buffer shows as a slice. Where there are more, which only elements
/// that take no room can be, the others lie in further vectors behind it.
///
/// An empty buffer takes no memory. Its address is then the least address at
/// which a `T` could lie, which is the address of no element.
#[derive(Debug)]
pub struct Buffer<T> {
    slot: Option<Box<Store<T>>>,
}

impl<T> View for Buffer<T> {
    type V = Seq<T>;

    closed spec fn view(&self) -> Seq<T> {
        match self.slot {
            Some(store) => store.items@ + spill_view(store.spill),
            None => Seq::empty(),
        }
    }
}

/// Reserves room for `additional` more elements, where the heap has it. The
/// elements stay as they are, whatever the answer.
///
/// This is `Vec::try_reserve_exact` of std, which reports a request that is
/// too large, or that the heap refuses, as an error.
#[verifier::external_body]
fn try_reserve_exact<T>(items: &mut Vec<T>, additional: usize) -> (r: Result<
    (),
    std::collections::TryReserveError,
>)
    ensures
        final(items)@ == old(items)@,
{
    items.try_reserve_exact(additional)
}

impl<T> Buffer<T> {
    /// The elements that the buffer shows as a slice: those of its first
    /// vector.
    pub closed spec fn shown(&self) -> Seq<T> {
        match self.slot {
            Some(store) => store.items@,
            None => Seq::empty(),
        }
    }

    /// The elements that lie behind those that the buffer shows.
    pub closed spec fn hidden(&self) -> Seq<T> {
        match self.slot {
            Some(store) => spill_view(store.spill),
            None => Seq::empty(),
        }
    }

    /// Elements lie behind those shown only where a `usize` cannot count one
    /// more of those.
    pub open spec fn wf(&self) -> bool {
        self.hidden().len() > 0 ==> self.shown().len() == usize::MAX
    }

    /// The number of elements that a valid buffer shows as a slice: all of
    /// them, as far as a `usize` counts them.
    pub open spec fn head_len(&self) -> nat {
        if self@.len() <= usize::MAX {
            self@.len()
        } else {
            usize::MAX as nat
        }
    }

    /// The elements of a buffer are those that it shows and those behind
    /// them. A valid buffer shows all of its elements, or the first
    /// `usize::MAX` of them where there are more.
    pub proof fn lemma_shown(&self)
        ensures
            self@ == self.shown() + self.hidden(),
            self.shown().len() <= usize::MAX,
            self.wf() ==> self.shown() == self@.subrange(0, self.head_len() as int)
                && self.hidden() == self@.subrange(self.head_len() as int, self@.len() as int)
                && self.shown().len() == self.head_len(),
    {
        match self.slot {
            Some(store) => {
                assert(store.items@.len() == store.items.len());
            },
            None => {},
        }
        assert(self@ =~= self.shown() + self.hidden());
        if self.wf() {
            assert(self.shown() =~= self@.subrange(0, self.head_len() as int));
            assert(self.hidden() =~= self@.subrange(self.head_len() as int, self@.len() as int));
        }
    }

    /// The address at which the storage starts.
    pub closed spec fn spec_addr(&self) -> usize {
        match self.slot {
            Some(store) => store.base,
            None => align_of::<T>() as usize,
        }
    }

    /// The number of elements that the heap has granted room for.
    pub closed spec fn spec_room(&self) -> usize {
        match self.slot {
            Some(store) => store.room,
            None => 0,
        }
    }

    /// The address of a buffer that was never given one.
    pub open spec fn dangling() -> usize {
        align_of::<T>() as usize
    }

    /// An empty buffer, which takes no memory.
    pub fn new() -> (r: Self)
        ensures
            r.wf(),
            r@ == Seq::<T>::empty(),
            r.spec_addr() == Self::dangling(),
            r.spec_room() == 0,
    {
        Buffer { slot: None }
    }

    /// The address at which the storage starts.
    #[verifier::when_used_as_spec(spec_addr)]
    pub fn addr(&self) -> (r: usize)
        ensures
            r == self.spec_addr(),
    {
        match &self.slot {
            Some(store) => store.base,
            None => core::mem::align_of::<T>(),
        }
    }

    /// The number of elements that the heap has granted room for.
    #[verifier::when_used_as_spec(spec_room)]
    pub fn room(&self) -> (r: usize)
        ensures
            r == self.spec_room(),
    {
        match &self.slot {
            Some(store) => store.room,
            None => 0,
        }
    }

    /// The number of elements that the buffer shows as a slice.
    pub fn len(&self) -> (r: usize)
        ensures
            r == self.shown().len(),
    {
        match &self.slot {
            Some(store) => store.items.len(),
            None => 0,
        }
    }

    /// The elements as a slice: all of them, as far as a `usize` counts them.
    pub fn as_slice(&self) -> (r: &[T])
        ensures
            r@ == self.shown(),
    {
        match &self.slot {
            Some(store) => store.items.as_slice(),
            None => &[],
        }
    }

    /// The element at `index`.
    pub fn get<L: LengthType>(&self, index: L) -> (r: &T)
        requires
            self.wf(),
            index.as_nat() < self@.len(),
        ensures
            *r == self@[index.as_nat() as int],
    {
        match &self.slot {
            Some(store) => {
                let len = store.items.len();
                match index.try_into_usize() {
                    Some(i) => {
                        if i < len {
                            return &store.items[i];
                        }
                    },
                    None => {},
                }
                proof {
                    index.lemma_in_range();
                }
                let Some(skip) = L::try_from_usize(len) else {
                    return vstd::pervasive::unreached();
                };
                spill_get(&store.spill, index.minus(skip))
            },
            None => vstd::pervasive::unreached(),
        }
    }

    /// Takes `addr` as the address at which the storage starts.
    pub(crate) fn set_addr(&mut self, addr: usize)
        ensures
            final(self)@ == old(self)@,
            final(self).shown() == old(self).shown(),
            final(self).hidden() == old(self).hidden(),
            final(self).spec_addr() == addr,
            final(self).spec_room() == old(self).spec_room(),
    {
        match &mut self.slot {
            Some(store) => {
                store.base = addr;
            },
            None => {
                let items: Vec<T> = Vec::new();
                self.slot = Some(Box::new(Store { base: addr, room: 0, items, spill: None }));
                assert(self@ =~= old(self)@);
            },
        }
    }

    /// The room that a buffer which shows `len` elements and has `room` granted
    /// has once room for `additional` more elements is granted.
    pub open spec fn room_with(room: usize, len: nat, additional: usize) -> nat {
        if room >= len + additional {
            room as nat
        } else {
            (len + additional) as nat
        }
    }

    /// Asks the heap for room for `additional` more elements than the buffer
    /// shows, and says whether the room is there. A yes is written down; a no
    /// leaves the room as it was. Where no room is asked for, or more than a
    /// `usize` can count, the heap is left alone: the answer is yes in the one
    /// case and no in the other.
    pub(crate) fn reserve(&mut self, additional: usize) -> (granted: bool)
        ensures
            final(self)@ == old(self)@,
            final(self).shown() == old(self).shown(),
            final(self).hidden() == old(self).hidden(),
            final(self).spec_addr() == old(self).spec_addr(),
            additional == 0 ==> granted,
            old(self).shown().len() + additional > usize::MAX ==> !granted,
            final(self).spec_room() == if granted {
                Self::room_with(old(self).spec_room(), old(self).shown().len(), additional)
            } else {
                old(self).spec_room() as nat
            },
    {
        let len = self.len();
        let Some(total) = len.checked_add(additional) else {
            return false;
        };
        match &mut self.slot {
            Some(store) => {
                if additional != 0 && try_reserve_exact(&mut store.items, additional).is_err() {
                    return false;
                }
                if store.room < total {
                    store.room = total;
                }
                true
            },
            None => {
                if additional == 0 {
                    return true;
                }
                let mut items: Vec<T> = Vec::new();
                if try_reserve_exact(&mut items, additional).is_err() {
                    return false;
                }
                let base = core::mem::align_of::<T>();
                self.slot = Some(Box::new(Store { base, room: total, items, spill: None }));
                assert(self@ =~= old(self)@);
                true
            },
        }
    }

    /// Puts `item` behind the last element.
    pub(crate) fn push(&mut self, item: T)
        requires
            old(self).wf(),
        ensures
            final(self).wf(),
            final(self)@ == old(self)@.push(item),
            final(self).spec_addr() == old(self).spec_addr(),
            final(self).spec_room() == old(self).spec_room(),
    {
        match &mut self.slot {
            Some(store) => {
                if store.items.len() < usize::MAX {
                    store.items.push(item);
                } else {
                    let rest = store.spill.take();
                    store.spill = spill_push_back(rest, item);
                }
                assert(self@ =~= old(self)@.push(item));
            },
            None => {
                let mut items: Vec<T> = Vec::new();
                items.push(item);
                let base = core::mem::align_of::<T>();
                self.slot = Some(Box::new(Store { base, room: 0, items, spill: None }));
                assert(self@ =~= old(self)@.push(item));
            },
        }
    }

    /// Takes the last element out, if there is one.
    pub(crate) fn pop(&mut self) -> (r: Option<T>)
        requires
            old(self).wf(),
        ensures
            final(self).wf(),
            final(self).spec_addr() == old(self).spec_addr(),
            final(self).spec_room() == old(self).spec_room(),
            match r {
                Some(item) => old(self)@.len() > 0 && item == old(self)@.last() && final(self)@
                    == old(self)@.drop_last(),
                None => old(self)@.len() == 0 && final(self)@ == old(self)@,
            },
    {
        match &mut self.slot {
            Some(store) => {
                if spill_is_empty(&store.spill) {
                    let r = store.items.pop();
                    assert(r is Some ==> self@ =~= old(self)@.drop_last());
                    assert(r is None ==> self@ =~= old(self)@);
                    r
                } else {
                    let rest = store.spill.take();
                    let (rest, item) = spill_pop_back(rest);
                    store.spill = rest;
                    assert(self@ =~= old(self)@.drop_last());
                    Some(item)
                }
            },
            None => None,
        }
    }

    /// Puts `item` at `index` and moves the elements from there on one place
    /// back.
    pub(crate) fn insert(&mut self, index: usize, item: T)
        requires
            old(self).wf(),
            index <= old(self)@.len(),
        ensures
            final(self).wf(),
            final(self)@ == old(self)@.insert(index as int, item),
            final(self).spec_addr() == old(self).spec_addr(),
            final(self).spec_room() == old(self).spec_room(),
    {
        match &mut self.slot {
            Some(store) => {
                let len = store.items.len();
                if len < usize::MAX {
                    store.items.insert(index, item);
                } else if index == len {
                    // The first vector is full and stays as it is.
                    let rest = store.spill.take();
                    store.spill = spill_push_front(rest, item);
                } else {
                    // The first vector is full: its last element moves on.
                    let Some(last) = store.items.pop() else {
                        return vstd::pervasive::unreached();
                    };
                    store.items.insert(index, item);
                    let rest = store.spill.take();
                    store.spill = spill_push_front(rest, last);
                }
                assert(self@ =~= old(self)@.insert(index as int, item));
            },
            None => {
                let mut items: Vec<T> = Vec::new();
                items.push(item);
                let base = core::mem::align_of::<T>();
                self.slot = Some(Box::new(Store { base, room: 0, items, spill: None }));
                assert(self@ =~= old(self)@.insert(index as int, item));
            },
        }
    }

    /// Takes the element at `index` out and moves the elements behind it one
    /// place to the front.
    pub(crate) fn remove<L: LengthType>(&mut self, index: L) -> (r: T)
        requires
            old(self).wf(),
            index.as_nat() < old(self)@.len(),
        ensures
            final(self).wf(),
            r == old(self)@[index.as_nat() as int],
            final(self)@ == old(self)@.remove(index.as_nat() as int),
            final(self).spec_addr() == old(self).spec_addr(),
            final(self).spec_room() == old(self).spec_room(),
    {
        proof {
            L::lemma_constants();
            index.lemma_in_range();
        }
        match &mut self.slot {
            Some(store) => {
                let len = store.items.len();
                match index.try_into_usize() {
                    Some(i) => {
                        if i < len {
                            let item = store.items.remove(i);
                            if !spill_is_empty(&store.spill) {
                                // The first vector stays full: the first
                                // element behind it moves up.
                                let rest = store.spill.take();
                                let (rest, first) = spill_remove(rest, L::ZERO_VALUE);
                                store.spill = rest;
                                store.items.push(first);
                            }
                            assert(self@ =~= old(self)@.remove(index.as_nat() as int));
                            return item;
                        }
                    },
                    None => {},
                }
                let Some(skip) = L::try_from_usize(len) else {
                    return vstd::pervasive::unreached();
                };
                let rest = store.spill.take();
                let (rest, item) = spill_remove(rest, index.minus(skip));
                store.spill = rest;
                assert(self@ =~= old(self)@.remove(index.as_nat() as int));
                item
            },
            None => vstd::pervasive::unreached(),
        }
    }

    /// Drops the elements from `keep` on.
    pub(crate) fn truncate<L: LengthType>(&mut self, keep: L)
        requires
            old(self).wf(),
            keep.as_nat() <= old(self)@.len(),
        ensures
            final(self).wf(),
            final(self)@ == old(self)@.subrange(0, keep.as_nat() as int),
            final(self).spec_addr() == old(self).spec_addr(),
            final(self).spec_room() == old(self).spec_room(),
    {
        proof {
            keep.lemma_in_range();
        }
        match &mut self.slot {
            Some(store) => {
                let len = store.items.len();
                match keep.try_into_usize() {
                    Some(k) => {
                        if k <= len {
                            store.items.truncate(k);
                            store.spill = None;
                            assert(self@ =~= old(self)@.subrange(0, keep.as_nat() as int));
                            return ;
                        }
                    },
                    None => {},
                }
                let Some(skip) = L::try_from_usize(len) else {
                    return vstd::pervasive::unreached();
                };
                let rest = store.spill.take();
                store.spill = spill_truncate(rest, keep.minus(skip));
                assert(self@ =~= old(self)@.subrange(0, keep.as_nat() as int));
            },
            None => {
                assert(old(self)@.subrange(0, keep.as_nat() as int) =~= old(self)@);
            },
        }
    }

    /// The element at `index`, to change it.
    pub(crate) fn get_mut<L: LengthType>(&mut self, index: L) -> (r: &mut T)
        requires
            old(self).wf(),
            index.as_nat() < old(self)@.len(),
        ensures
            final(self).wf(),
            *r == old(self)@[index.as_nat() as int],
            final(self)@ == old(self)@.update(index.as_nat() as int, *final(r)),
            final(self).spec_addr() == old(self).spec_addr(),
            final(self).spec_room() == old(self).spec_room(),
    {
        proof {
            index.lemma_in_range();
        }
        match &mut self.slot {
            Some(store) => {
                let len = store.items.len();
                match index.try_into_usize() {
                    Some(i) => {
                        if i < len {
                            return &mut store.items[i];
                        }
                    },
                    None => {},
                }
                let Some(skip) = L::try_from_usize(len) else {
                    return vstd::pervasive::unreached();
                };
                spill_get_mut(&mut store.spill, index.minus(skip))
            },
            None => vstd::pervasive::unreached(),
        }
    }

    /// The elements that the buffer shows as a slice, to change them.
    pub(crate) fn as_mut_slice(&mut self) -> (r: &mut [T])
        ensures
            r@ == old(self).shown(),
            final(self).shown() == final(r)@,
            final(self).hidden() == old(self).hidden(),
            final(self)@ == final(r)@ + old(self).hidden(),
            final(self).spec_addr() == old(self).spec_addr(),
            final(self).spec_room() == old(self).spec_room(),
    {
        match &mut self.slot {
            Some(store) => store.items.as_mut_slice(),
            None => &mut [],
        }
    }

    /// Puts copies of the elements of `slice` behind the last element, all at
    /// once.
    pub(crate) fn append_copies(&mut self, slice: &[T]) where T: Copy
        requires
            old(self).wf(),
        ensures
            final(self).wf(),
            final(self)@ == old(self)@ + slice@,
            final(self).spec_addr() == old(self).spec_addr(),
            final(self).spec_room() == old(self).spec_room(),
    {
        if slice.len() == 0 {
            assert(old(self)@ + slice@ =~= old(self)@);
            return ;
        }
        let mut chunk = slice_to_vec(slice);
        match &mut self.slot {
            Some(store) => {
                let free = usize::MAX - store.items.len();
                if chunk.len() <= free {
                    store.items.append(&mut chunk);
                } else if free == 0 {
                    let rest = store.spill.take();
                    store.spill = spill_append(rest, chunk);
                } else {
                    // What the first vector has no room for goes behind it.
                    let beyond = chunk.split_off(free);
                    store.items.append(&mut chunk);
                    let rest = store.spill.take();
                    store.spill = spill_append(rest, beyond);
                }
                assert(self@ =~= old(self)@ + slice@);
            },
            None => {
                let base = core::mem::align_of::<T>();
                self.slot = Some(Box::new(Store { base, room: 0, items: chunk, spill: None }));
                assert(self@ =~= old(self)@ + slice@);
            },
        }
    }
}

} // verus!
