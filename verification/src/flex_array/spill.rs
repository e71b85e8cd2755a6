use crate::types::LengthType;
use vstd::prelude::*;

verus! {

/// One more vector of elements, and what follows it. A vector holds no more
/// than `usize::MAX` elements; a chain of vectors holds as many as there are.
#[derive(Debug)]
pub(crate) struct Node<T> {
    pub(crate) items: Vec<T>,
    pub(crate) next: Option<Box<Node<T>>>,
}

/// The elements of a chain, in their order.
pub(crate) open spec fn spill_view<T>(list: Option<Box<Node<T>>>) -> Seq<T>
    decreases list,
{
    match list {
        None => Seq::empty(),
        Some(node) => node.items@ + spill_view(node.next),
    }
}

/// Whether the chain holds no element.
pub(crate) fn spill_is_empty<T>(list: &Option<Box<Node<T>>>) -> (r: bool)
    ensures
        r == (spill_view(*list).len() == 0),
    decreases *list,
{
    match list {
        None => true,
        Some(node) => node.items.len() == 0 && spill_is_empty(&node.next),
    }
}

/// The element at `index` of the chain.
pub(crate) fn spill_get<'a, T, L: LengthType>(list: &'a Option<Box<Node<T>>>, index: L) -> (r:
    &'a T)
    requires
        index.as_nat() < spill_view(*list).len(),
    ensures
        *r == spill_view(*list)[index.as_nat() as int],
    decreases *list,
{
    match list {
        None => vstd::pervasive::unreached(),
        Some(node) => {
            let len = node.items.len();
            match index.try_into_usize() {
                Some(i) => {
                    if i < len {
                        return &node.items[i];
                    }
                },
                None => {},
            }
            proof {
                index.lemma_in_range();
            }
            let Some(skip) = L::try_from_usize(len) else {
                return vstd::pervasive::unreached();
            };
            spill_get(&node.next, index.minus(skip))
        },
    }
}

/// The chain with `item` before its first element.
pub(crate) fn spill_push_front<T>(list: Option<Box<Node<T>>>, item: T) -> (r: Option<
    Box<Node<T>>,
>)
    ensures
        spill_view(r) == seq![item] + spill_view(list),
{
    match list {
        Some(mut node) => {
            if node.items.len() < usize::MAX {
                node.items.insert(0, item);
                assert(node.items@ + spill_view(node.next) =~= seq![item] + spill_view(list));
                Some(node)
            } else {
                let mut items: Vec<T> = Vec::new();
                items.push(item);
                let r = Some(Box::new(Node { items, next: Some(node) }));
                assert(spill_view(r) =~= seq![item] + spill_view(list));
                r
            }
        },
        None => {
            let mut items: Vec<T> = Vec::new();
            items.push(item);
            let r = Some(Box::new(Node { items, next: None }));
            assert(spill_view(r) =~= seq![item] + spill_view(list));
            r
        },
    }
}

/// The chain with `item` behind its last element.
pub(crate) fn spill_push_back<T>(list: Option<Box<Node<T>>>, item: T) -> (r: Option<
    Box<Node<T>>,
>)
    ensures
        spill_view(r) == spill_view(list).push(item),
    decreases list,
{
    match list {
        Some(mut node) => {
            if node.next.is_none() && node.items.len() < usize::MAX {
                node.items.push(item);
                assert(node.items@ + spill_view(node.next) =~= spill_view(list).push(item));
            } else {
                let rest = node.next.take();
                node.next = spill_push_back(rest, item);
                assert(node.items@ + spill_view(node.next) =~= spill_view(list).push(item));
            }
            Some(node)
        },
        None => {
            let mut items: Vec<T> = Vec::new();
            items.push(item);
            let r = Some(Box::new(Node { items, next: None }));
            assert(spill_view(r) =~= spill_view(list).push(item));
            r
        },
    }
}

/// The chain with the vector `chunk` behind its last element.
pub(crate) fn spill_append<T>(list: Option<Box<Node<T>>>, chunk: Vec<T>) -> (r: Option<
    Box<Node<T>>,
>)
    ensures
        spill_view(r) == spill_view(list) + chunk@,
    decreases list,
{
    match list {
        Some(mut node) => {
            let rest = node.next.take();
            node.next = spill_append(rest, chunk);
            assert(node.items@ + spill_view(node.next) =~= spill_view(list) + chunk@);
            Some(node)
        },
        None => {
            let r = Some(Box::new(Node { items: chunk, next: None }));
            assert(spill_view(r) =~= spill_view(list) + chunk@);
            r
        },
    }
}

/// The chain without its last element, and that element.
pub(crate) fn spill_pop_back<T>(list: Option<Box<Node<T>>>) -> (r: (Option<Box<Node<T>>>, T))
    requires
        spill_view(list).len() > 0,
    ensures
        spill_view(r.0) == spill_view(list).drop_last(),
        r.1 == spill_view(list).last(),
    decreases list,
{
    match list {
        Some(mut node) => {
            if spill_is_empty(&node.next) {
                let Some(item) = node.items.pop() else {
                    return vstd::pervasive::unreached();
                };
                assert(node.items@ + spill_view(node.next) =~= spill_view(list).drop_last());
                (Some(node), item)
            } else {
                let rest = node.next.take();
                let (rest, item) = spill_pop_back(rest);
                node.next = rest;
                assert(node.items@ + spill_view(node.next) =~= spill_view(list).drop_last());
                (Some(node), item)
            }
        },
        None => vstd::pervasive::unreached(),
    }
}

/// The chain without the element at `index`, and that element.
pub(crate) fn spill_remove<T, L: LengthType>(list: Option<Box<Node<T>>>, index: L) -> (r: (
    Option<Box<Node<T>>>,
    T,
))
    requires
        index.as_nat() < spill_view(list).len(),
    ensures
        spill_view(r.0) == spill_view(list).remove(index.as_nat() as int),
        r.1 == spill_view(list)[index.as_nat() as int],
    decreases list,
{
    match list {
        Some(mut node) => {
            let len = node.items.len();
            match index.try_into_usize() {
                Some(i) => {
                    if i < len {
                        let item = node.items.remove(i);
                        assert(node.items@ + spill_view(node.next) =~= spill_view(list).remove(
                            index.as_nat() as int,
                        ));
                        return (Some(node), item);
                    }
                },
                None => {},
            }
            proof {
                index.lemma_in_range();
            }
            let Some(skip) = L::try_from_usize(len) else {
                return vstd::pervasive::unreached();
            };
            let rest = node.next.take();
            let (rest, item) = spill_remove(rest, index.minus(skip));
            node.next = rest;
            assert(node.items@ + spill_view(node.next) =~= spill_view(list).remove(
                index.as_nat() as int,
            ));
            (Some(node), item)
        },
        None => vstd::pervasive::unreached(),
    }
}

/// The first `keep` elements of the chain.
pub(crate) fn spill_truncate<T, L: LengthType>(list: Option<Box<Node<T>>>, keep: L) -> (r: Option<
    Box<Node<T>>,
>)
    requires
        keep.as_nat() <= spill_view(list).len(),
    ensures
        spill_view(r) == spill_view(list).subrange(0, keep.as_nat() as int),
    decreases list,
{
    match list {
        Some(mut node) => {
            let len = node.items.len();
            match keep.try_into_usize() {
                Some(k) => {
                    if k <= len {
                        node.items.truncate(k);
                        node.next = None;
                        assert(node.items@ + spill_view(node.next) =~= spill_view(list).subrange(
                            0,
                            keep.as_nat() as int,
                        ));
                        return Some(node);
                    }
                },
                None => {},
            }
            proof {
                keep.lemma_in_range();
            }
            let Some(skip) = L::try_from_usize(len) else {
                return vstd::pervasive::unreached();
            };
            let rest = node.next.take();
            node.next = spill_truncate(rest, keep.minus(skip));
            assert(node.items@ + spill_view(node.next) =~= spill_view(list).subrange(
                0,
                keep.as_nat() as int,
            ));
            Some(node)
        },
        None => {
            assert(spill_view(list).subrange(0, keep.as_nat() as int) =~= spill_view(list));
            None
        },
    }
}

/// The element at `index` of the chain, to change it.
pub(crate) fn spill_get_mut<'a, T, L: LengthType>(
    list: &'a mut Option<Box<Node<T>>>,
    index: L,
) -> (r: &'a mut T)
    requires
        index.as_nat() < spill_view(*old(list)).len(),
    ensures
        *r == spill_view(*old(list))[index.as_nat() as int],
        spill_view(*final(list)) == spill_view(*old(list)).update(
            index.as_nat() as int,
            *final(r),
        ),
    decreases *old(list),
{
    match list {
        None => vstd::pervasive::unreached(),
        Some(node) => {
            let len = node.items.len();
            match index.try_into_usize() {
                Some(i) => {
                    if i < len {
                        return &mut node.items[i];
                    }
                },
                None => {},
            }
            proof {
                index.lemma_in_range();
            }
            let Some(skip) = L::try_from_usize(len) else {
                return vstd::pervasive::unreached();
            };
            spill_get_mut(&mut node.next, index.minus(skip))
        },
    }
}

} // verus!
