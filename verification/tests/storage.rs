use core::mem::size_of;
use core::mem::size_of_val;
use core::ptr::dangling_mut;
use core::ptr::NonNull;

use flex_array::allocator::AllocError;
use flex_array::allocator::AltAllocator;
use flex_array::allocator::Block;
use flex_array::allocator::Layout;
use flex_array::flex_array::Inner;
use flex_array::types::ErrorReason;
use flex_array::FlexArr;

struct NoAlloc;

impl AltAllocator for NoAlloc {
    fn allocate(&self, _: Layout) -> Result<Block, AllocError> {
        return Err(AllocError);
    }
    fn deallocate(&self, _: usize, _: Layout) {
        return;
    }
}

struct ExpectedSizeU32 {
    _p: NonNull<u8>,
    _a: u32,
    _b: u32,
}

struct ExpectedSizeU16 {
    _p: NonNull<u8>,
    _a: u16,
    _b: u16,
}

struct ExpectedSizeU8 {
    _p: NonNull<u8>,
    _a: u8,
    _b: u8,
}

#[test]
fn inner_new() {
    // Check for index type `u32`(default) and for the type `u32`
    let inner = Inner::<u32, NoAlloc>::new_in(NoAlloc);
    assert_eq!(inner.capacity(size_of::<u32>()), 0);
    assert_eq!(inner.length, 0);
    assert_eq!(size_of_val(&inner), size_of::<ExpectedSizeU32>());
    assert_eq!(inner.get_ptr(), dangling_mut::<u32>() as usize);

    // Check for index type u16 and for the type `u64`
    let inner = Inner::<u64, NoAlloc, u16>::new_in(NoAlloc);
    assert_eq!(inner.capacity(size_of::<u64>()), 0);
    assert_eq!(inner.length, 0);
    assert_eq!(size_of_val(&inner), size_of::<ExpectedSizeU16>());
    assert_eq!(inner.get_ptr(), dangling_mut::<u64>() as usize);

    // Check for index type u8 and for the type `()`
    let inner = Inner::<(), NoAlloc, u8>::new_in(NoAlloc);
    assert_eq!(inner.capacity(size_of::<()>()), u8::MAX);
    assert_eq!(inner.length, 0);
    assert_eq!(size_of_val(&inner), size_of::<ExpectedSizeU8>());
    assert_eq!(inner.get_ptr(), dangling_mut::<()>() as usize);
}

#[test]
fn array_new() {
    // u32 length and u32 type
    let arr = FlexArr::<u32, NoAlloc>::new_in(NoAlloc);
    assert_eq!(arr.len(), 0);
    assert_eq!(arr.capacity(), 0);
    assert_eq!(size_of_val(&arr), size_of::<ExpectedSizeU32>());

    // u16 length and u64 type
    let arr = FlexArr::<u64, NoAlloc, u16>::new_in(NoAlloc);
    assert_eq!(arr.len(), 0);
    assert_eq!(arr.capacity(), 0);
    assert_eq!(size_of_val(&arr), size_of::<ExpectedSizeU16>());

    // u8 length and `()`type
    let arr = FlexArr::<(), NoAlloc, u8>::new_in(NoAlloc);
    assert_eq!(arr.len(), 0);
    assert_eq!(arr.capacity(), u8::MAX);
    assert_eq!(size_of_val(&arr), size_of::<ExpectedSizeU8>());
}

#[test]
fn push_fail() {
    let mut arr = FlexArr::<u32, NoAlloc>::new_in(NoAlloc);
    assert_eq!(arr.len(), 0);
    assert_eq!(arr.capacity(), 0);

    // This should fail
    let ret = arr.push(0);
    assert!(ret.is_err());
    if let Err(e) = ret {
        assert_eq!(e.reason(), ErrorReason::AllocFailure)
    }

    let mut arr = FlexArr::<(), NoAlloc, u8>::new_in(NoAlloc);
    assert_eq!(arr.len(), 0);
    assert_eq!(arr.capacity(), u8::MAX);

    // I should be able to push this ZST 255 times.
    for _ in 0..u8::MAX {
        assert!(arr.push(()).is_ok());
    }
    assert_eq!(arr.len(), u8::MAX);

    // This should fail
    let ret = arr.push(());
    assert!(ret.is_err());

    if let Err(e) = ret {
        assert_eq!(e.reason(), ErrorReason::CapacityOverflow)
    }
}

#[test]
fn reserve_fail() {
    let mut arr = FlexArr::<u32, NoAlloc, u8>::new_in(NoAlloc);
    assert!(arr.reserve(0).is_ok());

    let err = arr.reserve(1);
    assert!(err.is_err());
    if let Err(e) = err {
        assert_eq!(e.reason(), ErrorReason::AllocFailure);
    }

    let err = arr.reserve_exact(1);
    assert!(err.is_err());
    if let Err(e) = err {
        assert_eq!(e.reason(), ErrorReason::AllocFailure);
    }

    let err = arr.reserve_usize(1);
    assert!(err.is_err());
    if let Err(e) = err {
        assert_eq!(e.reason(), ErrorReason::AllocFailure);
    }

    let err = arr.reserve_usize(256);
    assert!(err.is_err());
    if let Err(e) = err {
        assert_eq!(e.reason(), ErrorReason::CapacityOverflow);
    }

    let mut arr = FlexArr::<(), NoAlloc, u8>::new_in(NoAlloc);
    assert!(arr.push(()).is_ok());

    let err = arr.reserve(255);
    assert!(err.is_err());
    if let Err(e) = err {
        assert_eq!(e.reason(), ErrorReason::CapacityOverflow);
    }

    let err = arr.reserve_exact(255);
    assert!(err.is_err());
    if let Err(e) = err {
        assert_eq!(e.reason(), ErrorReason::CapacityOverflow);
    }
}

#[test]
fn extend_from_slice_fail() {
    let mut arr = FlexArr::<u32, NoAlloc>::new_in(NoAlloc);
    let err = arr.extend_from_slice(&[0u32]);
    assert!(err.is_err());
    if let Err(e) = err {
        assert_eq!(e.reason(), ErrorReason::AllocFailure);
    }
    let mut arr = FlexArr::<(), NoAlloc, u8>::new_in(NoAlloc);

    let data = [(); 255];
    assert!(arr.extend_from_slice(&data).is_ok());

    let err = arr.extend_from_slice(&data);
    assert!(err.is_err());
    if let Err(e) = err {
        assert_eq!(e.reason(), ErrorReason::CapacityOverflow);
    }
}
