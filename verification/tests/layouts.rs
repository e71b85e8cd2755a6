use flex_array::allocator::is_power_of_two;
use flex_array::allocator::zeroed_growth;
use flex_array::allocator::AllocError;
use flex_array::allocator::AltAllocator;
use flex_array::allocator::Block;
use flex_array::allocator::Global;
use flex_array::allocator::Layout;
use flex_array::allocator::ZeroedGrowth;
use flex_array::flex_array::layout_array;
use flex_array::types::ErrorReason;
use flex_array::types::FlexArrErr;
use flex_array::types::LengthType;

#[test]
fn powers_of_two() {
    assert!(!is_power_of_two(0));
    assert!(is_power_of_two(1));
    assert!(is_power_of_two(2));
    assert!(!is_power_of_two(3));
    assert!(is_power_of_two(4096));
    assert!(!is_power_of_two(4097));
    assert!(!is_power_of_two(12));
    assert!(is_power_of_two(1 << (usize::BITS - 1)));
    assert!(!is_power_of_two(usize::MAX));
}

#[test]
fn layouts_are_checked() {
    let l = Layout::from_size_align(10, 4).unwrap();
    assert_eq!((l.size(), l.align()), (10, 4));
    assert!(Layout::from_size_align(10, 0).is_none());
    assert!(Layout::from_size_align(10, 3).is_none());
    assert!(Layout::from_size_align(0, 1).is_some());

    let most = isize::MAX as usize;
    assert!(Layout::from_size_align(most, 1).is_some());
    assert!(Layout::from_size_align(most + 1, 1).is_none());
    assert!(Layout::from_size_align(most - 7, 8).is_some());
    assert!(Layout::from_size_align(most - 6, 8).is_none());

    assert!(l.with_size(most - 3).is_some());
    assert!(l.with_size(most - 2).is_none());
    assert_eq!(l.with_size(44).unwrap(), Layout::from_size_align(44, 4).unwrap());
}

#[test]
fn layouts_of_types() {
    let l = Layout::new::<u64>();
    assert_eq!((l.size(), l.align()), (8, core::mem::align_of::<u64>()));
    let l = Layout::new::<[u8; 3]>();
    assert_eq!((l.size(), l.align()), (3, 1));
    let l = Layout::new::<()>();
    assert_eq!((l.size(), l.align()), (0, 1));
}

#[test]
fn padding_rounds_up() {
    let padded = Layout::from_size_align(5, 4).unwrap().pad_to_align();
    assert_eq!((padded.size(), padded.align()), (8, 4));
    let padded = Layout::from_size_align(8, 4).unwrap().pad_to_align();
    assert_eq!(padded.size(), 8);
    let padded = Layout::from_size_align(0, 16).unwrap().pad_to_align();
    assert_eq!(padded.size(), 0);
    let padded = Layout::from_size_align(17, 16).unwrap().pad_to_align();
    assert_eq!(padded.size(), 32);
    let most = isize::MAX as usize;
    let padded = Layout::from_size_align(most - 8, 8).unwrap().pad_to_align();
    assert_eq!(padded.size(), most - 7);
}

#[test]
fn arrays_of_layouts() {
    let elem = Layout::from_size_align(6, 4).unwrap();
    let arr = layout_array(elem, 5).unwrap();
    assert_eq!((arr.size(), arr.align()), (40, 4));
    let arr = layout_array(elem, 0).unwrap();
    assert_eq!((arr.size(), arr.align()), (0, 4));

    let err = layout_array(elem, usize::MAX / 8 + 1).unwrap_err();
    assert_eq!(err.reason(), ErrorReason::UsizeOverflow);
    let err = layout_array(elem, (isize::MAX as usize) / 8 + 1).unwrap_err();
    assert_eq!(err.reason(), ErrorReason::LayoutFailure);
    let most = layout_array(Layout::new::<u8>(), isize::MAX as usize).unwrap();
    assert_eq!(most.size(), isize::MAX as usize);
}

#[test]
fn the_global_source() {
    let l = Layout::from_size_align(24, 8).unwrap();
    let empty = Layout::from_size_align(0, 8).unwrap();
    let more = Layout::from_size_align(48, 8).unwrap();

    let block = Global.allocate(l).unwrap();
    assert_eq!((block.addr(), block.size()), (8, 24));
    assert_eq!(Global.allocate_zeroed(l).unwrap(), Block::new(8, 24));
    assert_eq!(Global.allocate(empty), Err(AllocError));
    assert_eq!(Global.allocate_zeroed(empty), Err(AllocError));

    assert_eq!(Global.grow(0x80, l, more).unwrap(), Block::new(0x80, 48));
    assert_eq!(Global.grow(0x80, empty, empty), Err(AllocError));
    assert_eq!(Global.shrink(0x80, more, l).unwrap(), Block::new(0x80, 24));
    assert_eq!(Global.shrink(0x80, more, empty), Err(AllocError));

    // Without old bytes the block is a new one.
    assert_eq!(Global.grow_zeroed(0x80, empty, l).unwrap(), Block::new(8, 24));
    assert_eq!(Global.grow_zeroed(0x80, empty, empty), Err(AllocError));
    // With nothing to add the block stays.
    assert_eq!(Global.grow_zeroed(0x80, l, l).unwrap(), Block::new(0x80, 24));
    assert_eq!(Global.grow_zeroed(0x80, l, more).unwrap(), Block::new(0x80, 48));
    Global.deallocate(0x80, more);
}

#[test]
fn how_a_heap_grows_with_zeroes() {
    assert_eq!(zeroed_growth(0, 0), ZeroedGrowth::Fresh);
    assert_eq!(zeroed_growth(0, 16), ZeroedGrowth::Fresh);
    assert_eq!(zeroed_growth(16, 16), ZeroedGrowth::Stays);
    assert_eq!(zeroed_growth(16, 8), ZeroedGrowth::Stays);
    assert_eq!(zeroed_growth(16, 17), ZeroedGrowth::Exchange);
}

#[test]
fn what_the_errors_say() {
    let said = |reason: ErrorReason| FlexArrErr::new(reason).message();
    assert_eq!(said(ErrorReason::CapacityOverflow), "Capacity type overflowed.");
    assert_eq!(said(ErrorReason::UsizeOverflow), "usize overflowed.");
    assert_eq!(said(ErrorReason::LayoutFailure), "Failed to create layout.");
    assert_eq!(said(ErrorReason::AllocFailure), "An allocation failure occurred.");
    assert_eq!(said(ErrorReason::IndexOutOfBounds), "A given index is out of bounds.");
    assert_eq!(AllocError.message(), "A memory allocation error occurred.");
    assert_eq!(FlexArrErr::new(ErrorReason::AllocFailure).reason(), ErrorReason::AllocFailure);
    assert_eq!(
        FlexArrErr::new(ErrorReason::AllocFailure),
        FlexArrErr::new(ErrorReason::AllocFailure)
    );
    assert_ne!(
        FlexArrErr::new(ErrorReason::AllocFailure),
        FlexArrErr::new(ErrorReason::LayoutFailure)
    );
}

#[test]
fn length_types_count_as_integers() {
    assert_eq!(<u8 as LengthType>::MIN_VALUE, 0);
    assert_eq!(<u8 as LengthType>::MAX_VALUE, 255);
    assert_eq!(<u16 as LengthType>::ONE_VALUE, 1);
    assert_eq!(<u32 as LengthType>::ZERO_VALUE, 0);
    assert_eq!(<u64 as LengthType>::MAX_VALUE, u64::MAX);
    assert_eq!(<u128 as LengthType>::MAX_VALUE, u128::MAX);
    assert_eq!(<usize as LengthType>::MAX_VALUE, usize::MAX);

    assert_eq!(LengthType::checked_add(200u8, 55u8), Some(255));
    assert_eq!(LengthType::checked_add(200u8, 56u8), None);
    assert_eq!(LengthType::checked_sub(5u16, 5u16), Some(0));
    assert_eq!(LengthType::checked_sub(5u16, 6u16), None);
    assert_eq!(LengthType::wrapping_add(200u8, 100u8), 44);
    assert_eq!(LengthType::wrapping_add(u8::MAX, u8::MAX), 254);
    assert_eq!(LengthType::wrapping_add(u32::MAX, 1u32), 0);
    assert_eq!(LengthType::wrapping_add(u128::MAX, u128::MAX), u128::MAX - 1);
    assert_eq!(LengthType::wrapping_add(usize::MAX, 2usize), 1);
    assert_eq!(LengthType::wrapping_add(7u64, 8u64), 15);
    assert_eq!(LengthType::minus(9u64, 4u64), 5);
    assert_eq!(LengthType::half(9u32), 4);
    assert_eq!(LengthType::half(u128::MAX), u128::MAX / 2);
    assert!(LengthType::at_most(3u8, 3u8));
    assert!(!LengthType::at_most(4u8, 3u8));

    assert_eq!(<u16 as LengthType>::from_u8(8), 8u16);
    assert_eq!(<u128 as LengthType>::from_u8(255), 255u128);
    assert_eq!(<u8 as LengthType>::try_from_usize(255), Some(255));
    assert_eq!(<u8 as LengthType>::try_from_usize(256), None);
    assert_eq!(<u16 as LengthType>::try_from_usize(65536), None);
    assert_eq!(<u128 as LengthType>::try_from_usize(usize::MAX), Some(usize::MAX as u128));
    assert_eq!(LengthType::try_into_usize(77u8), Some(77));
    assert_eq!(LengthType::try_into_usize(usize::MAX as u128), Some(usize::MAX));
    assert_eq!(LengthType::try_into_usize(usize::MAX as u128 + 1), None);
    assert_eq!(LengthType::as_usize(77u32), 77);
}
