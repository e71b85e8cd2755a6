use flex_array::allocator::Global;
use flex_array::flex_array::Buffer;
use flex_array::types::ErrorReason;
use flex_array::FlexArr;

fn filled(values: &[u32]) -> FlexArr<u32, Global, u16> {
    let mut arr = FlexArr::<u32, Global, u16>::new();
    arr.extend_from_slice(values).unwrap();
    arr
}

#[test]
fn bytes_come_back_in_order() {
    let mut arr = FlexArr::<u8>::new();
    arr.push(0xC).unwrap();
    arr.push(0xA).unwrap();
    arr.push(0xF).unwrap();
    arr.push(0xE).unwrap();
    assert_eq!(arr.pop(), Some(0xE));
    assert_eq!(arr[0], 0xC);
    assert_eq!(arr[1], 0xA);
    assert_eq!(arr[2], 0xF);
    assert_eq!(arr.len(), 3);
}

#[test]
fn remove_keeps_the_order_of_the_others() {
    let mut arr = FlexArr::<String>::new();
    arr.push("Hello".to_string()).unwrap();
    arr.push("There".to_string()).unwrap();
    arr.push("Beautiful".to_string()).unwrap();
    assert_eq!(arr.remove(1).unwrap(), "There");
    assert_eq!(arr.as_slice(), &["Hello".to_string(), "Beautiful".to_string()]);

    let mut arr = filled(&[1, 2, 3, 4, 5]);
    let cap = arr.capacity();
    assert_eq!(arr.remove(1), Some(2));
    assert_eq!(arr.as_slice(), &[1, 3, 4, 5]);
    assert_eq!(arr.remove(0), Some(1));
    assert_eq!(arr.as_slice(), &[3, 4, 5]);
    assert_eq!(arr.remove(2), Some(5));
    assert_eq!(arr.as_slice(), &[3, 4]);
    assert_eq!(arr.remove(2), None);
    assert_eq!(arr.as_slice(), &[3, 4]);
    assert_eq!(arr.len(), 2);
    assert_eq!(arr.capacity(), cap);
}

#[test]
fn swap_remove_moves_the_last_element() {
    let mut arr = FlexArr::<String>::new();
    arr.push("Hello".to_string()).unwrap();
    arr.push("There".to_string()).unwrap();
    arr.push("Beautiful".to_string()).unwrap();
    assert_eq!(arr.swap_remove(0).unwrap(), "Hello");
    assert_eq!(arr.as_slice(), &["Beautiful".to_string(), "There".to_string()]);

    let mut arr = filled(&[1, 2, 3, 4, 5]);
    assert_eq!(arr.swap_remove(1), Some(2));
    assert_eq!(arr.as_slice(), &[1, 5, 3, 4]);
    assert_eq!(arr.swap_remove(3), Some(4));
    assert_eq!(arr.as_slice(), &[1, 5, 3]);
    assert_eq!(arr.swap_remove(3), None);
    assert_eq!(arr.len(), 3);
}

#[test]
fn parts_put_together_again_are_the_same_array() {
    let mut arr = filled(&[9, 8, 7]);
    arr.reserve_exact(7).unwrap();
    let len = arr.len();
    let cap = arr.capacity();
    let ptr = arr.as_ptr();

    let (buf, l, c, alloc) = arr.into_parts();
    assert_eq!(l, len);
    assert_eq!(c, cap);
    assert_eq!(c, 10);
    assert_eq!(buf.addr(), ptr);
    assert_eq!(buf.len(), 3);
    assert_eq!(buf.as_slice(), &[9, 8, 7]);

    let mut arr = FlexArr::<u32, Global, u16>::from_parts(buf, l, c, alloc);
    assert_eq!(arr.len(), len);
    assert_eq!(arr.capacity(), cap);
    assert_eq!(arr.as_ptr(), ptr);
    assert_eq!(arr.as_slice(), &[9, 8, 7]);
    arr.push(6).unwrap();
    assert_eq!(arr.as_slice(), &[9, 8, 7, 6]);
    assert_eq!(arr.capacity(), cap);

    // Elements that take no room report the largest capacity on both sides.
    let mut arr = FlexArr::<(), Global, u8>::new();
    arr.push(()).unwrap();
    let (buf, l, c, alloc) = arr.into_parts();
    assert_eq!((l, c), (1, u8::MAX));
    let arr = FlexArr::<(), Global, u8>::from_parts(buf, l, c, alloc);
    assert_eq!(arr.len(), 1);
    assert_eq!(arr.capacity(), u8::MAX);
}

#[test]
fn an_empty_buffer_takes_the_dangling_address() {
    let buf = Buffer::<u64>::new();
    assert_eq!(buf.addr(), core::mem::align_of::<u64>());
    assert_eq!(buf.len(), 0);
    assert_eq!(buf.room(), 0);
    assert!(buf.as_slice().is_empty());
}

#[test]
fn insert_checks_the_index_first() {
    let mut arr = FlexArr::<u8, Global, u128>::new();
    let too_wide = usize::MAX as u128 + 1;
    let err = arr.insert(too_wide, 1).unwrap_err();
    assert_eq!(err.reason(), ErrorReason::UsizeOverflow);
    let err = arr.insert(1, 1).unwrap_err();
    assert_eq!(err.reason(), ErrorReason::IndexOutOfBounds);
    assert_eq!(arr.capacity(), 0);

    arr.insert(0, 3).unwrap();
    arr.insert(0, 1).unwrap();
    arr.insert(1, 2).unwrap();
    arr.insert(3, 4).unwrap();
    assert_eq!(arr.as_slice(), &[1, 2, 3, 4]);
    assert_eq!(arr.len(), 4);
    assert_eq!(arr.capacity(), 8);
    assert_eq!(arr.get(too_wide), None);
    assert_eq!(arr.remove(too_wide), None);
    assert_eq!(arr.swap_remove(too_wide), None);
}

#[test]
fn insert_past_a_full_length_type_overflows() {
    let mut arr = FlexArr::<u8, Global, u8>::new();
    arr.extend_from_slice(&[7u8; 255]).unwrap();
    assert_eq!(arr.capacity(), 255);
    let err = arr.insert(3, 1).unwrap_err();
    assert_eq!(err.reason(), ErrorReason::CapacityOverflow);
    let err = arr.push(1).unwrap_err();
    assert_eq!(err.reason(), ErrorReason::CapacityOverflow);
    let err = arr.extend_from_slice(&[1]).unwrap_err();
    assert_eq!(err.reason(), ErrorReason::CapacityOverflow);
    assert_eq!(arr.len(), 255);
}

#[test]
fn get_and_change_single_elements() {
    let mut arr = filled(&[10, 20, 30]);
    assert_eq!(arr.get(0), Some(&10));
    assert_eq!(arr.get(3), None);
    assert_eq!(*arr.get_unchecked(2), 30);
    *arr.get_mut(1).unwrap() = 21;
    *arr.get_mut_unchecked(2) = 31;
    assert!(arr.get_mut(3).is_none());
    arr[0] = 11;
    assert_eq!(arr.as_slice(), &[11, 21, 31]);
    arr.as_mut_slice().reverse();
    assert_eq!(arr.as_slice(), &[31, 21, 11]);
    assert_eq!(arr.as_mut_ptr(), arr.as_ptr());
}

#[test]
fn truncate_and_clear_keep_the_capacity() {
    let mut arr = filled(&[1, 2, 3, 4]);
    let cap = arr.capacity();
    let ptr = arr.as_ptr();
    arr.truncate(4);
    assert_eq!(arr.as_slice(), &[1, 2, 3, 4]);
    arr.truncate(9);
    assert_eq!(arr.as_slice(), &[1, 2, 3, 4]);
    arr.truncate(2);
    assert_eq!(arr.as_slice(), &[1, 2]);
    arr.truncate(0);
    assert!(arr.is_empty());
    arr.push(5).unwrap();
    arr.clear();
    assert!(arr.is_empty());
    assert_eq!(arr.pop(), None);
    assert_eq!(arr.capacity(), cap);
    assert_eq!(arr.as_ptr(), ptr);
}

#[test]
fn extend_appends_in_order() {
    let mut arr = filled(&[1, 2]);
    arr.extend_from_slice(&[]).unwrap();
    arr.extend_from_slice(&[3, 4, 5]).unwrap();
    assert_eq!(arr.as_slice(), &[1, 2, 3, 4, 5]);
    assert_eq!(arr.len(), 5);
    assert_eq!(arr.capacity(), 8);
    arr.extend_from_slice(&[6; 10]).unwrap();
    assert_eq!(arr.len(), 15);
    assert_eq!(arr.capacity(), 15);
    assert_eq!(&arr.as_slice()[..6], &[1, 2, 3, 4, 5, 6]);
}

#[test]
fn with_capacity_asks_at_once() {
    let arr = FlexArr::<u32, Global, u16>::with_capacity(12).unwrap();
    assert_eq!(arr.capacity(), 12);
    assert_eq!(arr.len(), 0);
    // The heap has no block of no bytes.
    let err = FlexArr::<u32, Global, u16>::with_capacity(0).unwrap_err();
    assert_eq!(err.reason(), ErrorReason::AllocFailure);
    // Nothing is asked for elements that take no room.
    let arr = FlexArr::<(), Global, u16>::with_capacity(0).unwrap();
    assert_eq!(arr.capacity(), u16::MAX);
}

#[test]
fn the_length_stays_within_the_capacity() {
    let mut arr = FlexArr::<u32, Global, u8>::new();
    let within = |arr: &FlexArr<u32, Global, u8>| {
        assert!(arr.len() <= arr.capacity());
        assert_eq!(arr.as_slice().len(), arr.len() as usize);
    };
    within(&arr);
    for i in 0..40 {
        arr.push(i).unwrap();
        within(&arr);
    }
    arr.insert(7, 99).unwrap();
    within(&arr);
    arr.extend_from_slice(&[5; 30]).unwrap();
    within(&arr);
    arr.remove(0);
    within(&arr);
    arr.swap_remove(3);
    within(&arr);
    arr.truncate(10);
    within(&arr);
    arr.reserve(100).unwrap();
    within(&arr);
    arr.pop();
    within(&arr);
    arr.clear();
    within(&arr);
    assert_eq!(arr.len(), 0);
    assert!(arr.capacity() >= 109);
}

#[test]
fn more_unit_elements_than_a_usize_counts() {
    let most = usize::MAX as u128;
    let data = [(); usize::MAX];
    let mut arr = FlexArr::<(), Global, u128>::new();
    arr.extend_from_slice(&data).unwrap();
    arr.extend_from_slice(&[(); 3]).unwrap();
    assert_eq!(arr.len(), most + 3);
    assert_eq!(arr.capacity(), u128::MAX);
    assert_eq!(arr.as_slice().len(), usize::MAX);
    assert_eq!(arr.as_ptr(), core::mem::align_of::<()>());

    assert_eq!(arr.get(most + 2), Some(&()));
    assert_eq!(arr.get(most + 3), None);
    assert!(arr.get_mut(most + 2).is_some());
    assert!(arr.get_mut(most + 3).is_none());
    assert_eq!(*arr.get_unchecked(most), ());

    // Out of the first vector and out of those behind it.
    assert_eq!(arr.remove(5), Some(()));
    assert_eq!(arr.len(), most + 2);
    assert_eq!(arr.as_slice().len(), usize::MAX);
    assert_eq!(arr.remove(most + 1), Some(()));
    assert_eq!(arr.remove(most + 1), None);
    assert_eq!(arr.swap_remove(0), Some(()));
    assert_eq!(arr.len(), most);
    assert_eq!(arr.swap_remove(most), None);

    // Into the full first vector, at its end, and past what a `usize` holds.
    arr.insert(7, ()).unwrap();
    arr.insert(most, ()).unwrap();
    arr.push(()).unwrap();
    assert_eq!(arr.len(), most + 3);
    let err = arr.insert(most + 1, ()).unwrap_err();
    assert_eq!(err.reason(), ErrorReason::UsizeOverflow);

    arr.extend_from_slice(&data).unwrap();
    assert_eq!(arr.len(), 2 * most + 3);
    assert_eq!(arr.pop(), Some(()));
    assert_eq!(arr.remove(most + 9), Some(()));
    assert_eq!(arr.len(), 2 * most + 1);

    let (buf, len, cap, alloc) = arr.into_parts();
    assert_eq!((len, cap), (2 * most + 1, u128::MAX));
    assert_eq!(buf.len(), usize::MAX);
    assert_eq!(*buf.get(2 * most), ());
    let mut arr = FlexArr::<(), Global, u128>::from_parts(buf, len, cap, alloc);
    assert_eq!(arr.len(), 2 * most + 1);

    arr.truncate(most + 1);
    assert_eq!(arr.len(), most + 1);
    arr.truncate(most + 2);
    assert_eq!(arr.len(), most + 1);
    arr.truncate(9);
    assert_eq!(arr.len(), 9);
    assert_eq!(arr.as_slice().len(), 9);
    arr.extend_from_slice(&data).unwrap();
    arr.clear();
    assert!(arr.is_empty());
    assert_eq!(arr.capacity(), u128::MAX);
}

#[test]
fn a_narrow_length_type_stops_unit_elements() {
    let mut arr = FlexArr::<(), Global, u16>::new();
    arr.extend_from_slice(&[(); 65535]).unwrap();
    assert_eq!(arr.len(), u16::MAX);
    let err = arr.push(()).unwrap_err();
    assert_eq!(err.reason(), ErrorReason::CapacityOverflow);
    let err = arr.insert(0, ()).unwrap_err();
    assert_eq!(err.reason(), ErrorReason::CapacityOverflow);
    let err = arr.extend_from_slice(&[()]).unwrap_err();
    assert_eq!(err.reason(), ErrorReason::CapacityOverflow);
    assert_eq!(arr.len(), u16::MAX);
}
