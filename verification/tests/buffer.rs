use pkbuffer::{Buffer, Castable, Error, PtrBuffer, VecBuffer};

fn sample() -> Vec<u8> {
    vec![0xF0, 0x0D, 0xBE, 0xEF, 0x1D, 0xEA, 0xDE, 0xAD]
}

#[test]
fn offset_and_pointer_round_trip() {
    let mut data = sample();
    let buffer = PtrBuffer::new(0x1000, &mut data);
    for offset in 0..buffer.len() {
        let pointer = buffer.offset_to_ptr(offset).unwrap();
        assert_eq!(pointer, 0x1000 + offset);
        assert_eq!(buffer.ptr_to_offset(pointer), Ok(offset));
    }
}

#[test]
fn offset_to_ptr_refuses_the_end() {
    let mut data = sample();
    let mut buffer = PtrBuffer::new(0x1000, &mut data);
    assert_eq!(buffer.offset_to_ptr(8), Err(Error::OutOfBounds(8, 8)));
    assert_eq!(buffer.offset_to_ptr(9), Err(Error::OutOfBounds(8, 9)));
    assert_eq!(buffer.offset_to_mut_ptr(7), Ok(0x1007));
    assert_eq!(buffer.offset_to_mut_ptr(8), Err(Error::OutOfBounds(8, 8)));
    assert_eq!(buffer.as_mut_ptr(), 0x1000);
    assert_eq!(buffer.as_mut_ptr_range(), (0x1000, 0x1008));
}

#[test]
fn ptr_to_offset_refuses_foreign_addresses() {
    let mut data = sample();
    let buffer = PtrBuffer::new(0x1000, &mut data);
    assert_eq!(buffer.ptr_to_offset(0x0FFF), Err(Error::InvalidPointer(0x0FFF)));
    assert_eq!(buffer.ptr_to_offset(0x1008), Err(Error::InvalidPointer(0x1008)));
    assert_eq!(buffer.ptr_to_offset(0x1007), Ok(7));
    assert!(buffer.validate_ptr(0x1000));
    assert!(!buffer.validate_ptr(0x1008));
}

#[test]
fn addresses_go_round_at_the_top() {
    let mut data = sample();
    let buffer = PtrBuffer::new(usize::MAX - 3, &mut data);
    assert_eq!(buffer.offset_to_ptr(3), Ok(usize::MAX));
    assert_eq!(buffer.offset_to_ptr(4), Ok(0));
    assert_eq!(buffer.ptr_to_offset(0), Ok(4));
    assert_eq!(buffer.ptr_to_offset(3), Ok(7));
    assert_eq!(buffer.ptr_to_offset(4), Err(Error::InvalidPointer(4)));
    assert_eq!(buffer.eob(), 4);
    assert_eq!(buffer.as_ptr_range(), (usize::MAX - 3, 4));
}

#[test]
fn end_of_buffer_and_range() {
    let mut data = sample();
    let buffer = PtrBuffer::new(0x2000, &mut data);
    assert_eq!(buffer.eob(), 0x2008);
    assert_eq!(buffer.as_ptr_range(), (0x2000, 0x2008));
    assert!(!buffer.is_empty());
    assert!(VecBuffer::new().is_empty());
}

#[test]
fn references_into_the_buffer_have_offsets() {
    let buffer = VecBuffer::from_data(&sample());
    let bytes = buffer.as_slice();
    assert_eq!(buffer.ref_to_offset(&bytes[3]), Ok(3));
    assert_eq!(buffer.slice_ref_to_offset(&bytes[5..7]), Ok(5));
    let elsewhere = 7u8;
    assert!(matches!(buffer.ref_to_offset(&elsewhere), Err(Error::InvalidPointer(_))));
    let other = vec![1u16, 2];
    assert!(matches!(buffer.slice_ref_to_offset(&other), Err(Error::InvalidPointer(_))));
}

#[test]
fn the_address_of_an_owned_buffer_is_that_of_its_bytes() {
    let buffer = VecBuffer::from_data(&sample());
    assert_eq!(buffer.as_ptr(), buffer.as_slice().as_ptr() as usize);
    let mut grown = VecBuffer::new();
    for round in 0..1000 {
        grown.push(round as u8);
        assert_eq!(grown.as_ptr(), grown.as_slice().as_ptr() as usize);
    }
}

#[test]
fn read_fails_exactly_past_the_end() {
    let buffer = VecBuffer::from_data(&sample());
    for offset in 0..10usize {
        for size in 0..10usize {
            let result = buffer.read(offset, size);
            if offset == 8 && size == 0 {
                assert_eq!(result, Err(Error::OutOfBounds(8, 8)));
            } else if offset + size > 8 {
                let reported = if offset >= 8 { offset } else { offset + size };
                assert_eq!(result, Err(Error::OutOfBounds(8, reported)));
            } else {
                assert_eq!(result.unwrap(), &sample()[offset..offset + size]);
            }
        }
    }
}

#[test]
fn read_does_not_wrap() {
    let buffer = VecBuffer::from_data(&sample());
    assert_eq!(buffer.read(1, usize::MAX), Err(Error::OutOfBounds(8, usize::MAX)));
    assert_eq!(buffer.read(usize::MAX, 2), Err(Error::OutOfBounds(8, usize::MAX)));
    assert_eq!(
        buffer.get_slice_ref_unaligned::<u64>(1, usize::MAX),
        Err(Error::OutOfBounds(8, usize::MAX))
    );
}

#[test]
fn empty_buffer_refuses_every_read() {
    let buffer = VecBuffer::new();
    assert_eq!(buffer.read(0, 0), Err(Error::OutOfBounds(0, 0)));
    assert_eq!(buffer.get_ref::<u8>(0), Err(Error::OutOfBounds(0, 0)));
    assert_eq!(buffer.get_ref::<()>(0), Err(Error::OutOfBounds(0, 0)));
    assert_eq!(buffer.get(0), None);
}

#[test]
fn little_endian_u32_at_offset_zero() {
    let mut data = vec![0xF0, 0x0D, 0xBE, 0xEF];
    let buffer = PtrBuffer::new(0x1000, &mut data);
    assert_eq!(buffer.get_ref::<u32>(0), Ok(0xEFBE0DF0));
}

#[test]
fn typed_read_checks_bounds_then_alignment() {
    let mut data = sample();
    let buffer = PtrBuffer::new(0x1000, &mut data);
    let align = u32::align();
    assert_eq!(buffer.get_ref::<u32>(4), Ok(0xADDEEA1D));
    assert_eq!(buffer.get_ref::<u32>(5), Err(Error::OutOfBounds(8, 9)));
    assert_eq!(buffer.get_ref::<u32>(8), Err(Error::OutOfBounds(8, 8)));
    if align > 1 {
        assert_eq!(buffer.get_ref::<u32>(1), Err(Error::BadAlignment(align, 0x1001 % align)));
        assert_eq!(buffer.get_ref::<u32>(3), Err(Error::BadAlignment(align, 0x1003 % align)));
    }
    assert_eq!(buffer.get_ref_unaligned::<u32>(1), Ok(0x1DEFBE0D));
    assert_eq!(buffer.get_ref_unaligned::<u32>(5), Err(Error::OutOfBounds(8, 9)));
    assert_eq!(buffer.force_get_ref::<u32>(1), Ok(0x1DEFBE0D));
    assert_eq!(buffer.force_get_ref::<u32>(4), Ok(0xADDEEA1D));
    assert_eq!(buffer.force_get_ref::<u32>(5), Err(Error::OutOfBounds(8, 9)));
}

#[test]
fn packed_record_is_refused_past_the_end_and_never_for_alignment() {
    let mut data = sample();
    let buffer = PtrBuffer::new(0x1001, &mut data);
    assert_eq!(buffer.get_ref::<(u8, u16, u32)>(1), Ok((0x0D, 0xEFBE, 0xADDEEA1D)));
    assert_eq!(buffer.get_ref::<(u8, u16, u32)>(2), Err(Error::OutOfBounds(8, 9)));
}

#[test]
fn typed_slice_read() {
    let mut data = vec![0xF0, 0x0D, 0xBE, 0xEF, 0x1D, 0xEA, 0xDE, 0xAD];
    let buffer = PtrBuffer::new(0x1000, &mut data);
    let align = u16::align();
    assert_eq!(buffer.get_slice_ref::<u16>(0, 4), Ok(vec![0x0DF0, 0xEFBE, 0xEA1D, 0xADDE]));
    assert_eq!(buffer.get_slice_ref::<u16>(2, 0), Ok(vec![]));
    assert_eq!(buffer.get_slice_ref::<u16>(2, 4), Err(Error::OutOfBounds(8, 10)));
    assert_eq!(buffer.get_slice_ref::<u16>(8, 0), Err(Error::OutOfBounds(8, 8)));
    if align > 1 {
        assert_eq!(buffer.get_slice_ref::<u16>(1, 2), Err(Error::BadAlignment(align, 1)));
    }
    assert_eq!(buffer.get_slice_ref_unaligned::<u16>(1, 2), Ok(vec![0xBE0D, 0x1DEF]));
    assert_eq!(buffer.force_get_slice_ref::<u16>(1, 2), Ok(vec![0xBE0D, 0x1DEF]));
    assert_eq!(buffer.force_get_slice_ref::<u16>(1, 4), Err(Error::OutOfBounds(8, 9)));
}

#[test]
fn zero_sized_items_are_refused_in_slices() {
    let mut buffer = VecBuffer::from_data(&sample());
    assert_eq!(buffer.get_slice_ref::<()>(0, 3), Err(Error::ZeroSizedType));
    assert_eq!(buffer.get_slice_ref_unaligned::<()>(0, 3), Err(Error::ZeroSizedType));
    assert_eq!(buffer.force_get_slice_ref::<[u8; 0]>(0, 3), Err(Error::ZeroSizedType));
    assert!(matches!(buffer.get_mut_slice_ref::<()>(0, 1), Err(Error::ZeroSizedType)));
    assert!(matches!(buffer.get_mut_slice_ref_unaligned::<()>(0, 1), Err(Error::ZeroSizedType)));
    assert!(matches!(buffer.force_get_mut_slice_ref::<()>(0, 1), Err(Error::ZeroSizedType)));
    assert_eq!(buffer.write_slice_ref::<()>(0, &[(), ()]), Err(Error::ZeroSizedType));
    assert_eq!(buffer.get_ref::<()>(3), Ok(()));
}

#[test]
fn write_then_read_through_a_window() {
    let mut data = sample();
    let mut buffer = PtrBuffer::new(0x1000, &mut data);
    {
        let window = buffer.get_mut_ref::<u32>(4).unwrap();
        assert_eq!(window.len(), 4);
        assert_eq!(window, &[0x1D, 0xEA, 0xDE, 0xAD]);
        window.copy_from_slice(&0xFACEBABEu32.to_bytes());
    }
    assert_eq!(buffer.get_ref::<u32>(4), Ok(0xFACEBABE));
    assert_eq!(buffer.to_vec(), vec![0xF0, 0x0D, 0xBE, 0xEF, 0xBE, 0xBA, 0xCE, 0xFA]);
}

#[test]
fn windows_are_checked_like_reads() {
    let mut data = sample();
    let mut buffer = PtrBuffer::new(0x1000, &mut data);
    let align = u32::align();
    assert!(matches!(buffer.get_mut_ref::<u32>(5), Err(Error::OutOfBounds(8, 9))));
    assert!(matches!(buffer.get_mut_ref::<u32>(8), Err(Error::OutOfBounds(8, 8))));
    if align > 1 {
        assert_eq!(buffer.get_mut_ref::<u32>(2), Err(Error::BadAlignment(align, 0x1002 % align)));
        assert_eq!(
            buffer.get_mut_slice_ref::<u32>(2, 1),
            Err(Error::BadAlignment(align, 0x1002 % align))
        );
    }
    assert_eq!(buffer.get_mut_ref_unaligned::<u32>(2).unwrap(), &[0xBE, 0xEF, 0x1D, 0xEA]);
    assert_eq!(buffer.force_get_mut_ref::<u32>(2).unwrap(), &[0xBE, 0xEF, 0x1D, 0xEA]);
    assert_eq!(buffer.force_get_mut_ref::<u32>(4).unwrap(), &[0x1D, 0xEA, 0xDE, 0xAD]);
    assert!(matches!(buffer.force_get_mut_ref::<u32>(6), Err(Error::OutOfBounds(8, 10))));
    assert_eq!(buffer.get_mut_slice_ref::<u16>(2, 3).unwrap().len(), 6);
    assert!(matches!(buffer.get_mut_slice_ref::<u16>(2, 4), Err(Error::OutOfBounds(8, 10))));
    assert_eq!(buffer.get_mut_slice_ref_unaligned::<u16>(1, 3).unwrap().len(), 6);
    assert_eq!(buffer.force_get_mut_slice_ref::<u16>(1, 3).unwrap().len(), 6);
    assert_eq!(buffer.read_mut(6, 2).unwrap(), &[0xDE, 0xAD]);
    assert!(matches!(buffer.read_mut(6, 3), Err(Error::OutOfBounds(8, 9))));
}

#[test]
fn windows_by_address() {
    let mut data = sample();
    let mut buffer = PtrBuffer::new(0x1000, &mut data);
    let align = u16::align();
    assert_eq!(buffer.make_mut_ref::<u16>(0x1002).unwrap(), &[0xBE, 0xEF]);
    assert_eq!(buffer.make_mut_ref::<u16>(0x0FFE), Err(Error::InvalidPointer(0x0FFE)));
    assert_eq!(buffer.make_mut_ref::<u16>(0x1007), Err(Error::OutOfBounds(8, 9)));
    if align > 1 {
        assert_eq!(buffer.make_mut_ref::<u16>(0x1003), Err(Error::BadAlignment(align, 1)));
        assert_eq!(buffer.make_mut_slice_ref::<u16>(0x1003, 2), Err(Error::BadAlignment(align, 1)));
    }
    assert_eq!(buffer.make_mut_ref_unaligned::<u16>(0x1003).unwrap(), &[0xEF, 0x1D]);
    assert_eq!(buffer.force_make_mut_ref::<u16>(0x1003).unwrap(), &[0xEF, 0x1D]);
    assert_eq!(buffer.force_make_mut_ref::<u16>(0x2000), Err(Error::InvalidPointer(0x2000)));
    assert_eq!(buffer.make_mut_slice_ref::<u16>(0x1004, 2).unwrap(), &[0x1D, 0xEA, 0xDE, 0xAD]);
    assert_eq!(buffer.make_mut_slice_ref::<u16>(0x1008, 0), Err(Error::InvalidPointer(0x1008)));
    assert_eq!(
        buffer.make_mut_slice_ref_unaligned::<u16>(0x1005, 1).unwrap(),
        &[0xEA, 0xDE]
    );
    assert_eq!(buffer.force_make_mut_slice_ref::<u16>(0x1005, 1).unwrap(), &[0xEA, 0xDE]);
    assert_eq!(
        buffer.force_make_mut_slice_ref::<u16>(0x1005, 2),
        Err(Error::OutOfBounds(8, 9))
    );
}

#[test]
fn write_is_all_or_nothing() {
    let mut buffer = VecBuffer::from_data(&sample());
    assert_eq!(buffer.write(6, &[1, 2, 3]), Err(Error::OutOfBounds(8, 9)));
    assert_eq!(buffer.to_vec(), sample());
    assert_eq!(buffer.write(8, &[]), Err(Error::OutOfBounds(8, 8)));
    assert_eq!(buffer.write(6, &[1, 2]), Ok(()));
    assert_eq!(buffer.to_vec(), vec![0xF0, 0x0D, 0xBE, 0xEF, 0x1D, 0xEA, 1, 2]);
    assert_eq!(buffer.write(3, &[]), Ok(()));
    assert_eq!(buffer.to_vec(), vec![0xF0, 0x0D, 0xBE, 0xEF, 0x1D, 0xEA, 1, 2]);
}

#[test]
fn typed_writes() {
    let mut buffer = VecBuffer::with_initial_size(7);
    assert_eq!(buffer.write_ref::<u8>(0, &0x01), Ok(()));
    assert_eq!(buffer.write_ref::<u16>(1, &0x0302), Ok(()));
    assert_eq!(buffer.write_ref::<u32>(3, &0x07060504), Ok(()));
    assert_eq!(buffer.to_vec(), vec![1, 2, 3, 4, 5, 6, 7]);
    assert_eq!(buffer.write_ref::<u32>(4, &0), Err(Error::OutOfBounds(7, 8)));
    assert_eq!(buffer.write_slice_ref::<u16>(1, &[0xBBAA, 0xDDCC]), Ok(()));
    assert_eq!(buffer.to_vec(), vec![1, 0xAA, 0xBB, 0xCC, 0xDD, 6, 7]);
    assert_eq!(buffer.write_slice_ref::<u16>(5, &[1, 2]), Err(Error::OutOfBounds(7, 9)));
    assert_eq!(buffer.to_vec(), vec![1, 0xAA, 0xBB, 0xCC, 0xDD, 6, 7]);
}

#[test]
fn start_with_writes_at_the_front() {
    let mut buffer = VecBuffer::from_data(&sample());
    assert_eq!(buffer.start_with(&[1, 2]), Ok(()));
    assert_eq!(buffer.start_with_ref::<u16>(&0x0403), Ok(()));
    assert_eq!(buffer.to_vec()[..4], [3, 4, 0xBE, 0xEF]);
    assert_eq!(buffer.start_with_slice_ref::<u8>(&[9, 9, 9]), Ok(()));
    assert_eq!(buffer.to_vec()[..4], [9, 9, 9, 0xEF]);
    assert_eq!(buffer.start_with(&[0; 9]), Err(Error::OutOfBounds(8, 9)));
    assert_eq!(buffer.start_with_slice_ref::<()>(&[()]), Err(Error::ZeroSizedType));
    let mut empty = VecBuffer::new();
    assert_eq!(empty.start_with(&[]), Err(Error::OutOfBounds(0, 0)));
}

#[test]
fn end_with_leaves_the_front_untouched() {
    let mut buffer = VecBuffer::from_data(&sample());
    assert_eq!(buffer.end_with(&[1, 2, 3]), Ok(()));
    assert_eq!(buffer.to_vec(), vec![0xF0, 0x0D, 0xBE, 0xEF, 0x1D, 1, 2, 3]);
    assert_eq!(buffer.end_with(&[0; 9]), Err(Error::OutOfBounds(8, 9)));
    assert_eq!(buffer.to_vec(), vec![0xF0, 0x0D, 0xBE, 0xEF, 0x1D, 1, 2, 3]);
    assert_eq!(buffer.end_with(&[]), Err(Error::OutOfBounds(8, 8)));
    assert_eq!(buffer.end_with_ref::<u16>(&0xBBAA), Ok(()));
    assert_eq!(buffer.to_vec(), vec![0xF0, 0x0D, 0xBE, 0xEF, 0x1D, 1, 0xAA, 0xBB]);
    assert_eq!(buffer.end_with_slice_ref::<u16>(&[0x2211, 0x4433]), Ok(()));
    assert_eq!(buffer.to_vec(), vec![0xF0, 0x0D, 0xBE, 0xEF, 0x11, 0x22, 0x33, 0x44]);
    assert_eq!(buffer.end_with_slice_ref::<()>(&[]), Err(Error::ZeroSizedType));
    assert_eq!(buffer.end_with(&[7; 8]), Ok(()));
    assert_eq!(buffer.to_vec(), vec![7; 8]);
}

#[test]
fn single_bytes() {
    let mut buffer = VecBuffer::from_data(&sample());
    assert_eq!(buffer.get(2), Some(&0xBE));
    assert_eq!(buffer.get(8), None);
    *buffer.get_mut(2).unwrap() = 0x11;
    assert!(buffer.get_mut(8).is_none());
    assert_eq!(buffer.get(2), Some(&0x11));
    buffer.swap(0, 7);
    assert_eq!(buffer.to_vec(), vec![0xAD, 0x0D, 0x11, 0xEF, 0x1D, 0xEA, 0xDE, 0xF0]);
    buffer.swap(3, 3);
    assert_eq!(buffer.get(3), Some(&0xEF));
}

#[test]
fn whole_buffer_operations() {
    let mut buffer = VecBuffer::from_data(&[1, 2, 3, 4, 5]);
    buffer.reverse();
    assert_eq!(buffer.to_vec(), vec![5, 4, 3, 2, 1]);
    buffer.copy_from_data(&[9, 8, 7, 6, 5]);
    assert_eq!(buffer.to_vec(), vec![9, 8, 7, 6, 5]);
    buffer.fill(0xAB);
    assert_eq!(buffer.to_vec(), vec![0xAB; 5]);
    let mut even = VecBuffer::from_data(&[1, 2, 3, 4]);
    even.reverse();
    assert_eq!(even.to_vec(), vec![4, 3, 2, 1]);
}

#[test]
fn walking_over_the_bytes() {
    let mut buffer = VecBuffer::from_data(&[1, 2, 3]);
    let mut iter = buffer.iter();
    assert_eq!(iter.next(), Some(&1));
    assert_eq!(iter.next(), Some(&2));
    assert_eq!(iter.next(), Some(&3));
    assert_eq!(iter.next(), None);
    assert_eq!(iter.next(), None);
    {
        let mut iter = buffer.iter_mut();
        while let Some(byte) = iter.next() {
            *byte += 10;
        }
    }
    assert_eq!(buffer.to_vec(), vec![11, 12, 13]);
}

#[test]
fn walks_from_an_index() {
    let data = [1u8, 2, 3];
    let mut iter = pkbuffer::BufferIter::new(&data, 2);
    assert_eq!(iter.next(), Some(&3));
    assert_eq!(iter.next(), None);
    let mut past = pkbuffer::BufferIter::new(&data, 7);
    assert_eq!(past.next(), None);
    let mut bytes = [1u8, 2, 3];
    {
        let mut iter = pkbuffer::BufferIterMut::new(&mut bytes, 1);
        *iter.next().unwrap() = 20;
        *iter.next().unwrap() = 30;
        assert!(iter.next().is_none());
    }
    assert_eq!(bytes, [1, 20, 30]);
}

#[test]
fn prefix_and_suffix() {
    let buffer = VecBuffer::from_data(&sample());
    assert!(buffer.starts_with(&[0xF0, 0x0D]));
    assert!(buffer.starts_with(&[]));
    assert!(!buffer.starts_with(&[0x0D]));
    assert!(!buffer.starts_with(&[0; 9]));
    assert!(buffer.ends_with(&[0xDE, 0xAD]));
    assert!(buffer.ends_with(&[]));
    assert!(!buffer.ends_with(&[0xDE]));
    assert!(buffer.starts_with(&sample()));
    assert!(buffer.ends_with(&sample()));
}

#[test]
fn buffers_are_equal_by_their_bytes() {
    let owned = VecBuffer::from_data(&sample());
    let copy = owned.clone();
    assert!(owned == copy);
    assert_ne!(owned.as_ptr(), copy.as_ptr());
    let mut data = sample();
    let view = PtrBuffer::new(0x1000, &mut data);
    assert!(owned == view);
    assert!(view == owned);
    let shorter = VecBuffer::from_data(&sample()[..7]);
    assert!(owned != shorter);
    let mut other = sample();
    other[3] = 0;
    assert!(owned != VecBuffer::from_data(&other));
}

#[test]
fn indexing_like_a_slice() {
    let buffer = VecBuffer::from_data(&sample());
    assert_eq!(buffer[0], 0xF0);
    assert_eq!(buffer[7], 0xAD);
    assert_eq!(buffer[2..4], [0xBE, 0xEF]);
    assert_eq!(buffer[8..8], []);
    assert_eq!(buffer[0..8], sample()[..]);
    let mut data = sample();
    let view = PtrBuffer::new(0x1000, &mut data);
    assert_eq!(view[1], 0x0D);
    assert_eq!(view[6..8], [0xDE, 0xAD]);
}

#[test]
fn a_buffer_gives_its_bytes_away() {
    let buffer = VecBuffer::from_data(&[1, 2, 3]);
    assert_eq!(buffer.into_iter().collect::<Vec<u8>>(), vec![1, 2, 3]);
    let mut data = vec![4u8, 5];
    let view = PtrBuffer::new(0x1000, &mut data);
    assert_eq!(view.into_iter().collect::<Vec<u8>>(), vec![4, 5]);
    assert_eq!(VecBuffer::new().into_iter().next(), None);
}
