use pkbuffer::{Buffer, Castable, Error, VecBuffer};

#[test]
fn construction() {
    assert_eq!(VecBuffer::new().len(), 0);
    assert_eq!(VecBuffer::new().to_vec(), Vec::<u8>::new());
    assert_eq!(VecBuffer::from_data(&[1, 2, 3]).to_vec(), vec![1, 2, 3]);
    assert_eq!(VecBuffer::with_initial_size(4).to_vec(), vec![0, 0, 0, 0]);
    assert_eq!(VecBuffer::with_initial_size(0).len(), 0);
}

#[test]
fn a_buffer_is_built_up_from_typed_values() {
    let mut buffer = VecBuffer::new();
    assert_eq!(buffer.append_ref::<u8>(&0x1), Ok(()));
    assert_eq!(buffer.append_ref::<u16>(&0x0302), Ok(()));
    assert_eq!(buffer.append_ref::<u32>(&0x07060504), Ok(()));
    assert_eq!(buffer, [1, 2, 3, 4, 5, 6, 7]);
    assert_eq!(buffer, vec![1, 2, 3, 4, 5, 6, 7]);
    assert_eq!(buffer, [1u8, 2, 3, 4, 5, 6, 7][..]);
    assert_ne!(buffer, [1, 2, 3, 4, 5, 6, 8]);
    assert_ne!(buffer, [1, 2, 3, 4, 5, 6]);
    assert_eq!(buffer.append_ref::<()>(&()), Ok(()));
    assert_eq!(buffer.len(), 7);
}

#[test]
fn append_then_read_back() {
    let mut buffer = VecBuffer::from_data(&[0; 8]);
    let old_length = buffer.len();
    assert_eq!(buffer.append_ref::<u32>(&0xFACEBABE), Ok(()));
    let align = u32::align();
    let residue = (buffer.as_ptr() + old_length) % align;
    let expected = if residue == 0 {
        Ok(0xFACEBABE)
    } else {
        Err(Error::BadAlignment(align, residue))
    };
    assert_eq!(buffer.get_ref::<u32>(old_length), expected);
    assert_eq!(buffer.force_get_ref::<u32>(old_length), Ok(0xFACEBABE));
    assert_eq!(buffer.append_ref::<(u8, i16)>(&(7, -2)), Ok(()));
    assert_eq!(buffer.get_ref::<(u8, i16)>(12), Ok((7, -2)));
}

#[test]
fn append_bytes_and_slices() {
    let mut buffer = VecBuffer::from_data(&[1]);
    buffer.append(&[2, 3]);
    buffer.append(&[]);
    assert_eq!(buffer.append_slice_ref::<u16>(&[0x0504, 0x0706]), Ok(()));
    assert_eq!(buffer.to_vec(), vec![1, 2, 3, 4, 5, 6, 7]);
    assert_eq!(buffer.append_slice_ref::<()>(&[(), ()]), Err(Error::ZeroSizedType));
    assert_eq!(buffer.to_vec(), vec![1, 2, 3, 4, 5, 6, 7]);
}

#[test]
fn insert_and_remove() {
    let mut buffer = VecBuffer::from_data(&[1, 2, 3]);
    buffer.insert(0, 9);
    buffer.insert(4, 8);
    buffer.insert(2, 7);
    assert_eq!(buffer.to_vec(), vec![9, 1, 7, 2, 3, 8]);
    buffer.remove(0);
    buffer.remove(4);
    buffer.remove(1);
    assert_eq!(buffer.to_vec(), vec![1, 2, 3]);
}

#[test]
fn push_pop_clear() {
    let mut buffer = VecBuffer::new();
    assert_eq!(buffer.pop(), None);
    buffer.push(1);
    buffer.push(2);
    assert_eq!(buffer.to_vec(), vec![1, 2]);
    assert_eq!(buffer.pop(), Some(2));
    assert_eq!(buffer.to_vec(), vec![1]);
    buffer.push(3);
    buffer.clear();
    assert!(buffer.is_empty());
    assert_eq!(buffer.pop(), None);
}

#[test]
fn retain_keeps_what_the_predicate_accepts() {
    let mut buffer = VecBuffer::from_data(&[1, 2, 3, 4, 5, 6]);
    buffer.retain(|byte| byte % 2 == 0);
    assert_eq!(buffer.to_vec(), vec![2, 4, 6]);
    buffer.retain(|_| true);
    assert_eq!(buffer.to_vec(), vec![2, 4, 6]);
    buffer.retain(|_| false);
    assert!(buffer.is_empty());
}

#[test]
fn split_off_cuts_in_two() {
    let mut buffer = VecBuffer::from_data(&[1, 2, 3, 4, 5]);
    let tail = buffer.split_off(2);
    assert_eq!(buffer.to_vec(), vec![1, 2]);
    assert_eq!(tail.to_vec(), vec![3, 4, 5]);
    let mut rest = tail;
    let nothing = rest.split_off(3);
    assert!(nothing.is_empty());
    let all = rest.split_off(0);
    assert!(rest.is_empty());
    assert_eq!(all.to_vec(), vec![3, 4, 5]);
}

#[test]
fn resize_and_truncate() {
    let mut buffer = VecBuffer::from_data(&[1, 2, 3]);
    buffer.resize(5, 0xEE);
    assert_eq!(buffer.to_vec(), vec![1, 2, 3, 0xEE, 0xEE]);
    buffer.resize(2, 0xAA);
    assert_eq!(buffer.to_vec(), vec![1, 2]);
    buffer.resize(2, 0xAA);
    assert_eq!(buffer.to_vec(), vec![1, 2]);
    buffer.resize_with(4, || 7);
    assert_eq!(buffer.to_vec(), vec![1, 2, 7, 7]);
    buffer.resize_with(1, || 9);
    assert_eq!(buffer.to_vec(), vec![1]);
    buffer.resize_with(1, || 9);
    assert_eq!(buffer.to_vec(), vec![1]);
    buffer.append(&[2, 3, 4]);
    buffer.truncate(9);
    assert_eq!(buffer.to_vec(), vec![1, 2, 3, 4]);
    buffer.truncate(2);
    assert_eq!(buffer.to_vec(), vec![1, 2]);
    buffer.truncate(0);
    assert!(buffer.is_empty());
}

#[test]
fn dedup_cuts_runs_down_to_one() {
    let mut buffer = VecBuffer::from_data(&[1, 1, 2, 2, 2, 1, 3, 3]);
    buffer.dedup();
    assert_eq!(buffer.to_vec(), vec![1, 2, 1, 3]);
    buffer.dedup();
    assert_eq!(buffer.to_vec(), vec![1, 2, 1, 3]);
    let mut empty = VecBuffer::new();
    empty.dedup();
    assert!(empty.is_empty());
    let mut same = VecBuffer::from_data(&[5; 9]);
    same.dedup();
    assert_eq!(same.to_vec(), vec![5]);
}

#[test]
fn a_view_writes_through() {
    let mut buffer = VecBuffer::from_data(&[1, 2, 3, 4]);
    let address = buffer.as_ptr();
    {
        let mut view = buffer.as_ptr_buffer();
        assert_eq!(view.as_ptr(), address);
        assert_eq!(view.len(), 4);
        assert_eq!(view.write(1, &[9, 9]), Ok(()));
    }
    assert_eq!(buffer.to_vec(), vec![1, 9, 9, 4]);
}
