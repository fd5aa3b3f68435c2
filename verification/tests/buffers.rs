use mpi104::{
    BufferError, BufferHandle, CircularBuffer, ConstCircularBuffer, FlatBuffer, ReadError,
    ReadStatus,
};

#[test]
fn const_ring_starts_empty() {
    let b: ConstCircularBuffer<8> = ConstCircularBuffer::new();
    assert_eq!(b.len(), 0);
    assert_eq!(b.free_space(), 8);
    assert!(b.is_empty());
    assert!(!b.is_full());
}

#[test]
fn const_ring_write_all_then_read_round_trip() {
    let mut b: ConstCircularBuffer<8> = ConstCircularBuffer::new();
    assert_eq!(b.write_all(&[1, 2, 3]), Ok(3));
    assert_eq!(b.write_all(&[4, 5]), Ok(2));
    assert_eq!(b.len() + b.free_space(), 8);
    let mut dest = [0u8; 8];
    assert_eq!(b.read(&mut dest), Ok(5));
    assert_eq!(&dest[..5], &[1, 2, 3, 4, 5]);
    assert_eq!(&dest[5..], &[0, 0, 0]);
    assert!(b.is_empty());
}

#[test]
fn const_ring_wraps_around_the_end() {
    let mut b: ConstCircularBuffer<4> = ConstCircularBuffer::new();
    assert_eq!(b.write_all(&[1, 2, 3]), Ok(3));
    assert_eq!(b.read_byte(), Ok(1));
    assert_eq!(b.read_byte(), Ok(2));
    // the write position is at 3: two bytes go to the end, one wraps
    assert_eq!(b.write_all(&[4, 5, 6]), Ok(3));
    assert!(b.is_full());
    let mut dest = [0u8; 3];
    assert_eq!(b.read(&mut dest), Ok(3));
    assert_eq!(dest, [3, 4, 5]);
    assert_eq!(b.read_byte(), Ok(6));
    assert_eq!(b.read_byte(), Err(ReadError::SourceEmpty));
}

#[test]
fn const_ring_write_all_refuses_what_does_not_fit() {
    let mut b: ConstCircularBuffer<4> = ConstCircularBuffer::new();
    assert_eq!(b.write_all(&[1, 2, 3]), Ok(3));
    assert_eq!(b.write_all(&[4, 5]), Err(BufferError::InsufficientSpace));
    assert_eq!(b.len(), 3);
}

#[test]
fn const_ring_write_is_partial() {
    let mut b: ConstCircularBuffer<4> = ConstCircularBuffer::new();
    assert_eq!(b.write(&[1, 2, 3, 4, 5, 6]), Ok(4));
    assert!(b.is_full());
    assert_eq!(b.write(&[7]), Err(BufferError::InsufficientSpace));
    assert_eq!(b.write_byte(7), Err(BufferError::InsufficientSpace));
    assert_eq!(b.read_byte(), Ok(1));
    assert_eq!(b.write_byte(9), Ok(()));
    let mut dest = [0u8; 4];
    assert_eq!(b.read(&mut dest), Ok(4));
    assert_eq!(dest, [2, 3, 4, 9]);
}

#[test]
fn const_ring_read_errors() {
    let mut b: ConstCircularBuffer<4> = ConstCircularBuffer::new();
    let mut empty: [u8; 0] = [];
    assert_eq!(b.read(&mut empty), Err(ReadError::DestinationEmpty));
    let mut dest = [0u8; 2];
    assert_eq!(b.read(&mut dest), Err(ReadError::SourceEmpty));
    assert_eq!(b.try_read_to(b'\n', &mut empty), Err(ReadError::DestinationEmpty));
    assert_eq!(b.try_read_to(b'\n', &mut dest), Err(ReadError::SourceEmpty));
}

#[test]
fn const_ring_try_read_to_first_byte_terminator() {
    let mut b: ConstCircularBuffer<8> = ConstCircularBuffer::new();
    assert_eq!(b.write_all(b"\nab"), Ok(3));
    let mut dest = [0u8; 8];
    assert_eq!(b.try_read_to(b'\n', &mut dest), Ok(ReadStatus::Complete(1)));
    assert_eq!(dest[0], b'\n');
    assert_eq!(b.len(), 2);
}

#[test]
fn const_ring_try_read_to_finds_a_later_terminator() {
    let mut b: ConstCircularBuffer<8> = ConstCircularBuffer::new();
    assert_eq!(b.write_all(&[1, 2, 0, 3]), Ok(4));
    let mut dest = [0u8; 8];
    assert_eq!(b.try_read_to(0, &mut dest), Ok(ReadStatus::Complete(3)));
    assert_eq!(dest, [1, 2, 0, 0, 0, 0, 0, 0]);
    assert_eq!(b.len(), 1);
    assert_eq!(b.read_byte(), Ok(3));
}

#[test]
fn const_ring_try_read_to_fills_the_destination() {
    let mut b: ConstCircularBuffer<8> = ConstCircularBuffer::new();
    assert_eq!(b.write_all(b"abcd
"), Ok(5));
    let mut dest = [0u8; 3];
    assert_eq!(b.try_read_to(b'\n', &mut dest), Ok(ReadStatus::BufferFull(3)));
    assert_eq!(&dest, b"abc");
    assert_eq!(b.len(), 2);
    let mut rest = [0u8; 4];
    assert_eq!(b.try_read_to(b'\n', &mut rest), Ok(ReadStatus::Complete(2)));
    assert_eq!(&rest[..2], b"d\n");
}

#[test]
fn const_ring_try_read_to_partial_when_source_runs_out() {
    let mut b: ConstCircularBuffer<4> = ConstCircularBuffer::new();
    assert_eq!(b.write_all(&[7, 8, 9]), Ok(3));
    assert_eq!(b.read_byte(), Ok(7));
    assert_eq!(b.write_all(&[10, 11]), Ok(2));
    // the unread bytes 8, 9, 10, 11 wrap around the end of the storage
    let mut dest = [0u8; 6];
    assert_eq!(b.try_read_to(0, &mut dest), Ok(ReadStatus::Partial(4)));
    assert_eq!(dest, [8, 9, 10, 11, 0, 0]);
    assert!(b.is_empty());
}

#[test]
fn const_ring_try_read_to_terminator_after_wrap() {
    let mut b: ConstCircularBuffer<4> = ConstCircularBuffer::new();
    assert_eq!(b.write_all(&[1, 2, 3]), Ok(3));
    assert_eq!(b.read_byte(), Ok(1));
    assert_eq!(b.read_byte(), Ok(2));
    assert_eq!(b.write_all(&[4, 5]), Ok(2));
    let mut dest = [0u8; 4];
    assert_eq!(b.try_read_to(5, &mut dest), Ok(ReadStatus::Complete(3)));
    assert_eq!(&dest[..3], &[3, 4, 5]);
}

#[test]
fn const_ring_reset_returns_capacity() {
    let mut b: ConstCircularBuffer<5> = ConstCircularBuffer::new();
    assert_eq!(b.write_all(&[1, 2]), Ok(2));
    assert_eq!(b.reset(), 5);
    assert!(b.is_empty());
    assert_eq!(b.free_space(), 5);
}

#[test]
fn const_ring_write_str_writes_what_fits() {
    let mut b: ConstCircularBuffer<3> = ConstCircularBuffer::new();
    assert_eq!(b.write_str("hello"), Ok(()));
    assert_eq!(b.len(), 3);
    assert_eq!(b.write_str("x"), Err(BufferError::InsufficientSpace));
}

#[test]
fn const_ring_zero_capacity() {
    let mut b: ConstCircularBuffer<0> = ConstCircularBuffer::new();
    assert!(b.is_full());
    assert!(b.is_empty());
    assert_eq!(b.write_byte(1), Err(BufferError::InsufficientSpace));
    assert_eq!(b.write_all(&[]), Ok(0));
}

#[test]
fn flat_buffer_write_then_read() {
    let mut f = FlatBuffer::new(vec![0u8; 6]);
    assert_eq!(f.capacity(), 6);
    assert_eq!(f.write_all(&[1, 2, 3]), Ok(3));
    assert_eq!(f.as_ref(), &[1, 2, 3]);
    assert_eq!(f.read_byte(), Ok(1));
    assert_eq!(f.as_ref(), &[2, 3]);
    assert_eq!(f.len(), 2);
    assert_eq!(f.free_space(), 4);
}

#[test]
fn flat_buffer_errors() {
    let mut f = FlatBuffer::new(vec![0u8; 2]);
    assert_eq!(f.read_byte(), Err(BufferError::BufferEmpty));
    assert_eq!(f.write_all(&[1, 2, 3]), Err(BufferError::InsufficientSpace));
    assert_eq!(f.write(&[1, 2, 3]), Ok(2));
    assert!(f.is_full());
    assert_eq!(f.write_byte(9), Err(BufferError::InsufficientSpace));
    assert_eq!(f.write(&[9]), Err(BufferError::InsufficientSpace));
}

#[test]
fn flat_buffer_reset_frees_everything() {
    let mut f = FlatBuffer::new(vec![0u8; 4]);
    assert_eq!(f.write_all(&[1, 2, 3, 4]), Ok(4));
    assert_eq!(f.read_byte(), Ok(1));
    assert_eq!(f.reset(), 4);
    assert!(f.is_empty());
    assert_eq!(f.free_space(), 4);
    assert_eq!(f.write_all(&[5, 6, 7, 8]), Ok(4));
    assert_eq!(f.as_ref(), &[5, 6, 7, 8]);
}

#[test]
fn flat_buffer_write_str() {
    let mut f = FlatBuffer::new(vec![0u8; 4]);
    assert_eq!(f.write_str("ab"), Ok(()));
    assert_eq!(f.write_str("abc"), Err(BufferError::InsufficientSpace));
    assert_eq!(f.as_ref(), b"ab");
}

#[test]
fn flat_buffer_from_handle() {
    let h = BufferHandle::new(vec![7u8; 3], 2);
    assert_eq!(h.pool_idx(), 2);
    assert_eq!(h.capacity(), 3);
    let f = FlatBuffer::from(h);
    assert_eq!(f.capacity(), 3);
    assert!(f.is_empty());
}

#[test]
fn circular_buffer_keeps_one_slot_open() {
    let mut c = CircularBuffer::new(vec![0u8; 4]);
    assert_eq!(c.capacity(), 4);
    assert_eq!(c.free_space(), 3);
    c.write_byte(1);
    c.write_byte(2);
    c.write_byte(3);
    assert_eq!(c.len(), 3);
    assert_eq!(c.free_space(), 0);
    // full: the byte is dropped
    c.write_byte(4);
    assert_eq!(c.len(), 3);
    assert_eq!(c.read_byte(), Some(1));
    assert_eq!(c.read_byte(), Some(2));
    assert_eq!(c.read_byte(), Some(3));
    assert_eq!(c.read_byte(), None);
}

#[test]
fn circular_buffer_write_wraps() {
    let mut c = CircularBuffer::new(vec![0u8; 5]);
    assert_eq!(c.write(&[1, 2, 3]), Ok(3));
    assert_eq!(c.read_byte(), Some(1));
    assert_eq!(c.read_byte(), Some(2));
    assert_eq!(c.write(&[4, 5, 6]), Ok(3));
    assert_eq!(c.len(), 4);
    assert_eq!(c.write(&[7]), Err(BufferError::InsufficientSpace));
    let mut out = Vec::new();
    while let Some(b) = c.read_byte() {
        out.push(b);
    }
    assert_eq!(out, vec![3, 4, 5, 6]);
}

#[test]
fn circular_buffer_write_str_and_from_handle() {
    let h = BufferHandle::new(vec![0u8; 4], 0);
    let mut c = CircularBuffer::from(h);
    assert_eq!(c.write_str("abc"), Ok(()));
    assert_eq!(c.write_str("d"), Err(BufferError::InsufficientSpace));
    assert_eq!(c.read_byte(), Some(b'a'));
}
