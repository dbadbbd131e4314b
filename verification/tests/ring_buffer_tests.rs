use wahwah::errors::WahwahError;
use wahwah::ring_buffer::RingBuffer;

const UNIT: i64 = 1_000_000;

#[test]
fn test_new_buffer_defaults() {
    let buffer: RingBuffer<i64> = RingBuffer::new(4);
    assert_eq!(buffer.capacity(), 4);
    assert_eq!(buffer.len(), 0);
    assert_eq!(buffer.get_read_index(), 0);
    assert_eq!(buffer.get_write_index(), 0);
    for offset in 0..4 {
        assert_eq!(buffer.get(offset), 0);
    }
}

#[test]
fn test_put_and_peek_do_not_advance() {
    let mut buffer: RingBuffer<i64> = RingBuffer::new(8);
    buffer.put(42);
    assert_eq!(buffer.get(0), 42);
    assert_eq!(buffer.peek(), 42);
    assert_eq!(buffer.get_read_index(), 0);
    assert_eq!(buffer.get_write_index(), 0);
    buffer.put(7);
    assert_eq!(buffer.get(0), 7);
}

#[test]
fn test_index_setters_normalize_modulo_capacity() {
    let mut buffer: RingBuffer<i64> = RingBuffer::new(3);
    buffer.set_read_index(5);
    assert_eq!(buffer.get_read_index(), 2);
    buffer.set_write_index(4);
    assert_eq!(buffer.get_write_index(), 1);
    assert_eq!(buffer.len(), 1);
    buffer.reset();
    assert_eq!(buffer.get_read_index(), 0);
    assert_eq!(buffer.get_write_index(), 0);
}

#[test]
fn test_fifo_order_within_capacity() {
    let mut buffer: RingBuffer<i64> = RingBuffer::new(8);
    for value in 0..5 {
        buffer.push(value * 10);
    }
    for value in 0..5 {
        assert_eq!(buffer.pop(), value * 10);
    }
    assert_eq!(buffer.get_read_index(), 5);
    assert_eq!(buffer.get_write_index(), 5);
}

#[test]
fn test_cursor_wrap_at_capacity_boundary() {
    let mut buffer: RingBuffer<i64> = RingBuffer::new(4);
    for value in 0..6 {
        buffer.push(value);
    }
    // Six advancing writes into capacity four: the cursor wrapped at
    // index four and the two oldest slots were overwritten in place.
    assert_eq!(buffer.get_write_index(), 2);
    assert_eq!(buffer.get(0), 4);
    assert_eq!(buffer.get(1), 5);
    assert_eq!(buffer.get(2), 2);
    assert_eq!(buffer.get(3), 3);
    let mut seen = Vec::new();
    for _ in 0..6 {
        seen.push(buffer.pop());
    }
    assert_eq!(seen, vec![4, 5, 2, 3, 4, 5]);
    assert_eq!(buffer.get_read_index(), 2);
}

#[test]
fn test_interpolation_exact_at_integer_indices() {
    let mut buffer: RingBuffer<i64> = RingBuffer::new(4);
    for value in [10, 20, 30, 40] {
        buffer.push(value);
    }
    for slot in 0..8i64 {
        let interpolated = buffer.get_frac(slot * UNIT).unwrap();
        assert_eq!(interpolated, buffer.get((slot % 4) as usize));
    }
}

#[test]
fn test_interpolation_midpoint_is_mean() {
    let mut buffer: RingBuffer<i64> = RingBuffer::new(4);
    for value in [10, 20, 30, 40] {
        buffer.push(value);
    }
    assert_eq!(buffer.get_frac(UNIT / 2).unwrap(), 15);
    assert_eq!(buffer.get_frac(UNIT + UNIT / 2).unwrap(), 25);
    // Wraps around the end: between the last slot and the first.
    assert_eq!(buffer.get_frac(3 * UNIT + UNIT / 2).unwrap(), 25);
    // A quarter of the way from 10 to 20.
    assert_eq!(buffer.get_frac(UNIT / 4).unwrap(), 12);
}

#[test]
fn test_checked_get_validates_offset() {
    let mut buffer: RingBuffer<i64> = RingBuffer::new(3);
    buffer.push(11);
    buffer.push(22);
    assert_eq!(buffer.checked_get(0), Ok(11));
    assert_eq!(buffer.checked_get(1), Ok(22));
    assert_eq!(buffer.checked_get(3), Err(WahwahError::InvalidBufferAccess));
    assert_eq!(buffer.checked_get(100), Err(WahwahError::InvalidBufferAccess));
}

#[test]
fn test_negative_fractional_index_is_reported() {
    let mut buffer: RingBuffer<i64> = RingBuffer::new(2);
    buffer.push(1);
    buffer.push(2);
    assert_eq!(buffer.get_frac(-1), Err(WahwahError::InvalidBufferAccess));
    assert_eq!(buffer.get_frac(-5 * UNIT), Err(WahwahError::InvalidBufferAccess));
}
