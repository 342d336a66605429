use qbz::ring_buffer::RingBuffer;

fn floats(bits: &[u32]) -> Vec<f32> {
    bits.iter().map(|b| f32::from_bits(*b)).collect()
}

#[test]
fn test_ring_buffer_basic() {
    let mut buffer = RingBuffer::new(8);
    for i in 0..5 {
        buffer.push((i as f32).to_bits());
    }
    let mut snapshot = [0u32; 4];
    buffer.snapshot(&mut snapshot);
    assert_eq!(floats(&snapshot), vec![1.0, 2.0, 3.0, 4.0]);
}

#[test]
fn test_ring_buffer_wrap_around() {
    let mut buffer = RingBuffer::new(4);
    for i in 0..10 {
        buffer.push((i as f32).to_bits());
    }
    let mut snapshot = [0u32; 4];
    buffer.snapshot(&mut snapshot);
    assert_eq!(floats(&snapshot), vec![6.0, 7.0, 8.0, 9.0]);
}

#[test]
fn snapshot_longer_than_buffer_fills_only_the_front() {
    let mut buffer = RingBuffer::new(2);
    buffer.push(7);
    buffer.push(8);
    buffer.push(9);
    let mut dest = [1u32; 4];
    buffer.snapshot(&mut dest);
    assert_eq!(dest, [8, 9, 1, 1]);
    assert_eq!(buffer.write_position(), 3);
    assert_eq!(buffer.size(), 2);
}

#[test]
fn empty_buffer_snapshot_is_zeroes() {
    let buffer = RingBuffer::new(3);
    let mut dest = [5u32; 2];
    buffer.snapshot(&mut dest);
    assert_eq!(dest, [0, 0]);
}
