use history_graph::buffer::RotatingSampleBuffer;

#[test]
fn new_buffer_is_all_zero() {
    let b = RotatingSampleBuffer::new(5);
    assert_eq!(b.capacity(), 5);
    assert_eq!(b.iter_chronological(), vec![0, 0, 0, 0, 0]);
}

#[test]
fn full_cycle_returns_writes_in_order() {
    let mut b = RotatingSampleBuffer::new(4);
    for v in [7u64, 3, 9, 1] {
        b.advance();
        b.write(0, v);
    }
    assert_eq!(b.iter_chronological(), vec![7, 3, 9, 1]);
}

#[test]
fn read_zero_is_latest_write() {
    let mut b = RotatingSampleBuffer::new(3);
    for v in 1u64..=10 {
        b.record(v);
        assert_eq!(b.read(0), v);
    }
    assert_eq!(b.read(1), 9);
    assert_eq!(b.read(2), 8);
    assert_eq!(b.iter_chronological(), vec![8, 9, 10]);
}

#[test]
fn advance_moves_samples_back() {
    let mut b = RotatingSampleBuffer::new(3);
    b.write(0, 1);
    b.write(1, 2);
    b.write(2, 3);
    b.advance();
    // the oldest sample's slot is reused as the new front
    assert_eq!(b.read(0), 3);
    assert_eq!(b.read(1), 1);
    assert_eq!(b.read(2), 2);
}

#[test]
fn write_at_inner_index() {
    let mut b = RotatingSampleBuffer::new(4);
    b.record(5);
    b.write(2, 8);
    assert_eq!(b.iter_chronological(), vec![0, 8, 0, 5]);
}
