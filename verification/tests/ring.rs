use std::collections::VecDeque;
use thesis::workers::circular_buffer::RingBuffer;

#[test]
fn ring_is_first_in_first_out() {
    let mut ring: RingBuffer<3, u32> = RingBuffer::new();
    assert_eq!(ring.len(), 0);
    assert_eq!(ring.read_next(), None);
    assert_eq!(ring.write_next(1), Ok(()));
    assert_eq!(ring.write_next(2), Ok(()));
    assert_eq!(ring.write_next(3), Ok(()));
    assert_eq!(ring.len(), 3);
    assert_eq!(ring.write_next(4), Err(4));
    assert_eq!(ring.read_next(), Some(1));
    assert_eq!(ring.write_next(4), Ok(()));
    assert_eq!(ring.read_next(), Some(2));
    assert_eq!(ring.read_next(), Some(3));
    assert_eq!(ring.read_next(), Some(4));
    assert_eq!(ring.read_next(), None);
    assert_eq!(ring.len(), 0);
}

#[test]
fn ring_wraps_many_times() {
    let mut ring: RingBuffer<4, usize> = RingBuffer::new();
    let mut next_read = 0;
    for value in 0..1000 {
        while ring.write_next(value).is_err() {
            assert_eq!(ring.read_next(), Some(next_read));
            next_read += 1;
        }
    }
    while let Some(value) = ring.read_next() {
        assert_eq!(value, next_read);
        next_read += 1;
    }
    assert_eq!(next_read, 1000);
}

#[test]
fn ring_takes_what_fits() {
    let mut ring: RingBuffer<4, char> = RingBuffer::new();
    assert_eq!(ring.write_next('a'), Ok(()));
    let mut vals: VecDeque<char> = "bcdefg".chars().collect();
    assert_eq!(ring.write_from_slice(&mut vals), 3);
    assert_eq!(vals, "efg".chars().collect::<VecDeque<char>>());
    assert_eq!(ring.write_from_slice(&mut vals), 0);
    assert_eq!(ring.read_next(), Some('a'));
    assert_eq!(ring.read_next(), Some('b'));
    assert_eq!(ring.write_from_slice(&mut vals), 2);
    assert_eq!(vals, "g".chars().collect::<VecDeque<char>>());
    let mut rest = Vec::new();
    while let Some(c) = ring.read_next() {
        rest.push(c);
    }
    assert_eq!(rest, vec!['c', 'd', 'e', 'f']);
    assert_eq!(ring.write_from_slice(&mut vals), 1);
    assert!(vals.is_empty());
    assert_eq!(ring.write_from_slice(&mut vals), 0);
    assert_eq!(ring.read_next(), Some('g'));
}
