use ring_buffer::{IntoIter, RingBuffer};

fn filled(capacity: usize, values: &[i32]) -> RingBuffer<i32> {
    let mut buf = RingBuffer::<i32>::with_capacity(capacity);
    for v in values {
        assert_eq!(buf.push(*v), Ok(()));
    }
    buf
}

#[test]
fn draining_yields_every_element_in_order() {
    let buf = filled(8, &[4, 8, 15, 16, 23, 42]);
    assert_eq!(buf.len(), 6);
    let mut iter: IntoIter<i32> = buf.into_iter();
    let mut seen = Vec::new();
    let mut left = 6usize;
    loop {
        assert_eq!(iter.size_hint(), (left, Some(left)));
        match iter.next() {
            Some(v) => {
                seen.push(v);
                left -= 1;
            }
            None => break,
        }
    }
    assert_eq!(left, 0);
    assert_eq!(seen, vec![4, 8, 15, 16, 23, 42]);
}

#[test]
fn draining_stays_finished() {
    let mut iter = filled(2, &[7]).into_iter();
    assert_eq!(iter.size_hint(), (1, Some(1)));
    assert_eq!(iter.next(), Some(7));
    for _ in 0..3 {
        assert_eq!(iter.size_hint(), (0, Some(0)));
        assert_eq!(iter.next(), None);
    }
}

#[test]
fn draining_an_empty_buffer() {
    let mut iter = RingBuffer::<i32>::with_capacity(5).into_iter();
    assert_eq!(iter.size_hint(), (0, Some(0)));
    assert_eq!(iter.next(), None);

    let mut iter = RingBuffer::<i32>::with_capacity(0).into_iter();
    assert_eq!(iter.size_hint(), (0, Some(0)));
    assert_eq!(iter.next(), None);
}

#[test]
fn draining_a_full_buffer() {
    let mut iter = filled(3, &[1, 2, 3]).into_iter();
    assert_eq!(iter.size_hint(), (3, Some(3)));
    assert_eq!(iter.next(), Some(1));
    assert_eq!(iter.size_hint(), (2, Some(2)));
    assert_eq!(iter.next(), Some(2));
    assert_eq!(iter.size_hint(), (1, Some(1)));
    assert_eq!(iter.next(), Some(3));
    assert_eq!(iter.size_hint(), (0, Some(0)));
    assert_eq!(iter.next(), None);
}

#[test]
fn draining_across_the_end_of_the_storage() {
    // Six slots; the queued elements end up in slots 4, 5, 0 and 1.
    let mut buf = filled(5, &[1, 2, 3, 4, 5]);
    for v in [1, 2, 3, 4] {
        assert_eq!(buf.pop(), Some(v));
    }
    for v in [6, 7, 8] {
        assert_eq!(buf.push(v), Ok(()));
    }
    assert_eq!(buf.len(), 4);

    let mut iter = buf.into_iter();
    for (done, v) in [5, 6, 7, 8].into_iter().enumerate() {
        assert_eq!(iter.size_hint(), (4 - done, Some(4 - done)));
        assert_eq!(iter.next(), Some(v));
    }
    assert_eq!(iter.size_hint(), (0, Some(0)));
    assert_eq!(iter.next(), None);
}
