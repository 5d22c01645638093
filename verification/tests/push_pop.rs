use ring_buffer::RingBuffer;

use std::fmt::Debug;

fn assert_push<T: Default + Debug + Eq>(buf: &mut RingBuffer<T>, value: T) {
    assert_eq!(buf.push(value), Ok(()));
}

fn assert_pop<T: Default + Debug + Eq>(buf: &mut RingBuffer<T>, expected_value: T) {
    assert_eq!(buf.pop(), Some(expected_value));
}

#[test]
fn simple_push_pop() {
    let mut buf = RingBuffer::<i32>::with_capacity(10);
    assert_push(&mut buf, 1);
    assert_push(&mut buf, 2);
    assert_pop(&mut buf, 1);
    assert_push(&mut buf, 3);
    assert_pop(&mut buf, 2);
    assert_pop(&mut buf, 3);
}

#[test]
fn capacity_empty_full() {
    const SIZE: i32 = 100;
    let mut buf = RingBuffer::<i32>::with_capacity(SIZE as usize);

    assert!(buf.is_empty());
    assert!(!buf.is_full());
    assert_eq!(buf.pop(), None);

    for i in 0..SIZE {
        assert_push(&mut buf, i);
    }

    assert!(!buf.is_empty());
    assert!(buf.is_full());
    assert_eq!(buf.push(777), Err(777));

    for i in 0..SIZE {
        assert_pop(&mut buf, i);
    }
}

#[test]
fn multiple_cycles() {
    const SIZE: usize = 100;
    const BATCH_SIZE: usize = 77;
    const BATCH_CNT: usize = 25;
    let mut buf = RingBuffer::<i32>::with_capacity(SIZE);

    let mut write = (0..).into_iter();
    let mut read = (0..).into_iter();

    for _ in 0..BATCH_CNT {
        assert_eq!(buf.len(), 0);
        for _ in 0..BATCH_SIZE {
            assert_push(&mut buf, write.next().unwrap());
        }
        assert_eq!(buf.len(), BATCH_SIZE);
        for _ in 0..BATCH_SIZE {
            assert_pop(&mut buf, read.next().unwrap());
        }
        assert_eq!(buf.len(), 0);
    }
}
