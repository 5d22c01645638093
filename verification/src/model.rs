//! The queue as mathematics: what a push and a pop do to the sequence of
//! queued elements, oldest first, and to runs of such operations.

use vstd::prelude::*;

verus! {

/// The contents after `value` is offered to a queue that holds `items` and
/// has room for `capacity` elements: appended at the back if there is room,
/// otherwise nothing changes.
pub open spec fn after_push<T>(items: Seq<T>, capacity: nat, value: T) -> Seq<T> {
    if items.len() < capacity {
        items.push(value)
    } else {
        items
    }
}

/// What the caller is told when `value` is offered: `Ok` if it was taken,
/// otherwise the value itself comes back.
pub open spec fn push_reply<T>(items: Seq<T>, capacity: nat, value: T) -> Result<(), T> {
    if items.len() < capacity {
        Ok(())
    } else {
        Err(value)
    }
}

/// The contents after the oldest element is taken from a queue that holds
/// `items`; an empty queue stays empty.
pub open spec fn after_pop<T>(items: Seq<T>) -> Seq<T> {
    if items.len() > 0 {
        items.drop_first()
    } else {
        items
    }
}

/// What a pop hands out: the oldest element, or `None` from an empty queue.
pub open spec fn pop_reply<T>(items: Seq<T>) -> Option<T> {
    if items.len() > 0 {
        Some(items.first())
    } else {
        None
    }
}

/// One operation on a queue.
pub enum Op<T> {
    /// Offer a value.
    Push(T),
    /// Ask for the oldest element.
    Pop,
}

/// The contents after one operation.
pub open spec fn after_op<T>(items: Seq<T>, capacity: nat, op: Op<T>) -> Seq<T> {
    match op {
        Op::Push(value) => after_push(items, capacity, value),
        Op::Pop => after_pop(items),
    }
}

/// The contents after the operations `ops`, carried out from first to last
/// on a queue that holds `items` at the start.
pub open spec fn after_run<T>(items: Seq<T>, capacity: nat, ops: Seq<Op<T>>) -> Seq<T>
    decreases ops.len(),
{
    if ops.len() == 0 {
        items
    } else {
        after_op(after_run(items, capacity, ops.drop_last()), capacity, ops.last())
    }
}

/// The values that the pushes among `ops` got into the queue, in the order
/// in which they were offered. A push that found the queue full adds nothing.
pub open spec fn accepted<T>(items: Seq<T>, capacity: nat, ops: Seq<Op<T>>) -> Seq<T>
    decreases ops.len(),
{
    if ops.len() == 0 {
        Seq::empty()
    } else {
        let earlier = accepted(items, capacity, ops.drop_last());
        let before = after_run(items, capacity, ops.drop_last());
        match ops.last() {
            Op::Push(value) => match push_reply(before, capacity, value) {
                Ok(_) => earlier.push(value),
                Err(_) => earlier,
            },
            Op::Pop => earlier,
        }
    }
}

/// The values that the pops among `ops` handed out, in the order in which
/// they came. A pop that found the queue empty adds nothing.
pub open spec fn delivered<T>(items: Seq<T>, capacity: nat, ops: Seq<Op<T>>) -> Seq<T>
    decreases ops.len(),
{
    if ops.len() == 0 {
        Seq::empty()
    } else {
        let earlier = delivered(items, capacity, ops.drop_last());
        let before = after_run(items, capacity, ops.drop_last());
        match ops.last() {
            Op::Push(_) => earlier,
            Op::Pop => match pop_reply(before) {
                Some(oldest) => earlier.push(oldest),
                None => earlier,
            },
        }
    }
}

/// A run that offers `values` one after the other.
pub open spec fn pushes<T>(values: Seq<T>) -> Seq<Op<T>> {
    Seq::new(values.len(), |i: int| Op::Push(values[i]))
}

/// A run of `count` pops.
pub open spec fn pops<T>(count: nat) -> Seq<Op<T>> {
    Seq::new(count, |i: int| Op::Pop)
}

} // verus!
