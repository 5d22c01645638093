//! What holds of every buffer and of every run of pushes and pops.

use vstd::prelude::*;
use crate::buffer::{lemma_ring_index_is_mod, RingBuffer};
use crate::model::{accepted, after_run, delivered, pops, pushes, Op};

verus! {

/// The length of a buffer lies between zero and its capacity; the buffer is
/// empty exactly when its length is zero, and full exactly when its length is
/// its capacity. The storage has one slot more than the capacity, so at least
/// one slot holds no queued element.
pub proof fn lemma_len_agrees<T: Default>(buffer: RingBuffer<T>)
    requires
        buffer.wf(),
    ensures
        0 <= buffer.len() <= buffer.capacity(),
        buffer.len() == buffer@.len(),
        buffer.is_empty() == (buffer.len() == 0),
        buffer.is_full() == (buffer.len() == buffer.capacity()),
        buffer.storage().len() == buffer.capacity() + 1,
        buffer@.len() < buffer.storage().len(),
{
}

/// Where the queued elements lie: the one that `i` others came before is in
/// slot `(head + i) mod slots`, whether or not the way from `head` to `tail`
/// passes the end of the storage.
pub proof fn lemma_element_slot<T: Default>(buffer: RingBuffer<T>, i: int)
    requires
        buffer.wf(),
        0 <= i < buffer@.len(),
    ensures
        ({
            let slot = (buffer.head() + i) % (buffer.storage().len() as int);
            &&& 0 <= slot < buffer.storage().len()
            &&& buffer.in_use(slot)
            &&& buffer@[i] == buffer.storage()[slot]
        }),
{
    lemma_ring_index_is_mod(buffer.head(), i, buffer.storage().len() as int);
}

/// No run of pushes and pops, however long, takes a queue beyond its
/// capacity.
pub proof fn lemma_run_within_capacity<T>(items: Seq<T>, capacity: nat, ops: Seq<Op<T>>)
    requires
        items.len() <= capacity,
    ensures
        after_run(items, capacity, ops).len() <= capacity,
    decreases ops.len(),
{
    if ops.len() > 0 {
        lemma_run_within_capacity(items, capacity, ops.drop_last());
    }
}

/// First in, first out, over any run of pushes and pops, however long: what
/// the pops handed out, followed by what is still queued, is what was queued
/// at the start followed by what the pushes got in. Nothing is lost, nothing
/// is made up, and nothing overtakes.
pub proof fn lemma_run_keeps_order<T>(items: Seq<T>, capacity: nat, ops: Seq<Op<T>>)
    ensures
        delivered(items, capacity, ops) + after_run(items, capacity, ops) == items + accepted(
            items,
            capacity,
            ops,
        ),
    decreases ops.len(),
{
    if ops.len() > 0 {
        let earlier = ops.drop_last();
        lemma_run_keeps_order(items, capacity, earlier);
        let out = delivered(items, capacity, earlier);
        let left = after_run(items, capacity, earlier);
        let taken = accepted(items, capacity, earlier);
        match ops.last() {
            Op::Push(value) => {
                if left.len() < capacity {
                    // Both sides get `value` at the back.
                    assert(out + left.push(value) =~= (out + left).push(value));
                    assert(items + taken.push(value) =~= (items + taken).push(value));
                }
            },
            Op::Pop => {
                if left.len() > 0 {
                    // The oldest element goes from the front of the queue to
                    // the back of what was handed out.
                    assert(out.push(left.first()) + left.drop_first() =~= out + left);
                }
            },
        }
    }
}

/// A run in two parts: the second part goes on from where the first part
/// left the queue, and what the whole run took in and handed out is what
/// the parts did, one after the other.
pub proof fn lemma_run_in_two_parts<T>(
    items: Seq<T>,
    capacity: nat,
    first: Seq<Op<T>>,
    second: Seq<Op<T>>,
)
    ensures
        after_run(items, capacity, first + second) == after_run(
            after_run(items, capacity, first),
            capacity,
            second,
        ),
        accepted(items, capacity, first + second) == accepted(items, capacity, first) + accepted(
            after_run(items, capacity, first),
            capacity,
            second,
        ),
        delivered(items, capacity, first + second) == delivered(items, capacity, first)
            + delivered(after_run(items, capacity, first), capacity, second),
    decreases second.len(),
{
    if second.len() == 0 {
        assert(first + second =~= first);
    } else {
        lemma_run_in_two_parts(items, capacity, first, second.drop_last());
        assert((first + second).drop_last() =~= first + second.drop_last());
        assert((first + second).last() == second.last());
    }
}

/// Where there is room for all of `values`, every one of them is taken in,
/// behind what was queued before, and nothing is handed out.
pub proof fn lemma_pushes_with_room<T>(items: Seq<T>, capacity: nat, values: Seq<T>)
    requires
        items.len() + values.len() <= capacity,
    ensures
        after_run(items, capacity, pushes(values)) == items + values,
        accepted(items, capacity, pushes(values)) == values,
        delivered(items, capacity, pushes(values)) == Seq::<T>::empty(),
    decreases values.len(),
{
    if values.len() > 0 {
        lemma_pushes_with_room(items, capacity, values.drop_last());
        assert(pushes(values).drop_last() =~= pushes(values.drop_last()));
        assert(pushes(values).last() == Op::Push(values.last()));
        assert((items + values.drop_last()).push(values.last()) =~= items + values);
    }
}

/// Draining: `count` pops hand out the first `count` queued elements, oldest
/// first, and leave the others queued; once the queue is empty, further pops
/// hand out nothing. So at every step the number still to come is the number
/// queued at the start less the number handed out.
pub proof fn lemma_pops_drain<T>(items: Seq<T>, capacity: nat, count: nat)
    ensures
        ({
            let gone = if count <= items.len() {
                count as int
            } else {
                items.len() as int
            };
            &&& delivered(items, capacity, pops::<T>(count)) == items.take(gone)
            &&& after_run(items, capacity, pops::<T>(count)) == items.skip(gone)
            &&& accepted(items, capacity, pops::<T>(count)) == Seq::<T>::empty()
            &&& after_run(items, capacity, pops::<T>(count)).len() == items.len() - gone
        }),
    decreases count,
{
    if count > 0 {
        let fewer = (count - 1) as nat;
        lemma_pops_drain(items, capacity, fewer);
        assert(pops::<T>(count).drop_last() =~= pops::<T>(fewer));
        assert(pops::<T>(count).last() == Op::<T>::Pop);
        if count <= items.len() {
            assert(items.take(fewer as int).push(items[fewer as int]) =~= items.take(
                count as int,
            ));
            assert(items.skip(fewer as int).drop_first() =~= items.skip(count as int));
        }
    }
}

/// Pushing `values` onto an empty queue with room for them, then popping as
/// many times as there are values, hands out exactly `values`, in the order
/// in which they were pushed, and leaves the queue empty.
pub proof fn lemma_pushes_then_pops<T>(capacity: nat, values: Seq<T>)
    requires
        values.len() <= capacity,
    ensures
        ({
            let ops = pushes(values) + pops::<T>(values.len());
            &&& accepted(Seq::<T>::empty(), capacity, ops) == values
            &&& delivered(Seq::<T>::empty(), capacity, ops) == values
            &&& after_run(Seq::<T>::empty(), capacity, ops) == Seq::<T>::empty()
        }),
{
    let start = Seq::<T>::empty();
    lemma_pushes_with_room(start, capacity, values);
    lemma_pops_drain(values, capacity, values.len());
    lemma_run_in_two_parts(start, capacity, pushes(values), pops::<T>(values.len()));
    assert(start + values =~= values);
    assert(values.take(values.len() as int) =~= values);
}

} // verus!
