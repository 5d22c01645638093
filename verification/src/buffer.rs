//! The ring buffer itself: a block of slots and two indices that walk round it.
//!
//! The storage has one slot more than the capacity. `head` is the slot of the
//! oldest element, `tail` the slot that the next push will fill. The slots
//! from `head` up to, but not including, `tail` hold the queued elements; all
//! others hold a default value of the element type. Since one slot is always
//! left over, `head == tail` can only mean that the buffer is empty.

use vstd::arithmetic::div_mod::{lemma_mod_add_multiples_vanish, lemma_small_mod};
use vstd::prelude::*;
use crate::model::{after_pop, after_push, pop_reply, push_reply};

verus! {

/// A bounded FIFO queue over storage that is allocated once.
pub struct RingBuffer<T: Default> {
    data: Vec<T>,
    begin: usize,
    end: usize,
}

/// The slot that lies `steps` steps after slot `start` on a ring of `slots`
/// slots. For `start < slots` and `steps <= slots` this is
/// `(start + steps) mod slots`, as [`lemma_ring_index_is_mod`] shows.
pub open spec fn ring_index(start: int, steps: int, slots: int) -> int {
    if start + steps < slots {
        start + steps
    } else {
        start + steps - slots
    }
}

/// Stepping round the ring is addition modulo the number of slots.
pub proof fn lemma_ring_index_is_mod(start: int, steps: int, slots: int)
    requires
        0 <= start < slots,
        0 <= steps <= slots,
    ensures
        ring_index(start, steps, slots) == (start + steps) % slots,
        0 <= ring_index(start, steps, slots) < slots,
{
    if start + steps < slots {
        lemma_small_mod((start + steps) as nat, slots as nat);
    } else {
        let past = start + steps - slots;
        lemma_small_mod(past as nat, slots as nat);
        lemma_mod_add_multiples_vanish(past, slots);
    }
}

/// `value` is something that `T::default()` may return.
pub open spec fn is_default<T: Default>(value: T) -> bool {
    call_ensures(T::default, (), value)
}

impl<T: Default> View for RingBuffer<T> {
    type V = Seq<T>;

    /// The queued elements, oldest first: what the slots hold on the way
    /// from `head` to `tail`.
    open spec fn view(&self) -> Seq<T> {
        Seq::new(
            self.occupied(),
            |i: int| self.storage()[ring_index(self.head(), i, self.storage().len() as int)],
        )
    }
}

impl<T: Default> RingBuffer<T> {
    /// What the slots hold, queued elements and placeholders alike.
    pub closed spec fn storage(&self) -> Seq<T> {
        self.data@
    }

    /// The slot of the oldest element; equal to `tail` in an empty buffer.
    pub closed spec fn head(&self) -> int {
        self.begin as int
    }

    /// The slot behind the newest element, which the next push fills.
    pub closed spec fn tail(&self) -> int {
        self.end as int
    }

    /// The number of slots on the way from `head` to `tail`: `tail - head`,
    /// and the number of slots more where `tail` has gone round and `head`
    /// has not.
    pub open spec fn occupied(&self) -> nat {
        if self.head() <= self.tail() {
            (self.tail() - self.head()) as nat
        } else {
            (self.tail() + self.storage().len() - self.head()) as nat
        }
    }

    /// Slot `i` lies on the way from `head` to `tail`, so it holds a queued
    /// element.
    pub open spec fn in_use(&self, i: int) -> bool {
        if self.head() <= self.tail() {
            self.head() <= i < self.tail()
        } else {
            self.head() <= i || i < self.tail()
        }
    }

    /// The invariant of the representation: there is at least one slot, both
    /// indices point at a slot, and every slot that holds no queued element
    /// holds a default value.
    pub open spec fn wf(&self) -> bool {
        &&& 1 <= self.storage().len() <= usize::MAX
        &&& 0 <= self.head() < self.storage().len()
        &&& 0 <= self.tail() < self.storage().len()
        &&& forall|i: int|
            0 <= i < self.storage().len() && !self.in_use(i) ==> is_default(
                #[trigger] self.storage()[i],
            )
    }

    /// The largest number of elements that the buffer can hold at once: one
    /// less than it has slots.
    pub open spec fn capacity(&self) -> nat {
        (self.storage().len() - 1) as nat
    }

    /// No element is queued.
    pub open spec fn spec_is_empty(&self) -> bool {
        self@.len() == 0
    }

    /// As many elements are queued as the buffer has room for.
    pub open spec fn spec_is_full(&self) -> bool {
        self@.len() == self.capacity()
    }

    /// The number of queued elements.
    pub open spec fn spec_len(&self) -> usize {
        self@.len() as usize
    }

    /// An empty buffer with room for `n` elements. Its storage of `n + 1`
    /// slots, each holding a default value, is allocated here and never
    /// again.
    pub fn with_capacity(n: usize) -> (buffer: RingBuffer<T>)
        requires
            n < usize::MAX,
        ensures
            buffer.wf(),
            buffer.capacity() == n,
            buffer.storage().len() == n + 1,
            buffer.head() == 0,
            buffer.tail() == 0,
            buffer@ == Seq::<T>::empty(),
            buffer.is_empty(),
            buffer.is_full() <==> n == 0,
            buffer.len() == 0,
    {
        let mut data: Vec<T> = Vec::with_capacity(n + 1);
        while data.len() <= n
            invariant
                n < usize::MAX,
                data@.len() <= n + 1,
                forall|i: int| 0 <= i < data@.len() ==> is_default(#[trigger] data@[i]),
            decreases n + 1 - data@.len(),
        {
            data.push(T::default());
        }
        let buffer = RingBuffer { data, begin: 0, end: 0 };
        assert(buffer@ =~= Seq::<T>::empty());
        buffer
    }

    /// Whether no element is queued, which is the case exactly when `head`
    /// and `tail` are the same slot.
    #[verifier::when_used_as_spec(spec_is_empty)]
    pub fn is_empty(&self) -> (empty: bool)
        requires
            self.wf(),
        ensures
            empty == self.spec_is_empty(),
            empty == (self.head() == self.tail()),
    {
        self.begin == self.end
    }

    /// Whether the buffer holds as many elements as it has room for, which is
    /// the case exactly when the slot after `tail` is `head`.
    #[verifier::when_used_as_spec(spec_is_full)]
    pub fn is_full(&self) -> (full: bool)
        requires
            self.wf(),
        ensures
            full == self.spec_is_full(),
            full == (ring_index(self.tail(), 1, self.storage().len() as int) == self.head()),
    {
        self.next_pos(self.end) == self.begin
    }

    /// The number of queued elements, between zero and the capacity.
    #[verifier::when_used_as_spec(spec_len)]
    pub fn len(&self) -> (len: usize)
        requires
            self.wf(),
        ensures
            len == self.spec_len(),
            len == self@.len(),
            len == self.occupied(),
            len <= self.capacity(),
    {
        if self.begin > self.end {
            self.data.len() - self.begin + self.end
        } else {
            self.end - self.begin
        }
    }

    /// Queues `value` behind the elements already there: it goes into the
    /// slot at `tail`, and `tail` moves on by one slot. A full buffer takes
    /// nothing: the value comes back in `Err` and the buffer is left as it
    /// was.
    pub fn push(&mut self, value: T) -> (reply: Result<(), T>)
        requires
            old(self).wf(),
        ensures
            final(self).wf(),
            final(self).capacity() == old(self).capacity(),
            final(self)@ == after_push(old(self)@, old(self).capacity(), value),
            reply == push_reply(old(self)@, old(self).capacity(), value),
            old(self).is_full() ==> *final(self) == *old(self),
            !old(self).is_full() ==> {
                &&& final(self).storage() == old(self).storage().update(old(self).tail(), value)
                &&& final(self).head() == old(self).head()
                &&& final(self).tail() == ring_index(
                    old(self).tail(),
                    1,
                    old(self).storage().len() as int,
                )
            },
    {
        if self.is_full() {
            Err(value)
        } else {
            self.data[self.end] = value;
            self.end = self.next_pos(self.end);
            assert(self@ =~= old(self)@.push(value));
            Ok(())
        }
    }

    /// Takes the oldest element out of the slot at `head`, leaves a default
    /// value there, and moves `head` on by one slot. An empty buffer gives
    /// `None` and is left as it was.
    pub fn pop(&mut self) -> (oldest: Option<T>)
        requires
            old(self).wf(),
        ensures
            final(self).wf(),
            final(self).capacity() == old(self).capacity(),
            final(self)@ == after_pop(old(self)@),
            oldest == pop_reply(old(self)@),
            old(self).is_empty() ==> *final(self) == *old(self),
            !old(self).is_empty() ==> {
                &&& oldest == Some(old(self).storage()[old(self).head()])
                &&& is_default(final(self).storage()[old(self).head()])
                &&& final(self).storage() == old(self).storage().update(
                    old(self).head(),
                    final(self).storage()[old(self).head()],
                )
                &&& final(self).head() == ring_index(
                    old(self).head(),
                    1,
                    old(self).storage().len() as int,
                )
                &&& final(self).tail() == old(self).tail()
            },
    {
        if self.is_empty() {
            None
        } else {
            let mut oldest = T::default();
            core::mem::swap(&mut oldest, &mut self.data[self.begin]);
            self.begin = self.next_pos(self.begin);
            assert(self@ =~= old(self)@.drop_first());
            Some(oldest)
        }
    }

    /// The slot after `pos`, back at slot 0 after the last one.
    fn next_pos(&self, pos: usize) -> (next: usize)
        requires
            pos < self.storage().len(),
        ensures
            next == (pos + 1) % (self.storage().len() as int),
            next == ring_index(pos as int, 1, self.storage().len() as int),
    {
        let slots: usize = self.data.len();
        proof {
            lemma_ring_index_is_mod(pos as int, 1, slots as int);
        }
        (pos + 1) % slots
    }
}

} // verus!
