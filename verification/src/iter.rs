//! Draining a buffer: an adapter that owns it and hands its elements out,
//! oldest first, until none is left.

use vstd::prelude::*;
use crate::buffer::RingBuffer;
use crate::model::{after_pop, pop_reply};

verus! {

/// A buffer that is being drained. Each call of [`IntoIter::next`] is one
/// pop; nothing else can reach the buffer any more.
pub struct IntoIter<T: Default> {
    ring_buffer: RingBuffer<T>,
}

impl<T: Default> View for IntoIter<T> {
    type V = Seq<T>;

    /// The elements still to come, in the order in which they will come.
    open spec fn view(&self) -> Seq<T> {
        self.buffer()@
    }
}

impl<T: Default> RingBuffer<T> {
    /// Turns the buffer into the sequence of its elements, oldest first.
    /// The buffer is given up: its elements can only leave through the
    /// result.
    pub fn into_iter(self) -> (iter: IntoIter<T>)
        requires
            self.wf(),
        ensures
            iter.wf(),
            iter.buffer() == self,
            iter@ == self@,
    {
        IntoIter { ring_buffer: self }
    }
}

impl<T: Default> IntoIter<T> {
    /// The buffer that is being drained, as it stands now.
    pub closed spec fn buffer(&self) -> RingBuffer<T> {
        self.ring_buffer
    }

    /// The invariant of the representation: the buffer inside is well formed.
    pub open spec fn wf(&self) -> bool {
        self.buffer().wf()
    }

    /// The next element, which is what a pop takes from the buffer inside, or
    /// `None` once all have been handed out, and from then on `None` again.
    pub fn next(&mut self) -> (item: Option<T>)
        requires
            old(self).wf(),
        ensures
            final(self).wf(),
            final(self).buffer().capacity() == old(self).buffer().capacity(),
            final(self)@ == after_pop(old(self)@),
            item == pop_reply(old(self)@),
            old(self)@.len() == 0 ==> *final(self) == *old(self),
    {
        self.ring_buffer.pop()
    }

    /// Bounds on the number of elements still to come. Both bounds are that
    /// number itself, the length of the buffer inside.
    pub fn size_hint(&self) -> (hint: (usize, Option<usize>))
        requires
            self.wf(),
        ensures
            hint.0 == self@.len(),
            hint.0 == self.buffer().len(),
            hint.1 == Some(hint.0),
    {
        let size = self.ring_buffer.len();
        (size, Some(size))
    }
}

} // verus!
