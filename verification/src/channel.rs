//! The FIFO queue shared by producers and a consumer.
//!
//! This is the queue's buffer logic: items enter at the tail with [`Channel::send`]
//! and leave at the head with [`Channel::recv`], so delivery order equals send
//! order. The blocking discipline around it (one lock per queue, a condition
//! variable that suspends a consumer until an item is present, and a wake-up
//! per `send`) lives with the unverified I/O shell, which only calls `recv`
//! once the buffer is non-empty.

use std::collections::VecDeque;
use vstd::prelude::*;

verus! {

/// A FIFO buffer of pending items, viewed as the sequence of its contents in
/// arrival order (head first).
pub struct Channel<T> {
    buffer: VecDeque<T>,
}

impl<T> View for Channel<T> {
    type V = Seq<T>;

    closed spec fn view(&self) -> Seq<T> {
        self.buffer@
    }
}

impl<T> Channel<T> {
    /// Create an empty channel.
    pub fn new() -> (c: Self)
        ensures
            c@ == Seq::<T>::empty(),
    {
        Channel { buffer: VecDeque::new() }
    }

    /// Append one item at the tail.
    pub fn send(&mut self, t: T)
        ensures
            final(self)@ == old(self)@.push(t),
    {
        self.buffer.push_back(t);
    }

    /// Remove and return the head item. The caller must know the channel is
    /// non-empty; a blocked consumer reaches this call only once an item has
    /// arrived.
    pub fn recv(&mut self) -> (t: T)
        requires
            old(self)@.len() > 0,
        ensures
            t == old(self)@[0],
            final(self)@ == old(self)@.drop_first(),
    {
        let t = self.buffer.pop_front();
        match t {
            Some(t) => {
                proof {
                    assert(final(self)@ =~= old(self)@.drop_first());
                }
                t
            },
            None => {
                proof {
                    assert(false);
                }
                unreached()
            },
        }
    }

    /// The number of pending items.
    pub fn len(&self) -> (n: usize)
        ensures
            n == self@.len(),
    {
        self.buffer.len()
    }

    /// Whether no item is pending.
    pub fn is_empty(&self) -> (b: bool)
        ensures
            b == (self@.len() == 0),
    {
        self.buffer.len() == 0
    }

    /// Run a read-only function over the current contents, for introspection:
    /// the function observes exactly the pending items in arrival order.
    pub fn read_buffer<F, R>(&self, func: F) -> (r: R) where F: Fn(&VecDeque<T>) -> R
        requires
            forall|q: &VecDeque<T>| q@ == self@ ==> #[trigger] call_requires(func, (q,)),
        ensures
            exists|q: &VecDeque<T>| q@ == self@ && #[trigger] call_ensures(func, (q,), r),
    {
        let q = &self.buffer;
        proof {
            assert(call_requires(func, (q,)));
        }
        let r = func(q);
        proof {
            assert(q@ == self@ && call_ensures(func, (q,), r));
        }
        r
    }
}

} // verus!
