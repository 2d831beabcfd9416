//! A first-in, first-out queue: the order in which work and messages move
//! from one owner to the next.

use vstd::prelude::*;
use std::collections::VecDeque;

verus! {

/// An unbounded queue. Its view is what it holds, oldest first.
#[derive(Debug)]
pub struct Queue<T> {
    items: VecDeque<T>,
}

impl<T> View for Queue<T> {
    type V = Seq<T>;

    closed spec fn view(&self) -> Seq<T> {
        self.items@
    }
}

impl<T> Queue<T> {
    /// An empty queue.
    pub fn new() -> (r: Queue<T>)
        ensures
            r@ == Seq::<T>::empty(),
    {
        Queue { items: VecDeque::new() }
    }

    /// Appends `item` behind everything that the queue holds.
    pub fn en_q(&mut self, item: T)
        ensures
            final(self)@ == old(self)@.push(item),
    {
        self.items.push_back(item);
    }

    /// Removes and returns the oldest item; `None`, and no change, where
    /// the queue is empty.
    pub fn de_q(&mut self) -> (r: Option<T>)
        ensures
            old(self)@.len() == 0 ==> r.is_none() && final(self)@ == old(self)@,
            old(self)@.len() > 0 ==> r == Some(old(self)@[0]) && final(self)@ == old(
                self,
            )@.drop_first(),
    {
        let r = self.items.pop_front();
        proof {
            if old(self)@.len() > 0 {
                assert(self@ =~= old(self)@.drop_first());
            }
        }
        r
    }

    /// How many items the queue holds.
    pub fn len(&self) -> (r: usize)
        ensures
            r == self@.len(),
    {
        self.items.len()
    }

    /// Removes everything, oldest first.
    pub fn drain(&mut self) -> (r: Vec<T>)
        ensures
            r@ == old(self)@,
            final(self)@ == Seq::<T>::empty(),
    {
        let mut out: Vec<T> = Vec::new();
        while self.items.len() > 0
            invariant
                out@ + self.items@ == old(self).items@,
            decreases self.items@.len(),
        {
            let ghost before = self.items@;
            match self.items.pop_front() {
                Some(item) => {
                    out.push(item);
                    assert(out@ + self.items@ =~= old(self).items@) by {
                        assert(self.items@ =~= before.drop_first());
                    }
                },
                None => {},
            }
        }
        assert(out@ =~= old(self)@);
        assert(self@ =~= Seq::<T>::empty());
        out
    }
}

/// What a queue holds after each of `items` was appended to `held`, one
/// after the other.
pub open spec fn after_en_q<T>(held: Seq<T>, items: Seq<T>) -> Seq<T>
    decreases items.len(),
{
    if items.len() == 0 {
        held
    } else {
        after_en_q(held.push(items[0]), items.drop_first())
    }
}

/// What goes in first comes out first: items that are appended one after
/// the other stand behind what the queue held, in the order in which they
/// came, which is the order in which the queue hands them out.
pub proof fn queue_keeps_arrival_order<T>(held: Seq<T>, items: Seq<T>)
    ensures
        after_en_q(held, items) == held + items,
        after_en_q(Seq::<T>::empty(), items) == items,
    decreases items.len(),
{
    if items.len() == 0 {
        assert(held + items =~= held);
    } else {
        queue_keeps_arrival_order(held.push(items[0]), items.drop_first());
        assert(held.push(items[0]) + items.drop_first() =~= held + items);
        queue_keeps_arrival_order(Seq::<T>::empty().push(items[0]), items.drop_first());
        assert(Seq::<T>::empty().push(items[0]) + items.drop_first() =~= items);
    }
}

} // verus!
