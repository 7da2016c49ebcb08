//! Events that wait to be handed out, the oldest first.

use std::collections::VecDeque;

use vstd::prelude::*;

verus! {

/// What each item of a sequence is.
pub open spec fn views<T: View>(items: Seq<T>) -> Seq<T::V> {
    items.map_values(|item: T| item@)
}

/// What an item is, if there is one.
pub open spec fn viewed<T: View>(item: Option<T>) -> Option<T::V> {
    match item {
        Some(item) => Some(item@),
        None => None,
    }
}

/// A queue of events.
#[derive(Debug)]
pub struct EventQueue<T> {
    items: VecDeque<T>,
}

impl<T: View> View for EventQueue<T> {
    type V = Seq<T::V>;

    closed spec fn view(&self) -> Seq<T::V> {
        views(self.items@)
    }
}

impl<T: View> EventQueue<T> {
    /// A queue without events.
    pub fn new() -> (queue: EventQueue<T>)
        ensures
            queue@ == Seq::<T::V>::empty(),
    {
        let queue = EventQueue { items: VecDeque::new() };
        assert(queue@ =~= Seq::<T::V>::empty());
        queue
    }

    /// Adds an event as the last one.
    pub fn push_back(&mut self, item: T)
        ensures
            final(self)@ == old(self)@.push(item@),
    {
        self.items.push_back(item);
        assert(self@ =~= old(self)@.push(item@));
    }

    /// Takes the first event out.
    pub fn pop_front(&mut self) -> (item: Option<T>)
        ensures
            match item {
                Some(first) => {
                    &&& old(self)@.len() > 0
                    &&& first@ == old(self)@.first()
                    &&& final(self)@ == old(self)@.drop_first()
                },
                None => {
                    &&& old(self)@.len() == 0
                    &&& final(self)@ == old(self)@
                },
            },
    {
        let item = self.items.pop_front();
        assert(item is Some ==> self@ =~= old(self)@.drop_first());
        item
    }
}

} // verus!
