//! Bounded message history: newest first, oldest silently evicted when
//! the limit is reached. Records are held by value; evicting a record
//! from the history is purely local bookkeeping and cannot cancel or
//! otherwise affect a send that is still running against another copy of
//! its bookkeeping.

use vstd::prelude::*;

use crate::record::SendMessageInfo;

verus! {

/// The history list shown to the operator, newest record first.
#[derive(Debug)]
pub struct MessageHistory {
    pub items: Vec<SendMessageInfo>,
    pub limit: usize,
}

impl MessageHistory {
    pub fn new(limit: usize) -> (r: MessageHistory)
        ensures
            r.items@.len() == 0,
            r.limit == limit,
    {
        MessageHistory { items: Vec::new(), limit }
    }

    pub fn len(&self) -> (r: usize)
        ensures
            r == self.items@.len(),
    {
        self.items.len()
    }

    pub fn get(&self, i: usize) -> (r: &SendMessageInfo)
        requires
            i < self.items@.len(),
        ensures
            r == &self.items@[i as int],
    {
        &self.items[i]
    }

    /// Put a record at the front; if the history is full, the oldest
    /// record (at the back) is evicted first.
    pub fn push_front(&mut self, record: SendMessageInfo)
        ensures
            final(self).limit == old(self).limit,
            old(self).items@.len() < old(self).limit ==> final(self).items@ == old(
                self,
            ).items@.insert(0, record),
            old(self).items@.len() >= old(self).limit && old(self).items@.len() > 0 ==> final(self)
                .items@ == old(self).items@.drop_last().insert(0, record),
            old(self).items@.len() == 0 ==> final(self).items@ == seq![record],
    {
        if self.items.len() >= self.limit && self.items.len() > 0 {
            self.items.pop();
        }
        self.items.insert(0, record);
        proof {
            if old(self).items@.len() == 0 {
                assert(self.items@ =~= seq![record]);
            }
        }
    }

    /// Take the record at position `i` out of the history (as when the
    /// operator starts editing it).
    pub fn remove(&mut self, i: usize) -> (r: SendMessageInfo)
        requires
            i < old(self).items@.len(),
        ensures
            final(self).limit == old(self).limit,
            r == old(self).items@[i as int],
            final(self).items@ == old(self).items@.remove(i as int),
    {
        self.items.remove(i)
    }
}

} // verus!
