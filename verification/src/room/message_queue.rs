use std::collections::VecDeque;
use vstd::prelude::*;
use crate::clock::now_millis;
use crate::room::message::{Message, MessageView};

verus! {

/// The messages waiting for a peer that is not connected, in arrival order.
pub trait Queue {
    fn add_message(&mut self, message: Message);

    fn get_messages(&self) -> Vec<Message>;

    fn clear(&mut self);

    fn len(&self) -> usize;

    fn read_message(&mut self) -> Option<Message>;

    fn get_last_read_time(&self) -> u64;
}

/// A first-in first-out queue of messages together with the time (in
/// milliseconds since the epoch) at which it was created or last read.
pub struct MessageQueue {
    messages: VecDeque<Message>,
    last_read_time: u64,
}

/// The views of a sequence of messages.
pub open spec fn message_views(s: Seq<Message>) -> Seq<MessageView> {
    s.map_values(|m: Message| m@)
}

/// The mathematical content of a queue.
pub struct QueueView {
    pub messages: Seq<MessageView>,
    pub last_read: u64,
}

impl View for MessageQueue {
    type V = QueueView;

    open spec fn view(&self) -> QueueView {
        QueueView { messages: self.contents(), last_read: self.last_read() }
    }
}

impl MessageQueue {
    /// The queued messages, oldest first.
    pub closed spec fn contents(&self) -> Seq<MessageView> {
        message_views(self.messages@)
    }

    /// The time of creation or of the last successful read.
    pub closed spec fn last_read(&self) -> u64 {
        self.last_read_time
    }

    /// An empty queue stamped with the current time.
    pub fn new() -> (q: Self)
        ensures
            q.contents() == Seq::<MessageView>::empty(),
    {
        let now = now_millis();
        MessageQueue { messages: VecDeque::new(), last_read_time: now }
    }

    /// An empty queue stamped with the given time.
    pub fn new_at(now: u64) -> (q: Self)
        ensures
            q.contents() == Seq::<MessageView>::empty(),
            q.last_read() == now,
    {
        MessageQueue { messages: VecDeque::new(), last_read_time: now }
    }

    /// Takes the oldest message out of the queue; when there was one, the
    /// queue's read time becomes `now`.
    pub fn read_message_at(&mut self, now: u64) -> (r: Option<Message>)
        ensures
            old(self).contents().len() == 0 ==> r.is_none() && *final(self) == *old(self),
            old(self).contents().len() > 0 ==> {
                &&& r.is_some()
                &&& r.unwrap()@ == old(self).contents()[0]
                &&& final(self).contents() == old(self).contents().drop_first()
                &&& final(self).last_read() == now
            },
    {
        if self.messages.len() == 0 {
            return None;
        }
        match self.messages.pop_front() {
            Some(m) => {
                proof {
                    assert(message_views(self.messages@) =~= message_views(
                        old(self).messages@,
                    ).drop_first());
                }
                self.last_read_time = now;
                Some(m)
            },
            None => None,
        }
    }
}

impl Queue for MessageQueue {
    /// Appends a message at the back.
    fn add_message(&mut self, message: Message)
        ensures
            final(self).contents() == old(self).contents().push(message@),
            final(self).last_read() == old(self).last_read(),
    {
        self.messages.push_back(message);
        proof {
            assert(message_views(self.messages@) =~= message_views(old(self).messages@).push(
                message@,
            ));
        }
    }

    /// Copies of the queued messages, oldest first.
    fn get_messages(&self) -> (v: Vec<Message>)
        ensures
            message_views(v@) == self.contents(),
    {
        let mut out: Vec<Message> = Vec::new();
        let n = self.messages.len();
        let mut i: usize = 0;
        while i < n
            invariant
                n == self.messages@.len(),
                i <= n,
                message_views(out@) =~= message_views(self.messages@).take(i as int),
            decreases n - i,
        {
            let m = self.messages[i].clone();
            out.push(m);
            proof {
                assert(message_views(self.messages@).take(i + 1) =~= message_views(
                    self.messages@,
                ).take(i as int).push(self.messages@[i as int]@));
            }
            i = i + 1;
        }
        proof {
            assert(message_views(self.messages@).take(n as int) =~= message_views(
                self.messages@,
            ));
        }
        out
    }

    /// Drops every queued message.
    fn clear(&mut self)
        ensures
            final(self).contents() == Seq::<MessageView>::empty(),
            final(self).last_read() == old(self).last_read(),
    {
        self.messages.clear();
        proof {
            assert(message_views(self.messages@) =~= Seq::<MessageView>::empty());
        }
    }

    /// The number of queued messages.
    fn len(&self) -> (n: usize)
        ensures
            n == self.contents().len(),
    {
        self.messages.len()
    }

    /// Takes the oldest message out of the queue, stamping the queue with
    /// the current time when there was one.
    fn read_message(&mut self) -> (r: Option<Message>)
        ensures
            old(self).contents().len() == 0 ==> r.is_none() && *final(self) == *old(self),
            old(self).contents().len() > 0 ==> {
                &&& r.is_some()
                &&& r.unwrap()@ == old(self).contents()[0]
                &&& final(self).contents() == old(self).contents().drop_first()
            },
    {
        if self.messages.len() == 0 {
            return None;
        }
        let now = now_millis();
        self.read_message_at(now)
    }

    /// The time of creation or of the last successful read.
    fn get_last_read_time(&self) -> (t: u64)
        ensures
            t == self.last_read(),
    {
        self.last_read_time
    }
}

} // verus!
