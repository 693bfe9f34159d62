//! The outbound channel: the bounded queue between the input loop and the relay that
//! writes to the connection.
//!
//! Messages leave in the order in which they came. The queue holds at most `capacity`
//! messages: a message that finds it full is handed back, and `has_room` tells the
//! producer beforehand, so that it can wait instead. Closing the channel drops what it
//! still holds; a closed channel takes nothing and gives nothing.

use std::collections::VecDeque;
use vstd::prelude::*;
use crate::message::{Frame, OutboundMessage};

verus! {

/// Why the channel did not take a message.
#[derive(Clone, Copy, Debug, PartialEq, Eq, Structural)]
pub enum Refusal {
    /// The queue holds `capacity` messages.
    Full,
    /// The channel was closed.
    Closed,
}

/// A message that the channel did not take, and why.
#[derive(Clone, Debug, PartialEq, Eq)]
pub struct Refused {
    pub reason: Refusal,
    pub message: OutboundMessage,
}

/// The bounded queue of messages on their way to the connection.
#[derive(Debug)]
pub struct OutboundChannel {
    items: VecDeque<OutboundMessage>,
    capacity: usize,
    closed: bool,
}

/// What an `OutboundChannel` stands for.
pub struct ChannelView {
    /// The messages waiting, oldest first.
    pub queue: Seq<Frame>,
    /// The most that `queue` may hold.
    pub capacity: nat,
    /// Whether the channel was closed.
    pub closed: bool,
}

impl ChannelView {
    /// The bound holds, and a closed channel is empty.
    pub open spec fn wf(self) -> bool {
        &&& self.queue.len() <= self.capacity
        &&& self.closed ==> self.queue.len() == 0
    }

    /// Whether a message offered now is taken.
    pub open spec fn has_room(self) -> bool {
        !self.closed && self.queue.len() < self.capacity
    }

    /// Why a message offered now is not taken, if it is not.
    pub open spec fn refusal(self) -> Option<Refusal> {
        if self.closed {
            Some(Refusal::Closed)
        } else if self.queue.len() >= self.capacity {
            Some(Refusal::Full)
        } else {
            None
        }
    }

    /// The channel after `message` was offered.
    pub open spec fn offer(self, message: Frame) -> ChannelView {
        if self.has_room() {
            ChannelView { queue: self.queue.push(message), ..self }
        } else {
            self
        }
    }

    /// The channel after its oldest message was taken.
    pub open spec fn advance(self) -> ChannelView {
        if self.queue.len() > 0 {
            ChannelView { queue: self.queue.drop_first(), ..self }
        } else {
            self
        }
    }

    /// The channel after it was closed.
    pub open spec fn shut(self) -> ChannelView {
        ChannelView { queue: Seq::empty(), closed: true, ..self }
    }
}

impl View for OutboundChannel {
    type V = ChannelView;

    closed spec fn view(&self) -> ChannelView {
        ChannelView {
            queue: self.items.deep_view(),
            capacity: self.capacity as nat,
            closed: self.closed,
        }
    }
}

impl OutboundChannel {
    /// Every channel keeps its bound, and is empty once closed.
    #[verifier::type_invariant]
    pub open spec fn inv(self) -> bool {
        self@.wf()
    }

    /// An open, empty channel that holds at most `capacity` messages.
    pub fn new(capacity: usize) -> (c: OutboundChannel)
        ensures
            c@ == (ChannelView { queue: Seq::empty(), capacity: capacity as nat, closed: false }),
    {
        let items: VecDeque<OutboundMessage> = VecDeque::new();
        proof {
            assert(items.deep_view() =~= Seq::<Frame>::empty());
        }
        OutboundChannel { items, capacity, closed: false }
    }

    /// The number of messages waiting.
    pub fn len(&self) -> (n: usize)
        ensures
            n == self@.queue.len(),
    {
        self.items.len()
    }

    /// Whether no message is waiting.
    pub fn is_empty(&self) -> (b: bool)
        ensures
            b == (self@.queue.len() == 0),
    {
        self.items.len() == 0
    }

    /// The most messages that may wait.
    pub fn capacity(&self) -> (n: usize)
        ensures
            n == self@.capacity,
    {
        self.capacity
    }

    /// Whether the channel was closed.
    pub fn is_closed(&self) -> (b: bool)
        ensures
            b == self@.closed,
    {
        self.closed
    }

    /// Whether a message offered now is taken.
    pub fn has_room(&self) -> (b: bool)
        ensures
            b == self@.has_room(),
    {
        !self.closed && self.items.len() < self.capacity
    }

    /// Offers `message`. An open channel with room puts it behind the messages that
    /// wait; otherwise the message comes back, with the reason.
    pub fn try_send(&mut self, message: OutboundMessage) -> (r: Result<(), Refused>)
        ensures
            final(self)@ == old(self)@.offer(message@),
            match old(self)@.refusal() {
                None => r is Ok,
                Some(reason) => r matches Err(e) && e.reason == reason && e.message == message,
            },
    {
        proof {
            use_type_invariant(&*self);
        }
        if self.closed {
            return Err(Refused { reason: Refusal::Closed, message });
        }
        if self.items.len() >= self.capacity {
            return Err(Refused { reason: Refusal::Full, message });
        }
        let ghost before = self.items.deep_view();
        let mut items: VecDeque<OutboundMessage> = VecDeque::new();
        std::mem::swap(&mut items, &mut self.items);
        items.push_back(message);
        proof {
            assert(items.deep_view() =~= before.push(message@));
        }
        self.items = items;
        Ok(())
    }

    /// Takes the oldest message, if one waits.
    pub fn recv(&mut self) -> (r: Option<OutboundMessage>)
        ensures
            final(self)@ == old(self)@.advance(),
            r.deep_view() == (if old(self)@.queue.len() > 0 {
                Some(old(self)@.queue[0])
            } else {
                None
            }),
    {
        proof {
            use_type_invariant(&*self);
        }
        let ghost before = self.items.deep_view();
        let mut items: VecDeque<OutboundMessage> = VecDeque::new();
        std::mem::swap(&mut items, &mut self.items);
        let r = items.pop_front();
        proof {
            if before.len() > 0 {
                assert(items.deep_view() =~= before.drop_first());
            } else {
                assert(items.deep_view() =~= before);
            }
        }
        self.items = items;
        r
    }

    /// Closes the channel and drops the messages that wait.
    pub fn close(&mut self)
        ensures
            final(self)@ == old(self)@.shut(),
    {
        let items: VecDeque<OutboundMessage> = VecDeque::new();
        proof {
            assert(items.deep_view() =~= Seq::<Frame>::empty());
        }
        self.items = items;
        self.closed = true;
    }
}

} // verus!
