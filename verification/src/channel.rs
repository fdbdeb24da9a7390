//! The command channel: a many-producer, single-consumer queue carrying
//! outbound requests from arbitrary callers into the socket multiplexer.
//!
//! The backpressure policy is unbounded producer-side buffering with an
//! opportunistic consumer: `send` appends without ever blocking the
//! producer, whatever the queue length, and fails only after consumer
//! shutdown — a terminal error, never retryable. `try_receive_all` drains
//! everything currently queued without blocking and returns an empty batch
//! when nothing is pending. Within one producer, enqueue order is
//! preserved; across producers no order is promised.

use vstd::prelude::*;
use crate::message::Request;

verus! {

/// The terminal error `send` reports once the consumer has shut down.
#[derive(Clone, Copy, PartialEq, Eq, Structural, Debug)]
pub struct SendError;

/// The queue of outbound requests, with the shutdown mark the consumer
/// leaves behind.
pub struct CommandChannel {
    queue: Vec<Request>,
    closed: bool,
}

impl View for CommandChannel {
    type V = Seq<Request>;

    closed spec fn view(&self) -> Seq<Request> {
        self.queue@
    }
}

impl CommandChannel {
    /// Whether the consumer has shut the channel down.
    pub closed spec fn is_closed(&self) -> bool {
        self.closed
    }

    /// An open, empty channel.
    pub fn new() -> (r: CommandChannel)
        ensures
            r@ == Seq::<Request>::empty(),
            !r.is_closed(),
    {
        CommandChannel { queue: Vec::new(), closed: false }
    }

    /// Appends one request. The producer is never blocked and never
    /// refused for length: while the channel is open, every send is
    /// accepted, however many items are already queued. After shutdown
    /// every send fails, the queue unchanged.
    pub fn send(&mut self, req: Request) -> (r: Result<(), SendError>)
        ensures
            final(self).is_closed() == old(self).is_closed(),
            !old(self).is_closed() ==> r is Ok && final(self)@ == old(self)@.push(req),
            old(self).is_closed() ==> r is Err && final(self)@ == old(self)@,
    {
        if self.closed {
            Err(SendError)
        } else {
            self.queue.push(req);
            Ok(())
        }
    }

    /// Takes everything currently queued, in enqueue order, leaving the
    /// queue empty; called with nothing pending it returns no items. It
    /// never blocks the consumer.
    pub fn try_receive_all(&mut self) -> (r: Vec<Request>)
        ensures
            r@ == old(self)@,
            final(self)@ == Seq::<Request>::empty(),
            final(self).is_closed() == old(self).is_closed(),
    {
        let mut drained: Vec<Request> = Vec::new();
        core::mem::swap(&mut drained, &mut self.queue);
        drained
    }

    /// The consumer's shutdown mark: after this, every `send` reports the
    /// terminal error. What was already queued stays readable.
    pub fn close(&mut self)
        ensures
            final(self)@ == old(self)@,
            final(self).is_closed(),
    {
        self.closed = true;
    }

    /// Whether the consumer has shut the channel down; a producer that
    /// sees `true` must treat the channel as terminally gone.
    pub fn is_shut_down(&self) -> (r: bool)
        ensures
            r == self.is_closed(),
    {
        self.closed
    }

    /// How many requests are pending.
    pub fn len(&self) -> (r: usize)
        ensures
            r == self@.len(),
    {
        self.queue.len()
    }
}

} // verus!
