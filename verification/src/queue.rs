//! The queue between the receive callback and the consumer.

use embassy_sync::blocking_mutex::raw::CriticalSectionRawMutex;
use embassy_sync::channel::Channel;
use vstd::prelude::*;

use crate::client::SnifferEvent;

verus! {

/// How many events the queue holds.
pub const CHANNEL_DEPTH: usize = 32;

/// A bounded queue of events: `embassy_sync`'s `Channel`. Verus sees nothing
/// inside; what it holds is [`queued_events`].
#[verifier::external_body]
pub struct SampleQueue {
    inner: Channel<CriticalSectionRawMutex, SnifferEvent, CHANNEL_DEPTH>,
}

/// The events in a queue, the next one to be received first.
pub uninterp spec fn queued_events(q: SampleQueue) -> Seq<SnifferEvent>;

/// `Channel::new` gives an empty queue.
#[verifier::external_body]
pub(crate) fn new_queue() -> (q: SampleQueue)
    ensures
        queued_events(q) == Seq::<SnifferEvent>::empty(),
{
    SampleQueue { inner: Channel::new() }
}

/// `Channel::try_send` appends an event, or refuses it and leaves the queue as
/// it was if it already holds as many as its depth.
#[verifier::external_body]
pub(crate) fn try_send(q: &mut SampleQueue, event: SnifferEvent) -> (accepted: bool)
    ensures
        accepted == (queued_events(*old(q)).len() < CHANNEL_DEPTH),
        accepted ==> queued_events(*final(q)) == queued_events(*old(q)).push(event),
        !accepted ==> queued_events(*final(q)) == queued_events(*old(q)),
{
    q.inner.try_send(event).is_ok()
}

/// `Channel::try_receive` removes the oldest event and returns it, or `None` if
/// the queue is empty.
#[verifier::external_body]
pub(crate) fn try_receive(q: &mut SampleQueue) -> (event: Option<SnifferEvent>)
    ensures
        queued_events(*old(q)).len() == 0 ==> event is None && queued_events(*final(q))
            == queued_events(*old(q)),
        queued_events(*old(q)).len() > 0 ==> event == Some(queued_events(*old(q))[0])
            && queued_events(*final(q)) == queued_events(*old(q)).skip(1),
{
    q.inner.try_receive().ok()
}

} // verus!
