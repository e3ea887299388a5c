//! What a subscriber's stream sends next: a pending event, a keep-alive
//! marker once it has been idle for the keep-alive interval, or nothing
//! until a deadline. The server's loop performs the frame and asks again.
use vstd::prelude::*;
use crate::bus::{NotificationBus, delivered, after_pull};
use crate::event::ChangeEvent;

verus! {

/// The idle interval after which a keep-alive marker is sent, in
/// milliseconds.
pub const KEEP_ALIVE_MS: u64 = 5000;

/// The next thing a subscriber's stream does.
#[derive(Debug)]
pub enum Frame {
    /// Send this event.
    Event(ChangeEvent),
    /// Send a keep-alive marker, which is no domain event.
    KeepAlive,
    /// Send nothing; ask again at this time, or when an event is published.
    Wait(u64),
    /// The subscription is gone: end the stream.
    Closed,
}

/// When an idle stream whose last frame went out at `last` is owed a
/// keep-alive marker.
pub open spec fn keep_alive_deadline(last: u64, interval: u64) -> u64 {
    if last + interval <= u64::MAX {
        (last + interval) as u64
    } else {
        u64::MAX
    }
}

/// The frame of a stream with nothing to deliver.
pub open spec fn idle_frame(now: u64, last: u64, interval: u64) -> Frame {
    if now >= keep_alive_deadline(last, interval) {
        Frame::KeepAlive
    } else {
        Frame::Wait(keep_alive_deadline(last, interval))
    }
}

/// The frame for an idle stream at time `now`, its last frame sent at
/// `last`.
pub fn idle_step(now: u64, last: u64, interval: u64) -> (r: Frame)
    ensures
        r == idle_frame(now, last, interval),
{
    let deadline = last.saturating_add(interval);
    if now >= deadline {
        Frame::KeepAlive
    } else {
        Frame::Wait(deadline)
    }
}

/// The next frame of subscription `id` at time `now`: its next event if it
/// is owed one, which is then taken from its queue; else the idle frame.
pub fn next_frame(bus: &mut NotificationBus, id: u64, now: u64, last: u64, interval: u64) -> (r: Frame)
    requires
        old(bus).wf(),
    ensures
        final(bus).wf(),
        final(bus).capacity() == old(bus).capacity(),
        final(bus).max_subscribers() == old(bus).max_subscribers(),
        final(bus).ids_left() == old(bus).ids_left(),
        !old(bus).subscriptions().contains_key(id) ==> r is Closed && final(bus).subscriptions()
            == old(bus).subscriptions(),
        old(bus).subscriptions().contains_key(id) ==> ({
            let v = old(bus).subscriptions()[id];
            if delivered(v).len() > 0 {
                &&& r == Frame::Event(delivered(v)[0])
                &&& final(bus).subscriptions() == old(bus).subscriptions().insert(id, after_pull(v))
            } else {
                &&& r == idle_frame(now, last, interval)
                &&& final(bus).subscriptions() == old(bus).subscriptions()
            }
        }),
{
    if !bus.is_subscribed(id) {
        return Frame::Closed;
    }
    match bus.pull(id) {
        Some(e) => Frame::Event(e),
        None => idle_step(now, last, interval),
    }
}

/// An idle stream is never silent for two keep-alive intervals: until one
/// interval has passed since its last frame it is told to wait no later
/// than that moment, and from then on it is sent a keep-alive marker.
pub proof fn lemma_keep_alive_before_double(now: u64, last: u64, interval: u64)
    requires
        interval > 0,
        last <= now,
        last + 2 * interval <= u64::MAX,
    ensures
        idle_frame(now, last, interval) is KeepAlive || (idle_frame(now, last, interval) matches Frame::Wait(d)
            && now < d && d == last + interval),
        idle_frame((last + interval) as u64, last, interval) is KeepAlive,
        last + interval < last + 2 * interval,
{
}

} // verus!
