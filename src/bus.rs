//! The notification bus: every published event is copied into the bounded
//! queue of each active subscription. A full queue drops its oldest event and
//! remembers the loss, which the subscriber then receives as one
//! `DeliveryError(Lagged)` ahead of the events that remain. Publishing never
//! waits on a subscriber.
use vstd::prelude::*;
use crate::event::{ChangeEvent, DeliveryFault};

verus! {

/// The queue a subscription holds, as a mathematical value.
pub struct QueueView {
    /// The events kept, oldest first.
    pub queue: Seq<ChangeEvent>,
    /// Whether events were dropped since the subscriber last pulled.
    pub lagged: bool,
}

/// The loss signal that precedes the kept events of a lagging subscriber.
pub open spec fn lost_signal() -> ChangeEvent {
    ChangeEvent::DeliveryError(DeliveryFault::Lagged)
}

/// What the subscriber will pull, in order, if nothing more is published.
pub open spec fn delivered(v: QueueView) -> Seq<ChangeEvent> {
    if v.lagged {
        seq![lost_signal()] + v.queue
    } else {
        v.queue
    }
}

/// One publish as seen by one queue of the given capacity: a full queue
/// drops its oldest event first and is marked lagged.
pub open spec fn after_publish(v: QueueView, e: ChangeEvent, capacity: nat) -> QueueView {
    if v.queue.len() < capacity {
        QueueView { queue: v.queue.push(e), lagged: v.lagged }
    } else {
        QueueView { queue: v.queue.drop_first().push(e), lagged: true }
    }
}

/// One pull from a queue with something to deliver.
pub open spec fn after_pull(v: QueueView) -> QueueView {
    if v.lagged {
        QueueView { queue: v.queue, lagged: false }
    } else {
        QueueView { queue: v.queue.drop_first(), lagged: false }
    }
}

/// A queue after the events `es` were published to it, in order.
pub open spec fn publish_all(v: QueueView, es: Seq<ChangeEvent>, capacity: nat) -> QueueView
    decreases es.len(),
{
    if es.len() == 0 {
        v
    } else {
        after_publish(publish_all(v, es.drop_last(), capacity), es.last(), capacity)
    }
}

/// Every subscription of a bus after the events `es` were published.
pub open spec fn publish_all_to(
    subs: Map<u64, QueueView>,
    es: Seq<ChangeEvent>,
    capacity: nat,
) -> Map<u64, QueueView>
    decreases es.len(),
{
    if es.len() == 0 {
        subs
    } else {
        publish_all_to(subs, es.drop_last(), capacity).map_values(
            |v: QueueView| after_publish(v, es.last(), capacity),
        )
    }
}

/// A queue keeps the newest `capacity` of all the events it was given, and
/// is marked lagged once more than that arrived.
proof fn lemma_keeps_newest(v: QueueView, es: Seq<ChangeEvent>, capacity: nat)
    requires
        capacity > 0,
        v.queue.len() <= capacity,
    ensures
        ({
            let all = v.queue + es;
            let t = all.len();
            let kept = if t <= capacity { t } else { capacity };
            &&& publish_all(v, es, capacity).queue == all.subrange(t - kept, t as int)
            &&& publish_all(v, es, capacity).lagged == (v.lagged || t > capacity)
        }),
    decreases es.len(),
{
    let all = v.queue + es;
    let t = all.len();
    if es.len() == 0 {
        assert(all =~= v.queue);
        assert(all.subrange(0, t as int) =~= all);
    } else {
        let es1 = es.drop_last();
        lemma_keeps_newest(v, es1, capacity);
        let all1 = v.queue + es1;
        assert(all1 =~= all.drop_last());
        let t1 = all1.len();
        let kept1 = if t1 <= capacity { t1 } else { capacity };
        let q1 = all1.subrange(t1 - kept1, t1 as int);
        assert(all[t - 1] == es.last());
        if t1 < capacity {
            assert(q1.push(es.last()) =~= all.subrange(0, t as int));
        } else {
            assert(q1.drop_first().push(es.last()) =~= all.subrange(t - capacity, t as int));
        }
    }
}

/// Without overflow, a subscriber receives exactly the events published
/// since it subscribed, in the order they were published.
pub proof fn lemma_in_order_without_overflow(es: Seq<ChangeEvent>, capacity: nat)
    requires
        capacity > 0,
        es.len() <= capacity,
    ensures
        delivered(publish_all(QueueView { queue: Seq::empty(), lagged: false }, es, capacity))
            == es,
{
    let v = QueueView { queue: Seq::empty(), lagged: false };
    lemma_keeps_newest(v, es, capacity);
    assert(v.queue + es =~= es);
    assert(es.subrange(0, es.len() as int) =~= es);
}

/// When more events arrive than its queue holds, a stalled subscriber
/// receives one loss signal followed by the newest `capacity` events, and
/// nothing else: no gap goes unreported.
pub proof fn lemma_overflow_is_signalled(v: QueueView, es: Seq<ChangeEvent>, capacity: nat)
    requires
        capacity > 0,
        v.queue.len() <= capacity,
        v.queue.len() + es.len() > capacity,
    ensures
        ({
            let all = v.queue + es;
            delivered(publish_all(v, es, capacity)) == seq![lost_signal()] + all.subrange(
                all.len() - capacity,
                all.len() as int,
            )
        }),
        delivered(publish_all(v, es, capacity)).len() == capacity + 1,
{
    lemma_keeps_newest(v, es, capacity);
}

/// Each pull takes the first of what the subscriber is owed, and leaves the
/// rest in order.
pub proof fn lemma_pull_advances(v: QueueView)
    requires
        delivered(v).len() > 0,
    ensures
        delivered(after_pull(v)) == delivered(v).drop_first(),
{
    if v.lagged {
        assert(delivered(after_pull(v)) =~= delivered(v).drop_first());
    } else {
        assert(delivered(after_pull(v)) =~= delivered(v).drop_first());
    }
}

/// Closing one subscription leaves every other one as it would have been,
/// whatever is published afterwards.
pub proof fn lemma_close_no_cross_talk(
    subs: Map<u64, QueueView>,
    closed: u64,
    other: u64,
    es: Seq<ChangeEvent>,
    capacity: nat,
)
    requires
        subs.contains_key(other),
        other != closed,
    ensures
        publish_all_to(subs, es, capacity).contains_key(other),
        publish_all_to(subs.remove(closed), es, capacity).contains_key(other),
        publish_all_to(subs.remove(closed), es, capacity)[other]
            == publish_all_to(subs, es, capacity)[other],
        publish_all_to(subs, es, capacity)[other] == publish_all(subs[other], es, capacity),
    decreases es.len(),
{
    if es.len() > 0 {
        lemma_close_no_cross_talk(subs, closed, other, es.drop_last(), capacity);
        let f = |v: QueueView| after_publish(v, es.last(), capacity);
        let a = publish_all_to(subs, es.drop_last(), capacity);
        let b = publish_all_to(subs.remove(closed), es.drop_last(), capacity);
        assert(publish_all_to(subs, es, capacity) == a.map_values(f));
        assert(publish_all_to(subs.remove(closed), es, capacity) == b.map_values(f));
        assert(a.map_values(f)[other] == f(a[other]));
        assert(b.map_values(f)[other] == f(b[other]));
    } else {
        assert(subs.remove(closed).contains_key(other));
    }
}

/// Why the bus refused a subscriber.
#[derive(Debug, Clone, Copy, PartialEq, Eq, Structural)]
pub enum BusError {
    CapacityExceeded,
}

struct Subscriber {
    id: u64,
    queue: Vec<ChangeEvent>,
    lagged: bool,
}

impl Subscriber {
    spec fn view(&self) -> QueueView {
        QueueView { queue: self.queue@, lagged: self.lagged }
    }
}

/// The subscriptions, each a queue of at most `capacity` events.
pub struct NotificationBus {
    subs: Vec<Subscriber>,
    capacity: usize,
    max_subscribers: usize,
    next_id: u64,
    model: Ghost<Map<u64, QueueView>>,
}

/// The queue capacity of the bus the server runs.
pub const QUEUE_CAPACITY: usize = 5;

impl NotificationBus {
    /// The active subscriptions by identity.
    pub closed spec fn subscriptions(&self) -> Map<u64, QueueView> {
        self.model@
    }

    pub closed spec fn capacity(&self) -> nat {
        self.capacity as nat
    }

    pub closed spec fn max_subscribers(&self) -> nat {
        self.max_subscribers as nat
    }

    /// Whether a fresh identity is still to be had.
    pub closed spec fn ids_left(&self) -> bool {
        self.next_id < u64::MAX
    }

    pub closed spec fn wf(&self) -> bool {
        &&& self.capacity > 0
        &&& self.subs@.len() <= self.max_subscribers
        &&& forall|i: int, j: int|
            0 <= i < j < self.subs@.len() ==> self.subs@[i].id != self.subs@[j].id
        &&& forall|i: int| 0 <= i < self.subs@.len() ==> #[trigger] self.subs@[i].id < self.next_id
        &&& forall|i: int|
            0 <= i < self.subs@.len() ==> #[trigger] self.subs@[i].queue@.len() <= self.capacity
        &&& self.model@.dom().finite()
        &&& self.model@.dom().len() == self.subs@.len()
        &&& forall|k: u64| #[trigger]
            self.model@.contains_key(k) <==> exists|i: int|
                0 <= i < self.subs@.len() && #[trigger] self.subs@[i].id == k
        &&& forall|i: int|
            0 <= i < self.subs@.len() ==> self.model@[#[trigger] self.subs@[i].id]
                == self.subs@[i].view()
    }

    /// An empty bus whose queues hold `capacity` events each, admitting at
    /// most `max_subscribers` subscriptions at a time.
    pub fn new(capacity: usize, max_subscribers: usize) -> (r: NotificationBus)
        requires
            capacity > 0,
        ensures
            r.wf(),
            r.subscriptions() == Map::<u64, QueueView>::empty(),
            r.capacity() == capacity,
            r.max_subscribers() == max_subscribers,
            r.ids_left(),
    {
        NotificationBus {
            subs: Vec::new(),
            capacity,
            max_subscribers,
            next_id: 0,
            model: Ghost(Map::empty()),
        }
    }

    fn position(&self, id: u64) -> (r: Option<usize>)
        ensures
            match r {
                Some(i) => i < self.subs@.len() && self.subs@[i as int].id == id,
                None => forall|i: int| 0 <= i < self.subs@.len() ==> self.subs@[i].id != id,
            },
    {
        let mut i: usize = 0;
        while i < self.subs.len()
            invariant
                i <= self.subs@.len(),
                forall|j: int| 0 <= j < i ==> self.subs@[j].id != id,
            decreases self.subs@.len() - i,
        {
            if self.subs[i].id == id {
                return Some(i);
            }
            i = i + 1;
        }
        None
    }

    /// Whether subscription `id` is active.
    pub fn is_subscribed(&self, id: u64) -> (r: bool)
        requires
            self.wf(),
        ensures
            r == self.subscriptions().contains_key(id),
    {
        match self.position(id) {
            Some(i) => {
                assert(self.subs@[i as int].id == id);
                true
            },
            None => false,
        }
    }

    /// Registers a new subscriber with an empty queue. It is refused when
    /// the bus already holds its maximum of subscriptions, or has no fresh
    /// identity left.
    pub fn subscribe(&mut self) -> (r: Result<u64, BusError>)
        requires
            old(self).wf(),
        ensures
            final(self).wf(),
            final(self).capacity() == old(self).capacity(),
            final(self).max_subscribers() == old(self).max_subscribers(),
            old(self).subscriptions().len() < old(self).max_subscribers() && old(self).ids_left()
                <==> r is Ok,
            match r {
                Ok(id) => {
                    &&& !old(self).subscriptions().contains_key(id)
                    &&& final(self).subscriptions() == old(self).subscriptions().insert(
                        id,
                        QueueView { queue: Seq::empty(), lagged: false },
                    )
                },
                Err(e) => {
                    &&& e == BusError::CapacityExceeded
                    &&& final(self).subscriptions() == old(self).subscriptions()
                    &&& final(self).ids_left() == old(self).ids_left()
                },
            },
    {
        if self.subs.len() >= self.max_subscribers || self.next_id == u64::MAX {
            return Err(BusError::CapacityExceeded);
        }
        let id = self.next_id;
        assert(!self.model@.contains_key(id));
        self.subs.push(Subscriber { id, queue: Vec::new(), lagged: false });
        self.next_id = self.next_id + 1;
        let ghost fresh = QueueView { queue: Seq::empty(), lagged: false };
        self.model = Ghost(self.model@.insert(id, fresh));
        proof {
            let n = self.subs@.len() - 1;
            assert(self.subs@[n].view() =~= fresh);
            assert forall|k: u64| #[trigger]
                self.model@.contains_key(k) <==> exists|i: int|
                    0 <= i < self.subs@.len() && #[trigger] self.subs@[i].id == k by {
                if k != id && self.model@.contains_key(k) {
                    let i = choose|i: int| 0 <= i < old(self).subs@.len() && old(self).subs@[i].id == k;
                    assert(self.subs@[i].id == k);
                }
                if k == id {
                    assert(self.subs@[n].id == k);
                }
            }
        }
        Ok(id)
    }

    /// Hands `e` to every active subscription, without waiting on any.
    pub fn publish(&mut self, e: ChangeEvent)
        requires
            old(self).wf(),
        ensures
            final(self).wf(),
            final(self).capacity() == old(self).capacity(),
            final(self).max_subscribers() == old(self).max_subscribers(),
            final(self).ids_left() == old(self).ids_left(),
            final(self).subscriptions() == old(self).subscriptions().map_values(
                |v: QueueView| after_publish(v, e, old(self).capacity()),
            ),
    {
        let ghost cap = self.capacity as nat;
        let ghost old_model = self.model@;
        let ghost old_subs = self.subs@;
        let n = self.subs.len();
        let mut i: usize = 0;
        while i < n
            invariant
                n == self.subs@.len(),
                n == old_subs.len(),
                i <= n,
                self.capacity == cap,
                self.capacity > 0,
                self.max_subscribers == old(self).max_subscribers,
                self.next_id == old(self).next_id,
                self.model@ == old_model,
                forall|j: int| 0 <= j < n ==> #[trigger] self.subs@[j].id == old_subs[j].id,
                forall|j: int| 0 <= j < i ==> #[trigger] self.subs@[j].view() == after_publish(old_subs[j].view(), e, cap),
                forall|j: int| i <= j < n ==> #[trigger] self.subs@[j] == old_subs[j],
                forall|j: int| 0 <= j < n ==> #[trigger] self.subs@[j].queue@.len() <= cap,
            decreases n - i,
        {
            let mut sub = self.subs.remove(i);
            let ghost before = sub.view();
            if sub.queue.len() >= self.capacity {
                sub.queue.remove(0);
                sub.lagged = true;
            }
            sub.queue.push(e.duplicate());
            assert(sub.view() =~= after_publish(before, e, cap));
            self.subs.insert(i, sub);
            proof {
                assert forall|j: int| 0 <= j < n implies #[trigger] self.subs@[j].id == old_subs[j].id by {
                    if j < i {} else if j == i {} else {}
                }
            }
            i = i + 1;
        }
        let ghost new_model = old_model.map_values(|v: QueueView| after_publish(v, e, cap));
        self.model = Ghost(new_model);
        proof {
            assert(new_model.dom() =~= old_model.dom());
            assert forall|k: u64| #[trigger]
                self.model@.contains_key(k) <==> exists|j: int|
                    0 <= j < self.subs@.len() && #[trigger] self.subs@[j].id == k by {
                if self.model@.contains_key(k) {
                    let j = choose|j: int| 0 <= j < old_subs.len() && old_subs[j].id == k;
                    assert(self.subs@[j].id == k);
                }
                if exists|j: int| 0 <= j < self.subs@.len() && #[trigger] self.subs@[j].id == k {
                    let j = choose|j: int| 0 <= j < self.subs@.len() && #[trigger] self.subs@[j].id == k;
                    assert(old_subs[j].id == k);
                }
            }
            assert forall|j: int| 0 <= j < self.subs@.len() implies self.model@[#[trigger] self.subs@[j].id]
                == self.subs@[j].view() by {
                assert(old_subs[j].id == self.subs@[j].id);
                assert(old_model[old_subs[j].id] == old_subs[j].view());
            }
        }
    }

    /// Takes the next event for subscription `id`: the loss signal first if
    /// its queue overflowed, else its oldest kept event. `None` when the
    /// subscription is not active or has nothing to deliver.
    pub fn pull(&mut self, id: u64) -> (r: Option<ChangeEvent>)
        requires
            old(self).wf(),
        ensures
            final(self).wf(),
            final(self).capacity() == old(self).capacity(),
            final(self).max_subscribers() == old(self).max_subscribers(),
            final(self).ids_left() == old(self).ids_left(),
            if old(self).subscriptions().contains_key(id)
                && delivered(old(self).subscriptions()[id]).len() > 0 {
                &&& r == Some(delivered(old(self).subscriptions()[id])[0])
                &&& final(self).subscriptions() == old(self).subscriptions().insert(
                    id,
                    after_pull(old(self).subscriptions()[id]),
                )
            } else {
                &&& r is None
                &&& final(self).subscriptions() == old(self).subscriptions()
            },
    {
        let pos = self.position(id);
        let i = match pos {
            None => {
                return None;
            },
            Some(i) => i,
        };
        proof {
            assert(self.model@[self.subs@[i as int].id] == self.subs@[i as int].view());
        }
        if !self.subs[i].lagged && self.subs[i].queue.len() == 0 {
            return None;
        }
        let ghost old_subs = self.subs@;
        let ghost v = self.subs@[i as int].view();
        let mut sub = self.subs.remove(i);
        let r = if sub.lagged {
            sub.lagged = false;
            ChangeEvent::DeliveryError(DeliveryFault::Lagged)
        } else {
            sub.queue.remove(0)
        };
        assert(sub.view() =~= after_pull(v));
        self.subs.insert(i, sub);
        self.model = Ghost(self.model@.insert(id, after_pull(v)));
        proof {
            assert(self.subs@ =~= old_subs.update(i as int, self.subs@[i as int]));
            assert(self.model@.dom() =~= old(self).model@.dom());
            assert forall|k: u64| #[trigger]
                self.model@.contains_key(k) <==> exists|j: int|
                    0 <= j < self.subs@.len() && #[trigger] self.subs@[j].id == k by {
                if self.model@.contains_key(k) {
                    let j = choose|j: int| 0 <= j < old_subs.len() && old_subs[j].id == k;
                    assert(self.subs@[j].id == k);
                }
                if exists|j: int| 0 <= j < self.subs@.len() && #[trigger] self.subs@[j].id == k {
                    let j = choose|j: int| 0 <= j < self.subs@.len() && #[trigger] self.subs@[j].id == k;
                    assert(old_subs[j].id == k);
                }
            }
            assert forall|j: int| 0 <= j < self.subs@.len() implies self.model@[#[trigger] self.subs@[j].id]
                == self.subs@[j].view() by {
                if j != i {
                    assert(old_subs[j].id != id);
                }
            }
            if v.lagged {
                assert(delivered(v)[0] == lost_signal());
            }
        }
        Some(r)
    }

    /// Ends subscription `id` and releases its queue; the others are left
    /// as they are. Returns whether it was active.
    pub fn unsubscribe(&mut self, id: u64) -> (r: bool)
        requires
            old(self).wf(),
        ensures
            final(self).wf(),
            final(self).capacity() == old(self).capacity(),
            final(self).max_subscribers() == old(self).max_subscribers(),
            final(self).ids_left() == old(self).ids_left(),
            r == old(self).subscriptions().contains_key(id),
            final(self).subscriptions() == old(self).subscriptions().remove(id),
    {
        let pos = self.position(id);
        let i = match pos {
            None => {
                assert(self.model@.remove(id) =~= self.model@);
                return false;
            },
            Some(i) => i,
        };
        let ghost old_subs = self.subs@;
        self.subs.remove(i);
        self.model = Ghost(self.model@.remove(id));
        proof {
            assert forall|k: u64| #[trigger]
                self.model@.contains_key(k) <==> exists|j: int|
                    0 <= j < self.subs@.len() && #[trigger] self.subs@[j].id == k by {
                if self.model@.contains_key(k) {
                    let j = choose|j: int| 0 <= j < old_subs.len() && old_subs[j].id == k;
                    if j < i {
                        assert(self.subs@[j].id == k);
                    } else {
                        assert(self.subs@[j - 1].id == k);
                    }
                }
                if exists|j: int| 0 <= j < self.subs@.len() && #[trigger] self.subs@[j].id == k {
                    let j = choose|j: int| 0 <= j < self.subs@.len() && #[trigger] self.subs@[j].id == k;
                    if j < i {
                        assert(old_subs[j].id == k);
                    } else {
                        assert(old_subs[j + 1].id == k);
                    }
                }
            }
            assert forall|j: int| 0 <= j < self.subs@.len() implies self.model@[#[trigger] self.subs@[j].id]
                == self.subs@[j].view() by {
                if j < i {
                    assert(old_subs[j].id != id);
                    assert(old(self).model@[old_subs[j].id] == old_subs[j].view());
                } else {
                    assert(old_subs[j + 1].id != id);
                    assert(old(self).model@[old_subs[j + 1].id] == old_subs[j + 1].view());
                }
            }
            assert forall|a: int, b: int| 0 <= a < b < self.subs@.len() implies self.subs@[a].id != self.subs@[b].id by {
                if a < i {
                    if b < i {} else { assert(old_subs[a].id != old_subs[b + 1].id); }
                } else {
                    assert(old_subs[a + 1].id != old_subs[b + 1].id);
                }
            }
            assert forall|j: int| 0 <= j < self.subs@.len() implies #[trigger] self.subs@[j].id < self.next_id
                && self.subs@[j].queue@.len() <= self.capacity by {
                if j < i {
                    assert(old_subs[j].id < self.next_id);
                    assert(old_subs[j].queue@.len() <= self.capacity);
                } else {
                    assert(old_subs[j + 1].id < self.next_id);
                    assert(old_subs[j + 1].queue@.len() <= self.capacity);
                }
            }
        }
        true
    }
}

} // verus!
