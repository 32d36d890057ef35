//! The in-process activity broker: best-effort fan-out of newly appended
//! events to the live sessions.  It only shortens latency — the log is the
//! durability path.  Each subscriber gets a bounded buffer, so a slow
//! consumer is detected and disconnected instead of growing without bound:
//! once events had to be dropped, the subscriber is told it lagged and its
//! session must close and reconcile via catch-up.

use vstd::prelude::*;

use crate::model::{ActivityEvent, ActivityEventV};
use crate::store::evs_view;

verus! {

/// One live subscriber: its buffered events, oldest first, and whether the
/// broker had to drop events on it.
struct BrokerSubscriber {
    queue: Vec<ActivityEvent>,
    lagged: bool,
}

/// Mathematical value of one subscriber.
pub ghost struct BrokerSubscriberV {
    pub queue: Seq<ActivityEventV>,
    pub lagged: bool,
}

/// Mathematical state of the broker: the subscribers in subscription
/// order, and the buffer bound they share.
pub ghost struct ActivityBrokerV {
    pub subscribers: Seq<BrokerSubscriberV>,
    pub capacity: int,
}

/// The per-organization fan-out registry.  Subscribing hands out a slot
/// number; the slot stays (a session's own termination, not the registry,
/// ends its lifetime), so slot numbers remain stable.
pub struct ActivityBroker {
    subscribers: Vec<BrokerSubscriber>,
    capacity: usize,
}

impl View for ActivityBroker {
    type V = ActivityBrokerV;

    closed spec fn view(&self) -> ActivityBrokerV {
        ActivityBrokerV {
            subscribers: self.subscribers@.map_values(
                |s: BrokerSubscriber| BrokerSubscriberV { queue: evs_view(s.queue@), lagged: s.lagged },
            ),
            capacity: self.capacity as int,
        }
    }
}

/// What one `publish` does to one subscriber: an event is buffered while
/// room remains; with the buffer full, the event is dropped and the lag is
/// recorded.
pub open spec fn publish_one_v(s: BrokerSubscriberV, e: ActivityEventV, capacity: int) -> BrokerSubscriberV {
    if s.queue.len() < capacity {
        BrokerSubscriberV { queue: s.queue.push(e), ..s }
    } else {
        BrokerSubscriberV { lagged: true, ..s }
    }
}

/// What one poll hands a subscriber.
#[derive(Debug)]
pub enum BrokerPoll {
    Delivered(ActivityEvent),
    Lagged,
    Empty,
}

impl ActivityBroker {
    /// Buffers within range, and the bound is positive.
    pub closed spec fn wf(&self) -> bool {
        &&& self.capacity >= 1
        &&& forall|i: int|
            0 <= i < self.subscribers@.len() ==> (#[trigger] self.subscribers@[i]).queue@.len()
                <= self.capacity
    }

    /// A broker whose subscribers may buffer `capacity` events each.
    pub fn new(capacity: usize) -> (r: ActivityBroker)
        requires
            capacity >= 1,
        ensures
            r.wf(),
            r@.capacity == capacity,
            r@.subscribers == Seq::<BrokerSubscriberV>::empty(),
    {
        let r = ActivityBroker { subscribers: Vec::new(), capacity };
        proof {
            assert(r@.subscribers =~= Seq::<BrokerSubscriberV>::empty());
        }
        r
    }

    /// Attaches one session; its slot number comes back.
    pub fn subscribe(&mut self) -> (slot: usize)
        requires
            old(self).wf(),
        ensures
            final(self).wf(),
            slot == old(self)@.subscribers.len(),
            final(self)@ == (ActivityBrokerV {
                subscribers: old(self)@.subscribers.push(
                    BrokerSubscriberV { queue: Seq::empty(), lagged: false },
                ),
                ..old(self)@
            }),
    {
        let slot = self.subscribers.len();
        self.subscribers.push(BrokerSubscriber { queue: Vec::new(), lagged: false });
        proof {
            assert(evs_view(self.subscribers@.last().queue@) =~= Seq::<ActivityEventV>::empty());
            assert(self@.subscribers.last() == (BrokerSubscriberV {
                queue: Seq::empty(),
                lagged: false,
            }));
            assert(self@.subscribers =~~= old(self)@.subscribers.push(
                BrokerSubscriberV { queue: Seq::empty(), lagged: false },
            ));
        }
        slot
    }

    /// Fans one accepted event out to every subscriber, best effort: full
    /// buffers drop it and record the lag instead.
    pub fn publish(&mut self, event: &ActivityEvent)
        requires
            old(self).wf(),
        ensures
            final(self).wf(),
            final(self)@.capacity == old(self)@.capacity,
            final(self)@.subscribers.len() == old(self)@.subscribers.len(),
            forall|i: int|
                0 <= i < old(self)@.subscribers.len() ==> final(self)@.subscribers[i]
                    == publish_one_v(
                    #[trigger] old(self)@.subscribers[i],
                    event@,
                    old(self)@.capacity,
                ),
    {
        let n = self.subscribers.len();
        let mut i: usize = 0;
        while i < n
            invariant
                self.wf(),
                n == self.subscribers@.len(),
                i <= n,
                self@.capacity == old(self)@.capacity,
                self@.subscribers.len() == old(self)@.subscribers.len(),
                forall|j: int|
                    0 <= j < i ==> self@.subscribers[j] == publish_one_v(
                        #[trigger] old(self)@.subscribers[j],
                        event@,
                        old(self)@.capacity,
                    ),
                forall|j: int|
                    i <= j < n ==> #[trigger] self@.subscribers[j] == old(self)@.subscribers[j],
            decreases n - i,
        {
            let ghost pre = self@.subscribers;
            let ghost pre_rows = self.subscribers@;
            if self.subscribers[i].queue.len() < self.capacity {
                let copy = event.clone();
                self.subscribers[i].queue.push(copy);
            } else {
                self.subscribers[i].lagged = true;
            }
            proof {
                assert forall|j: int| 0 <= j < n && j != i implies #[trigger] self@.subscribers[j]
                    == pre[j] by {
                    assert(self.subscribers@[j] == pre_rows[j]);
                }
                assert(self@.subscribers[i as int] == publish_one_v(
                    pre[i as int],
                    event@,
                    old(self)@.capacity,
                )) by {
                    assert(pre[i as int].queue == evs_view(pre_rows[i as int].queue@));
                    assert(pre[i as int].queue.len() == pre_rows[i as int].queue@.len());
                    if pre_rows[i as int].queue@.len() < self.capacity {
                        assert(self.subscribers@[i as int].queue@ == pre_rows[
                            i as int].queue@.push(*event));
                        assert(evs_view(self.subscribers@[i as int].queue@) =~= evs_view(
                            pre_rows[i as int].queue@,
                        ).push(event@));
                    } else {
                        assert(self.subscribers@[i as int].queue@ == pre_rows[i as int].queue@);
                        assert(self.subscribers@[i as int].lagged);
                    }
                }
                assert forall|j: int|
                    0 <= j < self.subscribers@.len() implies (
                #[trigger] self.subscribers@[j]).queue@.len() <= self.capacity by {
                    if j != i {
                        assert(self.subscribers@[j] == pre_rows[j]);
                    }
                }
            }
            i = i + 1;
        }
    }

    /// Hands a subscriber its next buffered event.  Once the broker had to
    /// drop events on this subscriber, every poll reports that it lagged —
    /// its stream has a known hole, so its session must close and the
    /// client reconcile via catch-up; the hole is never papered over.
    pub fn poll_next(&mut self, slot: usize) -> (r: BrokerPoll)
        requires
            old(self).wf(),
            slot < old(self)@.subscribers.len(),
        ensures
            final(self).wf(),
            final(self)@.capacity == old(self)@.capacity,
            final(self)@.subscribers.len() == old(self)@.subscribers.len(),
            forall|j: int|
                0 <= j < old(self)@.subscribers.len() && j != slot
                    ==> #[trigger] final(self)@.subscribers[j] == old(self)@.subscribers[j],
            ({
                let s = old(self)@.subscribers[slot as int];
                match r {
                    BrokerPoll::Lagged => s.lagged && final(self)@.subscribers[slot as int] == s,
                    BrokerPoll::Delivered(e) => !s.lagged && s.queue.len() > 0 && e@ == s.queue[0]
                        && final(self)@.subscribers[slot as int] == (BrokerSubscriberV {
                        queue: s.queue.drop_first(),
                        ..s
                    }),
                    BrokerPoll::Empty => !s.lagged && s.queue.len() == 0
                        && final(self)@.subscribers[slot as int] == s,
                }
            }),
    {
        let ghost pre = self@.subscribers;
        if self.subscribers[slot].lagged {
            BrokerPoll::Lagged
        } else if self.subscribers[slot].queue.len() > 0 {
            let e = self.subscribers[slot].queue.remove(0);
            proof {
                assert(evs_view(self.subscribers@[slot as int].queue@) =~= evs_view(
                    old(self).subscribers@[slot as int].queue@,
                ).drop_first());
                assert(pre[slot as int].queue.drop_first() =~= evs_view(
                    old(self).subscribers@[slot as int].queue@,
                ).drop_first());
                assert forall|j: int|
                    0 <= j < pre.len() && j != slot implies #[trigger] self@.subscribers[j]
                    == pre[j] by {}
            }
            BrokerPoll::Delivered(e)
        } else {
            BrokerPoll::Empty
        }
    }
}

} // verus!