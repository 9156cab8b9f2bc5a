//! The broadcast bus: bounded multi-producer, multi-subscriber fan-out of
//! tagged payloads. A publish appends a copy of the envelope to every active
//! subscription's queue; a full queue drops its oldest undelivered envelope
//! first, so slow subscribers lose old envelopes and never block publishers.

use vstd::prelude::*;

use crate::message::{Message, MsgView};

verus! {

/// One payload on the bus, tagged with the publishing session's endpoint.
pub struct Envelope {
    pub from: u64,
    pub message: Message,
}

/// The value of an [`Envelope`].
#[verifier::ext_equal]
pub struct EnvelopeV {
    pub from: u64,
    pub message: MsgView,
}

impl View for Envelope {
    type V = EnvelopeV;

    open spec fn view(&self) -> EnvelopeV {
        EnvelopeV { from: self.from, message: self.message@ }
    }
}

impl Envelope {
    /// A field-wise copy with the same value.
    pub fn duplicate(&self) -> (r: Envelope)
        ensures
            r@ == self@,
    {
        Envelope { from: self.from, message: self.message.duplicate() }
    }
}

/// One subscription's state.
struct Subscription {
    active: bool,
    queue: Vec<Envelope>,
}

/// The value of one subscription.
#[verifier::ext_equal]
pub struct SubV {
    pub active: bool,
    pub queue: Seq<EnvelopeV>,
}

impl View for Subscription {
    type V = SubV;

    closed spec fn view(&self) -> SubV {
        SubV {
            active: self.active,
            queue: Seq::new(self.queue@.len(), |i: int| self.queue@[i]@),
        }
    }
}

/// The value of the whole bus.
#[verifier::ext_equal]
pub struct BusV {
    pub subs: Seq<SubV>,
    pub capacity: nat,
}

/// Appending to a bounded queue: when full, the oldest envelope is dropped.
pub open spec fn push_bounded(q: Seq<EnvelopeV>, e: EnvelopeV, cap: nat) -> Seq<EnvelopeV> {
    if q.len() >= cap {
        q.drop_first().push(e)
    } else {
        q.push(e)
    }
}

/// The bus. Subscriptions are identified by the index handed out by
/// [`BroadcastBus::subscribe`] and live until released.
pub struct BroadcastBus {
    subs: Vec<Subscription>,
    capacity: usize,
}

impl View for BroadcastBus {
    type V = BusV;

    closed spec fn view(&self) -> BusV {
        BusV {
            subs: Seq::new(self.subs@.len(), |i: int| self.subs@[i]@),
            capacity: self.capacity as nat,
        }
    }
}

impl BroadcastBus {
    /// Internal consistency: a positive bound that no queue exceeds.
    pub open spec fn wf(&self) -> bool {
        self@.capacity > 0 && forall|i: int|
            0 <= i < self@.subs.len() ==> (#[trigger] self@.subs[i]).queue.len() <= self@.capacity
    }

    /// An empty bus with the given per-subscription capacity.
    pub fn new(capacity: usize) -> (r: BroadcastBus)
        requires
            capacity >= 1,
        ensures
            r.wf(),
            r@.subs.len() == 0,
            r@.capacity == capacity,
    {
        BroadcastBus { subs: Vec::new(), capacity }
    }

    /// Open a new subscription with an empty queue; its index identifies it
    /// from then on.
    pub fn subscribe(&mut self) -> (idx: usize)
        requires
            old(self).wf(),
        ensures
            final(self).wf(),
            final(self)@.capacity == old(self)@.capacity,
            idx == old(self)@.subs.len(),
            final(self)@.subs == old(self)@.subs.push(
                SubV { active: true, queue: Seq::empty() },
            ),
    {
        let idx = self.subs.len();
        self.subs.push(Subscription { active: true, queue: Vec::new() });
        proof {
            assert(final(self)@.subs =~~= old(self)@.subs.push(
                SubV { active: true, queue: Seq::empty() },
            ));
        }
        idx
    }

    /// Release a subscription: it stops receiving and its queue is emptied.
    pub fn unsubscribe(&mut self, idx: usize)
        requires
            old(self).wf(),
            idx < old(self)@.subs.len(),
        ensures
            final(self).wf(),
            final(self)@.capacity == old(self)@.capacity,
            final(self)@.subs == old(self)@.subs.update(
                idx as int,
                SubV { active: false, queue: Seq::empty() },
            ),
    {
        let _ = self.subs.remove(idx);
        self.subs.insert(idx, Subscription { active: false, queue: Vec::new() });
        proof {
            assert(final(self)@.subs =~~= old(self)@.subs.update(
                idx as int,
                SubV { active: false, queue: Seq::empty() },
            ));
        }
    }

    /// Deliver a copy of the envelope to every active subscription, dropping
    /// the oldest queued envelope of any subscription that is full. Inactive
    /// subscriptions are untouched, and the publisher never waits.
    pub fn publish(&mut self, env: &Envelope)
        requires
            old(self).wf(),
        ensures
            final(self).wf(),
            final(self)@.capacity == old(self)@.capacity,
            final(self)@.subs.len() == old(self)@.subs.len(),
            forall|i: int|
                0 <= i < old(self)@.subs.len() ==> final(self)@.subs[i] == if (
                #[trigger] old(self)@.subs[i]).active {
                    SubV {
                        active: true,
                        queue: push_bounded(
                            old(self)@.subs[i].queue,
                            env@,
                            old(self)@.capacity,
                        ),
                    }
                } else {
                    old(self)@.subs[i]
                },
    {
        let n = self.subs.len();
        let mut k: usize = 0;
        while k < n
            invariant
                k <= n,
                n == self@.subs.len(),
                self.wf(),
                self@.capacity == old(self)@.capacity,
                forall|i: int|
                    k <= i < n ==> #[trigger] self@.subs[i] == old(self)@.subs[i],
                forall|i: int|
                    0 <= i < k ==> self@.subs[i] == if (#[trigger] old(self)@.subs[i]).active {
                        SubV {
                            active: true,
                            queue: push_bounded(
                                old(self)@.subs[i].queue,
                                env@,
                                old(self)@.capacity,
                            ),
                        }
                    } else {
                        old(self)@.subs[i]
                    },
            decreases n - k,
        {
            let ghost before = self@.subs;
            let mut sub = self.subs.remove(k);
            if sub.active {
                let ghost q0 = sub@.queue;
                if sub.queue.len() >= self.capacity {
                    let _ = sub.queue.remove(0);
                    proof {
                        assert(sub@.queue =~= q0.drop_first());
                    }
                }
                sub.queue.push(env.duplicate());
                proof {
                    assert(sub@.queue =~= push_bounded(q0, env@, self@.capacity));
                }
            }
            self.subs.insert(k, sub);
            proof {
                assert(self@.subs =~~= before.update(k as int, self@.subs[k as int]));
                assert(before[k as int] == old(self)@.subs[k as int]);
                assert(self@.subs[k as int] == sub@);
                if old(self)@.subs[k as int].active {
                    assert(sub@.queue == push_bounded(
                        old(self)@.subs[k as int].queue,
                        env@,
                        old(self)@.capacity,
                    ));
                    assert(sub@.active);
                    assert(self@.subs[k as int] == (SubV {
                        active: true,
                        queue: push_bounded(
                            old(self)@.subs[k as int].queue,
                            env@,
                            old(self)@.capacity,
                        ),
                    }));
                } else {
                    assert(self@.subs[k as int] == old(self)@.subs[k as int]);
                }
                assert(self@.subs[k as int].queue.len() <= self@.capacity);
            }
            k += 1;
        }
    }

    /// Take the oldest queued envelope of a subscription, if any: queues are
    /// first-in, first-out.
    pub fn recv(&mut self, idx: usize) -> (r: Option<Envelope>)
        requires
            old(self).wf(),
            idx < old(self)@.subs.len(),
        ensures
            final(self).wf(),
            final(self)@.capacity == old(self)@.capacity,
            final(self)@.subs.len() == old(self)@.subs.len(),
            forall|i: int|
                0 <= i < old(self)@.subs.len() && i != idx ==> final(self)@.subs[i] == (
                #[trigger] old(self)@.subs[i]),
            old(self)@.subs[idx as int].queue.len() == 0 ==> r is None && final(self)@ == old(
                self,
            )@,
            old(self)@.subs[idx as int].queue.len() > 0 ==> (r matches Some(e) && e@ == old(
                self,
            )@.subs[idx as int].queue[0] && final(self)@.subs[idx as int] == (SubV {
                active: old(self)@.subs[idx as int].active,
                queue: old(self)@.subs[idx as int].queue.drop_first(),
            })),
    {
        let ghost before = self@.subs;
        let mut sub = self.subs.remove(idx);
        if sub.queue.len() == 0 {
            self.subs.insert(idx, sub);
            proof {
                assert(final(self)@.subs =~~= before);
            }
            None
        } else {
            let ghost q0 = sub@.queue;
            let e = sub.queue.remove(0);
            proof {
                assert(sub@.queue =~= q0.drop_first());
            }
            self.subs.insert(idx, sub);
            proof {
                assert(final(self)@.subs =~~= before.update(
                    idx as int,
                    final(self)@.subs[idx as int],
                ));
            }
            Some(e)
        }
    }
}

} // verus!
