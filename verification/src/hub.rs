//! The broadcast hub: every event that is published reaches every
//! subscriber, in the order of publication.
//!
//! Each subscriber has a buffer of bounded size. A publisher never waits: an
//! event that meets a full buffer pushes the oldest event out of it. Which
//! events a connection writes to its socket is decided by the connection,
//! with [`HubEvent::is_for`].

use std::collections::VecDeque;
use vstd::prelude::*;
use vstd::slice::slice_to_vec;

verus! {

/// An event on the hub: who caused it, whether it is meant for that
/// connection alone, and the frame to write.
#[derive(Debug, Clone, PartialEq, Eq)]
pub struct HubEvent {
    pub origin: u64,
    pub directed: bool,
    pub payload: Vec<u8>,
}

/// View of [`HubEvent`].
pub struct EventView {
    pub origin: u64,
    pub directed: bool,
    pub payload: Seq<u8>,
}

impl View for HubEvent {
    type V = EventView;

    open spec fn view(&self) -> EventView {
        EventView { origin: self.origin, directed: self.directed, payload: self.payload@ }
    }
}

/// Whether the connection `to` writes the event to its socket: a directed
/// event goes to the connection that caused it and to no other, any other
/// event to every connection but the one that caused it.
pub open spec fn delivers(event: EventView, to: u64) -> bool {
    if event.directed {
        event.origin == to
    } else {
        event.origin != to
    }
}

impl HubEvent {
    /// A copy of the event.
    pub fn duplicate(&self) -> (copy: HubEvent)
        ensures
            copy@ == self@,
    {
        HubEvent {
            origin: self.origin,
            directed: self.directed,
            payload: slice_to_vec(self.payload.as_slice()),
        }
    }

    /// Whether the connection `conn` writes this event to its socket.
    pub fn is_for(&self, conn: u64) -> (yes: bool)
        ensures
            yes == delivers(self@, conn),
    {
        if self.directed {
            self.origin == conn
        } else {
            self.origin != conn
        }
    }
}

/// The views of a run of events.
pub open spec fn events_view(events: Seq<HubEvent>) -> Seq<EventView> {
    events.map_values(|event: HubEvent| event@)
}

/// A buffer after an event has come in: where the buffer was full, its
/// oldest event has left.
pub open spec fn enqueue(queue: Seq<EventView>, event: EventView, capacity: nat) -> Seq<
    EventView,
> {
    if queue.len() >= capacity {
        queue.skip(1).push(event)
    } else {
        queue.push(event)
    }
}

/// The buffers after an event has been published: it has come into every
/// one of them.
pub open spec fn published(
    pending: Map<u64, Seq<EventView>>,
    event: EventView,
    capacity: nat,
) -> Map<u64, Seq<EventView>> {
    Map::new(
        |id: u64| pending.dom().contains(id),
        |id: u64| enqueue(pending[id], event, capacity),
    )
}

/// No buffer holds more than `capacity` events.
pub open spec fn bounded(pending: Map<u64, Seq<EventView>>, capacity: nat) -> bool {
    forall|id: u64| pending.dom().contains(id) ==> (#[trigger] pending[id]).len() <= capacity
}

struct Subscription {
    id: u64,
    pending: VecDeque<HubEvent>,
}

/// The hub. Its view maps every subscriber to the events that wait for it,
/// oldest first.
pub struct Hub {
    capacity: usize,
    next_id: u64,
    subs: Vec<Subscription>,
}

impl View for Hub {
    type V = Map<u64, Seq<EventView>>;

    closed spec fn view(&self) -> Map<u64, Seq<EventView>> {
        Map::new(
            |id: u64| self.has(id),
            |id: u64| events_view(self.subs@[self.slot_of(id)].pending@),
        )
    }
}

impl Hub {
    spec fn has(&self, id: u64) -> bool {
        exists|i: int| 0 <= i < self.subs@.len() && (#[trigger] self.subs@[i]).id == id
    }

    spec fn slot_of(&self, id: u64) -> int {
        choose|i: int| 0 <= i < self.subs@.len() && (#[trigger] self.subs@[i]).id == id
    }

    /// How many events a buffer holds at most.
    pub closed spec fn capacity(&self) -> nat {
        self.capacity as nat
    }

    /// How many subscriptions have been handed out so far. The next
    /// subscriber gets this number as its id.
    pub closed spec fn issued(&self) -> nat {
        self.next_id as nat
    }

    /// The hub's invariant: a capacity of at least one, distinct ids that
    /// were all handed out by this hub, no buffer over capacity.
    pub closed spec fn wf(&self) -> bool {
        &&& self.capacity >= 1
        &&& forall|i: int| 0 <= i < self.subs@.len() ==> (#[trigger] self.subs@[i]).id < self.next_id
        &&& forall|i: int, j: int|
            0 <= i < j < self.subs@.len() ==> (#[trigger] self.subs@[i]).id != (
            #[trigger] self.subs@[j]).id
        &&& forall|i: int|
            0 <= i < self.subs@.len() ==> (#[trigger] self.subs@[i]).pending@.len()
                <= self.capacity
    }

    proof fn lemma_slot(&self, i: int)
        requires
            self.wf(),
            0 <= i < self.subs@.len(),
        ensures
            self.has(self.subs@[i].id),
            self.slot_of(self.subs@[i].id) == i,
            self@.dom().contains(self.subs@[i].id),
            self@[self.subs@[i].id] == events_view(self.subs@[i].pending@),
    {
        let id = self.subs@[i].id;
        let j = self.slot_of(id);
        assert(j == i);
    }

    /// What a well-formed hub guarantees of its view.
    pub proof fn lemma_wf(&self)
        requires
            self.wf(),
        ensures
            self.capacity() >= 1,
            bounded(self@, self.capacity()),
            forall|id: u64| self@.dom().contains(id) ==> id < self.issued(),
    {
        assert forall|id: u64| self@.dom().contains(id) implies (#[trigger] self@[id]).len()
            <= self.capacity() && id < self.issued() by {
            let i = self.slot_of(id);
            self.lemma_slot(i);
        }
    }

    /// A hub without subscribers, whose buffers will hold `capacity` events
    /// each.
    pub fn new(capacity: usize) -> (hub: Hub)
        requires
            capacity > 0,
        ensures
            hub.wf(),
            hub@ == Map::<u64, Seq<EventView>>::empty(),
            hub.capacity() == capacity,
            hub.issued() == 0,
    {
        let hub = Hub { capacity, next_id: 0, subs: Vec::new() };
        assert(hub@ =~= Map::<u64, Seq<EventView>>::empty());
        hub
    }

    /// Adds a subscriber and hands out its id: the number of subscriptions
    /// handed out before. The subscriber starts with an empty buffer, so it
    /// sees the events published from now on and none of the earlier ones.
    /// Nothing happens once every id has been handed out.
    pub fn subscribe(&mut self) -> (r: Option<u64>)
        requires
            old(self).wf(),
        ensures
            final(self).wf(),
            final(self).capacity() == old(self).capacity(),
            match r {
                Some(id) => {
                    &&& id == old(self).issued()
                    &&& final(self).issued() == id + 1
                    &&& !old(self)@.dom().contains(id)
                    &&& final(self)@ == old(self)@.insert(id, Seq::<EventView>::empty())
                },
                None => {
                    &&& old(self).issued() == u64::MAX
                    &&& final(self).issued() == old(self).issued()
                    &&& final(self)@ == old(self)@
                },
            },
    {
        if self.next_id == u64::MAX {
            return None;
        }
        let id: u64 = self.next_id;
        self.next_id = id + 1;
        self.subs.push(Subscription { id, pending: VecDeque::new() });
        proof {
            let before = *old(self);
            let after = *self;
            let last = before.subs@.len() as int;
            assert(after.wf());
            assert(!before.has(id));
            assert(events_view(after.subs@[last].pending@) =~= Seq::<EventView>::empty());
            assert forall|k: u64| #[trigger] after@.dom().contains(k) <==> before@.insert(
                id,
                Seq::<EventView>::empty(),
            ).dom().contains(k) by {
                if after.has(k) {
                    let i = after.slot_of(k);
                    if i < last {
                        assert(before.subs@[i].id == k);
                    }
                }
                if before.has(k) {
                    let i = before.slot_of(k);
                    assert(after.subs@[i].id == k);
                }
                if k == id {
                    assert(after.subs@[last].id == k);
                }
            }
            assert forall|k: u64| #[trigger] after@.dom().contains(k) implies after@[k]
                == before@.insert(id, Seq::<EventView>::empty())[k] by {
                let i = after.slot_of(k);
                after.lemma_slot(i);
                if i < last {
                    assert(before.subs@[i] == after.subs@[i]);
                    before.lemma_slot(i);
                }
            }
            assert(after@ =~= before@.insert(id, Seq::<EventView>::empty()));
        }
        Some(id)
    }

    /// Removes a subscriber and what waited for it. Nothing happens where
    /// the id is not subscribed.
    pub fn unsubscribe(&mut self, id: u64)
        requires
            old(self).wf(),
        ensures
            final(self).wf(),
            final(self).capacity() == old(self).capacity(),
            final(self).issued() == old(self).issued(),
            final(self)@ == old(self)@.remove(id),
    {
        let mut i: usize = 0;
        while i < self.subs.len()
            invariant
                *self == *old(self),
                self.wf(),
                i <= self.subs@.len(),
                forall|j: int| 0 <= j < i ==> (#[trigger] self.subs@[j]).id != id,
            decreases self.subs@.len() - i,
        {
            if self.subs[i].id == id {
                self.subs.remove(i);
                proof {
                    let before = *old(self);
                    let after = *self;
                    let at = i as int;
                    assert(forall|j: int|
                        0 <= j < at ==> (#[trigger] after.subs@[j]) == before.subs@[j]);
                    assert(forall|j: int|
                        at <= j < after.subs@.len() ==> (#[trigger] after.subs@[j])
                            == before.subs@[j + 1]);
                    assert(after.wf());
                    assert forall|k: u64| #[trigger] after@.dom().contains(k)
                        <==> before@.remove(id).dom().contains(k) by {
                        if after.has(k) {
                            let j = after.slot_of(k);
                            if j < at {
                                assert(before.subs@[j].id == k);
                            } else {
                                assert(before.subs@[j + 1].id == k);
                            }
                        }
                        if before.has(k) && k != id {
                            let j = before.slot_of(k);
                            if j < at {
                                assert(after.subs@[j].id == k);
                            } else {
                                assert(after.subs@[j - 1].id == k);
                            }
                        }
                    }
                    assert forall|k: u64| #[trigger] after@.dom().contains(k) implies after@[k]
                        == before@.remove(id)[k] by {
                        let j = after.slot_of(k);
                        after.lemma_slot(j);
                        if j < at {
                            before.lemma_slot(j);
                        } else {
                            before.lemma_slot(j + 1);
                        }
                    }
                    assert(after@ =~= before@.remove(id));
                }
                return ;
            }
            i += 1;
        }
        proof {
            assert(!self.has(id));
            assert(self@ =~= old(self)@.remove(id));
        }
    }

    /// Publishes an event: it comes into the buffer of every subscriber, the
    /// one of its origin too. A full buffer loses its oldest event to make
    /// room; the other buffers lose nothing.
    pub fn publish(&mut self, event: &HubEvent)
        requires
            old(self).wf(),
        ensures
            final(self).wf(),
            final(self).capacity() == old(self).capacity(),
            final(self).issued() == old(self).issued(),
            final(self)@ == published(old(self)@, event@, old(self).capacity()),
    {
        let mut i: usize = 0;
        while i < self.subs.len()
            invariant
                old(self).wf(),
                self.wf(),
                self.capacity == old(self).capacity,
                self.next_id == old(self).next_id,
                self.subs@.len() == old(self).subs@.len(),
                i <= self.subs@.len(),
                forall|j: int|
                    0 <= j < self.subs@.len() ==> (#[trigger] self.subs@[j]).id == old(
                        self,
                    ).subs@[j].id,
                forall|j: int|
                    0 <= j < i ==> events_view((#[trigger] self.subs@[j]).pending@) == enqueue(
                        events_view(old(self).subs@[j].pending@),
                        event@,
                        self.capacity as nat,
                    ),
                forall|j: int|
                    i <= j < self.subs@.len() ==> (#[trigger] self.subs@[j]).pending@ == old(
                        self,
                    ).subs@[j].pending@,
            decreases self.subs@.len() - i,
        {
            let ghost before = self.subs@[i as int].pending@;
            if self.subs[i].pending.len() >= self.capacity {
                let _ = self.subs[i].pending.pop_front();
            }
            self.subs[i].pending.push_back(event.duplicate());
            proof {
                let after = self.subs@[i as int].pending@;
                assert(events_view(after) =~= enqueue(
                    events_view(before),
                    event@,
                    self.capacity as nat,
                ));
            }
            i += 1;
        }
        proof {
            let before = *old(self);
            let after = *self;
            assert forall|k: u64| #[trigger] after@.dom().contains(k) <==> published(
                before@,
                event@,
                before.capacity(),
            ).dom().contains(k) by {
                if after.has(k) {
                    let j = after.slot_of(k);
                    assert(before.subs@[j].id == k);
                }
                if before.has(k) {
                    let j = before.slot_of(k);
                    assert(after.subs@[j].id == k);
                }
            }
            assert forall|k: u64| #[trigger] after@.dom().contains(k) implies after@[k]
                == published(before@, event@, before.capacity())[k] by {
                let j = after.slot_of(k);
                after.lemma_slot(j);
                before.lemma_slot(j);
            }
            assert(after@ =~= published(before@, event@, before.capacity()));
        }
    }

    /// Takes the oldest event that waits for a subscriber out of its buffer.
    /// There is none where the buffer is empty or the id is not subscribed.
    pub fn receive(&mut self, id: u64) -> (r: Option<HubEvent>)
        requires
            old(self).wf(),
        ensures
            final(self).wf(),
            final(self).capacity() == old(self).capacity(),
            final(self).issued() == old(self).issued(),
            match r {
                Some(event) => {
                    &&& old(self)@.dom().contains(id)
                    &&& old(self)@[id].len() > 0
                    &&& event@ == old(self)@[id][0]
                    &&& final(self)@ == old(self)@.insert(id, old(self)@[id].skip(1))
                },
                None => {
                    &&& !(old(self)@.dom().contains(id) && old(self)@[id].len() > 0)
                    &&& final(self)@ == old(self)@
                },
            },
    {
        let mut i: usize = 0;
        while i < self.subs.len()
            invariant
                *self == *old(self),
                self.wf(),
                i <= self.subs@.len(),
                forall|j: int| 0 <= j < i ==> (#[trigger] self.subs@[j]).id != id,
            decreases self.subs@.len() - i,
        {
            if self.subs[i].id == id {
                proof {
                    self.lemma_slot(i as int);
                }
                let taken: Option<HubEvent> = self.subs[i].pending.pop_front();
                proof {
                    let before = *old(self);
                    let after = *self;
                    let at = i as int;
                    assert(forall|j: int|
                        0 <= j < after.subs@.len() ==> (#[trigger] after.subs@[j]).id
                            == before.subs@[j].id);
                    assert(forall|j: int|
                        0 <= j < after.subs@.len() && j != at ==> (#[trigger] after.subs@[j])
                            == before.subs@[j]);
                    assert(after.wf());
                    assert forall|k: u64| #[trigger] after@.dom().contains(k)
                        <==> before@.dom().contains(k) by {
                        if after.has(k) {
                            let j = after.slot_of(k);
                            assert(before.subs@[j].id == k);
                        }
                        if before.has(k) {
                            let j = before.slot_of(k);
                            assert(after.subs@[j].id == k);
                        }
                    }
                    assert forall|k: u64| #[trigger] after@.dom().contains(k) implies after@[k]
                        == (if k == id {
                        events_view(after.subs@[at].pending@)
                    } else {
                        before@[k]
                    }) by {
                        let j = after.slot_of(k);
                        after.lemma_slot(j);
                        before.lemma_slot(j);
                    }
                    if taken is Some {
                        assert(events_view(after.subs@[at].pending@) =~= before@[id].skip(1));
                        assert(after@ =~= before@.insert(id, before@[id].skip(1)));
                    } else {
                        assert(after.subs@[at].pending@ == before.subs@[at].pending@);
                        assert(after@ =~= before@);
                    }
                }
                return taken;
            }
            i += 1;
        }
        proof {
            assert(!self.has(id));
        }
        None
    }

    /// Whether the id is subscribed.
    pub fn is_subscribed(&self, id: u64) -> (yes: bool)
        requires
            self.wf(),
        ensures
            yes == self@.dom().contains(id),
    {
        let mut i: usize = 0;
        while i < self.subs.len()
            invariant
                i <= self.subs@.len(),
                forall|j: int| 0 <= j < i ==> (#[trigger] self.subs@[j]).id != id,
            decreases self.subs@.len() - i,
        {
            if self.subs[i].id == id {
                return true;
            }
            i += 1;
        }
        false
    }
}

} // verus!
