//! The live fan-out: best-effort multicast of ingested data to whoever is
//! subscribed at the moment.
//!
//! Every subscriber has an outbox of bounded size. Publishing puts the
//! message into each outbox that has room and passes over the others, so a
//! slow subscriber loses messages and never holds up the publisher. A new
//! subscriber starts with an empty outbox: nothing is replayed.

use std::collections::VecDeque;
use vstd::prelude::*;

verus! {

/// Number of messages that may wait for one subscriber.
pub const OUTBOX_CAPACITY: usize = 1000;

/// What waits for one subscriber.
pub struct Outbox {
    pub id: u64,
    pub pending: Seq<String>,
}

/// The outbox after `message` is published under `capacity`.
pub open spec fn delivered(outbox: Outbox, capacity: nat, message: String) -> Outbox {
    if outbox.pending.len() < capacity {
        Outbox { id: outbox.id, pending: outbox.pending.push(message) }
    } else {
        outbox
    }
}

/// Every outbox of `registry` after `message` is published.
pub open spec fn published(registry: Seq<Outbox>, capacity: nat, message: String) -> Seq<Outbox> {
    Seq::new(registry.len(), |i: int| delivered(registry[i], capacity, message))
}

/// The number of outboxes of `registry` that have room for one more message.
pub open spec fn takers(registry: Seq<Outbox>, capacity: nat) -> nat
    decreases registry.len(),
{
    if registry.len() == 0 {
        0
    } else {
        takers(registry.drop_last(), capacity) + if registry.last().pending.len() < capacity {
            1nat
        } else {
            0nat
        }
    }
}

/// Whether `registry` has a subscriber `id`.
pub open spec fn subscribed(registry: Seq<Outbox>, id: u64) -> bool {
    exists|i: int| 0 <= i < registry.len() && registry[i].id == id
}

/// Where in `registry` the subscriber `id` stands.
pub open spec fn position_of(registry: Seq<Outbox>, id: u64) -> int {
    choose|i: int| 0 <= i < registry.len() && registry[i].id == id
}

/// One subscriber: its id and what waits for it.
struct Subscriber {
    id: u64,
    outbox: VecDeque<String>,
}

/// The subscribers of the moment and their outboxes.
pub struct FanOut {
    subscribers: Vec<Subscriber>,
    next_id: u64,
    capacity: usize,
}

impl View for FanOut {
    type V = Seq<Outbox>;

    closed spec fn view(&self) -> Seq<Outbox> {
        Seq::new(
            self.subscribers@.len(),
            |i: int| Outbox { id: self.subscribers@[i].id, pending: self.subscribers@[i].outbox@ },
        )
    }
}

impl FanOut {
    /// The most messages that ever wait for one subscriber.
    pub closed spec fn spec_capacity(&self) -> nat {
        self.capacity as nat
    }

    /// The id that the next subscriber gets.
    pub closed spec fn spec_next_id(&self) -> u64 {
        self.next_id
    }

    /// The registry's invariant: every subscriber has an id of its own,
    /// below the next to be given out, and no outbox is over capacity.
    pub closed spec fn wf(&self) -> bool {
        &&& forall|i: int, j: int|
            0 <= i < j < self.subscribers@.len() ==> self.subscribers@[i].id
                != self.subscribers@[j].id
        &&& forall|i: int|
            0 <= i < self.subscribers@.len() ==> (#[trigger] self.subscribers@[i]).id
                < self.next_id
        &&& forall|i: int|
            0 <= i < self.subscribers@.len() ==> (#[trigger] self.subscribers@[i]).outbox@.len()
                <= self.capacity
    }

    /// What `wf` says, over the view.
    pub proof fn lemma_wf_view(&self)
        requires
            self.wf(),
        ensures
            forall|i: int, j: int| 0 <= i < j < self@.len() ==> self@[i].id != self@[j].id,
            forall|i: int| 0 <= i < self@.len() ==> (#[trigger] self@[i]).id < self.spec_next_id(),
            forall|i: int|
                0 <= i < self@.len() ==> (#[trigger] self@[i]).pending.len()
                    <= self.spec_capacity(),
    {
        assert forall|i: int| 0 <= i < self@.len() implies (#[trigger] self@[i]).id
            < self.spec_next_id() by {
            assert(self.subscribers@[i].id < self.next_id);
        }
        assert forall|i: int| 0 <= i < self@.len() implies (#[trigger] self@[i]).pending.len()
            <= self.spec_capacity() by {
            assert(self.subscribers@[i].outbox@.len() <= self.capacity);
        }
    }

    /// A registry without subscribers, with outboxes of the usual size.
    pub fn new() -> (fanout: Self)
        ensures
            fanout.wf(),
            fanout@ == Seq::<Outbox>::empty(),
            fanout.spec_capacity() == OUTBOX_CAPACITY,
    {
        let fanout = FanOut { subscribers: Vec::new(), next_id: 0, capacity: OUTBOX_CAPACITY };
        assert(fanout@ =~= Seq::<Outbox>::empty());
        fanout
    }

    /// A registry without subscribers, with outboxes of `capacity` messages.
    pub fn with_capacity(capacity: usize) -> (fanout: Self)
        ensures
            fanout.wf(),
            fanout@ == Seq::<Outbox>::empty(),
            fanout.spec_capacity() == capacity,
    {
        let fanout = FanOut { subscribers: Vec::new(), next_id: 0, capacity };
        assert(fanout@ =~= Seq::<Outbox>::empty());
        fanout
    }

    /// The number of subscribers.
    pub fn subscriber_count(&self) -> (count: usize)
        ensures
            count == self@.len(),
    {
        self.subscribers.len()
    }

    /// Admits a subscriber and returns its id. Its outbox is empty: what was
    /// published before is not replayed. Only a registry that has given out
    /// every id there is admits nobody.
    pub fn subscribe(&mut self) -> (id: Option<u64>)
        requires
            old(self).wf(),
        ensures
            final(self).wf(),
            final(self).spec_capacity() == old(self).spec_capacity(),
            id is None <==> old(self).spec_next_id() == u64::MAX,
            id is None ==> final(self)@ == old(self)@,
            id is Some ==> ({
                &&& id->Some_0 == old(self).spec_next_id()
                &&& final(self).spec_next_id() == old(self).spec_next_id() + 1
                &&& !subscribed(old(self)@, id->Some_0)
                &&& final(self)@ == old(self)@.push(
                    Outbox { id: id->Some_0, pending: Seq::<String>::empty() },
                )
            }),
    {
        if self.next_id == u64::MAX {
            return None;
        }
        let id: u64 = self.next_id;
        self.subscribers.push(Subscriber { id, outbox: VecDeque::new() });
        self.next_id = id + 1;
        proof {
            assert(final(self)@ =~= old(self)@.push(
                Outbox { id, pending: Seq::<String>::empty() },
            ));
            assert(!subscribed(old(self)@, id)) by {
                if subscribed(old(self)@, id) {
                    let i = position_of(old(self)@, id);
                    assert(old(self).subscribers@[i].id < old(self).next_id);
                }
            }
        }
        Some(id)
    }

    /// Where the subscriber `id` stands, if it is subscribed.
    fn find(&self, id: u64) -> (found: Option<usize>)
        ensures
            match found {
                Some(i) => i < self.subscribers@.len() && self.subscribers@[i as int].id == id,
                None => forall|i: int|
                    0 <= i < self.subscribers@.len() ==> self.subscribers@[i].id != id,
            },
    {
        let mut i: usize = 0;
        while i < self.subscribers.len()
            invariant
                i <= self.subscribers@.len(),
                forall|j: int| 0 <= j < i ==> self.subscribers@[j].id != id,
            decreases self.subscribers@.len() - i,
        {
            if self.subscribers[i].id == id {
                return Some(i);
            }
            i += 1;
        }
        None
    }

    /// Whether `id` is subscribed.
    pub fn is_subscribed(&self, id: u64) -> (found: bool)
        ensures
            found == subscribed(self@, id),
    {
        match self.find(id) {
            Some(i) => {
                assert(self@[i as int].id == id);
                true
            },
            None => {
                assert forall|i: int| 0 <= i < self@.len() implies self@[i].id != id by {
                    assert(self.subscribers@[i].id != id);
                }
                false
            },
        }
    }

    /// Removes the subscriber `id` with whatever still waited for it.
    /// Returns whether there was such a subscriber.
    pub fn unsubscribe(&mut self, id: u64) -> (removed: bool)
        requires
            old(self).wf(),
        ensures
            final(self).wf(),
            final(self).spec_capacity() == old(self).spec_capacity(),
            final(self).spec_next_id() == old(self).spec_next_id(),
            removed == subscribed(old(self)@, id),
            !removed ==> final(self)@ == old(self)@,
            removed ==> final(self)@ == old(self)@.remove(position_of(old(self)@, id)),
            !subscribed(final(self)@, id),
    {
        match self.find(id) {
            Some(i) => {
                proof {
                    assert(old(self)@[i as int].id == id);
                    let at = position_of(old(self)@, id);
                    assert(old(self).subscribers@[at].id == id);
                    assert(at == i);
                }
                self.subscribers.remove(i);
                proof {
                    assert(final(self)@ =~= old(self)@.remove(i as int));
                    assert forall|a: int| 0 <= a < final(self).subscribers@.len() implies (
                    #[trigger] final(self).subscribers@[a]) == old(self).subscribers@[if a < i {
                        a
                    } else {
                        a + 1
                    }] by {}
                    assert forall|a: int| 0 <= a < final(self)@.len() implies final(self)@[a].id
                        != id by {
                        let b = if a < i {
                            a
                        } else {
                            a + 1
                        };
                        assert(final(self).subscribers@[a] == old(self).subscribers@[b]);
                    }
                }
                true
            },
            None => {
                proof {
                    assert forall|a: int| 0 <= a < self@.len() implies self@[a].id != id by {
                        assert(self.subscribers@[a].id != id);
                    }
                }
                false
            },
        }
    }

    /// Publishes `message`: every subscriber whose outbox has room gets one
    /// copy, the others miss it. Returns how many got it.
    pub fn publish(&mut self, message: &String) -> (count: usize)
        requires
            old(self).wf(),
        ensures
            final(self).wf(),
            final(self).spec_capacity() == old(self).spec_capacity(),
            final(self).spec_next_id() == old(self).spec_next_id(),
            final(self)@ == published(old(self)@, old(self).spec_capacity(), *message),
            count == takers(old(self)@, old(self).spec_capacity()),
    {
        let n: usize = self.subscribers.len();
        let mut count: usize = 0;
        let mut i: usize = 0;
        proof {
            assert(old(self)@.take(0) =~= Seq::<Outbox>::empty());
        }
        while i < n
            invariant
                i <= n,
                n == old(self).subscribers@.len(),
                self.subscribers@.len() == n,
                self.capacity == old(self).capacity,
                self.next_id == old(self).next_id,
                old(self).wf(),
                count == takers(old(self)@.take(i as int), self.capacity as nat),
                count <= i,
                forall|j: int|
                    0 <= j < n ==> (#[trigger] self.subscribers@[j]).id == old(self).subscribers@[j].id,
                forall|j: int|
                    i <= j < n ==> (#[trigger] self.subscribers@[j]).outbox@ == old(self).subscribers@[j].outbox@,
                forall|j: int|
                    0 <= j < i ==> (#[trigger] self.subscribers@[j]).outbox@ == delivered(
                        old(self)@[j],
                        self.capacity as nat,
                        *message,
                    ).pending,
            decreases n - i,
        {
            proof {
                assert(old(self)@.take(i + 1).drop_last() =~= old(self)@.take(i as int));
                assert(old(self)@.take(i + 1).last() == old(self)@[i as int]);
                assert(old(self).subscribers@[i as int].outbox@.len() <= old(self).capacity);
            }
            if self.subscribers[i].outbox.len() < self.capacity {
                self.subscribers[i].outbox.push_back(message.clone());
                count += 1;
            }
            i += 1;
        }
        proof {
            assert(old(self)@.take(n as int) =~= old(self)@);
            assert(final(self)@ =~= published(old(self)@, old(self).spec_capacity(), *message));
            assert forall|a: int| 0 <= a < n implies (#[trigger] final(self).subscribers@[a]).id
                < final(self).next_id by {
                assert(old(self).subscribers@[a].id < old(self).next_id);
            }
            assert forall|a: int| 0 <= a < n implies (
            #[trigger] final(self).subscribers@[a]).outbox@.len() <= final(self).capacity by {
                assert(old(self).subscribers@[a].outbox@.len() <= old(self).capacity);
            }
        }
        count
    }

    /// Takes the message that has waited longest for the subscriber `id`.
    /// There is none for an unknown subscriber or an empty outbox.
    pub fn receive(&mut self, id: u64) -> (message: Option<String>)
        requires
            old(self).wf(),
        ensures
            final(self).wf(),
            final(self).spec_capacity() == old(self).spec_capacity(),
            final(self).spec_next_id() == old(self).spec_next_id(),
            message is Some <==> subscribed(old(self)@, id) && old(self)@[position_of(
                old(self)@,
                id,
            )].pending.len() > 0,
            message is None ==> final(self)@ == old(self)@,
            message is Some ==> ({
                let at = position_of(old(self)@, id);
                &&& message->Some_0 == old(self)@[at].pending[0]
                &&& final(self)@ == old(self)@.update(
                    at,
                    Outbox { id, pending: old(self)@[at].pending.skip(1) },
                )
            }),
    {
        match self.find(id) {
            Some(i) => {
                proof {
                    assert(old(self)@[i as int].id == id);
                    let at = position_of(old(self)@, id);
                    assert(old(self).subscribers@[at].id == id);
                    assert(at == i);
                }
                let message = self.subscribers[i].outbox.pop_front();
                proof {
                    assert(final(self).subscribers@.len() == old(self).subscribers@.len());
                    assert forall|a: int|
                        0 <= a < final(self).subscribers@.len() && a != i implies (
                    #[trigger] final(self).subscribers@[a]) == old(self).subscribers@[a] by {}
                    assert(final(self).subscribers@[i as int].id == id);
                    if message is Some {
                        assert(final(self).subscribers@[i as int].outbox@ =~= old(self)@[i as int].pending.skip(
                            1,
                        ));
                        assert(final(self)@ =~= old(self)@.update(
                            i as int,
                            Outbox { id, pending: old(self)@[i as int].pending.skip(1) },
                        ));
                    } else {
                        assert(final(self)@ =~= old(self)@);
                    }
                    assert forall|a: int|
                        0 <= a < final(self).subscribers@.len() implies (
                    #[trigger] final(self).subscribers@[a]).id == old(self).subscribers@[a].id by {}
                    assert forall|a: int|
                        0 <= a < final(self).subscribers@.len() implies (
                    #[trigger] final(self).subscribers@[a]).outbox@.len() <= final(self).capacity by {
                        assert(old(self).subscribers@[a].outbox@.len() <= old(self).capacity);
                    }
                    assert forall|a: int|
                        0 <= a < final(self).subscribers@.len() implies (
                    #[trigger] final(self).subscribers@[a]).id < final(self).next_id by {
                        assert(old(self).subscribers@[a].id < old(self).next_id);
                    }
                }
                message
            },
            None => {
                proof {
                    assert forall|a: int| 0 <= a < self@.len() implies self@[a].id != id by {
                        assert(self.subscribers@[a].id != id);
                    }
                }
                None
            },
        }
    }
}

/// Publishing neither adds nor removes a subscriber, and reaches each
/// subscriber at most once: an outbox grows by the one message or not at
/// all.
pub proof fn lemma_publish_reaches_each_once(
    registry: Seq<Outbox>,
    capacity: nat,
    message: String,
    i: int,
)
    requires
        0 <= i < registry.len(),
    ensures
        published(registry, capacity, message).len() == registry.len(),
        published(registry, capacity, message)[i].id == registry[i].id,
        published(registry, capacity, message)[i].pending == registry[i].pending || published(
            registry,
            capacity,
            message,
        )[i].pending == registry[i].pending.push(message),
        registry[i].pending.len() <= capacity ==> published(
            registry,
            capacity,
            message,
        )[i].pending.len() <= capacity,
{
}

/// Publishing to nobody does nothing.
pub proof fn lemma_publish_without_subscribers(capacity: nat, message: String)
    ensures
        published(Seq::<Outbox>::empty(), capacity, message) == Seq::<Outbox>::empty(),
        takers(Seq::<Outbox>::empty(), capacity) == 0,
{
    assert(published(Seq::<Outbox>::empty(), capacity, message) =~= Seq::<Outbox>::empty());
}

} // verus!
