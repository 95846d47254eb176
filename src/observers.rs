use vstd::prelude::*;
use crate::model::{Agent, WsServerMessage, agents_view};

verus! {

#[verifier::external_type_specification]
#[verifier::external_body]
#[verifier::reject_recursive_types(T)]
pub struct ExUnboundedSender<T>(tokio::sync::mpsc::UnboundedSender<T>);

/// The outbound handle of one observer.
pub type ObserverTx = tokio::sync::mpsc::UnboundedSender<WsServerMessage>;

/// Relies on tokio's `UnboundedSender::send`: it never waits, and fails only
/// when the receiving side is gone.
#[verifier::external_body]
fn deliver(tx: &ObserverTx, event: &WsServerMessage) -> (r: bool) {
    tx.send(event.clone()).is_ok()
}

/// Relies on uuid's `Uuid::new_v4`: a random identifier, taken as its 128 bits.
#[verifier::external_body]
fn random_observer_id() -> (r: u128) {
    uuid::Uuid::new_v4().as_u128()
}

/// What became of one event for one observer.
#[derive(Clone, Copy, Debug, PartialEq, Eq, Structural)]
pub struct Delivery {
    pub observer: u128,
    pub delivered: bool,
}

/// Why a subscription was refused.
#[derive(Clone, Copy, Debug, PartialEq, Eq, Structural)]
pub enum SubscribeError {
    /// The identifier is already taken by a subscribed observer.
    DuplicateObserver,
}

struct ObserverEntry {
    id: u128,
    tx: ObserverTx,
}

/// One event handed out by `publish`, with the observers it was offered to,
/// in the order they were offered.
pub struct Publication {
    pub recipients: Seq<u128>,
    pub event: WsServerMessage,
}

/// The subscribed observers, in order of subscription, each with its
/// outbound handle, and the record of every event handed out so far.
pub struct ObserverBroadcastRegistry {
    entries: Vec<ObserverEntry>,
    log: Ghost<Seq<Publication>>,
}

pub open spec fn delivery_ids(s: Seq<Delivery>) -> Seq<u128> {
    s.map_values(|d: Delivery| d.observer)
}

impl View for ObserverBroadcastRegistry {
    type V = Seq<u128>;

    /// The identifiers of the subscribed observers, in order of subscription.
    closed spec fn view(&self) -> Seq<u128> {
        self.entries@.map_values(|e: ObserverEntry| e.id)
    }
}

impl ObserverBroadcastRegistry {
    pub closed spec fn wf(&self) -> bool {
        self@.no_duplicates()
    }

    /// Every publication `publish` has made, oldest first: the event and the
    /// observers it was handed to for delivery, in that order.
    pub closed spec fn published(&self) -> Seq<Publication> {
        self.log@
    }

    /// No observer is subscribed twice.
    pub proof fn lemma_ids_distinct(&self)
        requires
            self.wf(),
        ensures
            self@.no_duplicates(),
    {
    }

    /// The handle registered for the observer at position `i`.
    pub closed spec fn handle_at(&self, i: int) -> ObserverTx {
        self.entries@[i].tx
    }

    pub fn new() -> (r: Self)
        ensures
            r.wf(),
            r@ == Seq::<u128>::empty(),
            r.published() == Seq::<Publication>::empty(),
    {
        ObserverBroadcastRegistry { entries: Vec::new(), log: Ghost(Seq::empty()) }
    }

    pub fn len(&self) -> (r: usize)
        ensures
            r == self@.len(),
    {
        self.entries.len()
    }

    pub fn contains(&self, id: u128) -> (r: bool)
        ensures
            r == self@.contains(id),
    {
        let mut i: usize = 0;
        while i < self.entries.len()
            invariant
                i <= self.entries@.len(),
                forall|k: int| 0 <= k < i ==> self@[k] != id,
            decreases self.entries@.len() - i,
        {
            if self.entries[i].id == id {
                assert(self@[i as int] == id);
                return true;
            }
            i = i + 1;
        }
        false
    }

    /// Registers `tx` under `id` and returns the initial state to be sent
    /// before anything the handle carries: the given snapshot, unchanged.
    /// Refused, with nothing changed, when `id` is already subscribed.
    pub fn subscribe_with_id(&mut self, id: u128, tx: ObserverTx, snapshot: Vec<Agent>) -> (r: Result<
        WsServerMessage,
        SubscribeError,
    >)
        requires
            old(self).wf(),
        ensures
            final(self).wf(),
            old(self)@.contains(id) ==> r == Err::<WsServerMessage, SubscribeError>(
                SubscribeError::DuplicateObserver,
            ) && final(self)@ == old(self)@,
            !old(self)@.contains(id) ==> {
                &&& r matches Ok(WsServerMessage::InitialState { agents }) && agents_view(agents@)
                    == agents_view(snapshot@)
                &&& final(self)@ == old(self)@.push(id)
                &&& final(self).handle_at(old(self)@.len() as int) == tx
            },
            forall|i: int| 0 <= i < old(self)@.len() ==> final(self).handle_at(i) == old(self).handle_at(i),
            final(self).published() == old(self).published(),
    {
        if self.contains(id) {
            return Err(SubscribeError::DuplicateObserver);
        }
        self.entries.push(ObserverEntry { id, tx });
        assert(self@ =~= old(self)@.push(id));
        proof {
            assert forall|a: int, b: int| 0 <= a < self@.len() && 0 <= b < self@.len() && a != b implies self@[a]
                != self@[b] by {
                if a < old(self)@.len() && b < old(self)@.len() {
                } else if a == old(self)@.len() {
                    assert(old(self)@.contains(self@[b]) || b == a);
                } else {
                    assert(old(self)@.contains(self@[a]) || b == a);
                }
            }
        }
        Ok(WsServerMessage::InitialState { agents: snapshot })
    }

    /// Subscribes `tx` under a freshly drawn random identifier. Fails, with
    /// nothing changed, only if the identifier drawn is already in use.
    pub fn subscribe(&mut self, tx: ObserverTx, snapshot: Vec<Agent>) -> (r: Result<
        (u128, WsServerMessage),
        SubscribeError,
    >)
        requires
            old(self).wf(),
        ensures
            final(self).wf(),
            match r {
                Ok((id, msg)) => {
                    &&& !old(self)@.contains(id)
                    &&& final(self)@ == old(self)@.push(id)
                    &&& final(self).handle_at(old(self)@.len() as int) == tx
                    &&& msg matches WsServerMessage::InitialState { agents } && agents_view(agents@)
                        == agents_view(snapshot@)
                },
                Err(_) => final(self)@ == old(self)@ && old(self)@.len() > 0,
            },
            forall|i: int| 0 <= i < old(self)@.len() ==> final(self).handle_at(i) == old(self).handle_at(i),
            final(self).published() == old(self).published(),
    {
        let id = random_observer_id();
        match self.subscribe_with_id(id, tx, snapshot) {
            Ok(msg) => Ok((id, msg)),
            Err(e) => Err(e),
        }
    }

    /// Removes the observer `id` if it is subscribed; removing it again
    /// changes nothing. Returns whether it was subscribed.
    pub fn unsubscribe(&mut self, id: u128) -> (r: bool)
        requires
            old(self).wf(),
        ensures
            final(self).wf(),
            r == old(self)@.contains(id),
            r ==> exists|i: int|
                {
                    &&& 0 <= i < old(self)@.len()
                    &&& old(self)@[i] == id
                    &&& final(self)@ == old(self)@.remove(i)
                    &&& forall|j: int|
                        0 <= j < final(self)@.len() ==> #[trigger] final(self).handle_at(j) == if j < i {
                            old(self).handle_at(j)
                        } else {
                            old(self).handle_at(j + 1)
                        }
                },
            !r ==> final(self)@ == old(self)@,
            !r ==> forall|j: int| 0 <= j < old(self)@.len() ==> final(self).handle_at(j) == old(self).handle_at(j),
            !final(self)@.contains(id),
            final(self).published() == old(self).published(),
    {
        let mut i: usize = 0;
        while i < self.entries.len()
            invariant
                self.wf(),
                self == old(self),
                i <= self.entries@.len(),
                forall|k: int| 0 <= k < i ==> self@[k] != id,
            decreases self.entries@.len() - i,
        {
            if self.entries[i].id == id {
                let ghost ids0 = self@;
                self.entries.remove(i);
                proof {
                    assert(ids0[i as int] == id);
                    assert(self@ =~= ids0.remove(i as int));
                    assert forall|a: int, b: int| 0 <= a < self@.len() && 0 <= b < self@.len() && a != b implies self@[a]
                        != self@[b] by {
                        let a0 = if a < i { a } else { a + 1 };
                        let b0 = if b < i { b } else { b + 1 };
                        assert(self@[a] == ids0[a0]);
                        assert(self@[b] == ids0[b0]);
                    }
                    assert forall|j: int| 0 <= j < self@.len() implies #[trigger] self.handle_at(j) == if j < i {
                        old(self).handle_at(j)
                    } else {
                        old(self).handle_at(j + 1)
                    } by {}
                    assert(!self@.contains(id)) by {
                        if self@.contains(id) {
                            let a = choose|a: int| 0 <= a < self@.len() && self@[a] == id;
                            let a0 = if a < i { a } else { a + 1 };
                            assert(self@[a] == ids0[a0]);
                        }
                    }
                }
                return true;
            }
            i = i + 1;
        }
        false
    }

    /// Offers `event` to every subscribed observer, in order of subscription,
    /// once each, and records the publication. A failed delivery neither stops
    /// the others nor removes the observer: the report lists every observer
    /// with its outcome.
    pub fn publish(&mut self, event: &WsServerMessage) -> (r: Vec<Delivery>)
        requires
            old(self).wf(),
        ensures
            final(self).wf(),
            old(self)@.no_duplicates(),
            final(self)@ == old(self)@,
            forall|i: int| 0 <= i < old(self)@.len() ==> final(self).handle_at(i) == old(self).handle_at(i),
            final(self).published() == old(self).published().push(
                Publication { recipients: old(self)@, event: *event },
            ),
            delivery_ids(r@) == old(self)@,
    {
        let mut report: Vec<Delivery> = Vec::new();
        let mut i: usize = 0;
        while i < self.entries.len()
            invariant
                i <= self.entries@.len(),
                delivery_ids(report@) == self@.take(i as int),
            decreases self.entries@.len() - i,
        {
            let ok = deliver(&self.entries[i].tx, event);
            let ghost r0 = report@;
            report.push(Delivery { observer: self.entries[i].id, delivered: ok });
            assert(self@[i as int] == self.entries@[i as int].id);
            assert(delivery_ids(report@) =~= delivery_ids(r0).push(self@[i as int]));
            assert(self@.take(i + 1) =~= self@.take(i as int).push(self@[i as int]));
            assert(delivery_ids(report@) =~= self@.take(i + 1));
            i = i + 1;
        }
        assert(self@.take(self@.len() as int) =~= self@);
        self.log = Ghost(self.log@.push(Publication { recipients: self@, event: *event }));
        report
    }
}

} // verus!
