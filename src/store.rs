use vstd::prelude::*;
use crate::model::{Agent, AgentStatus, AgentView};

verus! {

/// Store contents after an agent registers: the record is online with a
/// fresh heartbeat, whatever it held before.
pub open spec fn registered(
    m: Map<Seq<char>, AgentView>,
    id: Seq<char>,
    hostname: Seq<char>,
    now: i64,
) -> Map<Seq<char>, AgentView> {
    m.insert(id, AgentView { id, hostname, status: AgentStatus::Online, last_heartbeat: now })
}

/// Store contents after a heartbeat: only the timestamp of a known agent moves.
pub open spec fn touched(m: Map<Seq<char>, AgentView>, id: Seq<char>, now: i64) -> Map<
    Seq<char>,
    AgentView,
> {
    if m.contains_key(id) {
        m.insert(id, AgentView { last_heartbeat: now, ..m[id] })
    } else {
        m
    }
}

/// Store contents after an agent is marked offline.
pub open spec fn marked_offline(m: Map<Seq<char>, AgentView>, id: Seq<char>) -> Map<
    Seq<char>,
    AgentView,
> {
    if m.contains_key(id) {
        m.insert(id, AgentView { status: AgentStatus::Offline, ..m[id] })
    } else {
        m
    }
}

/// A record the reaper demotes at this cutoff.
pub open spec fn is_stale(a: AgentView, cutoff: int) -> bool {
    a.status == AgentStatus::Online && a.last_heartbeat < cutoff
}

/// Store contents after one conditional reap: every stale record goes offline,
/// every other record stays as it was.
pub open spec fn reaped(m: Map<Seq<char>, AgentView>, cutoff: int) -> Map<Seq<char>, AgentView> {
    Map::new(
        |k: Seq<char>| m.contains_key(k),
        |k: Seq<char>|
            if is_stale(m[k], cutoff) {
                AgentView { status: AgentStatus::Offline, ..m[k] }
            } else {
                m[k]
            },
    )
}

/// In-memory record store of agents keyed by id, offering the operations the
/// coordinator needs from its system of record.
pub struct FleetStore {
    rows: Vec<Agent>,
    records: Ghost<Map<Seq<char>, AgentView>>,
    capacity: usize,
}

/// Why a write was refused.
#[derive(Clone, Copy, Debug, PartialEq, Eq, Structural)]
pub enum StoreError {
    /// A new record would exceed the store's capacity.
    Full,
}

impl View for FleetStore {
    type V = Map<Seq<char>, AgentView>;

    closed spec fn view(&self) -> Map<Seq<char>, AgentView> {
        self.records@
    }
}

impl FleetStore {
    pub closed spec fn wf(&self) -> bool {
        &&& forall|i: int|
            0 <= i < self.rows@.len() ==> {
                &&& self.records@.contains_key(#[trigger] self.rows@[i].id@)
                &&& self.records@[self.rows@[i].id@] == self.rows@[i]@
            }
        &&& forall|i: int, j: int|
            0 <= i < self.rows@.len() && 0 <= j < self.rows@.len() && i != j ==> #[trigger] self.rows@[i].id@
                != #[trigger] self.rows@[j].id@
        &&& forall|k: Seq<char>|
            #[trigger] self.records@.contains_key(k) ==> exists|i: int|
                0 <= i < self.rows@.len() && #[trigger] self.rows@[i].id@ == k
    }

    /// The most records the store holds.
    pub closed spec fn capacity(&self) -> nat {
        self.capacity as nat
    }

    /// Every record is filed under its own id.
    pub proof fn lemma_keyed_by_id(&self, k: Seq<char>)
        requires
            self.wf(),
            self@.contains_key(k),
        ensures
            self@[k].id == k,
    {
        let i = choose|i: int| 0 <= i < self.rows@.len() && #[trigger] self.rows@[i].id@ == k;
        assert(self.records@[self.rows@[i].id@] == self.rows@[i]@);
    }

    /// An empty store that holds any number of records the machine allows.
    pub fn new() -> (r: FleetStore)
        ensures
            r.wf(),
            r@ == Map::<Seq<char>, AgentView>::empty(),
            r.capacity() == usize::MAX,
    {
        FleetStore { rows: Vec::new(), records: Ghost(Map::empty()), capacity: usize::MAX }
    }

    /// An empty store that holds at most `capacity` records.
    pub fn with_capacity(capacity: usize) -> (r: FleetStore)
        ensures
            r.wf(),
            r@ == Map::<Seq<char>, AgentView>::empty(),
            r.capacity() == capacity,
    {
        FleetStore { rows: Vec::new(), records: Ghost(Map::empty()), capacity }
    }

    pub fn len(&self) -> (r: usize)
        requires
            self.wf(),
        ensures
            r == self@.len(),
    {
        proof {
            self.lemma_len();
        }
        self.rows.len()
    }

    proof fn lemma_len(&self)
        requires
            self.wf(),
        ensures
            self.rows@.len() == self@.len(),
    {
        let ids = self.rows@.map_values(|a: Agent| a@.id);
        assert forall|i: int, j: int| 0 <= i < ids.len() && 0 <= j < ids.len() && i != j implies ids[i]
            != ids[j] by {
            assert(self.rows@[i].id@ != self.rows@[j].id@);
        }
        assert(ids.no_duplicates());
        ids.unique_seq_to_set();
        assert(ids.to_set() =~= self@.dom()) by {
            assert forall|k: Seq<char>| ids.to_set().contains(k) implies self@.dom().contains(k) by {
                let i = choose|i: int| 0 <= i < ids.len() && ids[i] == k;
                assert(self.rows@[i].id@ == k);
            }
            assert forall|k: Seq<char>| self@.dom().contains(k) implies ids.to_set().contains(k) by {
                assert(self.records@.contains_key(k));
                let i = choose|i: int| 0 <= i < self.rows@.len() && #[trigger] self.rows@[i].id@ == k;
                assert(ids[i] == k);
            }
        }
    }

    fn find(&self, id: &String) -> (r: Option<usize>)
        requires
            self.wf(),
        ensures
            match r {
                Some(i) => i < self.rows@.len() && self.rows@[i as int].id@ == id@,
                None => !self@.contains_key(id@),
            },
    {
        let mut i: usize = 0;
        while i < self.rows.len()
            invariant
                self.wf(),
                i <= self.rows@.len(),
                forall|k: int| 0 <= k < i ==> #[trigger] self.rows@[k].id@ != id@,
            decreases self.rows@.len() - i,
        {
            if self.rows[i].id == *id {
                return Some(i);
            }
            i = i + 1;
        }
        None
    }

    /// Creates or replaces the record of `id` as online with heartbeat `now`,
    /// and returns the stored record. A new id is refused, with nothing
    /// changed, when the store is at capacity.
    pub fn upsert_online(&mut self, id: &String, hostname: &String, now: i64) -> (r: Result<Agent, StoreError>)
        requires
            old(self).wf(),
        ensures
            final(self).wf(),
            final(self).capacity() == old(self).capacity(),
            r is Err <==> (!old(self)@.contains_key(id@) && old(self)@.len() >= old(self).capacity()),
            r is Err ==> final(self)@ == old(self)@,
            r matches Ok(a) ==> final(self)@ == registered(old(self)@, id@, hostname@, now) && a@ == final(self)@[id@],
    {
        proof {
            self.lemma_len();
        }
        let known = self.find(id);
        if known.is_none() && self.rows.len() >= self.capacity {
            return Err(StoreError::Full);
        }
        let rec = Agent::new(id.clone(), hostname.clone(), AgentStatus::Online, now);
        let ghost new_map = registered(self@, id@, hostname@, now);
        let pos: usize;
        match known {
            Some(i) => {
                self.rows.set(i, rec.duplicate());
                pos = i;
            },
            None => {
                self.rows.push(rec.duplicate());
                pos = self.rows.len() - 1;
            },
        }
        assert(self.rows@[pos as int].id@ == id@);
        self.records = Ghost(new_map);
        assert(self.wf()) by {
            assert forall|k: Seq<char>| #[trigger] self.records@.contains_key(k) implies exists|i: int|
                0 <= i < self.rows@.len() && #[trigger] self.rows@[i].id@ == k by {
                if k != id@ {
                    assert(old(self).records@.contains_key(k));
                    let j = choose|j: int| 0 <= j < old(self).rows@.len() && #[trigger] old(self).rows@[j].id@ == k;
                    assert(self.rows@[j].id@ == k);
                } else {
                    assert(self.rows@[pos as int].id@ == k);
                }
            }
        }
        Ok(rec)
    }

    /// Sets the heartbeat of a known agent to `now`, leaving its status alone;
    /// returns whether the agent was known.
    pub fn touch_heartbeat(&mut self, id: &String, now: i64) -> (r: bool)
        requires
            old(self).wf(),
        ensures
            final(self).wf(),
            final(self).capacity() == old(self).capacity(),
            r == old(self)@.contains_key(id@),
            final(self)@ == touched(old(self)@, id@, now),
    {
        match self.find(id) {
            Some(i) => {
                let ghost new_map = touched(self@, id@, now);
                self.rows[i].last_heartbeat = now;
                self.records = Ghost(new_map);
                assert(self.wf()) by {
                    assert forall|k: Seq<char>| #[trigger] self.records@.contains_key(k) implies exists|j: int|
                        0 <= j < self.rows@.len() && #[trigger] self.rows@[j].id@ == k by {
                        assert(old(self).records@.contains_key(k));
                        let j = choose|j: int| 0 <= j < old(self).rows@.len() && #[trigger] old(self).rows@[j].id@ == k;
                        assert(self.rows@[j].id@ == k);
                    }
                }
                true
            },
            None => false,
        }
    }

    /// Marks a known agent offline, leaving its heartbeat alone; returns
    /// whether the agent was known.
    pub fn mark_offline(&mut self, id: &String) -> (r: bool)
        requires
            old(self).wf(),
        ensures
            final(self).wf(),
            final(self).capacity() == old(self).capacity(),
            r == old(self)@.contains_key(id@),
            final(self)@ == marked_offline(old(self)@, id@),
    {
        match self.find(id) {
            Some(i) => {
                let ghost new_map = marked_offline(self@, id@);
                self.rows[i].status = AgentStatus::Offline;
                self.records = Ghost(new_map);
                assert(self.wf()) by {
                    assert forall|k: Seq<char>| #[trigger] self.records@.contains_key(k) implies exists|j: int|
                        0 <= j < self.rows@.len() && #[trigger] self.rows@[j].id@ == k by {
                        assert(old(self).records@.contains_key(k));
                        let j = choose|j: int| 0 <= j < old(self).rows@.len() && #[trigger] old(self).rows@[j].id@ == k;
                        assert(self.rows@[j].id@ == k);
                    }
                }
                true
            },
            None => false,
        }
    }

    /// The record of `id`, if the store holds one.
    pub fn get_agent(&self, id: &String) -> (r: Option<Agent>)
        requires
            self.wf(),
        ensures
            match r {
                Some(a) => self@.contains_key(id@) && a@ == self@[id@],
                None => !self@.contains_key(id@),
            },
    {
        match self.find(id) {
            Some(i) => Some(self.rows[i].duplicate()),
            None => None,
        }
    }

    /// In one pass, marks offline every online agent whose heartbeat lies
    /// strictly before `cutoff`, and returns the ids of exactly those agents.
    pub fn mark_stale_offline(&mut self, cutoff: i64) -> (r: Vec<String>)
        requires
            old(self).wf(),
        ensures
            final(self).wf(),
            final(self).capacity() == old(self).capacity(),
            final(self)@ == reaped(old(self)@, cutoff as int),
            forall|j: int|
                0 <= j < r@.len() ==> old(self)@.contains_key(#[trigger] r@[j]@) && is_stale(
                    old(self)@[r@[j]@],
                    cutoff as int,
                ),
            forall|k: Seq<char>|
                old(self)@.contains_key(k) && is_stale(old(self)@[k], cutoff as int) ==> exists|j: int|
                    0 <= j < r@.len() && #[trigger] r@[j]@ == k,
            forall|a: int, b: int| 0 <= a < b < r@.len() ==> #[trigger] r@[a]@ != #[trigger] r@[b]@,
    {
        let ghost m0 = self@;
        let ghost rows0 = self.rows@;
        let mut affected: Vec<String> = Vec::new();
        let mut i: usize = 0;
        while i < self.rows.len()
            invariant
                old(self).wf(),
                self.capacity == old(self).capacity,
                m0 == old(self)@,
                rows0 == old(self).rows@,
                self.records@ == m0,
                i <= self.rows@.len(),
                self.rows@.len() == rows0.len(),
                forall|k: int| 0 <= k < rows0.len() ==> #[trigger] self.rows@[k].id@ == rows0[k].id@,
                forall|k: int|
                    0 <= k < i ==> #[trigger] self.rows@[k]@ == reaped(m0, cutoff as int)[rows0[k].id@],
                forall|k: int| i <= k < rows0.len() ==> #[trigger] self.rows@[k] == rows0[k],
                forall|j: int|
                    0 <= j < affected@.len() ==> m0.contains_key(#[trigger] affected@[j]@) && is_stale(
                        m0[affected@[j]@],
                        cutoff as int,
                    ),
                forall|k: int|
                    0 <= k < i && is_stale(#[trigger] rows0[k]@, cutoff as int) ==> exists|j: int|
                        0 <= j < affected@.len() && #[trigger] affected@[j]@ == rows0[k].id@,
                forall|j: int|
                    0 <= j < affected@.len() ==> exists|k: int| 0 <= k < i && #[trigger] affected@[j]@ == rows0[k].id@,
                forall|a: int, b: int|
                    0 <= a < b < affected@.len() ==> #[trigger] affected@[a]@ != #[trigger] affected@[b]@,
            decreases rows0.len() - i,
        {
            assert(m0[rows0[i as int].id@] == rows0[i as int]@);
            let ghost aff0 = affected@;
            if self.rows[i].status == AgentStatus::Online && self.rows[i].last_heartbeat < cutoff {
                self.rows[i].status = AgentStatus::Offline;
                affected.push(self.rows[i].id.clone());
                assert(affected@[affected@.len() - 1]@ == rows0[i as int].id@);
                assert forall|a: int, b: int| 0 <= a < b < affected@.len() implies #[trigger] affected@[a]@
                    != #[trigger] affected@[b]@ by {
                    if b == affected@.len() - 1 {
                        assert(affected@[a] == aff0[a]);
                        let k = choose|k: int| 0 <= k < i && #[trigger] aff0[a]@ == rows0[k].id@;
                        assert(rows0[k].id@ != rows0[i as int].id@);
                    } else {
                        assert(affected@[a] == aff0[a]);
                        assert(affected@[b] == aff0[b]);
                    }
                }
            }
            assert forall|j: int| 0 <= j < affected@.len() implies exists|k: int|
                0 <= k < i + 1 && #[trigger] affected@[j]@ == rows0[k].id@ by {
                if j < aff0.len() {
                    assert(affected@[j] == aff0[j]);
                    let k = choose|k: int| 0 <= k < i && #[trigger] aff0[j]@ == rows0[k].id@;
                    assert(affected@[j]@ == rows0[k].id@);
                } else {
                    assert(affected@[j]@ == rows0[i as int].id@);
                }
            }
            assert forall|k: int|
                0 <= k < i + 1 && is_stale(#[trigger] rows0[k]@, cutoff as int) implies exists|j: int|
                0 <= j < affected@.len() && #[trigger] affected@[j]@ == rows0[k].id@ by {
                if k < i {
                    let j = choose|j: int| 0 <= j < aff0.len() && #[trigger] aff0[j]@ == rows0[k].id@;
                    assert(affected@[j] == aff0[j]);
                } else {
                    assert(affected@[affected@.len() - 1]@ == rows0[k].id@);
                }
            }
            i = i + 1;
        }
        let ghost m1 = reaped(m0, cutoff as int);
        self.records = Ghost(m1);
        assert(self.wf()) by {
            assert forall|k: int| 0 <= k < self.rows@.len() implies {
                &&& self.records@.contains_key(#[trigger] self.rows@[k].id@)
                &&& self.records@[self.rows@[k].id@] == self.rows@[k]@
            } by {
                assert(old(self).records@.contains_key(rows0[k].id@));
            }
            assert forall|k: Seq<char>| #[trigger] self.records@.contains_key(k) implies exists|j: int|
                0 <= j < self.rows@.len() && #[trigger] self.rows@[j].id@ == k by {
                assert(old(self).records@.contains_key(k));
                let j = choose|j: int| 0 <= j < rows0.len() && #[trigger] rows0[j].id@ == k;
                assert(self.rows@[j].id@ == k);
            }
        }
        assert forall|k: Seq<char>| m0.contains_key(k) && is_stale(m0[k], cutoff as int) implies exists|j: int|
            0 <= j < affected@.len() && #[trigger] affected@[j]@ == k by {
            assert(old(self).records@.contains_key(k));
            let p = choose|p: int| 0 <= p < rows0.len() && #[trigger] rows0[p].id@ == k;
            assert(is_stale(rows0[p]@, cutoff as int));
        }
        affected
    }

    /// Every record of the store, each once.
    pub fn list_agents(&self) -> (r: Vec<Agent>)
        requires
            self.wf(),
        ensures
            r@.len() == self@.len(),
            forall|j: int|
                0 <= j < r@.len() ==> self@.contains_key(#[trigger] r@[j]@.id) && self@[r@[j]@.id]
                    == r@[j]@,
            forall|k: Seq<char>|
                self@.contains_key(k) ==> exists|j: int| 0 <= j < r@.len() && #[trigger] r@[j]@.id == k,
    {
        proof {
            self.lemma_len();
        }
        let mut out: Vec<Agent> = Vec::new();
        let mut i: usize = 0;
        while i < self.rows.len()
            invariant
                self.wf(),
                i <= self.rows@.len(),
                out@.len() == i,
                forall|k: int| 0 <= k < i ==> #[trigger] out@[k]@ == self.rows@[k]@,
            decreases self.rows@.len() - i,
        {
            out.push(self.rows[i].duplicate());
            i = i + 1;
        }
        assert forall|k: Seq<char>| self@.contains_key(k) implies exists|j: int|
            0 <= j < out@.len() && #[trigger] out@[j]@.id == k by {
            assert(self.records@.contains_key(k));
            let j = choose|j: int| 0 <= j < self.rows@.len() && #[trigger] self.rows@[j].id@ == k;
            assert(out@[j]@.id == k);
        }
        assert forall|j: int| 0 <= j < out@.len() implies self@.contains_key(#[trigger] out@[j]@.id)
            && self@[out@[j]@.id] == out@[j]@ by {
            assert(self.records@.contains_key(self.rows@[j].id@));
        }
        out
    }
}

/// The reaper's cutoff for a tick at `now`: an agent whose heartbeat is at
/// least `window` seconds old lies strictly before it.
pub fn stale_cutoff(now: i64, window: i64) -> (r: i64)
    requires
        0 <= now,
        0 < window,
    ensures
        r == now - window + 1,
{
    (now - window) + 1
}

} // verus!
