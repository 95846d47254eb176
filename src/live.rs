use vstd::prelude::*;
use crate::model::ServerCommand;
use vstd::utf8::encode_utf8;

verus! {

#[verifier::external_type_specification]
#[verifier::external_body]
#[verifier::reject_recursive_types(T)]
pub struct ExSender<T>(tokio::sync::mpsc::Sender<T>);

/// The live entry of one agent: the generation it was given and its handle.
pub struct LiveSlot<H> {
    pub generation: u64,
    pub handle: H,
}

struct LiveEntry<H> {
    agent_id: String,
    generation: u64,
    handle: H,
}

/// Map from agent id to its current delivery handle, at most one per id.
/// Each insertion is stamped with a fresh generation; an entry is removed only
/// by the holder of its current generation.
pub struct LiveConnectionRegistry<H> {
    entries: Vec<LiveEntry<H>>,
    next_generation: u64,
    slots: Ghost<Map<Seq<char>, LiveSlot<H>>>,
}

impl<H> View for LiveConnectionRegistry<H> {
    type V = Map<Seq<char>, LiveSlot<H>>;

    closed spec fn view(&self) -> Map<Seq<char>, LiveSlot<H>> {
        self.slots@
    }
}

/// The map after an insertion under `id`.
pub open spec fn put_slot<H>(m: Map<Seq<char>, LiveSlot<H>>, id: Seq<char>, generation: u64, handle: H) -> Map<
    Seq<char>,
    LiveSlot<H>,
> {
    m.insert(id, LiveSlot { generation, handle })
}

/// Whether the holder of `generation` still owns the entry of `id`.
pub open spec fn is_current<H>(m: Map<Seq<char>, LiveSlot<H>>, id: Seq<char>, generation: u64) -> bool {
    m.contains_key(id) && m[id].generation == generation
}

/// The map after a compare-and-remove of `id` at `generation`.
pub open spec fn removed_if_current<H>(m: Map<Seq<char>, LiveSlot<H>>, id: Seq<char>, generation: u64) -> Map<
    Seq<char>,
    LiveSlot<H>,
> {
    if is_current(m, id, generation) {
        m.remove(id)
    } else {
        m
    }
}

/// Modulus of the shard hash: a prime below 2^32.
pub const HASH_MODULUS: u64 = 4294967291;

/// Polynomial hash of a byte string, reduced modulo `HASH_MODULUS`.
pub open spec fn byte_hash(b: Seq<u8>) -> nat
    decreases b.len(),
{
    if b.len() == 0 {
        0
    } else {
        ((byte_hash(b.drop_last()) * 31 + b.last()) % (HASH_MODULUS as int)) as nat
    }
}

/// The shard that holds agent `id` when the registry is split in `shards`
/// parts: it depends on the id's characters alone, so every operation on one
/// id meets the same shard and its generations stay ordered.
pub fn shard_index(id: &String, shards: usize) -> (r: usize)
    requires
        shards > 0,
    ensures
        r < shards,
        r == byte_hash(encode_utf8(id@)) % (shards as nat),
{
    let bytes = id.as_str().as_bytes();
    let mut h: u64 = 0;
    let mut i: usize = 0;
    while i < bytes.len()
        invariant
            i <= bytes@.len(),
            bytes@ == encode_utf8(id@),
            h == byte_hash(bytes@.take(i as int)),
            h < HASH_MODULUS,
        decreases bytes@.len() - i,
    {
        assert(bytes@.take(i + 1).drop_last() =~= bytes@.take(i as int));
        h = (h * 31 + bytes[i] as u64) % HASH_MODULUS;
        i = i + 1;
    }
    assert(bytes@.take(bytes@.len() as int) =~= bytes@);
    (h % (shards as u64)) as usize
}

/// Why a job could not be handed to an agent.
#[derive(Clone, Copy, Debug, PartialEq, Eq, Structural)]
pub enum DispatchError {
    /// No live connection for the agent.
    NotConnected,
    /// The agent's outbound queue is full.
    Backpressure,
    /// The agent's connection is closing.
    Closed,
}

/// Relies on tokio's `Sender::try_send`: it never waits, and fails either
/// because the queue is full or because the receiver is gone.
#[verifier::external_body]
fn try_deliver(tx: &tokio::sync::mpsc::Sender<ServerCommand>, cmd: ServerCommand) -> (r: Result<(), DispatchError>)
    ensures
        r matches Err(e) ==> e != DispatchError::NotConnected,
{
    match tx.try_send(cmd) {
        Ok(()) => Ok(()),
        Err(tokio::sync::mpsc::error::TrySendError::Full(_)) => Err(DispatchError::Backpressure),
        Err(tokio::sync::mpsc::error::TrySendError::Closed(_)) => Err(DispatchError::Closed),
    }
}

impl<H> LiveConnectionRegistry<H> {
    pub closed spec fn wf(&self) -> bool {
        &&& forall|i: int|
            0 <= i < self.entries@.len() ==> {
                &&& self.slots@.contains_key(#[trigger] self.entries@[i].agent_id@)
                &&& self.slots@[self.entries@[i].agent_id@] == (LiveSlot {
                    generation: self.entries@[i].generation,
                    handle: self.entries@[i].handle,
                })
            }
        &&& forall|i: int, j: int|
            0 <= i < self.entries@.len() && 0 <= j < self.entries@.len() && i != j
                ==> #[trigger] self.entries@[i].agent_id@ != #[trigger] self.entries@[j].agent_id@
        &&& forall|k: Seq<char>|
            #[trigger] self.slots@.contains_key(k) ==> exists|i: int|
                0 <= i < self.entries@.len() && #[trigger] self.entries@[i].agent_id@ == k
        &&& forall|k: Seq<char>|
            #[trigger] self.slots@.contains_key(k) ==> self.slots@[k].generation < self.next_generation
    }

    /// The next generation to be issued; every generation issued so far, live
    /// or not, lies below it.
    pub closed spec fn issued(&self) -> u64 {
        self.next_generation
    }

    pub proof fn lemma_generations_below_issued(&self, k: Seq<char>)
        requires
            self.wf(),
            self@.contains_key(k),
        ensures
            self@[k].generation < self.issued(),
    {
    }

    pub fn new() -> (r: Self)
        ensures
            r.wf(),
            r@ == Map::<Seq<char>, LiveSlot<H>>::empty(),
            r.issued() == 1,
    {
        LiveConnectionRegistry { entries: Vec::new(), next_generation: 1, slots: Ghost(Map::empty()) }
    }

    /// Whether another generation can still be issued.
    pub fn can_issue(&self) -> (r: bool)
        ensures
            r == (self.issued() < u64::MAX),
    {
        self.next_generation < u64::MAX
    }

    fn find(&self, id: &String) -> (r: Option<usize>)
        requires
            self.wf(),
        ensures
            match r {
                Some(i) => i < self.entries@.len() && self.entries@[i as int].agent_id@ == id@,
                None => !self@.contains_key(id@),
            },
    {
        let mut i: usize = 0;
        while i < self.entries.len()
            invariant
                self.wf(),
                i <= self.entries@.len(),
                forall|k: int| 0 <= k < i ==> #[trigger] self.entries@[k].agent_id@ != id@,
            decreases self.entries@.len() - i,
        {
            if self.entries[i].agent_id == *id {
                return Some(i);
            }
            i = i + 1;
        }
        None
    }

    /// Inserts or overwrites the entry of `id` and returns its generation, which
    /// exceeds every generation issued before. A superseded handle is dropped
    /// without notice.
    pub fn put(&mut self, id: &String, handle: H) -> (r: u64)
        requires
            old(self).wf(),
            old(self).issued() < u64::MAX,
        ensures
            final(self).wf(),
            r == old(self).issued(),
            final(self).issued() == r + 1,
            final(self)@ == put_slot(old(self)@, id@, r, handle),
    {
        let generation = self.next_generation;
        let ghost new_map = put_slot(self@, id@, generation, handle);
        let entry = LiveEntry { agent_id: id.clone(), generation, handle };
        let pos: usize;
        match self.find(id) {
            Some(i) => {
                self.entries.set(i, entry);
                pos = i;
            },
            None => {
                self.entries.push(entry);
                pos = self.entries.len() - 1;
            },
        }
        self.next_generation = generation + 1;
        self.slots = Ghost(new_map);
        assert(self.entries@[pos as int].agent_id@ == id@);
        assert(self.wf()) by {
            assert forall|k: Seq<char>| #[trigger] self.slots@.contains_key(k) implies exists|i: int|
                0 <= i < self.entries@.len() && #[trigger] self.entries@[i].agent_id@ == k by {
                if k != id@ {
                    assert(old(self).slots@.contains_key(k));
                    let j = choose|j: int|
                        0 <= j < old(self).entries@.len() && #[trigger] old(self).entries@[j].agent_id@ == k;
                    assert(self.entries@[j].agent_id@ == k);
                } else {
                    assert(self.entries@[pos as int].agent_id@ == k);
                }
            }
        }
        generation
    }

    /// Removes the entry of `id` only if it still carries `generation`;
    /// returns whether it did.
    pub fn remove_if_current(&mut self, id: &String, generation: u64) -> (r: bool)
        requires
            old(self).wf(),
        ensures
            final(self).wf(),
            r == is_current(old(self)@, id@, generation),
            final(self)@ == removed_if_current(old(self)@, id@, generation),
            final(self).issued() == old(self).issued(),
    {
        match self.find(id) {
            Some(i) => {
                if self.entries[i].generation == generation {
                    let ghost new_map = self@.remove(id@);
                    let ghost e0 = self.entries@;
                    self.entries.remove(i);
                    self.slots = Ghost(new_map);
                    assert(self.wf()) by {
                        assert forall|k: int| 0 <= k < self.entries@.len() implies {
                            &&& self.slots@.contains_key(#[trigger] self.entries@[k].agent_id@)
                            &&& self.slots@[self.entries@[k].agent_id@] == (LiveSlot {
                                generation: self.entries@[k].generation,
                                handle: self.entries@[k].handle,
                            })
                        } by {
                            if k < i {
                                assert(self.entries@[k] == e0[k]);
                                assert(e0[k].agent_id@ != e0[i as int].agent_id@);
                            } else {
                                assert(self.entries@[k] == e0[k + 1]);
                                assert(e0[k + 1].agent_id@ != e0[i as int].agent_id@);
                            }
                        }
                        assert forall|a: int, b: int|
                            0 <= a < self.entries@.len() && 0 <= b < self.entries@.len() && a != b
                                implies #[trigger] self.entries@[a].agent_id@ != #[trigger] self.entries@[b].agent_id@ by {
                            let a0 = if a < i { a } else { a + 1 };
                            let b0 = if b < i { b } else { b + 1 };
                            assert(self.entries@[a] == e0[a0]);
                            assert(self.entries@[b] == e0[b0]);
                        }
                        assert forall|k: Seq<char>| #[trigger] self.slots@.contains_key(k) implies exists|j: int|
                            0 <= j < self.entries@.len() && #[trigger] self.entries@[j].agent_id@ == k by {
                            assert(old(self).slots@.contains_key(k));
                            let j = choose|j: int| 0 <= j < e0.len() && #[trigger] e0[j].agent_id@ == k;
                            assert(j != i);
                            if j < i {
                                assert(self.entries@[j] == e0[j]);
                            } else {
                                assert(self.entries@[j - 1] == e0[j]);
                            }
                        }
                    }
                    true
                } else {
                    false
                }
            },
            None => false,
        }
    }

    /// The current generation of `id`, if it is connected.
    pub fn current_generation(&self, id: &String) -> (r: Option<u64>)
        requires
            self.wf(),
        ensures
            match r {
                Some(g) => self@.contains_key(id@) && self@[id@].generation == g,
                None => !self@.contains_key(id@),
            },
    {
        match self.find(id) {
            Some(i) => Some(self.entries[i].generation),
            None => None,
        }
    }

    /// The current delivery handle of `id`; none means the agent is not
    /// connected.
    pub fn lookup(&self, id: &String) -> (r: Option<&H>)
        requires
            self.wf(),
        ensures
            match r {
                Some(h) => self@.contains_key(id@) && *h == self@[id@].handle,
                None => !self@.contains_key(id@),
            },
    {
        match self.find(id) {
            Some(i) => Some(&self.entries[i].handle),
            None => None,
        }
    }
}

impl LiveConnectionRegistry<tokio::sync::mpsc::Sender<ServerCommand>> {
    /// Hands `cmd` to the agent's outbound queue without waiting. Fails with
    /// `NotConnected` exactly when the agent has no live entry; otherwise the
    /// queue decides between success, `Backpressure` and `Closed`.
    pub fn dispatch(&self, id: &String, cmd: ServerCommand) -> (r: Result<(), DispatchError>)
        requires
            self.wf(),
        ensures
            (r == Err::<(), DispatchError>(DispatchError::NotConnected)) <==> !self@.contains_key(id@),
    {
        match self.lookup(id) {
            Some(tx) => try_deliver(tx, cmd),
            None => Err(DispatchError::NotConnected),
        }
    }
}

} // verus!
