use vstd::prelude::*;
use crate::live::{LiveConnectionRegistry, is_current, put_slot, removed_if_current};
use crate::model::{AgentRequest, AgentView, WsServerMessage};
use crate::observers::{Delivery, ObserverBroadcastRegistry, Publication, delivery_ids};
use crate::store::{FleetStore, StoreError, is_stale, marked_offline, reaped, registered, stale_cutoff, touched};

verus! {

/// Seconds between two reaper ticks.
pub const REAP_PERIOD_SECS: u64 = 30;

/// Heartbeat age, in seconds, at which an agent counts as gone.
pub const STALE_WINDOW_SECS: i64 = 60;

/// Pending messages an agent's outbound queue holds.
pub const OUTBOUND_CAPACITY: usize = 128;

/// Where one agent connection stands.
#[derive(Clone, Debug)]
pub enum ChannelPhase {
    AwaitingRegister,
    Active { agent_id: String, generation: u64 },
    Terminated,
}

/// What the transport handed the connection handler.
#[derive(Clone, Debug)]
pub enum Inbound {
    Message(AgentRequest),
    Failed,
    Ended,
}

/// Whether `p` offers the agent record `v`, as an update, to exactly `ids`.
pub open spec fn announces(p: Publication, ids: Seq<u128>, v: AgentView) -> bool {
    &&& p.recipients == ids
    &&& p.event matches WsServerMessage::AgentUpdate { agent } && agent@ == v
}

/// `after` is `before` with one announcement of `v` to `ids` added.
pub open spec fn announced_once(
    before: Seq<Publication>,
    after: Seq<Publication>,
    ids: Seq<u128>,
    v: AgentView,
) -> bool {
    &&& after.len() == before.len() + 1
    &&& after.drop_last() == before
    &&& announces(after.last(), ids, v)
}

/// Whether registering `id` is refused because the store is full.
pub open spec fn store_refuses(store: &FleetStore, id: Seq<char>) -> bool {
    !store@.contains_key(id) && store@.len() >= store.capacity()
}

/// Registers an agent: its record becomes online with heartbeat `now`, its
/// handle becomes the live entry under a fresh generation, and every observer
/// is offered the stored record once. If the store refuses the record,
/// nothing changes: no live entry, no update. Returns the generation and the
/// deliveries.
pub fn register_agent<H>(
    store: &mut FleetStore,
    live: &mut LiveConnectionRegistry<H>,
    observers: &mut ObserverBroadcastRegistry,
    agent_id: &String,
    hostname: &String,
    now: i64,
    handle: H,
) -> (r: Result<(u64, Vec<Delivery>), StoreError>)
    requires
        old(store).wf(),
        old(live).wf(),
        old(live).issued() < u64::MAX,
        old(observers).wf(),
    ensures
        final(store).wf(),
        final(live).wf(),
        final(observers).wf(),
        final(store).capacity() == old(store).capacity(),
        final(observers)@ == old(observers)@,
        r is Err <==> store_refuses(old(store), agent_id@),
        r is Err ==> {
            &&& final(store)@ == old(store)@
            &&& final(live)@ == old(live)@
            &&& final(live).issued() == old(live).issued()
            &&& final(observers).published() == old(observers).published()
        },
        r matches Ok((g, d)) ==> {
            &&& final(store)@ == registered(old(store)@, agent_id@, hostname@, now)
            &&& g == old(live).issued()
            &&& final(live).issued() == g + 1
            &&& final(live)@ == put_slot(old(live)@, agent_id@, g, handle)
            &&& announced_once(
                old(observers).published(),
                final(observers).published(),
                old(observers)@,
                final(store)@[agent_id@],
            )
            &&& delivery_ids(d@) == old(observers)@
        },
{
    let record = match store.upsert_online(agent_id, hostname, now) {
        Ok(a) => a,
        Err(e) => return Err(e),
    };
    let generation = live.put(agent_id, handle);
    let event = WsServerMessage::AgentUpdate { agent: record };
    let deliveries = observers.publish(&event);
    assert(observers.published().drop_last() =~= old(observers).published());
    Ok((generation, deliveries))
}

/// Records a heartbeat of a registered agent; the status is left alone. An
/// agent the store does not know is left as it is.
pub fn record_heartbeat(store: &mut FleetStore, agent_id: &String, now: i64) -> (r: bool)
    requires
        old(store).wf(),
    ensures
        final(store).wf(),
        final(store).capacity() == old(store).capacity(),
        r == old(store)@.contains_key(agent_id@),
        final(store)@ == touched(old(store)@, agent_id@, now),
{
    store.touch_heartbeat(agent_id, now)
}

/// Tears a connection down. Only while its generation is still the live one
/// does it remove the entry, mark the agent offline and offer the record to
/// every observer once; a superseded connection changes nothing and
/// publishes nothing. Returns the deliveries, if any were made.
pub fn disconnect_agent<H>(
    store: &mut FleetStore,
    live: &mut LiveConnectionRegistry<H>,
    observers: &mut ObserverBroadcastRegistry,
    agent_id: &String,
    generation: u64,
) -> (r: Option<Vec<Delivery>>)
    requires
        old(store).wf(),
        old(live).wf(),
        old(observers).wf(),
    ensures
        final(store).wf(),
        final(live).wf(),
        final(observers).wf(),
        final(store).capacity() == old(store).capacity(),
        final(observers)@ == old(observers)@,
        final(live).issued() == old(live).issued(),
        final(live)@ == removed_if_current(old(live)@, agent_id@, generation),
        final(store)@ == if is_current(old(live)@, agent_id@, generation) {
            marked_offline(old(store)@, agent_id@)
        } else {
            old(store)@
        },
        is_current(old(live)@, agent_id@, generation) && old(store)@.contains_key(agent_id@) ==> {
            &&& r matches Some(d) && delivery_ids(d@) == old(observers)@
            &&& announced_once(
                old(observers).published(),
                final(observers).published(),
                old(observers)@,
                final(store)@[agent_id@],
            )
        },
        !(is_current(old(live)@, agent_id@, generation) && old(store)@.contains_key(agent_id@)) ==> {
            &&& r is None
            &&& final(observers).published() == old(observers).published()
        },
{
    if !live.remove_if_current(agent_id, generation) {
        return None;
    }
    store.mark_offline(agent_id);
    match store.get_agent(agent_id) {
        Some(record) => {
            let event = WsServerMessage::AgentUpdate { agent: record };
            let deliveries = observers.publish(&event);
            assert(observers.published().drop_last() =~= old(observers).published());
            Some(deliveries)
        },
        None => None,
    }
}

/// One reaper tick at `now`: in one conditional update, every online agent
/// whose heartbeat is at least `window` seconds old goes offline. Then, for
/// each demoted id in turn and for no other, the reloaded record is offered
/// to every observer once. Returns the ids demoted.
pub fn reap_tick(
    store: &mut FleetStore,
    observers: &mut ObserverBroadcastRegistry,
    now: i64,
    window: i64,
) -> (r: Vec<String>)
    requires
        old(store).wf(),
        old(observers).wf(),
        0 <= now,
        0 < window,
    ensures
        final(store).wf(),
        final(observers).wf(),
        final(store).capacity() == old(store).capacity(),
        final(observers)@ == old(observers)@,
        final(store)@ == reaped(old(store)@, now - window + 1),
        forall|j: int|
            0 <= j < r@.len() ==> old(store)@.contains_key(#[trigger] r@[j]@) && is_stale(
                old(store)@[r@[j]@],
                now - window + 1,
            ),
        forall|k: Seq<char>|
            old(store)@.contains_key(k) && is_stale(old(store)@[k], now - window + 1) ==> exists|j: int|
                0 <= j < r@.len() && #[trigger] r@[j]@ == k,
        forall|a: int, b: int| 0 <= a < b < r@.len() ==> #[trigger] r@[a]@ != #[trigger] r@[b]@,
        final(observers).published().len() == old(observers).published().len() + r@.len(),
        final(observers).published().take(old(observers).published().len() as int) == old(
            observers,
        ).published(),
        forall|j: int|
            0 <= j < r@.len() ==> announces(
                #[trigger] final(observers).published()[old(observers).published().len() + j],
                old(observers)@,
                final(store)@[r@[j]@],
            ),
{
    let cutoff = stale_cutoff(now, window);
    let affected = store.mark_stale_offline(cutoff);
    let ghost base = observers.published();
    let mut i: usize = 0;
    while i < affected.len()
        invariant
            store.wf(),
            observers.wf(),
            store@ == reaped(old(store)@, cutoff as int),
            store.capacity() == old(store).capacity(),
            observers@ == old(observers)@,
            base == old(observers).published(),
            i <= affected@.len(),
            forall|j: int| 0 <= j < affected@.len() ==> old(store)@.contains_key(#[trigger] affected@[j]@),
            observers.published().len() == base.len() + i,
            observers.published().take(base.len() as int) == base,
            forall|j: int|
                0 <= j < i ==> announces(
                    #[trigger] observers.published()[base.len() + j],
                    old(observers)@,
                    store@[affected@[j]@],
                ),
        decreases affected@.len() - i,
    {
        assert(store@.contains_key(affected@[i as int]@));
        let ghost before = observers.published();
        match store.get_agent(&affected[i]) {
            Some(record) => {
                let event = WsServerMessage::AgentUpdate { agent: record };
                observers.publish(&event);
                assert(observers.published().take(base.len() as int) =~= before.take(base.len() as int));
                assert forall|j: int| 0 <= j < i + 1 implies announces(
                    #[trigger] observers.published()[base.len() + j],
                    old(observers)@,
                    store@[affected@[j]@],
                ) by {
                    if j < i {
                        assert(observers.published()[base.len() + j] == before[base.len() + j]);
                    }
                }
            },
            None => {},
        }
        i = i + 1;
    }
    affected
}

/// Handles the first message of a connection. A registration makes the
/// connection active (see `register_agent`), unless the store refuses it;
/// anything else, or a refused registration, ends the connection with
/// nothing changed and nothing published.
pub fn on_first_message<H>(
    store: &mut FleetStore,
    live: &mut LiveConnectionRegistry<H>,
    observers: &mut ObserverBroadcastRegistry,
    first: Inbound,
    now: i64,
    handle: H,
) -> (r: ChannelPhase)
    requires
        old(store).wf(),
        old(live).wf(),
        old(live).issued() < u64::MAX,
        old(observers).wf(),
    ensures
        final(store).wf(),
        final(live).wf(),
        final(observers).wf(),
        final(store).capacity() == old(store).capacity(),
        final(observers)@ == old(observers)@,
        match first {
            Inbound::Message(AgentRequest::Register { agent_id, hostname }) => if store_refuses(
                old(store),
                agent_id@,
            ) {
                &&& final(store)@ == old(store)@
                &&& final(live)@ == old(live)@
                &&& final(live).issued() == old(live).issued()
                &&& final(observers).published() == old(observers).published()
                &&& r matches ChannelPhase::Terminated
            } else {
                &&& final(store)@ == registered(old(store)@, agent_id@, hostname@, now)
                &&& final(live)@ == put_slot(old(live)@, agent_id@, old(live).issued(), handle)
                &&& final(live).issued() == old(live).issued() + 1
                &&& announced_once(
                    old(observers).published(),
                    final(observers).published(),
                    old(observers)@,
                    final(store)@[agent_id@],
                )
                &&& r matches ChannelPhase::Active { agent_id: a, generation: g } && a@ == agent_id@ && g
                    == old(live).issued()
            },
            _ => {
                &&& final(store)@ == old(store)@
                &&& final(live)@ == old(live)@
                &&& final(live).issued() == old(live).issued()
                &&& final(observers).published() == old(observers).published()
                &&& r matches ChannelPhase::Terminated
            },
        },
{
    match first {
        Inbound::Message(AgentRequest::Register { agent_id, hostname }) => {
            match register_agent(store, live, observers, &agent_id, &hostname, now, handle) {
                Ok((generation, _)) => ChannelPhase::Active { agent_id, generation },
                Err(_) => ChannelPhase::Terminated,
            }
        },
        _ => ChannelPhase::Terminated,
    }
}

/// Handles a later message of an active connection: a heartbeat refreshes
/// the record (an agent the store no longer knows is left alone) and keeps
/// the connection active, a repeated registration is ignored, and a failed
/// or ended transport tears it down (see `disconnect_agent`).
pub fn on_active_message<H>(
    store: &mut FleetStore,
    live: &mut LiveConnectionRegistry<H>,
    observers: &mut ObserverBroadcastRegistry,
    agent_id: String,
    generation: u64,
    event: Inbound,
    now: i64,
) -> (r: ChannelPhase)
    requires
        old(store).wf(),
        old(live).wf(),
        old(observers).wf(),
    ensures
        final(store).wf(),
        final(live).wf(),
        final(observers).wf(),
        final(store).capacity() == old(store).capacity(),
        final(observers)@ == old(observers)@,
        final(live).issued() == old(live).issued(),
        match event {
            Inbound::Message(AgentRequest::Heartbeat { .. }) => {
                &&& final(store)@ == touched(old(store)@, agent_id@, now)
                &&& final(live)@ == old(live)@
                &&& final(observers).published() == old(observers).published()
                &&& r matches ChannelPhase::Active { agent_id: a, generation: g } && a@ == agent_id@ && g
                    == generation
            },
            Inbound::Message(AgentRequest::Register { .. }) => {
                &&& final(store)@ == old(store)@
                &&& final(live)@ == old(live)@
                &&& final(observers).published() == old(observers).published()
                &&& r matches ChannelPhase::Active { agent_id: a, generation: g } && a@ == agent_id@ && g
                    == generation
            },
            _ => {
                &&& final(live)@ == removed_if_current(old(live)@, agent_id@, generation)
                &&& final(store)@ == if is_current(old(live)@, agent_id@, generation) {
                    marked_offline(old(store)@, agent_id@)
                } else {
                    old(store)@
                }
                &&& if is_current(old(live)@, agent_id@, generation) && old(store)@.contains_key(agent_id@) {
                    announced_once(
                        old(observers).published(),
                        final(observers).published(),
                        old(observers)@,
                        final(store)@[agent_id@],
                    )
                } else {
                    final(observers).published() == old(observers).published()
                }
                &&& r matches ChannelPhase::Terminated
            },
        },
{
    match event {
        Inbound::Message(AgentRequest::Heartbeat { .. }) => {
            record_heartbeat(store, &agent_id, now);
            ChannelPhase::Active { agent_id, generation }
        },
        Inbound::Message(AgentRequest::Register { .. }) => ChannelPhase::Active { agent_id, generation },
        _ => {
            disconnect_agent(store, live, observers, &agent_id, generation);
            ChannelPhase::Terminated
        },
    }
}

} // verus!
