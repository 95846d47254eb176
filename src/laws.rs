use vstd::prelude::*;
use crate::live::{LiveSlot, is_current, put_slot, removed_if_current};
use crate::model::{AgentStatus, AgentView, WsServerMessage};
use crate::observers::{Delivery, Publication, delivery_ids};
use crate::store::{marked_offline, reaped, registered, touched};

verus! {

/// Store contents after the heartbeats `beats` of agent `id`, in order.
pub open spec fn after_heartbeats(m: Map<Seq<char>, AgentView>, id: Seq<char>, beats: Seq<i64>) -> Map<
    Seq<char>,
    AgentView,
>
    decreases beats.len(),
{
    if beats.len() == 0 {
        m
    } else {
        touched(after_heartbeats(m, id, beats.drop_last()), id, beats.last())
    }
}

proof fn lemma_heartbeats_keep_record(
    m: Map<Seq<char>, AgentView>,
    id: Seq<char>,
    hostname: Seq<char>,
    t0: i64,
    beats: Seq<i64>,
)
    ensures
        ({
            let s = after_heartbeats(registered(m, id, hostname, t0), id, beats);
            &&& s.contains_key(id)
            &&& s[id].id == id
            &&& s[id].hostname == hostname
            &&& s[id].status == AgentStatus::Online
            &&& s[id].last_heartbeat == if beats.len() == 0 { t0 } else { beats.last() }
        }),
    decreases beats.len(),
{
    if beats.len() > 0 {
        lemma_heartbeats_keep_record(m, id, hostname, t0, beats.drop_last());
    }
}

/// An agent that registers at `t0`, sends the heartbeats `beats` and then
/// disconnects while its own connection is still the live one ends offline,
/// with the timestamp of its last heartbeat (or of its registration, if it
/// sent none).
pub proof fn lemma_clean_session_ends_offline<H>(
    m: Map<Seq<char>, AgentView>,
    live: Map<Seq<char>, LiveSlot<H>>,
    id: Seq<char>,
    hostname: Seq<char>,
    t0: i64,
    beats: Seq<i64>,
    generation: u64,
    handle: H,
)
    ensures
        is_current(put_slot(live, id, generation, handle), id, generation),
        !removed_if_current(put_slot(live, id, generation, handle), id, generation).contains_key(id),
        ({
            let end = marked_offline(after_heartbeats(registered(m, id, hostname, t0), id, beats), id);
            &&& end.contains_key(id)
            &&& end[id].hostname == hostname
            &&& end[id].status == AgentStatus::Offline
            &&& end[id].last_heartbeat == if beats.len() == 0 { t0 } else { beats.last() }
        }),
{
    lemma_heartbeats_keep_record(m, id, hostname, t0, beats);
}

/// A reaper tick demotes an online agent exactly when its heartbeat is at
/// least `window` seconds old at the tick; heartbeats never change a status.
pub proof fn lemma_reap_respects_window(
    m: Map<Seq<char>, AgentView>,
    id: Seq<char>,
    now: i64,
    window: i64,
    t: i64,
)
    requires
        m.contains_key(id),
        m[id].status == AgentStatus::Online,
    ensures
        reaped(m, now - window + 1).contains_key(id),
        (reaped(m, now - window + 1)[id].status == AgentStatus::Offline) <==> now - m[id].last_heartbeat
            >= window,
        touched(m, id, t)[id].status == m[id].status,
{
}

/// When a second registration under the same id takes a later generation,
/// only its entry survives, and the teardown of the first connection is no
/// longer current: it leaves the entry, and with it the persisted record,
/// untouched.
pub proof fn lemma_superseded_teardown_is_inert<H>(
    live: Map<Seq<char>, LiveSlot<H>>,
    id: Seq<char>,
    first: u64,
    first_handle: H,
    second: u64,
    second_handle: H,
)
    requires
        first < second,
    ensures
        ({
            let both = put_slot(put_slot(live, id, first, first_handle), id, second, second_handle);
            &&& both.contains_key(id)
            &&& both[id] == LiveSlot { generation: second, handle: second_handle }
            &&& !is_current(both, id, first)
            &&& removed_if_current(both, id, first) == both
        }),
{
}

/// A registered record stays in the store through every later operation, so
/// any snapshot listed afterwards holds it.
pub proof fn lemma_registration_persists(
    m: Map<Seq<char>, AgentView>,
    id: Seq<char>,
    hostname: Seq<char>,
    now: i64,
    other: Seq<char>,
    other_host: Seq<char>,
    t: i64,
    cutoff: int,
)
    ensures
        registered(m, id, hostname, now).contains_key(id),
        m.contains_key(id) ==> registered(m, other, other_host, t).contains_key(id),
        m.contains_key(id) ==> touched(m, other, t).contains_key(id),
        m.contains_key(id) ==> marked_offline(m, other).contains_key(id),
        m.contains_key(id) ==> reaped(m, cutoff).contains_key(id),
{
}

/// An event published before an observer subscribed reached only the
/// observers subscribed then, so it never reaches the newcomer.
pub proof fn lemma_earlier_event_misses_newcomer(subscribed: Seq<u128>, report: Seq<Delivery>, newcomer: u128)
    requires
        delivery_ids(report) == subscribed,
        !subscribed.contains(newcomer),
    ensures
        forall|j: int| 0 <= j < report.len() ==> #[trigger] report[j].observer != newcomer,
{
    assert forall|j: int| 0 <= j < report.len() implies #[trigger] report[j].observer != newcomer by {
        assert(delivery_ids(report)[j] == report[j].observer);
    }
}

/// The events observer `o` has been offered, oldest first, by the
/// publications of `log`.
pub open spec fn received(log: Seq<Publication>, o: u128) -> Seq<WsServerMessage>
    decreases log.len(),
{
    if log.len() == 0 {
        Seq::empty()
    } else if log.last().recipients.contains(o) {
        received(log.drop_last(), o).push(log.last().event)
    } else {
        received(log.drop_last(), o)
    }
}

/// Two events published in turn reach an observer subscribed at both
/// moments once each, in the order published; an observer subscribed at
/// neither moment is offered nothing.
pub proof fn lemma_publications_keep_order(
    log: Seq<Publication>,
    first: Publication,
    second: Publication,
    o: u128,
)
    ensures
        first.recipients.contains(o) && second.recipients.contains(o) ==> received(
            log.push(first).push(second),
            o,
        ) == received(log, o).push(first.event).push(second.event),
        !first.recipients.contains(o) && !second.recipients.contains(o) ==> received(
            log.push(first).push(second),
            o,
        ) == received(log, o),
{
    let l1 = log.push(first);
    let l2 = l1.push(second);
    assert(l2.drop_last() =~= l1);
    assert(l1.drop_last() =~= log);
    assert(l2.last() == second);
    assert(l1.last() == first);
    assert(received(l2, o) == if second.recipients.contains(o) {
        received(l1, o).push(second.event)
    } else {
        received(l1, o)
    });
    assert(received(l1, o) == if first.recipients.contains(o) {
        received(log, o).push(first.event)
    } else {
        received(log, o)
    });
}

} // verus!
