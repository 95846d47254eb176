use fleet_core::config::{agent_identity, resolve_hostname, AgentConfig, HostnameLookup};
use fleet_core::client::{client_step, ClientAction, ClientEvent, ClientPhase};
use fleet_core::fleet::{
    disconnect_agent, on_active_message, on_first_message, reap_tick, record_heartbeat, register_agent,
    ChannelPhase, Inbound, STALE_WINDOW_SECS,
};
use fleet_core::live::{shard_index, DispatchError, LiveConnectionRegistry};
use fleet_core::model::{fleet_stats, heartbeat_request, register_request, Agent, AgentRequest, AgentStatus, Job, ServerCommand, WsServerMessage};
use fleet_core::observers::{ObserverBroadcastRegistry, SubscribeError};
use fleet_core::store::{stale_cutoff, FleetStore, StoreError};
use tokio::sync::mpsc;

fn s(x: &str) -> String {
    x.to_string()
}

fn row(store: &FleetStore, id: &str) -> (String, String, AgentStatus, i64) {
    let a = store.get_agent(&s(id)).expect("record present");
    (a.id, a.hostname, a.status, a.last_heartbeat)
}

#[test]
fn scenario_register_heartbeat_disconnect() {
    let mut store = FleetStore::new();
    let mut live: LiveConnectionRegistry<u32> = LiveConnectionRegistry::new();
    let mut observers = ObserverBroadcastRegistry::new();
    let t0: i64 = 1_700_000_000;
    let (g, _) = register_agent(&mut store, &mut live, &mut observers, &s("a1"), &s("h1"), t0, 7).unwrap();
    assert_eq!(row(&store, "a1"), (s("a1"), s("h1"), AgentStatus::Online, t0));
    assert!(record_heartbeat(&mut store, &s("a1"), t0 + 10));
    assert_eq!(row(&store, "a1"), (s("a1"), s("h1"), AgentStatus::Online, t0 + 10));
    assert!(disconnect_agent(&mut store, &mut live, &mut observers, &s("a1"), g).is_some());
    assert_eq!(row(&store, "a1"), (s("a1"), s("h1"), AgentStatus::Offline, t0 + 10));
    assert!(live.lookup(&s("a1")).is_none());
}

#[test]
fn scenario_silent_agent_is_reaped() {
    let mut store = FleetStore::new();
    let mut live: LiveConnectionRegistry<u32> = LiveConnectionRegistry::new();
    let mut observers = ObserverBroadcastRegistry::new();
    let (otx, mut orx) = mpsc::unbounded_channel();
    assert!(observers.subscribe_with_id(1, otx, vec![]).is_ok());
    let t0: i64 = 1_700_000_000;
    register_agent(&mut store, &mut live, &mut observers, &s("a1"), &s("h1"), t0, 7).unwrap();
    assert!(matches!(orx.try_recv(), Ok(WsServerMessage::AgentUpdate { .. })));
    record_heartbeat(&mut store, &s("a1"), t0 + 10);
    let at_40 = reap_tick(&mut store, &mut observers, t0 + 40, STALE_WINDOW_SECS);
    assert!(at_40.is_empty());
    assert_eq!(row(&store, "a1").2, AgentStatus::Online);
    let at_70 = reap_tick(&mut store, &mut observers, t0 + 70, STALE_WINDOW_SECS);
    assert_eq!(at_70, vec![s("a1")]);
    assert_eq!(row(&store, "a1"), (s("a1"), s("h1"), AgentStatus::Offline, t0 + 10));
    match orx.try_recv() {
        Ok(WsServerMessage::AgentUpdate { agent }) => assert_eq!((agent.id, agent.status), (s("a1"), AgentStatus::Offline)),
        other => panic!("unexpected {:?}", other),
    }
    assert!(live.lookup(&s("a1")).is_some());
}

#[test]
fn clean_session_keeps_last_heartbeat() {
    let mut store = FleetStore::new();
    let mut live: LiveConnectionRegistry<u32> = LiveConnectionRegistry::new();
    let mut observers = ObserverBroadcastRegistry::new();
    let phase = on_first_message(&mut store, &mut live, &mut observers, Inbound::Message(register_request(&s("a9"), &s("box"))), 100, 1);
    let (id, g) = match phase {
        ChannelPhase::Active { agent_id, generation } => (agent_id, generation),
        other => panic!("unexpected {:?}", other),
    };
    let mut phase_id = id;
    for t in [110i64, 120, 130, 140] {
        match on_active_message(&mut store, &mut live, &mut observers, phase_id.clone(), g, Inbound::Message(heartbeat_request(t as u64)), t) {
            ChannelPhase::Active { agent_id, .. } => phase_id = agent_id,
            other => panic!("unexpected {:?}", other),
        }
    }
    let end = on_active_message(&mut store, &mut live, &mut observers, phase_id, g, Inbound::Ended, 150);
    assert!(matches!(end, ChannelPhase::Terminated));
    assert_eq!(row(&store, "a9"), (s("a9"), s("box"), AgentStatus::Offline, 140));
}

#[test]
fn first_message_must_register() {
    let mut store = FleetStore::new();
    let mut live: LiveConnectionRegistry<u32> = LiveConnectionRegistry::new();
    let mut observers = ObserverBroadcastRegistry::new();
    let p = on_first_message(&mut store, &mut live, &mut observers, Inbound::Message(AgentRequest::Heartbeat { timestamp: 5 }), 10, 1);
    assert!(matches!(p, ChannelPhase::Terminated));
    let p = on_first_message(&mut store, &mut live, &mut observers, Inbound::Ended, 10, 1);
    assert!(matches!(p, ChannelPhase::Terminated));
    let p = on_first_message(&mut store, &mut live, &mut observers, Inbound::Failed, 10, 1);
    assert!(matches!(p, ChannelPhase::Terminated));
    assert_eq!(store.len(), 0);
    assert!(live.lookup(&s("x")).is_none());
}

#[test]
fn superseded_teardown_leaves_survivor() {
    let mut store = FleetStore::new();
    let mut live: LiveConnectionRegistry<u32> = LiveConnectionRegistry::new();
    let mut observers = ObserverBroadcastRegistry::new();
    let (g1, _) = register_agent(&mut store, &mut live, &mut observers, &s("a1"), &s("old"), 10, 1).unwrap();
    let (g2, _) = register_agent(&mut store, &mut live, &mut observers, &s("a1"), &s("new"), 20, 2).unwrap();
    assert!(g2 > g1);
    assert!(disconnect_agent(&mut store, &mut live, &mut observers, &s("a1"), g1).is_none());
    assert_eq!(live.lookup(&s("a1")), Some(&2));
    assert_eq!(live.current_generation(&s("a1")), Some(g2));
    assert_eq!(row(&store, "a1"), (s("a1"), s("new"), AgentStatus::Online, 20));
    assert!(disconnect_agent(&mut store, &mut live, &mut observers, &s("a1"), g2).is_some());
    assert_eq!(row(&store, "a1").2, AgentStatus::Offline);
}

#[test]
fn registry_generations_and_compare_remove() {
    let mut live: LiveConnectionRegistry<&str> = LiveConnectionRegistry::new();
    let g1 = live.put(&s("a"), "first");
    let g2 = live.put(&s("b"), "second");
    let g3 = live.put(&s("a"), "third");
    assert!(g1 < g2 && g2 < g3);
    assert!(!live.remove_if_current(&s("a"), g1));
    assert_eq!(live.lookup(&s("a")), Some(&"third"));
    assert!(live.remove_if_current(&s("a"), g3));
    assert!(!live.remove_if_current(&s("a"), g3));
    assert_eq!(live.lookup(&s("a")), None);
    assert_eq!(live.lookup(&s("b")), Some(&"second"));
    assert!(live.can_issue());
}

#[test]
fn dispatch_outcomes() {
    let mut live = LiveConnectionRegistry::new();
    let job = Job {
        id: s("j1"),
        agent_id: Some(s("a1")),
        status: s("pending"),
        repository_url: s("http://example.com/r.git"),
        commands: vec![s("make"), s("make test")],
        created_at: 5,
    };
    assert_eq!(live.dispatch(&s("a1"), job.to_command()), Err(DispatchError::NotConnected));
    let (tx, mut rx) = mpsc::channel::<ServerCommand>(1);
    live.put(&s("a1"), tx);
    assert_eq!(live.dispatch(&s("a1"), job.to_command()), Ok(()));
    assert_eq!(live.dispatch(&s("a1"), job.to_command()), Err(DispatchError::Backpressure));
    match rx.try_recv().expect("queued job") {
        ServerCommand::RunJob(r) => {
            assert_eq!(r.job_id, "j1");
            assert_eq!(r.repository_url, "http://example.com/r.git");
            assert_eq!(r.commands, vec![s("make"), s("make test")]);
        }
    }
    drop(rx);
    assert_eq!(live.dispatch(&s("a1"), job.to_command()), Err(DispatchError::Closed));
}

#[test]
fn publish_reaches_every_observer_despite_broken_one() {
    let mut obs = ObserverBroadcastRegistry::new();
    let (tx1, mut rx1) = mpsc::unbounded_channel();
    let (tx2, rx2) = mpsc::unbounded_channel();
    let (tx3, mut rx3) = mpsc::unbounded_channel();
    assert!(obs.subscribe_with_id(1, tx1, vec![]).is_ok());
    assert!(obs.subscribe_with_id(2, tx2, vec![]).is_ok());
    assert!(obs.subscribe_with_id(3, tx3, vec![]).is_ok());
    drop(rx2);
    let ev = WsServerMessage::StatsUpdate { online: 1, offline: 2 };
    let report = obs.publish(&ev);
    let ids: Vec<u128> = report.iter().map(|d| d.observer).collect();
    let ok: Vec<bool> = report.iter().map(|d| d.delivered).collect();
    assert_eq!(ids, vec![1, 2, 3]);
    assert_eq!(ok, vec![true, false, true]);
    obs.publish(&WsServerMessage::StatsUpdate { online: 5, offline: 0 });
    assert!(matches!(rx1.try_recv(), Ok(WsServerMessage::StatsUpdate { online: 1, offline: 2 })));
    assert!(matches!(rx1.try_recv(), Ok(WsServerMessage::StatsUpdate { online: 5, offline: 0 })));
    assert!(rx1.try_recv().is_err());
    assert!(matches!(rx3.try_recv(), Ok(WsServerMessage::StatsUpdate { online: 1, offline: 2 })));
    assert_eq!(obs.len(), 3);
}

#[test]
fn subscription_snapshot_and_ordering() {
    let mut store = FleetStore::new();
    let mut live: LiveConnectionRegistry<u32> = LiveConnectionRegistry::new();
    let mut obs = ObserverBroadcastRegistry::new();
    register_agent(&mut store, &mut live, &mut obs, &s("a1"), &s("h1"), 10, 1).unwrap();
    register_agent(&mut store, &mut live, &mut obs, &s("a2"), &s("h2"), 11, 2).unwrap();
    let (tx, mut rx) = mpsc::unbounded_channel();
    let (id, init) = obs.subscribe(tx, store.list_agents()).expect("fresh id");
    assert!(obs.contains(id));
    match init {
        WsServerMessage::InitialState { agents } => {
            let mut ids: Vec<String> = agents.iter().map(|a| a.id.clone()).collect();
            ids.sort();
            assert_eq!(ids, vec![s("a1"), s("a2")]);
        }
        _ => panic!("expected the initial state"),
    }
    assert!(rx.try_recv().is_err());
    register_agent(&mut store, &mut live, &mut obs, &s("a3"), &s("h3"), 12, 3).unwrap();
    match rx.try_recv() {
        Ok(WsServerMessage::AgentUpdate { agent }) => assert_eq!(agent.id, "a3"),
        other => panic!("unexpected {:?}", other),
    }
}

#[test]
fn duplicate_subscription_and_unsubscribe() {
    let mut obs = ObserverBroadcastRegistry::new();
    let (tx1, _rx1) = mpsc::unbounded_channel();
    let (tx2, _rx2) = mpsc::unbounded_channel();
    assert!(obs.subscribe_with_id(9, tx1, vec![]).is_ok());
    assert!(matches!(obs.subscribe_with_id(9, tx2, vec![]), Err(SubscribeError::DuplicateObserver)));
    assert_eq!(obs.len(), 1);
    assert!(obs.unsubscribe(9));
    assert!(!obs.unsubscribe(9));
    assert_eq!(obs.len(), 0);
}

#[test]
fn reap_boundary_is_inclusive_of_window() {
    let mut store = FleetStore::new();
    store.upsert_online(&s("fresh"), &s("h"), 41).unwrap();
    store.upsert_online(&s("edge"), &s("h"), 40).unwrap();
    store.upsert_online(&s("old"), &s("h"), 0).unwrap();
    store.upsert_online(&s("down"), &s("h"), 0).unwrap();
    store.mark_offline(&s("down"));
    let mut obs = ObserverBroadcastRegistry::new();
    let mut gone = reap_tick(&mut store, &mut obs, 100, 60);
    gone.sort();
    assert_eq!(gone, vec![s("edge"), s("old")]);
    assert_eq!(row(&store, "fresh").2, AgentStatus::Online);
    assert_eq!(row(&store, "edge").2, AgentStatus::Offline);
    assert_eq!(row(&store, "down"), (s("down"), s("h"), AgentStatus::Offline, 0));
}

#[test]
fn stale_cutoff_value() {
    assert_eq!(stale_cutoff(100, 60), 41);
    assert_eq!(stale_cutoff(0, 1), 0);
}

#[test]
fn store_operations_on_unknown_and_known_ids() {
    let mut store = FleetStore::new();
    assert!(!store.touch_heartbeat(&s("x"), 5));
    assert!(!store.mark_offline(&s("x")));
    assert!(store.get_agent(&s("x")).is_none());
    let rec = store.upsert_online(&s("x"), &s("hx"), 3).unwrap();
    assert_eq!((rec.id.as_str(), rec.hostname.as_str(), rec.status, rec.last_heartbeat), ("x", "hx", AgentStatus::Online, 3));
    store.mark_offline(&s("x"));
    assert!(store.touch_heartbeat(&s("x"), 9));
    assert_eq!(row(&store, "x"), (s("x"), s("hx"), AgentStatus::Offline, 9));
    store.upsert_online(&s("x"), &s("hy"), 12).unwrap();
    assert_eq!(row(&store, "x"), (s("x"), s("hy"), AgentStatus::Online, 12));
    assert_eq!(store.len(), 1);
    assert_eq!(store.list_agents().len(), 1);
}

#[test]
fn stats_count_each_status() {
    let agents = vec![
        Agent::new(s("a"), s("h"), AgentStatus::Online, 1),
        Agent::new(s("b"), s("h"), AgentStatus::Offline, 1),
        Agent::new(s("c"), s("h"), AgentStatus::Online, 1),
    ];
    assert!(matches!(fleet_stats(&agents), WsServerMessage::StatsUpdate { online: 2, offline: 1 }));
    assert!(matches!(fleet_stats(&vec![]), WsServerMessage::StatsUpdate { online: 0, offline: 0 }));
}

#[test]
fn status_words() {
    assert_eq!(AgentStatus::Online.as_str(), "online");
    assert_eq!(AgentStatus::Offline.as_str(), "offline");
    let a = Agent::new(s("a"), s("h"), AgentStatus::Online, 1);
    let d = a.duplicate();
    assert_eq!((d.id, d.hostname, d.status, d.last_heartbeat), (s("a"), s("h"), AgentStatus::Online, 1));
    assert!(a.is_online());
}

#[test]
fn client_transitions() {
    assert_eq!(client_step(ClientPhase::Disconnected, ClientEvent::Start), (ClientPhase::Connecting, ClientAction::Connect { timeout_secs: 5 }));
    assert_eq!(client_step(ClientPhase::Connecting, ClientEvent::Connected), (ClientPhase::Registering, ClientAction::SendRegister));
    assert_eq!(client_step(ClientPhase::Connecting, ClientEvent::ConnectFailed), (ClientPhase::Disconnected, ClientAction::Backoff { secs: 5 }));
    assert_eq!(client_step(ClientPhase::Registering, ClientEvent::RegisterSent), (ClientPhase::Active, ClientAction::StartHeartbeats { period_secs: 10 }));
    assert_eq!(client_step(ClientPhase::Active, ClientEvent::HeartbeatDue), (ClientPhase::Active, ClientAction::SendHeartbeat));
    assert_eq!(client_step(ClientPhase::Active, ClientEvent::JobReceived), (ClientPhase::Active, ClientAction::RunJob));
    assert_eq!(client_step(ClientPhase::Active, ClientEvent::StreamEnded), (ClientPhase::Disconnected, ClientAction::Backoff { secs: 5 }));
    assert_eq!(client_step(ClientPhase::Active, ClientEvent::SendFailed), (ClientPhase::Disconnected, ClientAction::Backoff { secs: 5 }));
    assert_eq!(client_step(ClientPhase::Disconnected, ClientEvent::JobReceived), (ClientPhase::Disconnected, ClientAction::Nothing));
}

#[test]
fn requests_carry_their_fields() {
    match register_request(&s("id1"), &s("host1")) {
        AgentRequest::Register { agent_id, hostname } => assert_eq!((agent_id, hostname), (s("id1"), s("host1"))),
        _ => panic!("expected a registration"),
    }
    assert!(matches!(heartbeat_request(42), AgentRequest::Heartbeat { timestamp: 42 }));
}

#[test]
fn shard_index_depends_on_the_id_alone() {
    assert_eq!(shard_index(&s("ab"), 16), 3105 % 16);
    assert_eq!(shard_index(&s("ab"), 1), 0);
    assert_eq!(shard_index(&s(""), 7), 0);
    assert_eq!(shard_index(&s("agent-7"), 16), shard_index(&"agent-7".to_string(), 16));
    assert!(shard_index(&s("agent-7"), 5) < 5);
}

#[test]
fn agent_identity_and_hostname() {
    assert_eq!(agent_identity(&s("srv"), &s("r1")), "srv_r1");
    assert_eq!(resolve_hostname(HostnameLookup::Found(s("node-3"))), "node-3");
    assert_eq!(resolve_hostname(HostnameLookup::NotUnicode), "invalid_hostname");
    assert_eq!(resolve_hostname(HostnameLookup::Failed), "unknown_hostname");
    let c = AgentConfig::new(&s("srv"), &s("r2"), HostnameLookup::Failed, s("http://coord:3001"));
    assert_eq!((c.agent_id, c.hostname, c.server_endpoint), (s("srv_r2"), s("unknown_hostname"), s("http://coord:3001")));
}

#[test]
fn full_store_refuses_registration_without_side_effects() {
    let mut store = FleetStore::with_capacity(1);
    let mut live: LiveConnectionRegistry<u32> = LiveConnectionRegistry::new();
    let mut observers = ObserverBroadcastRegistry::new();
    let (otx, mut orx) = mpsc::unbounded_channel();
    assert!(observers.subscribe_with_id(1, otx, vec![]).is_ok());
    register_agent(&mut store, &mut live, &mut observers, &s("a1"), &s("h1"), 10, 1).unwrap();
    assert!(orx.try_recv().is_ok());
    assert!(matches!(
        register_agent(&mut store, &mut live, &mut observers, &s("a2"), &s("h2"), 11, 2),
        Err(StoreError::Full)
    ));
    let p = on_first_message(&mut store, &mut live, &mut observers, Inbound::Message(register_request(&s("a2"), &s("h2"))), 12, 3);
    assert!(matches!(p, ChannelPhase::Terminated));
    assert!(live.lookup(&s("a2")).is_none());
    assert!(store.get_agent(&s("a2")).is_none());
    assert!(orx.try_recv().is_err());
    let again = register_agent(&mut store, &mut live, &mut observers, &s("a1"), &s("h9"), 13, 4);
    assert!(again.is_ok());
    assert_eq!(row(&store, "a1"), (s("a1"), s("h9"), AgentStatus::Online, 13));
}

#[test]
fn heartbeat_for_unknown_record_keeps_connection_active() {
    let mut store = FleetStore::new();
    let mut live: LiveConnectionRegistry<u32> = LiveConnectionRegistry::new();
    let mut observers = ObserverBroadcastRegistry::new();
    let p = on_active_message(&mut store, &mut live, &mut observers, s("ghost"), 1, Inbound::Message(heartbeat_request(5)), 5);
    assert!(matches!(p, ChannelPhase::Active { generation: 1, .. }));
    assert_eq!(store.len(), 0);
}

#[test]
fn subscribe_on_empty_registry_succeeds() {
    let mut obs = ObserverBroadcastRegistry::new();
    let (tx, _rx) = mpsc::unbounded_channel();
    let (id, msg) = obs.subscribe(tx, vec![Agent::new(s("a"), s("h"), AgentStatus::Offline, 3)]).expect("no collision possible");
    assert!(obs.contains(id));
    match msg {
        WsServerMessage::InitialState { agents } => assert_eq!(agents.len(), 1),
        _ => panic!("expected the initial state"),
    }
}

#[test]
fn reap_publishes_one_update_per_demoted_agent() {
    let mut store = FleetStore::new();
    let mut observers = ObserverBroadcastRegistry::new();
    let (otx, mut orx) = mpsc::unbounded_channel();
    assert!(observers.subscribe_with_id(4, otx, vec![]).is_ok());
    store.upsert_online(&s("stale"), &s("h"), 0).unwrap();
    store.upsert_online(&s("fresh"), &s("h"), 90).unwrap();
    let gone = reap_tick(&mut store, &mut observers, 100, 60);
    assert_eq!(gone, vec![s("stale")]);
    match orx.try_recv() {
        Ok(WsServerMessage::AgentUpdate { agent }) => assert_eq!((agent.id, agent.status), (s("stale"), AgentStatus::Offline)),
        other => panic!("unexpected {:?}", other),
    }
    assert!(orx.try_recv().is_err());
}

#[test]
fn unsubscribe_keeps_other_observers_handles() {
    let mut obs = ObserverBroadcastRegistry::new();
    let (tx1, mut rx1) = mpsc::unbounded_channel();
    let (tx2, mut rx2) = mpsc::unbounded_channel();
    let (tx3, mut rx3) = mpsc::unbounded_channel();
    assert!(obs.subscribe_with_id(1, tx1, vec![]).is_ok());
    assert!(obs.subscribe_with_id(2, tx2, vec![]).is_ok());
    assert!(obs.subscribe_with_id(3, tx3, vec![]).is_ok());
    assert!(obs.unsubscribe(2));
    let report = obs.publish(&WsServerMessage::StatsUpdate { online: 7, offline: 1 });
    let ids: Vec<u128> = report.iter().map(|d| d.observer).collect();
    assert_eq!(ids, vec![1, 3]);
    assert!(matches!(rx1.try_recv(), Ok(WsServerMessage::StatsUpdate { online: 7, offline: 1 })));
    assert!(matches!(rx3.try_recv(), Ok(WsServerMessage::StatsUpdate { online: 7, offline: 1 })));
    assert!(rx2.try_recv().is_err());
}
