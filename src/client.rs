use vstd::prelude::*;

verus! {

/// Seconds an agent waits for its connection to be established.
pub const CONNECT_TIMEOUT_SECS: u64 = 5;

/// Seconds an agent waits before reconnecting. Retries never stop and the
/// delay never grows.
pub const RECONNECT_BACKOFF_SECS: u64 = 5;

/// Seconds between two heartbeats of an active agent.
pub const HEARTBEAT_PERIOD_SECS: u64 = 10;

/// Where the agent side of the protocol stands.
#[derive(Clone, Copy, Debug, PartialEq, Eq, Structural)]
pub enum ClientPhase {
    Disconnected,
    Connecting,
    Registering,
    Active,
}

/// What happened to the agent since its last step.
#[derive(Clone, Copy, Debug, PartialEq, Eq, Structural)]
pub enum ClientEvent {
    /// The backoff is over, or the agent has just started.
    Start,
    Connected,
    /// The connection attempt failed or timed out.
    ConnectFailed,
    RegisterSent,
    HeartbeatDue,
    JobReceived,
    SendFailed,
    StreamEnded,
}

/// What the agent's runtime must do next.
#[derive(Clone, Copy, Debug, PartialEq, Eq, Structural)]
pub enum ClientAction {
    Connect { timeout_secs: u64 },
    SendRegister,
    StartHeartbeats { period_secs: u64 },
    SendHeartbeat,
    /// Hand the job to the executor; nothing is reported back to the coordinator.
    RunJob,
    Backoff { secs: u64 },
    Nothing,
}

/// The agent's transition table.
pub open spec fn client_next(p: ClientPhase, e: ClientEvent) -> (ClientPhase, ClientAction) {
    match (p, e) {
        (ClientPhase::Disconnected, ClientEvent::Start) => (
            ClientPhase::Connecting,
            ClientAction::Connect { timeout_secs: CONNECT_TIMEOUT_SECS },
        ),
        (ClientPhase::Connecting, ClientEvent::Connected) => (ClientPhase::Registering, ClientAction::SendRegister),
        (ClientPhase::Registering, ClientEvent::RegisterSent) => (
            ClientPhase::Active,
            ClientAction::StartHeartbeats { period_secs: HEARTBEAT_PERIOD_SECS },
        ),
        (ClientPhase::Active, ClientEvent::HeartbeatDue) => (ClientPhase::Active, ClientAction::SendHeartbeat),
        (ClientPhase::Active, ClientEvent::JobReceived) => (ClientPhase::Active, ClientAction::RunJob),
        (ClientPhase::Connecting, ClientEvent::ConnectFailed)
        | (ClientPhase::Registering, ClientEvent::SendFailed)
        | (ClientPhase::Registering, ClientEvent::StreamEnded)
        | (ClientPhase::Active, ClientEvent::SendFailed)
        | (ClientPhase::Active, ClientEvent::StreamEnded) => (
            ClientPhase::Disconnected,
            ClientAction::Backoff { secs: RECONNECT_BACKOFF_SECS },
        ),
        _ => (p, ClientAction::Nothing),
    }
}

/// One step of the agent: the next phase and the action to perform.
pub fn client_step(p: ClientPhase, e: ClientEvent) -> (r: (ClientPhase, ClientAction))
    ensures
        r == client_next(p, e),
{
    match (p, e) {
        (ClientPhase::Disconnected, ClientEvent::Start) => (
            ClientPhase::Connecting,
            ClientAction::Connect { timeout_secs: CONNECT_TIMEOUT_SECS },
        ),
        (ClientPhase::Connecting, ClientEvent::Connected) => (ClientPhase::Registering, ClientAction::SendRegister),
        (ClientPhase::Registering, ClientEvent::RegisterSent) => (
            ClientPhase::Active,
            ClientAction::StartHeartbeats { period_secs: HEARTBEAT_PERIOD_SECS },
        ),
        (ClientPhase::Active, ClientEvent::HeartbeatDue) => (ClientPhase::Active, ClientAction::SendHeartbeat),
        (ClientPhase::Active, ClientEvent::JobReceived) => (ClientPhase::Active, ClientAction::RunJob),
        (ClientPhase::Connecting, ClientEvent::ConnectFailed)
        | (ClientPhase::Registering, ClientEvent::SendFailed)
        | (ClientPhase::Registering, ClientEvent::StreamEnded)
        | (ClientPhase::Active, ClientEvent::SendFailed)
        | (ClientPhase::Active, ClientEvent::StreamEnded) => (
            ClientPhase::Disconnected,
            ClientAction::Backoff { secs: RECONNECT_BACKOFF_SECS },
        ),
        _ => (p, ClientAction::Nothing),
    }
}

/// Every failure, in any phase that holds a connection, leads back to
/// `Disconnected` after the fixed backoff, from which the agent connects again.
pub proof fn lemma_failures_reconnect(p: ClientPhase, e: ClientEvent)
    requires
        p != ClientPhase::Disconnected,
        p != ClientPhase::Connecting,
        e == ClientEvent::SendFailed || e == ClientEvent::StreamEnded,
    ensures
        client_next(p, e) == (ClientPhase::Disconnected, ClientAction::Backoff { secs: RECONNECT_BACKOFF_SECS }),
        client_next(ClientPhase::Disconnected, ClientEvent::Start).0 == ClientPhase::Connecting,
{
}

} // verus!
