use vstd::prelude::*;

verus! {

/// Liveness of an agent as recorded by the store.
#[derive(Clone, Copy, Debug, PartialEq, Eq, Structural)]
pub enum AgentStatus {
    Online,
    Offline,
}

impl AgentStatus {
    /// The word under which the status is stored and shown to observers.
    pub fn as_str(&self) -> (r: &'static str)
        ensures
            r@ == status_label(*self),
    {
        match self {
            AgentStatus::Online => "online",
            AgentStatus::Offline => "offline",
        }
    }
}

pub open spec fn status_label(s: AgentStatus) -> Seq<char> {
    match s {
        AgentStatus::Online => "online"@,
        AgentStatus::Offline => "offline"@,
    }
}

/// Mathematical picture of one persisted agent record.
pub struct AgentView {
    pub id: Seq<char>,
    pub hostname: Seq<char>,
    pub status: AgentStatus,
    pub last_heartbeat: i64,
}

/// A persisted agent record.
#[derive(Clone, Debug)]
pub struct Agent {
    pub id: String,
    pub hostname: String,
    pub status: AgentStatus,
    pub last_heartbeat: i64,
}

impl View for Agent {
    type V = AgentView;

    open spec fn view(&self) -> AgentView {
        AgentView {
            id: self.id@,
            hostname: self.hostname@,
            status: self.status,
            last_heartbeat: self.last_heartbeat,
        }
    }
}

impl Agent {
    pub fn new(id: String, hostname: String, status: AgentStatus, last_heartbeat: i64) -> (r: Agent)
        ensures
            r.id@ == id@,
            r.hostname@ == hostname@,
            r.status == status,
            r.last_heartbeat == last_heartbeat,
    {
        Agent { id, hostname, status, last_heartbeat }
    }

    /// A field-by-field copy of the record.
    pub fn duplicate(&self) -> (r: Agent)
        ensures
            r@ == self@,
    {
        Agent {
            id: self.id.clone(),
            hostname: self.hostname.clone(),
            status: self.status,
            last_heartbeat: self.last_heartbeat,
        }
    }

    pub fn is_online(&self) -> (r: bool)
        ensures
            r == (self.status == AgentStatus::Online),
    {
        self.status == AgentStatus::Online
    }
}

pub open spec fn agents_view(s: Seq<Agent>) -> Seq<AgentView> {
    s.map_values(|a: Agent| a@)
}

pub open spec fn strings_view(s: Seq<String>) -> Seq<Seq<char>> {
    s.map_values(|x: String| x@)
}

/// Copies a list of strings, keeping each one's characters.
pub fn copy_strings(v: &Vec<String>) -> (r: Vec<String>)
    ensures
        strings_view(r@) == strings_view(v@),
{
    let mut out: Vec<String> = Vec::new();
    let mut i: usize = 0;
    while i < v.len()
        invariant
            i <= v.len(),
            out@.len() == i,
            forall|k: int| 0 <= k < i ==> #[trigger] out@[k]@ == v@[k]@,
        decreases v.len() - i,
    {
        out.push(v[i].clone());
        i = i + 1;
    }
    assert(strings_view(out@) =~= strings_view(v@));
    out
}

/// A persisted job: the core only turns it into a dispatch message.
#[derive(Clone, Debug)]
pub struct Job {
    pub id: String,
    pub agent_id: Option<String>,
    pub status: String,
    pub repository_url: String,
    pub commands: Vec<String>,
    pub created_at: i64,
}

/// The payload of a job dispatch, as sent to an agent.
#[derive(Clone, Debug)]
pub struct RunJob {
    pub job_id: String,
    pub repository_url: String,
    pub commands: Vec<String>,
}

/// A message from the coordinator to an agent.
#[derive(Clone, Debug)]
pub enum ServerCommand {
    RunJob(RunJob),
}

/// A message from an agent to the coordinator.
#[derive(Clone, Debug)]
pub enum AgentRequest {
    Register { agent_id: String, hostname: String },
    Heartbeat { timestamp: u64 },
}

impl Job {
    /// The dispatch message that carries this job to an agent: its id, its
    /// repository and its commands in order.
    pub fn to_command(&self) -> (r: ServerCommand)
        ensures
            match r {
                ServerCommand::RunJob(j) => {
                    &&& j.job_id@ == self.id@
                    &&& j.repository_url@ == self.repository_url@
                    &&& strings_view(j.commands@) == strings_view(self.commands@)
                },
            },
    {
        ServerCommand::RunJob(
            RunJob {
                job_id: self.id.clone(),
                repository_url: self.repository_url.clone(),
                commands: copy_strings(&self.commands),
            },
        )
    }
}

/// The registration message an agent opens its stream with.
pub fn register_request(agent_id: &String, hostname: &String) -> (r: AgentRequest)
    ensures
        match r {
            AgentRequest::Register { agent_id: a, hostname: h } => a@ == agent_id@ && h@ == hostname@,
            _ => false,
        },
{
    AgentRequest::Register { agent_id: agent_id.clone(), hostname: hostname.clone() }
}

/// The periodic liveness message, stamped with the agent's clock.
pub fn heartbeat_request(now: u64) -> (r: AgentRequest)
    ensures
        r == (AgentRequest::Heartbeat { timestamp: now }),
{
    AgentRequest::Heartbeat { timestamp: now }
}

/// A message from the coordinator to an observer.
#[derive(Clone, Debug)]
pub enum WsServerMessage {
    InitialState { agents: Vec<Agent> },
    AgentUpdate { agent: Agent },
    StatsUpdate { online: usize, offline: usize },
}

/// A message from an observer to the coordinator. Reruns are parsed but not
/// acted upon.
#[derive(Clone, Debug)]
pub enum WsClientMessage {
    RequestRerun { job_id: String },
}

/// How many records of `s` have status `st`.
pub open spec fn count_status(s: Seq<AgentView>, st: AgentStatus) -> nat
    decreases s.len(),
{
    if s.len() == 0 {
        0
    } else {
        count_status(s.drop_last(), st) + if s.last().status == st { 1nat } else { 0nat }
    }
}

pub proof fn lemma_count_status_bound(s: Seq<AgentView>, st: AgentStatus)
    ensures
        count_status(s, st) <= s.len(),
    decreases s.len(),
{
    if s.len() > 0 {
        lemma_count_status_bound(s.drop_last(), st);
    }
}

/// The fleet summary for a list of agent records.
pub fn fleet_stats(agents: &Vec<Agent>) -> (r: WsServerMessage)
    ensures
        r matches WsServerMessage::StatsUpdate { online, offline }
            && online == count_status(agents_view(agents@), AgentStatus::Online)
            && offline == count_status(agents_view(agents@), AgentStatus::Offline),
{
    let mut online: usize = 0;
    let mut offline: usize = 0;
    let mut i: usize = 0;
    while i < agents.len()
        invariant
            i <= agents.len(),
            online == count_status(agents_view(agents@).take(i as int), AgentStatus::Online),
            offline == count_status(agents_view(agents@).take(i as int), AgentStatus::Offline),
        decreases agents.len() - i,
    {
        let ghost s = agents_view(agents@);
        assert(s.take(i + 1).drop_last() =~= s.take(i as int));
        proof {
            lemma_count_status_bound(s.take(i as int), AgentStatus::Online);
            lemma_count_status_bound(s.take(i as int), AgentStatus::Offline);
        }
        if agents[i].status == AgentStatus::Online {
            online = online + 1;
        } else {
            offline = offline + 1;
        }
        i = i + 1;
    }
    assert(agents_view(agents@).take(agents@.len() as int) =~= agents_view(agents@));
    WsServerMessage::StatsUpdate { online, offline }
}

} // verus!
