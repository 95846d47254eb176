use vstd::prelude::*;
use vstd::string::StringExecFns;

verus! {

/// What the machine said when asked for its host name.
#[derive(Clone, Debug)]
pub enum HostnameLookup {
    Found(String),
    /// The name is not valid Unicode.
    NotUnicode,
    /// The name could not be read.
    Failed,
}

/// Identity of an agent and the coordinator it reports to.
#[derive(Clone, Debug)]
pub struct AgentConfig {
    pub agent_id: String,
    pub hostname: String,
    pub server_endpoint: String,
}

/// The stable agent id built from the deployment's server and replica names.
pub fn agent_identity(server_name: &String, replica_name: &String) -> (r: String)
    ensures
        r@ == server_name@ + "_"@ + replica_name@,
{
    let mut id = server_name.clone();
    id.append("_");
    id.append(replica_name.as_str());
    id
}

pub open spec fn hostname_of(h: HostnameLookup) -> Seq<char> {
    match h {
        HostnameLookup::Found(n) => n@,
        HostnameLookup::NotUnicode => "invalid_hostname"@,
        HostnameLookup::Failed => "unknown_hostname"@,
    }
}

/// The host name an agent reports, with a placeholder for each way the
/// lookup can fail.
pub fn resolve_hostname(h: HostnameLookup) -> (r: String)
    ensures
        r@ == hostname_of(h),
{
    match h {
        HostnameLookup::Found(n) => n,
        HostnameLookup::NotUnicode => String::from_str("invalid_hostname"),
        HostnameLookup::Failed => String::from_str("unknown_hostname"),
    }
}

impl AgentConfig {
    pub fn new(server_name: &String, replica_name: &String, host: HostnameLookup, server_endpoint: String) -> (r:
        AgentConfig)
        ensures
            r.agent_id@ == server_name@ + "_"@ + replica_name@,
            r.hostname@ == hostname_of(host),
            r.server_endpoint@ == server_endpoint@,
    {
        AgentConfig {
            agent_id: agent_identity(server_name, replica_name),
            hostname: resolve_hostname(host),
            server_endpoint,
        }
    }
}

} // verus!
