//! The settings of the agent.

use vstd::prelude::*;

verus! {

/// The settings of the agent. The monitor reads `paths_to_monitor` only.
#[derive(Clone, Debug, PartialEq, Eq)]
pub struct Config {
    pub agent_id: String,
    pub check_interval_seconds: u64,
    pub server_url: Option<String>,
    pub paths_to_monitor: Vec<String>,
}

} // verus!
