//! The ports that the bridge listens on.

use std::sync::Arc;
use vstd::prelude::*;
use crate::config::ServerConfig;

verus! {

/// How often a port is tried, with the next one each time.
pub const BIND_ATTEMPTS: u8 = 10;

/// The search for a free port.
#[derive(Clone, Copy, Debug, PartialEq, Eq, Structural)]
pub struct PortSearch {
    pub port: u16,
    pub attempt: u8,
}

/// How an attempt to bind a port ended.
#[derive(Clone, Copy, Debug, PartialEq, Eq, Structural)]
pub enum BindOutcome {
    Bound,
    InUse,
    Failed,
}

/// What follows an attempt.
#[derive(Clone, Copy, Debug, PartialEq, Eq, Structural)]
pub enum BindStep {
    /// Listen on this port.
    Listen { port: u16, recovered: bool },
    Retry(PortSearch),
    /// All attempts found their port in use.
    GiveUp,
    Fail,
}

pub open spec fn next_port(port: u16) -> u16 {
    if port == u16::MAX {
        u16::MAX
    } else {
        (port + 1) as u16
    }
}

pub open spec fn bind_step(search: PortSearch, outcome: BindOutcome) -> BindStep {
    match outcome {
        BindOutcome::Bound => BindStep::Listen { port: search.port, recovered: search.attempt > 1 },
        BindOutcome::InUse => if search.attempt < BIND_ATTEMPTS {
            BindStep::Retry(
                PortSearch { port: next_port(search.port), attempt: (search.attempt + 1) as u8 },
            )
        } else {
            BindStep::GiveUp
        },
        BindOutcome::Failed => BindStep::Fail,
    }
}

/// Decides what follows an attempt to bind the port of a search.
pub fn bind_with_port_bump(search: PortSearch, outcome: BindOutcome) -> (r: BindStep)
    ensures
        r == bind_step(search, outcome),
{
    match outcome {
        BindOutcome::Bound => BindStep::Listen { port: search.port, recovered: search.attempt > 1 },
        BindOutcome::InUse => {
            if search.attempt < BIND_ATTEMPTS {
                let port: u16 = search.port.saturating_add(1);
                BindStep::Retry(PortSearch { port, attempt: search.attempt + 1 })
            } else {
                BindStep::GiveUp
            }
        },
        BindOutcome::Failed => BindStep::Fail,
    }
}

pub open spec fn search_from(port: u16) -> PortSearch {
    PortSearch { port, attempt: 1 }
}

/// The search after a number of ports that were in use.
pub open spec fn search_after(start: u16, failures: nat) -> BindStep
    decreases failures,
{
    if failures == 0 {
        BindStep::Retry(search_from(start))
    } else {
        match search_after(start, (failures - 1) as nat) {
            BindStep::Retry(search) => bind_step(search, BindOutcome::InUse),
            other => other,
        }
    }
}

/// A search tries ten ports, each one behind the last and none beyond the
/// largest there is, and then gives up.
pub proof fn law_port_search_is_bounded(start: u16, failures: nat)
    ensures
        failures < 10 ==> search_after(start, failures) == BindStep::Retry(
            PortSearch {
                port: (if start + failures > u16::MAX {
                    u16::MAX as int
                } else {
                    start + failures
                }) as u16,
                attempt: (failures + 1) as u8,
            },
        ),
        failures >= 10 ==> search_after(start, failures) == BindStep::GiveUp,
    decreases failures,
{
    if failures > 0 {
        law_port_search_is_bounded(start, (failures - 1) as nat);
    }
}

/// The bridge with its configuration.
pub struct ViaKraken {
    pub config: Arc<ServerConfig>,
}

/// Where the bridge starts to look for its two ports, and the address on which
/// players reach it.
#[derive(Debug)]
pub struct StartPlan {
    pub host: String,
    pub backend: PortSearch,
    pub proxy: PortSearch,
}

impl ViaKraken {
    /// The proxy listens on the configured address and port, the backend on the
    /// port behind it; the backend is bound first.
    pub fn start(&self) -> (r: StartPlan)
        ensures
            r.host@ == self.config.server_ip@,
            r.proxy == search_from(self.config.server_port),
            r.backend == search_from(next_port(self.config.server_port)),
    {
        let port: u16 = self.config.server_port;
        StartPlan {
            host: self.config.server_ip.clone(),
            backend: PortSearch { port: port.saturating_add(1), attempt: 1 },
            proxy: PortSearch { port, attempt: 1 },
        }
    }
}

} // verus!
