//! Health checks of the running system's components.
use vstd::prelude::*;
use crate::clock::unix_time_secs;
use crate::keyed::{keys_unique, map_insert, pairs_map};
use crate::node::Config;

verus! {

/// How well a component fares.
#[derive(Debug, Clone, Copy, PartialEq, Eq, Structural)]
pub enum HealthLevel {
    Healthy,
    Warning,
    Critical,
    Unknown,
}

/// How one component fares, with its measurements.
#[derive(Debug, Clone)]
pub struct ComponentHealth {
    pub name: String,
    pub status: HealthLevel,
    pub message: String,
    /// Seconds since the Unix epoch.
    pub last_check: u64,
    /// Named measurements; every measurement taken is a whole number.
    pub metrics: Vec<(String, u64)>,
}

/// A problem a check found.
#[derive(Debug, Clone)]
pub struct HealthIssue {
    pub component: String,
    pub severity: HealthLevel,
    pub message: String,
    /// Seconds since the Unix epoch.
    pub timestamp: u64,
}

/// The outcome of a health check: overall, per component, and the problems found.
#[derive(Debug, Clone)]
pub struct HealthStatus {
    pub overall_health: HealthLevel,
    pub components: Vec<(String, ComponentHealth)>,
    /// Seconds since the Unix epoch.
    pub last_check: u64,
    pub issues: Vec<HealthIssue>,
}

impl Default for HealthStatus {
    fn default() -> (res: Self)
        ensures
            res.overall_health == HealthLevel::Unknown,
            res.components@.len() == 0,
            res.last_check == 0,
            res.issues@.len() == 0,
    {
        HealthStatus { overall_health: HealthLevel::Unknown, components: Vec::new(), last_check: 0, issues: Vec::new() }
    }
}

impl HealthStatus {
    /// A healthy outcome at `now`, with no components and no problems.
    pub fn healthy_at(now: u64) -> (res: Self)
        ensures
            res.overall_health == HealthLevel::Healthy,
            res.components@.len() == 0,
            res.last_check == now,
            res.issues@.len() == 0,
    {
        HealthStatus { overall_health: HealthLevel::Healthy, components: Vec::new(), last_check: now, issues: Vec::new() }
    }

    /// A healthy outcome now.
    pub fn healthy(_message: String) -> (res: Self)
        ensures
            res.overall_health == HealthLevel::Healthy,
            res.components@.len() == 0,
            res.issues@.len() == 0,
    {
        HealthStatus::healthy_at(unix_time_secs())
    }

    /// A critical outcome at `now`, with one critical problem of the system, `message`.
    pub fn unhealthy_at(message: String, now: u64) -> (res: Self)
        ensures
            res.overall_health == HealthLevel::Critical,
            res.components@.len() == 0,
            res.last_check == now,
            res.issues@.len() == 1,
            res.issues@[0].component@ == "system"@,
            res.issues@[0].severity == HealthLevel::Critical,
            res.issues@[0].message == message,
            res.issues@[0].timestamp == now,
    {
        let mut issues: Vec<HealthIssue> = Vec::new();
        issues.push(HealthIssue { component: "system".to_string(), severity: HealthLevel::Critical, message, timestamp: now });
        HealthStatus { overall_health: HealthLevel::Critical, components: Vec::new(), last_check: now, issues }
    }

    /// A critical outcome now, with one critical problem of the system, `message`.
    pub fn unhealthy(message: String) -> (res: Self)
        ensures
            res.overall_health == HealthLevel::Critical,
            res.issues@.len() == 1,
            res.issues@[0].component@ == "system"@,
            res.issues@[0].severity == HealthLevel::Critical,
            res.issues@[0].message == message,
            res.issues@[0].timestamp == res.last_check,
    {
        HealthStatus::unhealthy_at(message, unix_time_secs())
    }
}

/// The overall level of a check that found the problems `issues`: healthy where there are
/// none, critical where one is, and a warning otherwise.
pub open spec fn overall_of(issues: Seq<HealthIssue>) -> HealthLevel {
    if issues.len() == 0 {
        HealthLevel::Healthy
    } else if exists|i: int| 0 <= i < issues.len() && #[trigger] issues[i].severity == HealthLevel::Critical {
        HealthLevel::Critical
    } else {
        HealthLevel::Warning
    }
}

/// The overall level of a check that found the problems `issues`.
pub fn overall_health(issues: &Vec<HealthIssue>) -> (res: HealthLevel)
    ensures
        res == overall_of(issues@),
{
    if issues.len() == 0 {
        return HealthLevel::Healthy;
    }
    let mut i: usize = 0;
    while i < issues.len()
        invariant
            i <= issues@.len(),
            forall|j: int| 0 <= j < i ==> issues@[j].severity != HealthLevel::Critical,
        decreases issues@.len() - i,
    {
        if issues[i].severity == HealthLevel::Critical {
            return HealthLevel::Critical;
        }
        i = i + 1;
    }
    HealthLevel::Warning
}

/// The problem a component's health stands for, if it is not healthy.
pub open spec fn issue_of(component: Seq<char>, h: ComponentHealth, now: u64) -> Seq<HealthIssue> {
    if h.status != HealthLevel::Healthy {
        seq![HealthIssue { component: h.name, severity: h.status, message: h.message, timestamp: now }]
    } else {
        Seq::empty()
    }
}

/// That `h` is named `name`, stands at `status` with `message`, and was checked at `now`.
pub open spec fn component_reads(h: ComponentHealth, name: Seq<char>, status: HealthLevel, message: Seq<char>, now: u64) -> bool {
    &&& h.name@ == name
    &&& h.status == status
    &&& h.message@ == message
    &&& h.last_check == now
}

/// What a check at `now` records for a system listening on `port`, given whether the storage
/// directory exists: the time of the check; the components `core` ("Core System", healthy,
/// no measures), `network` ("Network", healthy, the port measured) and `storage` ("Storage",
/// healthy exactly where its directory exists, no measures), each checked at `now`; no issue,
/// or where the directory is missing one storage warning made at `now`; and the overall level
/// those issues give.
pub open spec fn checked_status(st: HealthStatus, port: u16, storage_dir_exists: bool, now: u64) -> bool {
    let cs = pairs_map(st.components@);
    &&& st.last_check == now
    &&& storage_dir_exists ==> st.issues@.len() == 0
    &&& !storage_dir_exists ==> st.issues@.len() == 1 && st.issues@[0].component@ == "storage"@
        && st.issues@[0].severity == HealthLevel::Warning && st.issues@[0].message@
        == "Storage path issues detected"@ && st.issues@[0].timestamp == now
    &&& st.overall_health == overall_of(st.issues@)
    &&& keys_unique(st.components@)
    &&& cs.dom() == set!["core"@, "network"@, "storage"@]
    &&& component_reads(cs["core"@], "Core System"@, HealthLevel::Healthy, "Core system operational"@, now)
    &&& cs["core"@].metrics@.len() == 0
    &&& component_reads(cs["network"@], "Network"@, HealthLevel::Healthy, "Network services operational"@, now)
    &&& keys_unique(cs["network"@].metrics@)
    &&& pairs_map(cs["network"@].metrics@) == Map::<Seq<char>, u64>::empty().insert("port"@, port as u64)
    &&& storage_dir_exists ==> component_reads(cs["storage"@], "Storage"@, HealthLevel::Healthy, "Storage accessible"@, now)
    &&& !storage_dir_exists ==> component_reads(
        cs["storage"@],
        "Storage"@,
        HealthLevel::Warning,
        "Storage path issues detected"@,
        now,
    )
    &&& cs["storage"@].metrics@.len() == 0
}

/// The health checks of the system.
pub struct HealthMonitor {
    config: Config,
    last_status: HealthStatus,
    check_interval_secs: u64,
    is_running: bool,
}

impl HealthMonitor {
    /// The outcome of the last check.
    pub closed spec fn spec_status(&self) -> HealthStatus {
        self.last_status
    }

    /// The seconds between two checks.
    pub closed spec fn spec_check_interval(&self) -> u64 {
        self.check_interval_secs
    }

    /// Whether checks run.
    pub closed spec fn spec_running(&self) -> bool {
        self.is_running
    }

    /// The settings checked.
    pub closed spec fn spec_config(&self) -> Config {
        self.config
    }

    /// Checks for the system with `config`, every thirty seconds, not yet running.
    pub fn new(config: Config) -> (res: Self)
        ensures
            res.spec_config() == config,
            res.spec_check_interval() == 30,
            !res.spec_running(),
            res.spec_status().overall_health == HealthLevel::Unknown,
            res.spec_status().issues@.len() == 0,
    {
        HealthMonitor { config, last_status: HealthStatus::default(), check_interval_secs: 30, is_running: false }
    }

    /// The health of the network services at `now`: healthy, with the port measured.
    pub fn check_network_health(&self, now: u64) -> (res: ComponentHealth)
        ensures
            res.name@ == "Network"@,
            res.status == HealthLevel::Healthy,
            res.message@ == "Network services operational"@,
            res.last_check == now,
            keys_unique(res.metrics@),
            pairs_map(res.metrics@) == Map::<Seq<char>, u64>::empty().insert("port"@, self.spec_config().network.port as u64),
    {
        let mut metrics: Vec<(String, u64)> = Vec::new();
        map_insert(&mut metrics, "port".to_string(), self.config.network.port as u64);
        ComponentHealth {
            name: "Network".to_string(),
            status: HealthLevel::Healthy,
            message: "Network services operational".to_string(),
            last_check: now,
            metrics,
        }
    }

    /// The health of the storage at `now`, given whether its directory exists: healthy where
    /// it does, a warning otherwise.
    pub fn check_storage_health(&self, storage_dir_exists: bool, now: u64) -> (res: ComponentHealth)
        ensures
            res.name@ == "Storage"@,
            res.status == (if storage_dir_exists { HealthLevel::Healthy } else { HealthLevel::Warning }),
            res.message@ == (if storage_dir_exists { "Storage accessible"@ } else { "Storage path issues detected"@ }),
            res.last_check == now,
            res.metrics@.len() == 0,
    {
        let status = if storage_dir_exists { HealthLevel::Healthy } else { HealthLevel::Warning };
        let message = if storage_dir_exists {
            "Storage accessible".to_string()
        } else {
            "Storage path issues detected".to_string()
        };
        ComponentHealth { name: "Storage".to_string(), status, message, last_check: now, metrics: Vec::new() }
    }

    /// Checks every component at `now`, given whether the storage directory exists: the core,
    /// the network and the storage; each that is not healthy is a problem.
    pub fn perform_health_check_at(&mut self, storage_dir_exists: bool, now: u64) -> (res: Result<(), String>)
        ensures
            res is Ok,
            final(self).spec_config() == old(self).spec_config(),
            final(self).spec_running() == old(self).spec_running(),
            checked_status(final(self).spec_status(), old(self).spec_config().network.port, storage_dir_exists, now),
    {
        let mut components: Vec<(String, ComponentHealth)> = Vec::new();
        let mut issues: Vec<HealthIssue> = Vec::new();
        let core = ComponentHealth {
            name: "Core System".to_string(),
            status: HealthLevel::Healthy,
            message: "Core system operational".to_string(),
            last_check: now,
            metrics: Vec::new(),
        };
        map_insert(&mut components, "core".to_string(), core);
        let network = self.check_network_health(now);
        let network_status = network.status;
        let network_message = network.message.clone();
        map_insert(&mut components, "network".to_string(), network);
        if network_status != HealthLevel::Healthy {
            issues.push(HealthIssue {
                component: "network".to_string(),
                severity: network_status,
                message: network_message,
                timestamp: now,
            });
        }
        let storage = self.check_storage_health(storage_dir_exists, now);
        let storage_status = storage.status;
        let storage_message = storage.message.clone();
        map_insert(&mut components, "storage".to_string(), storage);
        if storage_status != HealthLevel::Healthy {
            issues.push(HealthIssue {
                component: "storage".to_string(),
                severity: storage_status,
                message: storage_message,
                timestamp: now,
            });
        }
        let overall = overall_health(&issues);
        proof {
            reveal_strlit("core");
            reveal_strlit("network");
            reveal_strlit("storage");
            assert("core"@.len() != "network"@.len());
            assert("core"@.len() != "storage"@.len());
            assert("network"@[0] != "storage"@[0]);
            assert(pairs_map(components@).dom() =~= set!["core"@, "network"@, "storage"@]);
        }
        self.last_status = HealthStatus { overall_health: overall, components, last_check: now, issues };
        Ok(())
    }

    /// Checks every component now, by the machine's clock, given whether the storage
    /// directory exists: what `perform_health_check_at` records at the clock's reading.
    pub fn perform_health_check(&mut self, storage_dir_exists: bool) -> (res: Result<(), String>)
        ensures
            res is Ok,
            final(self).spec_config() == old(self).spec_config(),
            final(self).spec_running() == old(self).spec_running(),
            exists|now: u64| #[trigger] checked_status(final(self).spec_status(), old(self).spec_config().network.port, storage_dir_exists, now),
            storage_dir_exists ==> final(self).spec_status().overall_health == HealthLevel::Healthy,
            !storage_dir_exists ==> final(self).spec_status().overall_health == HealthLevel::Warning,
    {
        let now = unix_time_secs();
        let res = self.perform_health_check_at(storage_dir_exists, now);
        assert(checked_status(self.spec_status(), self.spec_config().network.port, storage_dir_exists, now));
        proof {
            if !storage_dir_exists {
                let issues = self.spec_status().issues@;
                assert(issues[0].severity == HealthLevel::Warning);
            }
        }
        res
    }

    /// Starts the checks and checks at once, given whether the storage directory exists.
    pub fn start(&mut self, storage_dir_exists: bool) -> (res: Result<(), String>)
        ensures
            res is Ok,
            final(self).spec_running(),
            final(self).spec_config() == old(self).spec_config(),
            exists|now: u64| #[trigger] checked_status(final(self).spec_status(), old(self).spec_config().network.port, storage_dir_exists, now),
            storage_dir_exists ==> final(self).spec_status().overall_health == HealthLevel::Healthy,
            !storage_dir_exists ==> final(self).spec_status().overall_health == HealthLevel::Warning,
    {
        self.is_running = true;
        self.perform_health_check(storage_dir_exists)
    }

    /// Stops the checks.
    pub fn stop(&mut self) -> (res: Result<(), String>)
        ensures
            res is Ok,
            !final(self).spec_running(),
            final(self).spec_config() == old(self).spec_config(),
            final(self).spec_status() == old(self).spec_status(),
    {
        self.is_running = false;
        Ok(())
    }

    /// Whether the checks run.
    pub fn is_running(&self) -> (res: bool)
        ensures
            res == self.spec_running(),
    {
        self.is_running
    }

    /// The status found by the last check.
    pub fn get_health_status(&self) -> (res: Result<&HealthStatus, String>)
        ensures
            res matches Ok(st) && *st == self.spec_status(),
    {
        Ok(&self.last_status)
    }

    /// The outcome of the last check: its overall level, when, and its problems.
    pub fn get_health_summary(&self) -> (res: (HealthLevel, u64, usize))
        ensures
            res.0 == self.spec_status().overall_health,
            res.1 == self.spec_status().last_check,
            res.2 == self.spec_status().issues@.len(),
    {
        (self.last_status.overall_health, self.last_status.last_check, self.last_status.issues.len())
    }
}

} // verus!
