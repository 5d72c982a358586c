//! The daemon's settings, and how they follow from its configuration file.

use crate::daemon::agent;
use crate::daemon::xattr_store::XattrNamespace;
use crate::model::Span;
use vstd::prelude::*;

verus! {

/// Where actions come from.
#[derive(Clone, Copy, Debug, PartialEq, Eq, Structural)]
pub enum Mode {
    /// A mock in memory.
    Mock,
    /// A real mount.
    Live,
}

/// The mode of a file that names none.
pub fn default_mode() -> (r: Mode)
    ensures
        r == Mode::Mock,
{
    Mode::Mock
}

/// The mount point of a file that names none.
pub fn default_mountpoint() -> (r: String)
    ensures
        r@ == "/mnt/lustre"@,
{
    "/mnt/lustre".to_owned()
}

/// Attribute namespace as the file names it.
#[derive(Clone, Copy, Debug, PartialEq, Eq, Structural)]
pub enum XattrNs {
    Trusted,
    User,
}

impl Default for XattrNs {
    fn default() -> (r: XattrNs)
        ensures
            r == XattrNs::Trusted,
    {
        XattrNs::Trusted
    }
}

/// The namespace of the attribute store.
pub open spec fn namespace_of(n: XattrNs) -> XattrNamespace {
    match n {
        XattrNs::Trusted => XattrNamespace::Trusted,
        XattrNs::User => XattrNamespace::User,
    }
}

impl From<XattrNs> for XattrNamespace {
    fn from(value: XattrNs) -> (r: XattrNamespace) {
        match value {
            XattrNs::Trusted => XattrNamespace::Trusted,
            XattrNs::User => XattrNamespace::User,
        }
    }
}

impl vstd::std_specs::convert::FromSpecImpl<XattrNs> for XattrNamespace {
    open spec fn obeys_from_spec() -> bool {
        true
    }

    open spec fn from_spec(value: XattrNs) -> XattrNamespace {
        namespace_of(value)
    }
}

/// Attribute settings.
#[derive(Clone, Copy, Debug, PartialEq, Eq, Structural)]
pub struct XattrCfg {
    /// Namespace of the attributes.
    pub namespace: XattrNs,
}

impl Default for XattrCfg {
    fn default() -> (r: XattrCfg)
        ensures
            r.namespace == XattrNs::Trusted,
    {
        XattrCfg { namespace: XattrNs::Trusted }
    }
}

/// Where plugins connect.
#[derive(Debug, PartialEq, Eq)]
pub struct Transport {
    /// Path of the socket.
    pub socket_path: String,
}

impl Default for Transport {
    fn default() -> (r: Transport)
        ensures
            r.socket_path@ == "/var/run/hsmd/agent.sock"@,
    {
        Transport { socket_path: "/var/run/hsmd/agent.sock".to_owned() }
    }
}

/// Dispatch settings.
#[derive(Clone, Copy, Debug, PartialEq, Eq, Structural)]
pub struct SchedulerCfg {
    /// Milliseconds between two rounds of dispatch.
    pub tick_interval_ms: u64,
    /// Most actions to dispatch in one round.
    pub max_per_tick: usize,
    /// Milliseconds an agent has to come back after a restart.
    pub grace_ms: u64,
}

impl Default for SchedulerCfg {
    fn default() -> (r: SchedulerCfg)
        ensures
            r.tick_interval_ms == 50,
            r.max_per_tick == 32,
            r.grace_ms == 600_000,
    {
        SchedulerCfg { tick_interval_ms: 50, max_per_tick: 32, grace_ms: 600_000 }
    }
}

/// Form of the log.
#[derive(Clone, Copy, Debug, PartialEq, Eq, Structural)]
pub enum LogFormat {
    /// For people.
    Pretty,
    /// One JSON object per line.
    Json,
}

impl Default for LogFormat {
    fn default() -> (r: LogFormat)
        ensures
            r == LogFormat::Pretty,
    {
        LogFormat::Pretty
    }
}

/// Log settings.
#[derive(Debug, PartialEq, Eq)]
pub struct LogCfg {
    /// What to log.
    pub filter: Option<String>,
    /// In which form.
    pub format: LogFormat,
}

impl Default for LogCfg {
    fn default() -> (r: LogCfg)
        ensures
            r.filter is None,
            r.format == LogFormat::Pretty,
    {
        LogCfg { filter: None, format: LogFormat::Pretty }
    }
}

impl LogCfg {
    /// What to log: as the file says, else as the environment says, else `info`.
    pub fn effective_filter(&self, environment: Option<String>) -> (r: String)
        ensures
            r@ == (match (agent::text_opt(self.filter), agent::text_opt(environment)) {
                (Some(f), _) => f,
                (None, Some(e)) => e,
                (None, None) => "info"@,
            }),
    {
        match &self.filter {
            Some(f) => f.clone(),
            None => match environment {
                Some(e) => e,
                None => "info".to_owned(),
            },
        }
    }
}

/// The configuration file.
#[derive(Debug, PartialEq, Eq)]
pub struct HsmdConfig {
    /// Where actions come from.
    pub mode: Mode,
    /// Root of the mount.
    pub mountpoint: String,
    /// File of actions for the mock.
    pub mock_actions_file: Option<String>,
    /// File of the store; it is kept in memory without one.
    pub store_path: Option<String>,
    /// Where plugins connect.
    pub transport: Transport,
    /// Dispatch settings.
    pub scheduler: SchedulerCfg,
    /// Log settings.
    pub log: LogCfg,
    /// Attribute settings.
    pub xattr: XattrCfg,
}

/// What the daemon runs with.
#[derive(Debug, PartialEq, Eq)]
pub struct DaemonConfig {
    /// Time between two rounds of dispatch.
    pub tick_interval: Span,
    /// Most actions to dispatch in one round.
    pub max_per_tick: usize,
    /// Root of the mount.
    pub mountpoint: String,
    /// Where objects are recorded. Without one they are not recorded, and restores
    /// and removals fail.
    pub xattr_namespace: Option<XattrNamespace>,
    /// Whether files are found below `.lustre/fid`.
    pub use_lustre_fid_path: bool,
    /// How long an agent has to come back after a restart.
    pub recovery_grace_period: Span,
}

impl Default for DaemonConfig {
    fn default() -> (r: DaemonConfig)
        ensures
            r.tick_interval.nanos == 50_000_000,
            r.max_per_tick == 32,
            r.mountpoint@ == "/mnt/lustre"@,
            r.xattr_namespace is None,
            !r.use_lustre_fid_path,
            r.recovery_grace_period.nanos == 600_000_000_000,
    {
        DaemonConfig {
            tick_interval: Span::from_millis(50),
            max_per_tick: 32,
            mountpoint: "/mnt/lustre".to_owned(),
            xattr_namespace: None,
            use_lustre_fid_path: false,
            recovery_grace_period: Span::from_secs(600),
        }
    }
}

impl HsmdConfig {
    /// A file that says nothing.
    pub fn defaults() -> (r: HsmdConfig)
        ensures
            r.mode == Mode::Mock,
            r.mountpoint@ == "/mnt/lustre"@,
            r.mock_actions_file is None,
            r.store_path is None,
            r.transport.socket_path@ == "/var/run/hsmd/agent.sock"@,
            r.scheduler == (SchedulerCfg {
                tick_interval_ms: 50,
                max_per_tick: 32,
                grace_ms: 600_000,
            }),
            r.log.filter is None,
            r.log.format == LogFormat::Pretty,
            r.xattr.namespace == XattrNs::Trusted,
    {
        HsmdConfig {
            mode: default_mode(),
            mountpoint: default_mountpoint(),
            mock_actions_file: None,
            store_path: None,
            transport: Transport::default(),
            scheduler: SchedulerCfg::default(),
            log: LogCfg::default(),
            xattr: XattrCfg::default(),
        }
    }

    /// What the daemon runs with under this file.
    pub fn to_daemon_config(&self) -> (r: DaemonConfig)
        ensures
            r.tick_interval.nanos == self.scheduler.tick_interval_ms * 1_000_000,
            r.max_per_tick == self.scheduler.max_per_tick,
            r.mountpoint@ == self.mountpoint@,
            r.xattr_namespace == Some(namespace_of(self.xattr.namespace)),
            r.use_lustre_fid_path == (self.mode == Mode::Live),
            r.recovery_grace_period.nanos == self.scheduler.grace_ms * 1_000_000,
    {
        let live = match self.mode {
            Mode::Live => true,
            Mode::Mock => false,
        };
        DaemonConfig {
            tick_interval: Span::from_millis(self.scheduler.tick_interval_ms),
            max_per_tick: self.scheduler.max_per_tick,
            mountpoint: self.mountpoint.clone(),
            xattr_namespace: Some(XattrNamespace::from(self.xattr.namespace)),
            use_lustre_fid_path: live,
            recovery_grace_period: Span::from_millis(self.scheduler.grace_ms),
        }
    }
}

} // verus!
