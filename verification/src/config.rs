//! Configuration data for the daemon: zones, sessions, temperature sources,
//! aggregation policies and fan-curve step tables.
//!
//! Parsing the configuration file is left to the unverified edge of the
//! program; it hands the library values of these types, and
//! [`crate::validate`] checks the invariants the control logic relies on.

use vstd::prelude::*;
use core::time::Duration;
use crate::duration::{duration_from_millis, duration_from_secs, duration_of_millis,
    duration_of_secs};

verus! {

/// Verbosity threshold for the daemon's log output.
#[derive(Clone, Copy, Debug, PartialEq, Eq, Structural)]
pub enum LogLevel {
    Error,
    Warn,
    Info,
    Debug,
    Trace,
}

impl LogLevel {
    /// The lower-case name of the level, as the logging filter expects it.
    pub open spec fn spec_label(self) -> Seq<char> {
        match self {
            LogLevel::Error => "error"@,
            LogLevel::Warn => "warn"@,
            LogLevel::Info => "info"@,
            LogLevel::Debug => "debug"@,
            LogLevel::Trace => "trace"@,
        }
    }

    pub fn as_str(&self) -> (s: &'static str)
        ensures
            s@ == self.spec_label(),
    {
        match self {
            LogLevel::Error => "error",
            LogLevel::Warn => "warn",
            LogLevel::Info => "info",
            LogLevel::Debug => "debug",
            LogLevel::Trace => "trace",
        }
    }
}

impl Default for LogLevel {
    fn default() -> (r: Self)
        ensures
            r == LogLevel::Info,
    {
        LogLevel::Info
    }
}

/// Polling interval of a zone loop, in whole seconds.
#[derive(Clone, Copy, Debug, PartialEq, Eq, Structural)]
pub struct Interval(pub u16);

impl Interval {
    pub fn to_duration(self) -> (r: Duration)
        ensures
            r == duration_of_secs(self.0 as u64),
    {
        duration_from_secs(self.0 as u64)
    }
}

impl Default for Interval {
    fn default() -> (r: Self)
        ensures
            r.0 == 1,
    {
        Interval(1)
    }
}

/// How many additional aggregation attempts a zone makes after a failure.
#[derive(Clone, Copy, Debug, PartialEq, Eq, Structural)]
pub struct Retries(pub usize);

impl Default for Retries {
    fn default() -> (r: Self)
        ensures
            r.0 == 2,
    {
        Retries(2)
    }
}

/// Fixed delay between aggregation attempts, in milliseconds.
#[derive(Clone, Copy, Debug, PartialEq, Eq, Structural)]
pub struct RetryDelayMs(pub u64);

impl Default for RetryDelayMs {
    fn default() -> (r: Self)
        ensures
            r.0 == 500,
    {
        RetryDelayMs(500)
    }
}

/// One point of the fan curve: at `temp` degrees the fans run at `dcycle`
/// percent.
#[derive(Clone, Copy, Debug, PartialEq, Eq, Structural)]
pub struct Step {
    pub temp: u8,
    pub dcycle: u8,
}

/// Name of the hardware session a zone talks through.
#[derive(Clone, Debug)]
pub struct SessionName(pub String);

impl Default for SessionName {
    fn default() -> (r: Self)
        ensures
            r.0@ == "default"@,
    {
        SessionName("default".to_owned())
    }
}

/// One temperature source of a zone.
#[derive(Clone, Debug)]
pub enum Source {
    /// A sensor read over the management interface.
    Ipmi { sensor: String },
    /// A plain value read from a file.
    File { path: String },
    /// A drive-health temperature attribute.
    Smart { block_dev: String },
    /// A drive temperature probe.
    Hdparm { block_dev: String },
}

/// How the readings of a zone's sources are combined into one value.
#[derive(Clone, Copy, Debug)]
pub enum Aggregation {
    /// The single highest reading.
    Maximum,
    /// Truncating average of the `top` highest readings, or of all readings
    /// when `top` is unset.
    Average { top: Option<usize> },
}

impl Default for Aggregation {
    fn default() -> (r: Self)
        ensures
            r is Maximum,
    {
        Aggregation::Maximum
    }
}

/// One controlled zone: the hardware zone indices it drives, how it reads
/// temperatures, and its fan curve.
#[derive(Clone, Debug)]
pub struct Zone {
    pub session: SessionName,
    pub interval: Interval,
    pub retries: Retries,
    pub retry_delay_ms: RetryDelayMs,
    pub ipmi_zones: Vec<u8>,
    pub sources: Vec<Source>,
    pub aggregation: Aggregation,
    pub steps: Vec<Step>,
}

impl Zone {
    /// The fixed-delay schedule of this zone's retry policy: one entry per
    /// retry, each of `retry_delay_ms` milliseconds.
    pub fn retry_iter(&self) -> (r: Vec<Duration>)
        ensures
            r@.len() == self.retries.0,
            forall|i: int| 0 <= i < r@.len()
                ==> r@[i] == duration_of_millis(self.retry_delay_ms.0),
    {
        let mut v: Vec<Duration> = Vec::new();
        let mut i: usize = 0;
        while i < self.retries.0
            invariant
                i <= self.retries.0,
                v@.len() == i,
                forall|j: int| 0 <= j < i as int
                    ==> v@[j] == duration_of_millis(self.retry_delay_ms.0),
            decreases self.retries.0 - i,
        {
            v.push(duration_from_millis(self.retry_delay_ms.0));
            i = i + 1;
        }
        v
    }
}

/// A password, kept apart from ordinary strings so that nothing prints it by
/// accident.
pub struct Password(pub String);

impl Password {
    /// What the password looks like in any log or debug output.
    pub fn redacted(&self) -> (s: &'static str)
        ensures
            s@ == "<redacted>"@,
    {
        "<redacted>"
    }
}

/// How a hardware session reaches the management interface.
pub enum SessionType {
    /// The local interface of this machine.
    Local,
    /// A remote interface reached over the network.
    Remote { hostname: String, username: String, password: Password },
}

impl Default for SessionType {
    fn default() -> (r: Self)
        ensures
            r is Local,
    {
        SessionType::Local
    }
}

/// The one management-interface flavour the `ipmitool` compatibility options
/// accept.
#[derive(Clone, Copy, Debug, PartialEq, Eq, Structural)]
pub enum IpmitoolInterfaceOpt {
    LanPlus,
}

/// `ipmitool`-style connection arguments, as they appear in older
/// configuration files.
pub struct IpmitoolOpt {
    pub interface: IpmitoolInterfaceOpt,
    pub hostname: String,
    pub username: String,
    pub password: String,
}

/// A session description that may have been written either natively or as
/// `ipmitool` arguments; by the time the core sees it, both forms have been
/// brought to a [`SessionType`].
pub struct SessionTypeCompat(pub SessionType);

impl Default for SessionTypeCompat {
    fn default() -> (r: Self)
        ensures
            r.0 is Local,
    {
        SessionTypeCompat(SessionType::Local)
    }
}

/// The configured sessions: a list of (name, session) pairs with pairwise
/// distinct names.
pub struct Sessions(pub Vec<(String, SessionTypeCompat)>);

impl Default for Sessions {
    fn default() -> (r: Self)
        ensures
            r.0@.len() == 0,
    {
        Sessions(Vec::new())
    }
}

/// The whole validated configuration.
pub struct Config {
    pub log_level: LogLevel,
    pub sessions: Sessions,
    pub zones: Vec<Zone>,
}

} // verus!
