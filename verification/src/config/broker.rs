//! Session-broker lifecycle and startup-timing policy.
use std::time::Duration;

use vstd::prelude::*;

use crate::text::push_decimal;

use super::{is_invalid, ConfigError};

verus! {

/// Margin the CLI readiness deadline must keep above the broker's own startup budget, so the
/// CLI never gives up while the broker is still legitimately connecting. Covers IPC round-trip.
pub const READINESS_MARGIN_SECS: u64 = 2;

/// The `Duration` of `secs` seconds.
pub uninterp spec fn secs_duration(secs: u64) -> Duration;

/// The `Duration` of `ms` milliseconds.
pub uninterp spec fn millis_duration(ms: u64) -> Duration;

/// `Duration::from_secs`. Trusted: the result depends on `secs` alone.
#[verifier::external_body]
fn duration_from_secs(secs: u64) -> (d: Duration)
    ensures
        d == secs_duration(secs),
{
    Duration::from_secs(secs)
}

/// `Duration::from_millis`. Trusted: the result depends on `ms` alone.
#[verifier::external_body]
fn duration_from_millis(ms: u64) -> (d: Duration)
    ensures
        d == millis_duration(ms),
{
    Duration::from_millis(ms)
}

/// The RFCOMM security level the broker asks the kernel for.
#[derive(Debug, Clone, Copy, PartialEq, Eq, Structural)]
pub enum SecurityLevel {
    /// `BT_SECURITY_SDP`.
    Sdp,
    /// `BT_SECURITY_LOW`.
    Low,
    /// `BT_SECURITY_MEDIUM`.
    Medium,
    /// `BT_SECURITY_HIGH`.
    High,
}

/// The configuration spelling of a security level.
pub open spec fn security_level_name(l: SecurityLevel) -> Seq<char> {
    match l {
        SecurityLevel::Sdp => "sdp"@,
        SecurityLevel::Low => "low"@,
        SecurityLevel::Medium => "medium"@,
        SecurityLevel::High => "high"@,
    }
}

/// A written security level reads back as the same level: each level is spelled as its own
/// lowercase name (`low` for `Low`, as the loader reads it), and no two levels share a spelling.
pub proof fn lemma_security_level_names()
    ensures
        security_level_name(SecurityLevel::Sdp) == "sdp"@,
        security_level_name(SecurityLevel::Low) == "low"@,
        security_level_name(SecurityLevel::Medium) == "medium"@,
        security_level_name(SecurityLevel::High) == "high"@,
        forall|a: SecurityLevel, b: SecurityLevel|
            #[trigger] security_level_name(a) == #[trigger] security_level_name(b) ==> a == b,
{
    reveal_strlit("sdp");
    reveal_strlit("low");
    reveal_strlit("medium");
    reveal_strlit("high");
    assert("sdp"@[0] != "low"@[0] && "sdp"@[0] != "high"@[0] && "low"@[0] != "high"@[0]);
    assert("medium"@.len() == 6 && "sdp"@.len() == 3 && "low"@.len() == 3 && "high"@.len() == 4);
}

impl SecurityLevel {
    /// The configuration spelling: `sdp`, `low`, `medium` or `high`.
    pub fn as_str(&self) -> (s: &'static str)
        ensures
            s@ == security_level_name(*self),
    {
        match self {
            SecurityLevel::Sdp => "sdp",
            SecurityLevel::Low => "low",
            SecurityLevel::Medium => "medium",
            SecurityLevel::High => "high",
        }
    }
}

/// Broker lifecycle and startup-timing policy.
///
/// All durations are whole-unit integers (`*_secs`, `*_ms`); read them through the `Duration`
/// accessors so unit interpretation stays in one place. The fields form a single budget: a
/// startup may make up to `connect_max_attempts` attempts, each gated by `bt_connected_secs`,
/// separated by backoff from `initial_backoff_ms` doubling to `max_backoff_secs`, bounded
/// overall by `startup_budget_secs`. The CLI waits `readiness_wait_secs` (polling every
/// `readiness_poll_ms`) for the broker to come up, validated to exceed the budget.
#[derive(Debug, Clone, Copy, PartialEq, Eq)]
pub struct BrokerConfig {
    /// Seconds of inactivity after which the broker disconnects MAP and exits. Default: 15.
    pub idle_secs: u64,
    /// Maximum attempts to establish the MAP session before startup fails. Default: 3.
    pub connect_max_attempts: u32,
    /// Per-attempt timeout for the RFCOMM `BT_CONNECTED` gate, in seconds. Default: 5.
    pub bt_connected_secs: u64,
    /// Initial backoff between MAP connect attempts, in milliseconds. Default: 500.
    pub initial_backoff_ms: u64,
    /// Backoff ceiling between MAP connect attempts, in seconds. Default: 30.
    pub max_backoff_secs: u64,
    /// Total wall-clock budget for establishing the session, in seconds. Default: 30.
    pub startup_budget_secs: u64,
    /// CLI deadline awaiting broker readiness, in seconds. Default: 40.
    pub readiness_wait_secs: u64,
    /// CLI poll interval while awaiting broker readiness, in milliseconds. Default: 50.
    pub readiness_poll_ms: u64,
    /// RFCOMM security level to request; `None` leaves the kernel default. Default: `None`.
    pub security_level: Option<SecurityLevel>,
}

/// The compiled-in broker defaults.
pub open spec fn default_broker_config() -> BrokerConfig {
    BrokerConfig {
        idle_secs: 15,
        connect_max_attempts: 3,
        bt_connected_secs: 5,
        initial_backoff_ms: 500,
        max_backoff_secs: 30,
        startup_budget_secs: 30,
        readiness_wait_secs: 40,
        readiness_poll_ms: 50,
        security_level: None,
    }
}

impl Default for BrokerConfig {
    fn default() -> (c: Self)
        ensures
            c == default_broker_config(),
    {
        BrokerConfig {
            idle_secs: 15,
            connect_max_attempts: 3,
            bt_connected_secs: 5,
            initial_backoff_ms: 500,
            max_backoff_secs: 30,
            startup_budget_secs: 30,
            readiness_wait_secs: 40,
            readiness_poll_ms: 50,
            security_level: None,
        }
    }
}

/// The broker timing policy is consistent: at least one attempt, and a readiness deadline at
/// least the margin above the startup budget (`u64` saturating).
pub open spec fn broker_timing_ok(c: BrokerConfig) -> bool {
    &&& c.connect_max_attempts != 0
    &&& c.readiness_wait_secs >= if c.startup_budget_secs + READINESS_MARGIN_SECS > u64::MAX {
        u64::MAX as int
    } else {
        c.startup_budget_secs + READINESS_MARGIN_SECS
    }
}

/// The message for a readiness deadline too close to the startup budget.
pub open spec fn readiness_message(c: BrokerConfig) -> Seq<char> {
    crate::text::decimal(c.readiness_wait_secs as nat) + " must exceed startup_budget_secs ("@
        + crate::text::decimal(c.startup_budget_secs as nat) + ") by at least 2s"@
}

impl BrokerConfig {
    /// Inactivity timeout before the broker disconnects MAP and exits.
    pub fn idle(&self) -> (d: Duration)
        ensures
            d == secs_duration(self.idle_secs),
    {
        duration_from_secs(self.idle_secs)
    }

    /// Per-attempt RFCOMM `BT_CONNECTED` gate.
    pub fn bt_connected(&self) -> (d: Duration)
        ensures
            d == secs_duration(self.bt_connected_secs),
    {
        duration_from_secs(self.bt_connected_secs)
    }

    /// Initial backoff between MAP connect attempts.
    pub fn initial_backoff(&self) -> (d: Duration)
        ensures
            d == millis_duration(self.initial_backoff_ms),
    {
        duration_from_millis(self.initial_backoff_ms)
    }

    /// Ceiling for the backoff between MAP connect attempts.
    pub fn max_backoff(&self) -> (d: Duration)
        ensures
            d == secs_duration(self.max_backoff_secs),
    {
        duration_from_secs(self.max_backoff_secs)
    }

    /// Total wall-clock budget for establishing the session at startup.
    pub fn startup_budget(&self) -> (d: Duration)
        ensures
            d == secs_duration(self.startup_budget_secs),
    {
        duration_from_secs(self.startup_budget_secs)
    }

    /// CLI deadline awaiting broker readiness.
    pub fn readiness_wait(&self) -> (d: Duration)
        ensures
            d == secs_duration(self.readiness_wait_secs),
    {
        duration_from_secs(self.readiness_wait_secs)
    }

    /// CLI poll interval while awaiting broker readiness.
    pub fn readiness_poll(&self) -> (d: Duration)
        ensures
            d == millis_duration(self.readiness_poll_ms),
    {
        duration_from_millis(self.readiness_poll_ms)
    }

    /// Checks that startup timing is internally consistent so the CLI cannot give up while the
    /// broker is still connecting.
    ///
    /// Fails on `broker.connect_max_attempts` when it is `0`, else on
    /// `broker.readiness_wait_secs` when it does not exceed `startup_budget_secs` by at least
    /// the IPC margin.
    pub fn validate(&self) -> (r: Result<(), ConfigError>)
        ensures
            r is Ok <==> broker_timing_ok(*self),
            self.connect_max_attempts == 0 ==> is_invalid(
                r,
                "broker.connect_max_attempts"@,
                "must be >= 1"@,
            ),
            self.connect_max_attempts != 0 && !broker_timing_ok(*self) ==> is_invalid(
                r,
                "broker.readiness_wait_secs"@,
                readiness_message(*self),
            ),
    {
        if self.connect_max_attempts == 0 {
            let mut msg = String::new();
            msg.append("must be >= 1");
            return Err(ConfigError::Invalid { field: "broker.connect_max_attempts", msg });
        }
        if self.readiness_wait_secs < self.startup_budget_secs.saturating_add(
            READINESS_MARGIN_SECS,
        ) {
            let mut msg = String::new();
            push_decimal(&mut msg, self.readiness_wait_secs);
            msg.append(" must exceed startup_budget_secs (");
            push_decimal(&mut msg, self.startup_budget_secs);
            msg.append(") by at least 2s");
            return Err(ConfigError::Invalid { field: "broker.readiness_wait_secs", msg });
        }
        Ok(())
    }
}

/// The compiled-in broker defaults are a consistent timing policy: at least one attempt, and a
/// readiness deadline that outlasts the startup budget by the margin.
pub proof fn lemma_default_broker_config_valid()
    ensures
        broker_timing_ok(default_broker_config()),
{
}

} // verus!
