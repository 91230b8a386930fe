//! Connect-retry policies for the two broker modes.
use std::time::Duration;

use vstd::prelude::*;

use bluer::rfcomm::{Security, SecurityLevel as RfcommLevel};

use crate::config::broker::{millis_duration, secs_duration};
use crate::config::{Config, SecurityLevel};

verus! {

#[verifier::external_type_specification]
pub struct ExRfcommSecurityLevel(RfcommLevel);

#[verifier::external_type_specification]
pub struct ExRfcommSecurity(Security);

/// Backoff and attempt limits for establishing (and re-establishing) the MAP session.
#[derive(Debug, Clone, Copy, PartialEq, Eq)]
pub struct ConnectPolicy {
    /// First inter-attempt delay; doubles each retry up to `max_backoff`.
    pub initial_backoff: Duration,
    /// Ceiling for the inter-attempt delay.
    pub max_backoff: Duration,
    /// Maximum connect attempts per connection phase.
    pub max_attempts: u32,
    /// Wall-clock cap on a whole connection phase; `None` means no deadline.
    pub startup_budget: Option<Duration>,
}

/// The policy for one-shot (`serve`) mode: bounded attempts within the configured wall-clock
/// budget, so a CLI command fails fast with a clear error when the device is out of reach.
pub fn build_policy(cfg: &Config) -> (p: ConnectPolicy)
    ensures
        p == (ConnectPolicy {
            initial_backoff: millis_duration(cfg.broker.initial_backoff_ms),
            max_backoff: secs_duration(cfg.broker.max_backoff_secs),
            max_attempts: cfg.broker.connect_max_attempts,
            startup_budget: Some(secs_duration(cfg.broker.startup_budget_secs)),
        }),
{
    ConnectPolicy {
        initial_backoff: cfg.broker.initial_backoff(),
        max_backoff: cfg.broker.max_backoff(),
        max_attempts: cfg.broker.connect_max_attempts,
        startup_budget: Some(cfg.broker.startup_budget()),
    }
}

/// The policy for persistent (`serve_daemon`) mode: the same backoff schedule, but unbounded
/// attempts and no deadline, so a daemon started out of range keeps retrying until it connects.
pub fn build_daemon_policy(cfg: &Config) -> (p: ConnectPolicy)
    ensures
        p == (ConnectPolicy {
            initial_backoff: millis_duration(cfg.broker.initial_backoff_ms),
            max_backoff: secs_duration(cfg.broker.max_backoff_secs),
            max_attempts: u32::MAX,
            startup_budget: None,
        }),
{
    ConnectPolicy {
        initial_backoff: cfg.broker.initial_backoff(),
        max_backoff: cfg.broker.max_backoff(),
        max_attempts: u32::MAX,
        startup_budget: None,
    }
}

/// The RFCOMM security level of the same name as a configured level.
pub open spec fn rfcomm_level(l: SecurityLevel) -> RfcommLevel {
    match l {
        SecurityLevel::Sdp => RfcommLevel::Sdp,
        SecurityLevel::Low => RfcommLevel::Low,
        SecurityLevel::Medium => RfcommLevel::Medium,
        SecurityLevel::High => RfcommLevel::High,
    }
}

/// Each configured level asks for the RFCOMM level of the same name, and distinct configured
/// levels ask for distinct RFCOMM levels.
pub proof fn lemma_rfcomm_level_same_name()
    ensures
        rfcomm_level(SecurityLevel::Sdp) == RfcommLevel::Sdp,
        rfcomm_level(SecurityLevel::Low) == RfcommLevel::Low,
        rfcomm_level(SecurityLevel::Medium) == RfcommLevel::Medium,
        rfcomm_level(SecurityLevel::High) == RfcommLevel::High,
        forall|a: SecurityLevel, b: SecurityLevel|
            #[trigger] rfcomm_level(a) == #[trigger] rfcomm_level(b) ==> a == b,
{
}

/// The RFCOMM socket security requested for a configured level: the level of the same name with
/// `key_size: 0` (the kernel's "any size"), or no request at all when none is configured, so the
/// existing pairing's default applies unchanged.
pub fn security_from_config(level: Option<SecurityLevel>) -> (r: Option<Security>)
    ensures
        r == match level {
            Some(l) => Some(Security { level: rfcomm_level(l), key_size: 0 }),
            None => None::<Security>,
        },
{
    let level = match level {
        Some(l) => l,
        None => {
            return None;
        },
    };
    let level = match level {
        SecurityLevel::Sdp => RfcommLevel::Sdp,
        SecurityLevel::Low => RfcommLevel::Low,
        SecurityLevel::Medium => RfcommLevel::Medium,
        SecurityLevel::High => RfcommLevel::High,
    };
    Some(Security { level, key_size: 0 })
}

} // verus!
