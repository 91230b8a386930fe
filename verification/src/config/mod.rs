//! Configuration model and its rules: device address and RFCOMM channels, hub key, store path
//! and the broker timing policy.
//!
//! Reading the layered configuration (compiled-in defaults, `/etc`, the user's file, `./`, an
//! explicit path, `IMSG_` environment variables) happens outside the library; these types hold
//! what it reads and [`validate`] checks it.
pub mod address;
pub mod broker;
pub mod toml;
pub mod write;

use std::path::PathBuf;

use vstd::prelude::*;

use crate::text::push_decimal;

pub use address::is_mac_address;
pub use broker::{BrokerConfig, SecurityLevel};

verus! {

#[verifier::external_type_specification]
#[verifier::external_body]
pub struct ExPathBuf(PathBuf);

#[verifier::external_type_specification]
#[verifier::external_body]
pub struct ExIoError(std::io::Error);

#[verifier::external_type_specification]
#[verifier::external_body]
pub struct ExFigmentError(figment::Error);

#[verifier::external_type_specification]
#[verifier::external_body]
pub struct ExTomlError(toml_edit::TomlError);

/// Errors from loading and writing the configuration: extraction, domain validation, I/O and
/// TOML parsing.
#[derive(Debug)]
pub enum ConfigError {
    /// Extraction failed: a required field is missing or has the wrong type.
    Load(Box<figment::Error>),
    /// A domain constraint is violated: `field` names the dotted key, `msg` the violation.
    Invalid {
        /// Dotted config key path where the constraint was violated (e.g. `"device.address"`).
        field: &'static str,
        /// Free-form description of the violation.
        msg: String,
    },
    /// Reading or writing the config file failed.
    Io(std::io::Error),
    /// The existing config file holds invalid TOML and cannot be safely edited.
    Parse(toml_edit::TomlError),
}

/// `r` is the [`ConfigError::Invalid`] error for `field` with message `msg`.
pub open spec fn is_invalid<T>(r: Result<T, ConfigError>, field: Seq<char>, msg: Seq<char>) -> bool {
    match r {
        Err(ConfigError::Invalid { field: f, msg: m }) => f@ == field && m@ == msg,
        _ => false,
    }
}

/// The complete configuration.
#[derive(Debug)]
pub struct Config {
    /// Address and RFCOMM channels; checked by [`validate`].
    pub device: DeviceConfig,
    /// Absent until `imsg spoke add` writes the key.
    pub hub: HubConfig,
    /// Optional database path override.
    pub store: StoreConfig,
    /// Session-broker lifecycle and startup-timing policy.
    pub broker: BrokerConfig,
}

/// MAC address (`XX:XX:XX:XX:XX:XX`) plus MAP/PBAP RFCOMM channels in `[1, 30]`.
#[derive(Debug, Clone, PartialEq, Eq)]
pub struct DeviceConfig {
    /// The device address; see [`DeviceConfig::address`].
    pub address: String,
    /// RFCOMM channel for the MAP MAS profile.
    pub map_channel: u8,
    /// RFCOMM channel for the PBAP PSE profile.
    pub pbap_channel: u8,
}

impl DeviceConfig {
    /// A device configuration from its parts, unchecked; see [`validate`].
    pub fn new(address: String, map_channel: u8, pbap_channel: u8) -> (d: Self)
        ensures
            d.address@ == address@,
            d.map_channel == map_channel,
            d.pbap_channel == pbap_channel,
    {
        DeviceConfig { address, map_channel, pbap_channel }
    }

    /// The device address; a valid `XX:XX:XX:XX:XX:XX` once [`validate`] accepted it.
    pub fn address(&self) -> (a: &str)
        ensures
            a@ == self.address@,
    {
        self.address.as_str()
    }
}

/// Absent until `imsg spoke add <KEY>` writes it; not checked here (the key is parsed at
/// connect time).
#[derive(Debug, Clone, Default, PartialEq, Eq)]
pub struct HubConfig {
    /// The iroh public key written by `imsg spoke add`.
    pub node_key: Option<String>,
}

/// Optional database path override; when absent the default data-directory path applies.
#[derive(Debug, Clone, Default)]
pub struct StoreConfig {
    /// Absolute path to the database file.
    pub path: Option<PathBuf>,
}

/// A channel is in `[1, 30]`.
pub open spec fn channel_ok(c: u8) -> bool {
    1 <= c <= 30
}

/// The message for an out-of-range channel.
pub open spec fn channel_message(c: u8) -> Seq<char> {
    crate::text::decimal(c as nat) + " is not in [1, 30]"@
}

/// The message for a PBAP channel equal to the MAP channel.
pub open spec fn channel_pair_message(c: u8) -> Seq<char> {
    crate::text::decimal(c as nat) + " is already device.map_channel"@
}

/// Checks one RFCOMM channel; shared by [`validate`] and the writers so a saved value never
/// fails the next load.
pub fn validate_channel(field: &'static str, channel: u8) -> (r: Result<(), ConfigError>)
    ensures
        r is Ok <==> channel_ok(channel),
        !channel_ok(channel) ==> is_invalid(r, field@, channel_message(channel)),
{
    if channel == 0 || channel > 30 {
        let mut msg = String::new();
        push_decimal(&mut msg, channel as u64);
        msg.append(" is not in [1, 30]");
        return Err(ConfigError::Invalid { field, msg });
    }
    Ok(())
}

/// Checks that the MAP and PBAP channels differ.
pub fn validate_channel_pair(map_channel: u8, pbap_channel: u8) -> (r: Result<(), ConfigError>)
    ensures
        r is Ok <==> map_channel != pbap_channel,
        map_channel == pbap_channel ==> is_invalid(
            r,
            "device.pbap_channel"@,
            channel_pair_message(pbap_channel),
        ),
{
    if map_channel == pbap_channel {
        let mut msg = String::new();
        push_decimal(&mut msg, pbap_channel as u64);
        msg.append(" is already device.map_channel");
        return Err(ConfigError::Invalid { field: "device.pbap_channel", msg });
    }
    Ok(())
}

/// The first device check that fails, as the field and message it reports: the address, then
/// the MAP channel, then the PBAP channel, then the two channels being equal.
pub open spec fn device_error(address: Seq<char>, map_channel: u8, pbap_channel: u8) -> Option<
    (Seq<char>, Seq<char>),
> {
    if address::address_problem(address) is Some {
        Some(("device.address"@, address::address_problem(address)->Some_0))
    } else if !channel_ok(map_channel) {
        Some(("device.map_channel"@, channel_message(map_channel)))
    } else if !channel_ok(pbap_channel) {
        Some(("device.pbap_channel"@, channel_message(pbap_channel)))
    } else if map_channel == pbap_channel {
        Some(("device.pbap_channel"@, channel_pair_message(pbap_channel)))
    } else {
        None
    }
}

/// Checks a device address and both channels, in that order, as every writer and loader does.
pub fn validate_device(address: &str, map_channel: u8, pbap_channel: u8) -> (r: Result<
    (),
    ConfigError,
>)
    ensures
        match device_error(address@, map_channel, pbap_channel) {
            None => r is Ok,
            Some((f, m)) => is_invalid(r, f, m),
        },
{
    if let Err(msg) = address::check_address(address) {
        return Err(ConfigError::Invalid { field: "device.address", msg });
    }
    validate_channel("device.map_channel", map_channel)?;
    validate_channel("device.pbap_channel", pbap_channel)?;
    validate_channel_pair(map_channel, pbap_channel)
}

/// Checks the device address is in the `XX:XX:XX:XX:XX:XX` form, both channels in `[1, 30]` and distinct, then the broker
/// timing policy. Does not check that the device is reachable.
pub fn validate(cfg: &Config) -> (r: Result<(), ConfigError>)
    ensures
        match device_error(cfg.device.address@, cfg.device.map_channel, cfg.device.pbap_channel) {
            Some((f, m)) => is_invalid(r, f, m),
            None => {
                &&& r is Ok <==> broker::broker_timing_ok(cfg.broker)
                &&& cfg.broker.connect_max_attempts == 0 ==> is_invalid(
                    r,
                    "broker.connect_max_attempts"@,
                    "must be >= 1"@,
                )
                &&& cfg.broker.connect_max_attempts != 0 && !broker::broker_timing_ok(cfg.broker)
                    ==> is_invalid(
                    r,
                    "broker.readiness_wait_secs"@,
                    broker::readiness_message(cfg.broker),
                )
            },
        },
{
    validate_device(cfg.device.address(), cfg.device.map_channel, cfg.device.pbap_channel)?;
    cfg.broker.validate()
}

/// A device section is accepted exactly when the address is in the `XX:XX:XX:XX:XX:XX` form and
/// the two channels are distinct and both in `[1, 30]`; the writers and the loader apply this
/// same check.
pub proof fn lemma_device_accepted(address: Seq<char>, map_channel: u8, pbap_channel: u8)
    ensures
        device_error(address, map_channel, pbap_channel) is None <==> (address::is_strict_mac(
            address,
        ) && 1 <= map_channel <= 30 && 1 <= pbap_channel <= 30 && map_channel != pbap_channel),
{
    if address::is_strict_mac(address) {
        address::lemma_strict_is_mac(address);
    }
}

} // verus!
