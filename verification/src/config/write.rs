//! Changes to the user's configuration file: what each writer checks and what it writes.
//!
//! Each writer checks its inputs before anything is written and, when they are acceptable,
//! gives the [`ConfigPatch`] to apply in one write, so a rejected value never leaves a
//! partially written section.
use vstd::prelude::*;

use super::address::{address_problem, check_address};
use super::broker::{security_level_name, SecurityLevel};
use super::{
    channel_message, channel_pair_message, device_error, is_invalid, validate_channel,
    validate_channel_pair, validate_device, ConfigError,
};

verus! {

/// A value written to the configuration file.
#[derive(Debug, Clone, PartialEq, Eq)]
pub enum ConfigValue {
    /// A TOML string.
    Str(String),
    /// A TOML integer.
    Int(i64),
}

/// The view of a [`ConfigValue`].
pub enum ConfigValueView {
    Str(Seq<char>),
    Int(int),
}

impl View for ConfigValue {
    type V = ConfigValueView;

    open spec fn view(&self) -> ConfigValueView {
        match self {
            ConfigValue::Str(s) => ConfigValueView::Str(s@),
            ConfigValue::Int(i) => ConfigValueView::Int(*i as int),
        }
    }
}

/// Keys to set in one section of the configuration file, in order.
#[derive(Debug, Clone, PartialEq, Eq)]
pub struct ConfigPatch {
    /// The TOML table to write into, e.g. `device`.
    pub section: &'static str,
    /// The keys and their values.
    pub entries: Vec<(&'static str, ConfigValue)>,
}

/// The view of a [`ConfigPatch`]: the section and the keys with their values.
pub struct ConfigPatchView {
    pub section: Seq<char>,
    pub entries: Seq<(Seq<char>, ConfigValueView)>,
}

impl View for ConfigPatch {
    type V = ConfigPatchView;

    open spec fn view(&self) -> ConfigPatchView {
        ConfigPatchView {
            section: self.section@,
            entries: self.entries@.map_values(|e: (&'static str, ConfigValue)| (e.0@, e.1@)),
        }
    }
}

/// The patch result for `section` and `entries`.
pub open spec fn patch_is(
    r: Result<ConfigPatch, ConfigError>,
    section: Seq<char>,
    entries: Seq<(Seq<char>, ConfigValueView)>,
) -> bool {
    r matches Ok(p) && p@.section == section && p@.entries == entries
}

fn one_entry(key: &'static str, value: ConfigValue) -> (v: Vec<(&'static str, ConfigValue)>)
    ensures
        v@.map_values(|e: (&'static str, ConfigValue)| (e.0@, e.1@)) == seq![(key@, value@)],
{
    let mut v = Vec::new();
    v.push((key, value));
    assert(v@.map_values(|e: (&'static str, ConfigValue)| (e.0@, e.1@)) =~= seq![(key@, value@)]);
    v
}

/// Sets `device.address`. The address is checked before anything is written.
pub fn set_device(address: &str) -> (r: Result<ConfigPatch, ConfigError>)
    ensures
        match address_problem(address@) {
            None => patch_is(r, "device"@, seq![("address"@, ConfigValueView::Str(address@))]),
            Some(m) => is_invalid(r, "device.address"@, m),
        },
{
    if let Err(msg) = check_address(address) {
        return Err(ConfigError::Invalid { field: "device.address", msg });
    }
    Ok(ConfigPatch { section: "device", entries: one_entry("address", ConfigValue::Str(address.to_owned())) })
}

/// Sets both channels in one write, so the pair is never observably mismatched. Both are
/// checked before anything is written: each in `[1, 30]`, and distinct.
pub fn set_channels(map_channel: u8, pbap_channel: u8) -> (r: Result<ConfigPatch, ConfigError>)
    ensures
        !super::channel_ok(map_channel) ==> is_invalid(
            r,
            "device.map_channel"@,
            channel_message(map_channel),
        ),
        super::channel_ok(map_channel) && !super::channel_ok(pbap_channel) ==> is_invalid(
            r,
            "device.pbap_channel"@,
            channel_message(pbap_channel),
        ),
        super::channel_ok(map_channel) && super::channel_ok(pbap_channel) && map_channel
            == pbap_channel ==> is_invalid(
            r,
            "device.pbap_channel"@,
            channel_pair_message(pbap_channel),
        ),
        super::channel_ok(map_channel) && super::channel_ok(pbap_channel) && map_channel
            != pbap_channel ==> patch_is(
            r,
            "device"@,
            seq![
                ("map_channel"@, ConfigValueView::Int(map_channel as int)),
                ("pbap_channel"@, ConfigValueView::Int(pbap_channel as int)),
            ],
        ),
{
    validate_channel("device.map_channel", map_channel)?;
    validate_channel("device.pbap_channel", pbap_channel)?;
    validate_channel_pair(map_channel, pbap_channel)?;
    let mut entries = Vec::new();
    entries.push(("map_channel", ConfigValue::Int(map_channel as i64)));
    entries.push(("pbap_channel", ConfigValue::Int(pbap_channel as i64)));
    let p = ConfigPatch { section: "device", entries };
    assert(p@.entries =~= seq![
        ("map_channel"@, ConfigValueView::Int(map_channel as int)),
        ("pbap_channel"@, ConfigValueView::Int(pbap_channel as int)),
    ]);
    Ok(p)
}

/// Sets the address and both channels in one write. All three are checked before anything is
/// written, so a rejected channel never leaves a partially written address.
pub fn set_device_and_channels(address: &str, map_channel: u8, pbap_channel: u8) -> (r: Result<
    ConfigPatch,
    ConfigError,
>)
    ensures
        match device_error(address@, map_channel, pbap_channel) {
            Some((f, m)) => is_invalid(r, f, m),
            None => patch_is(
                r,
                "device"@,
                seq![
                    ("address"@, ConfigValueView::Str(address@)),
                    ("map_channel"@, ConfigValueView::Int(map_channel as int)),
                    ("pbap_channel"@, ConfigValueView::Int(pbap_channel as int)),
                ],
            ),
        },
{
    validate_device(address, map_channel, pbap_channel)?;
    let mut entries = Vec::new();
    entries.push(("address", ConfigValue::Str(address.to_owned())));
    entries.push(("map_channel", ConfigValue::Int(map_channel as i64)));
    entries.push(("pbap_channel", ConfigValue::Int(pbap_channel as i64)));
    let p = ConfigPatch { section: "device", entries };
    assert(p@.entries =~= seq![
        ("address"@, ConfigValueView::Str(address@)),
        ("map_channel"@, ConfigValueView::Int(map_channel as int)),
        ("pbap_channel"@, ConfigValueView::Int(pbap_channel as int)),
    ]);
    Ok(p)
}

/// Sets `hub.node_key`. Not checked as an iroh public key (that happens at connect time); an
/// empty key is rejected.
pub fn set_hub_key(key: &str) -> (r: Result<ConfigPatch, ConfigError>)
    ensures
        key@.len() == 0 ==> is_invalid(r, "hub.node_key"@, "must not be empty"@),
        key@.len() != 0 ==> patch_is(r, "hub"@, seq![("node_key"@, ConfigValueView::Str(key@))]),
{
    if key.is_empty() {
        let mut msg = String::new();
        msg.append("must not be empty");
        return Err(ConfigError::Invalid { field: "hub.node_key", msg });
    }
    Ok(ConfigPatch { section: "hub", entries: one_entry("node_key", ConfigValue::Str(key.to_owned())) })
}

/// Sets `broker.security_level`. Every level is acceptable.
pub fn set_broker_security_level(level: SecurityLevel) -> (r: Result<ConfigPatch, ConfigError>)
    ensures
        patch_is(
            r,
            "broker"@,
            seq![("security_level"@, ConfigValueView::Str(security_level_name(level)))],
        ),
{
    let name = level.as_str();
    Ok(ConfigPatch {
        section: "broker",
        entries: one_entry("security_level", ConfigValue::Str(name.to_owned())),
    })
}

/// The file name, relative to the state directory, of a per-device log: `imsg/{kind}-{addr}.log`.
pub open spec fn log_file_spec(kind: Seq<char>, addr: Seq<char>) -> Seq<char> {
    "imsg/"@ + kind + "-"@ + addr + ".log"@
}

/// The broker's and the daemon's logs never share a file, and a device's log is its own: two
/// logs of one kind are the same file only for the same address.
pub proof fn lemma_log_files_distinct(a: Seq<char>, b: Seq<char>)
    ensures
        log_file_spec("broker"@, a) != log_file_spec("daemon"@, b),
        log_file_spec("broker"@, a) == log_file_spec("broker"@, b) ==> a == b,
        log_file_spec("daemon"@, a) == log_file_spec("daemon"@, b) ==> a == b,
{
    reveal_strlit("imsg/");
    reveal_strlit("broker");
    reveal_strlit("daemon");
    reveal_strlit("-");
    reveal_strlit(".log");
    assert("imsg/"@.len() == 5 && "-"@.len() == 1 && ".log"@.len() == 4);
    let x = log_file_spec("broker"@, a);
    let y = log_file_spec("daemon"@, b);
    assert(x[5] == 'b');
    assert(y[5] == 'd');
    assert forall|k: Seq<char>, c: Seq<char>, d: Seq<char>|
        k.len() == 6 && #[trigger] log_file_spec(k, c) == #[trigger] log_file_spec(k, d) implies c
        == d by {
        let lc = log_file_spec(k, c);
        let ld = log_file_spec(k, d);
        assert(lc.len() == 16 + c.len());
        assert(ld.len() == 16 + d.len());
        assert(c.len() == d.len());
        assert forall|i: int| 0 <= i < c.len() implies c[i] == d[i] by {
            assert(lc[12 + i] == c[i]);
            assert(ld[12 + i] == d[i]);
        }
        assert(c =~= d);
    }
}

/// The broker's log file, relative to the state directory: `imsg/broker-{addr}.log`.
pub fn broker_log_file(addr: &str) -> (p: String)
    ensures
        p@ == log_file_spec("broker"@, addr@),
{
    log_file("broker", addr)
}

/// The daemon's log file, relative to the state directory: `imsg/daemon-{addr}.log`. Distinct
/// from the broker's so a daemon's output never mixes with an ephemeral broker's.
pub fn daemon_log_file(addr: &str) -> (p: String)
    ensures
        p@ == log_file_spec("daemon"@, addr@),
{
    log_file("daemon", addr)
}

fn log_file(kind: &str, addr: &str) -> (p: String)
    ensures
        p@ == log_file_spec(kind@, addr@),
{
    let mut p = String::new();
    p.append("imsg/");
    p.append(kind);
    p.append("-");
    p.append(addr);
    p.append(".log");
    assert(p@ =~= log_file_spec(kind@, addr@));
    p
}

} // verus!
