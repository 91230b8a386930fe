//! Configuration rules and the patches the `set_*` writers produce.

use std::time::Duration;

use imsg::config::write::{
    broker_log_file, daemon_log_file, set_broker_security_level, set_channels, set_device,
    set_device_and_channels, set_hub_key, ConfigValue,
};
use imsg::config::toml::patch_text;
use imsg::config::{
    validate, BrokerConfig, Config, ConfigError, DeviceConfig, HubConfig, SecurityLevel,
    StoreConfig,
};

fn make_device(address: &str) -> DeviceConfig {
    DeviceConfig { address: address.to_owned(), map_channel: 2, pbap_channel: 13 }
}

fn config_with(device: DeviceConfig) -> Config {
    Config {
        device,
        hub: HubConfig::default(),
        store: StoreConfig::default(),
        broker: BrokerConfig::default(),
    }
}

fn invalid_field<T>(r: &Result<T, ConfigError>) -> Option<&'static str> {
    match r {
        Err(ConfigError::Invalid { field, .. }) => Some(field),
        _ => None,
    }
}

#[test]
fn validate_rejects_bad_address() {
    for bad in ["NOTAMAC", "GG:GG:GG:GG:GG:GG", "00:11:22:33:44", "00:11:22:33:44:55:66"] {
        let cfg = config_with(make_device(bad));
        assert!(
            matches!(validate(&cfg), Err(ConfigError::Invalid { field: "device.address", .. })),
            "expected Invalid for {bad:?}"
        );
    }
}

#[test]
fn validate_rejects_channel_bounds() {
    for bad_map in [0_u8, 31_u8] {
        let cfg = config_with(DeviceConfig {
            address: "AA:BB:CC:DD:EE:FF".to_owned(),
            map_channel: bad_map,
            pbap_channel: 13,
        });
        assert!(
            matches!(validate(&cfg), Err(ConfigError::Invalid { field: "device.map_channel", .. })),
            "expected Invalid for map_channel={bad_map}"
        );
    }
    let cfg = config_with(DeviceConfig {
        address: "AA:BB:CC:DD:EE:FF".to_owned(),
        map_channel: 2,
        pbap_channel: 0,
    });
    assert!(matches!(
        validate(&cfg),
        Err(ConfigError::Invalid { field: "device.pbap_channel", .. })
    ));
}

#[test]
fn validate_rejects_equal_map_and_pbap_channel() {
    let cfg = config_with(DeviceConfig {
        map_channel: 9,
        pbap_channel: 9,
        ..make_device("AA:BB:CC:DD:EE:FF")
    });
    assert!(matches!(
        validate(&cfg),
        Err(ConfigError::Invalid { field: "device.pbap_channel", .. })
    ));
}

#[test]
fn validate_accepts_good_config() {
    assert!(validate(&config_with(make_device("aa:bb:cc:dd:ee:ff"))).is_ok());
}

#[test]
fn validate_reports_broker_timing() {
    let mut cfg = config_with(make_device("AA:BB:CC:DD:EE:FF"));
    cfg.broker.readiness_wait_secs = 10;
    assert_eq!(invalid_field(&validate(&cfg)), Some("broker.readiness_wait_secs"));
}

#[test]
fn defaults_are_valid() -> Result<(), ConfigError> {
    BrokerConfig::default().validate()
}

#[test]
fn rejects_zero_attempts() {
    let b = BrokerConfig { connect_max_attempts: 0, ..BrokerConfig::default() };
    assert!(matches!(
        b.validate(),
        Err(ConfigError::Invalid { field: "broker.connect_max_attempts", .. })
    ));
}

#[test]
fn rejects_readiness_below_budget_plus_margin() {
    let b = BrokerConfig { startup_budget_secs: 30, readiness_wait_secs: 31, ..BrokerConfig::default() };
    assert!(matches!(
        b.validate(),
        Err(ConfigError::Invalid { field: "broker.readiness_wait_secs", .. })
    ));
}

#[test]
fn readiness_exactly_budget_plus_margin_is_accepted() {
    let b = BrokerConfig { startup_budget_secs: 30, readiness_wait_secs: 32, ..BrokerConfig::default() };
    assert!(b.validate().is_ok());
}

#[test]
fn accessors_apply_correct_units() {
    let b = BrokerConfig::default();
    assert_eq!(b.bt_connected(), Duration::from_secs(5));
    assert_eq!(b.initial_backoff(), Duration::from_millis(500));
    assert_eq!(b.readiness_poll(), Duration::from_millis(50));
}

#[test]
fn remaining_accessors_apply_correct_units() {
    let b = BrokerConfig::default();
    assert_eq!(b.idle(), Duration::from_secs(15));
    assert_eq!(b.max_backoff(), Duration::from_secs(30));
    assert_eq!(b.startup_budget(), Duration::from_secs(30));
    assert_eq!(b.readiness_wait(), Duration::from_secs(40));
}

#[test]
fn set_hub_key_rejects_empty() {
    let result = set_hub_key("");
    assert!(matches!(result, Err(ConfigError::Invalid { field: "hub.node_key", .. })));
}

#[test]
fn set_hub_key_patches_hub_section() {
    let p = set_hub_key("fakehubkey456").unwrap_or_else(|e| panic!("{e:?}"));
    assert_eq!(p.section, "hub");
    assert_eq!(p.entries, vec![("node_key", ConfigValue::Str("fakehubkey456".to_owned()))]);
}

#[test]
fn set_channels_rejects_out_of_bounds_map_channel() {
    let result = set_channels(0, 13);
    assert!(matches!(result, Err(ConfigError::Invalid { field: "device.map_channel", .. })));
}

#[test]
fn set_channels_rejects_out_of_bounds_pbap_channel() {
    let result = set_channels(2, 31);
    assert!(matches!(result, Err(ConfigError::Invalid { field: "device.pbap_channel", .. })));
}

#[test]
fn set_channels_rejects_equal_channels() {
    let result = set_channels(9, 9);
    assert!(matches!(result, Err(ConfigError::Invalid { field: "device.pbap_channel", .. })));
}

#[test]
fn set_channels_writes_integers() {
    let p = set_channels(6, 22).unwrap_or_else(|e| panic!("{e:?}"));
    assert_eq!(p.section, "device");
    assert_eq!(
        p.entries,
        vec![("map_channel", ConfigValue::Int(6)), ("pbap_channel", ConfigValue::Int(22))]
    );
}

#[test]
fn set_device_and_channels_rejects_invalid_address() {
    let result = set_device_and_channels("not-an-address", 2, 13);
    assert!(matches!(result, Err(ConfigError::Invalid { field: "device.address", .. })));
}

#[test]
fn set_device_and_channels_rejects_out_of_bounds_map_channel() {
    let result = set_device_and_channels("AA:BB:CC:DD:EE:FF", 0, 13);
    assert!(matches!(result, Err(ConfigError::Invalid { field: "device.map_channel", .. })));
}

#[test]
fn set_device_and_channels_rejects_out_of_bounds_pbap_channel() {
    let result = set_device_and_channels("AA:BB:CC:DD:EE:FF", 2, 31);
    assert!(matches!(result, Err(ConfigError::Invalid { field: "device.pbap_channel", .. })));
}

#[test]
fn set_device_and_channels_patches_all_three() {
    let p = set_device_and_channels("AA:BB:CC:DD:EE:FF", 5, 17).unwrap_or_else(|e| panic!("{e:?}"));
    assert_eq!(p.section, "device");
    assert_eq!(
        p.entries,
        vec![
            ("address", ConfigValue::Str("AA:BB:CC:DD:EE:FF".to_owned())),
            ("map_channel", ConfigValue::Int(5)),
            ("pbap_channel", ConfigValue::Int(17)),
        ]
    );
}

#[test]
fn set_device_rejects_invalid_mac() {
    let result = set_device("NOT_A_MAC");
    assert!(matches!(result, Err(ConfigError::Invalid { field: "device.address", .. })));
    if let Err(ConfigError::Invalid { msg, .. }) = result {
        assert_eq!(msg, "invalid Bluetooth address: NOT_A_MAC");
    }
}

#[test]
fn set_device_error_names_the_bad_field() {
    if let Err(ConfigError::Invalid { msg, .. }) = set_device("AA:BB:ZZ:DD:EE:FF") {
        assert_eq!(msg, "invalid Bluetooth address: ZZ");
    } else {
        panic!("expected an invalid address");
    }
}

#[test]
fn set_device_writes_address() {
    let p = set_device("AA:BB:CC:DD:EE:FF").unwrap_or_else(|e| panic!("{e:?}"));
    assert_eq!(p.section, "device");
    assert_eq!(p.entries, vec![("address", ConfigValue::Str("AA:BB:CC:DD:EE:FF".to_owned()))]);
}

#[test]
fn set_broker_security_level_writes_lowercase_name() {
    let p = set_broker_security_level(SecurityLevel::High).unwrap_or_else(|e| panic!("{e:?}"));
    assert_eq!(p.section, "broker");
    assert_eq!(p.entries, vec![("security_level", ConfigValue::Str("high".to_owned()))]);
    let p = set_broker_security_level(SecurityLevel::Medium).unwrap_or_else(|e| panic!("{e:?}"));
    assert_eq!(p.entries, vec![("security_level", ConfigValue::Str("medium".to_owned()))]);
}

#[test]
fn log_files_are_per_kind_and_device() {
    assert_eq!(broker_log_file("AA:BB:CC:DD:EE:FF"), "imsg/broker-AA:BB:CC:DD:EE:FF.log");
    assert_eq!(daemon_log_file("AA:BB:CC:DD:EE:FF"), "imsg/daemon-AA:BB:CC:DD:EE:FF.log");
}

fn parse_doc(text: &str) -> toml_edit::DocumentMut {
    text.parse().unwrap_or_else(|e| panic!("not TOML: {e}\n{text}"))
}

#[test]
fn set_device_creates_device_section_when_absent() {
    let patch = set_device("AA:BB:CC:DD:EE:FF").unwrap_or_else(|e| panic!("{e:?}"));
    let out = patch_text(Some("[hub]\nnode_key = \"preservedkey\"\n"), &patch)
        .unwrap_or_else(|e| panic!("{e:?}"));
    let doc = parse_doc(&out);
    assert_eq!(doc["device"]["address"].as_str(), Some("AA:BB:CC:DD:EE:FF"));
    assert_eq!(doc["hub"]["node_key"].as_str(), Some("preservedkey"));
}

#[test]
fn set_device_preserves_existing_keys() {
    let patch = set_device("AA:BB:CC:DD:EE:FF").unwrap_or_else(|e| panic!("{e:?}"));
    let existing = "[device]\naddress = \"11:22:33:44:55:66\"\n\n[hub]\nnode_key = \"preservedkey\"\n";
    let out = patch_text(Some(existing), &patch).unwrap_or_else(|e| panic!("{e:?}"));
    let doc = parse_doc(&out);
    assert_eq!(doc["device"]["address"].as_str(), Some("AA:BB:CC:DD:EE:FF"));
    assert_eq!(doc["hub"]["node_key"].as_str(), Some("preservedkey"));
}

#[test]
fn patch_on_missing_file_writes_only_the_section() {
    let patch = set_hub_key("abc").unwrap_or_else(|e| panic!("{e:?}"));
    let out = patch_text(None, &patch).unwrap_or_else(|e| panic!("{e:?}"));
    assert_eq!(out, "[hub]\nnode_key = \"abc\"\n");
}

#[test]
fn patch_keeps_comments_and_other_keys() {
    let existing = "# mine\n[device]\naddress = \"AA:BB:CC:DD:EE:FF\" # phone\nmap_channel = 2\n\n[broker]\nidle_secs = 60\n";
    let patch = set_channels(6, 22).unwrap_or_else(|e| panic!("{e:?}"));
    let out = patch_text(Some(existing), &patch).unwrap_or_else(|e| panic!("{e:?}"));
    assert!(out.starts_with("# mine\n[device]\naddress = \"AA:BB:CC:DD:EE:FF\" # phone\n"));
    let doc = parse_doc(&out);
    assert_eq!(doc["device"]["map_channel"].as_integer(), Some(6));
    assert_eq!(doc["device"]["pbap_channel"].as_integer(), Some(22));
    assert_eq!(doc["broker"]["idle_secs"].as_integer(), Some(60));
}

#[test]
fn patch_replaces_a_section_that_is_not_a_table() {
    let patch = set_hub_key("k2").unwrap_or_else(|e| panic!("{e:?}"));
    let out = patch_text(Some("hub = 3\n"), &patch).unwrap_or_else(|e| panic!("{e:?}"));
    let doc = parse_doc(&out);
    assert_eq!(doc["hub"]["node_key"].as_str(), Some("k2"));
}

#[test]
fn patch_refuses_invalid_toml() {
    let patch = set_hub_key("k").unwrap_or_else(|e| panic!("{e:?}"));
    assert!(matches!(patch_text(Some("[hub"), &patch), Err(ConfigError::Parse(_))));
}

#[test]
fn set_hub_key_roundtrip() {
    let key = "fakehubkey456";
    let patch = set_hub_key(key).unwrap_or_else(|e| panic!("{e:?}"));
    let doc = parse_doc(&patch_text(None, &patch).unwrap_or_else(|e| panic!("{e:?}")));
    assert_eq!(doc["hub"]["node_key"].as_str(), Some(key));
}

#[test]
fn set_broker_security_level_roundtrip() {
    let patch = set_broker_security_level(SecurityLevel::High).unwrap_or_else(|e| panic!("{e:?}"));
    let doc = parse_doc(&patch_text(None, &patch).unwrap_or_else(|e| panic!("{e:?}")));
    assert_eq!(doc["broker"]["security_level"].as_str(), Some("high"));
}

#[test]
fn set_channels_roundtrip() {
    let patch = set_channels(6, 22).unwrap_or_else(|e| panic!("{e:?}"));
    let doc = parse_doc(&patch_text(None, &patch).unwrap_or_else(|e| panic!("{e:?}")));
    // Integers, not quoted strings: a typed `u8` field would refuse a string.
    assert_eq!(doc["device"]["map_channel"].as_integer(), Some(6));
    assert_eq!(doc["device"]["pbap_channel"].as_integer(), Some(22));
}

#[test]
fn set_channels_rejects_equal_channels_without_writing() {
    let seed = set_channels(6, 22).unwrap_or_else(|e| panic!("{e:?}"));
    let text = patch_text(None, &seed).unwrap_or_else(|e| panic!("{e:?}"));
    let result = set_channels(9, 9);
    assert!(matches!(result, Err(ConfigError::Invalid { field: "device.pbap_channel", .. })));
    // No patch, so nothing to write: the file text stays as seeded.
    let doc = parse_doc(&text);
    assert_eq!(doc["device"]["map_channel"].as_integer(), Some(6), "rejected pair must not overwrite map_channel");
    assert_eq!(doc["device"]["pbap_channel"].as_integer(), Some(22), "rejected pair must not overwrite pbap_channel");
}

#[test]
fn set_device_and_channels_roundtrip() {
    let patch = set_device_and_channels("AA:BB:CC:DD:EE:FF", 5, 17).unwrap_or_else(|e| panic!("{e:?}"));
    let doc = parse_doc(&patch_text(None, &patch).unwrap_or_else(|e| panic!("{e:?}")));
    assert_eq!(doc["device"]["address"].as_str(), Some("AA:BB:CC:DD:EE:FF"));
    assert_eq!(doc["device"]["map_channel"].as_integer(), Some(5));
    assert_eq!(doc["device"]["pbap_channel"].as_integer(), Some(17));
}

#[test]
fn set_device_and_channels_rejects_invalid_pbap_without_writing_address() {
    let result = set_device_and_channels("AA:BB:CC:DD:EE:FF", 5, 31);
    assert!(matches!(result, Err(ConfigError::Invalid { field: "device.pbap_channel", .. })));
}

#[test]
fn patch_config_writes_multiple_keys_in_one_call() {
    let patch = imsg::config::write::ConfigPatch {
        section: "device",
        entries: vec![
            ("address", ConfigValue::Str("AA:BB:CC:DD:EE:FF".to_owned())),
            ("map_channel", ConfigValue::Int(7)),
            ("pbap_channel", ConfigValue::Int(19)),
        ],
    };
    let doc = parse_doc(&patch_text(None, &patch).unwrap_or_else(|e| panic!("{e:?}")));
    assert_eq!(doc["device"]["address"].as_str(), Some("AA:BB:CC:DD:EE:FF"));
    assert_eq!(doc["device"]["map_channel"].as_integer(), Some(7));
    assert_eq!(doc["device"]["pbap_channel"].as_integer(), Some(19));
}

#[test]
fn set_device_rejects_one_digit_fields() {
    let result = set_device("A:B:C:D:E:F");
    match result {
        Err(ConfigError::Invalid { field, msg }) => {
            assert_eq!(field, "device.address");
            assert_eq!(msg, "invalid Bluetooth address: A:B:C:D:E:F");
        }
        _ => panic!("expected an invalid address"),
    }
}

#[test]
fn set_device_accepts_lowercase_hex() {
    assert!(set_device("aa:bb:cc:dd:ee:ff").is_ok());
}
