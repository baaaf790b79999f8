use palmrs::sync::SyncMode;
use palmrs::sync::conduit::{ConduitHandler, ConduitRequirements};
use palmrs::sync::conduit::within::{ConduitEnvError, WithinConduit, WithinConduitConfig};

#[test]
fn sync_mode_from_str_accepts_all_names() {
    assert_eq!(SyncMode::from_str("keep-local"), Ok(SyncMode::KeepLocal));
    assert_eq!(SyncMode::from_str("keeplocal"), Ok(SyncMode::KeepLocal));
    assert_eq!(SyncMode::from_str("local"), Ok(SyncMode::KeepLocal));
    assert_eq!(SyncMode::from_str("keep-device"), Ok(SyncMode::KeepDevice));
    assert_eq!(SyncMode::from_str("keepdevice"), Ok(SyncMode::KeepDevice));
    assert_eq!(SyncMode::from_str("device"), Ok(SyncMode::KeepDevice));
    assert_eq!(SyncMode::from_str("merge"), Ok(SyncMode::Merge));
    assert_eq!(SyncMode::from_str("KEEP-Device"), Ok(SyncMode::KeepDevice));
    assert_eq!(SyncMode::from_str("bogus"), Err(String::from("bogus")));
}

#[test]
fn sync_mode_renders_canonically() {
    assert_eq!(SyncMode::KeepLocal.as_str(), "keep-local");
    assert_eq!(SyncMode::KeepDevice.as_str(), "keep-device");
    assert_eq!(SyncMode::Merge.as_str(), "merge");
    assert_eq!(SyncMode::default(), SyncMode::Merge);
}

#[test]
fn config_prefix_mangles_conduit_name() {
    let handler = ConduitHandler::new("palmrs-conduit-todotxt", SyncMode::Merge);
    assert_eq!(handler.make_config_prefix(), "CONDUIT_TODOTXT__");
    let plain = ConduitHandler::new("my--weird-tool", SyncMode::Merge);
    assert_eq!(plain.make_config_prefix(), "MY_WEIRD_TOOL__");
    assert_eq!(handler.make_argv(), vec![String::from("palmrs-conduit-todotxt")]);
}

#[test]
fn environment_lists_every_variable() {
    let mut handler = ConduitHandler::new("palmrs-conduit-test", SyncMode::KeepDevice);
    handler.path_local = String::from("/home/user/conduit-test");
    handler.path_device = String::from("/tmp/device-data");
    handler.conduit_config.push((String::from("hello_world"), String::from("Hello, world!")));
    let env = handler.make_environment("/home/user", "/usr/bin", Some("debug"), None, "0.1.0");
    let expect: Vec<(String, String)> = vec![
        (String::from("HOME"), String::from("/home/user")),
        (String::from("PATH"), String::from("/usr/bin")),
        (String::from("RUST_LOG"), String::from("debug")),
        (String::from("PALMRS_SYNC_VERSION"), String::from("0.1.0")),
        (String::from("PALMRS_SYNC_MODE"), String::from("keep-device")),
        (String::from("PALMRS_DATA_LOCAL"), String::from("/home/user/conduit-test")),
        (String::from("PALMRS_DATA_DEVICE"), String::from("/tmp/device-data")),
        (String::from("PALMRS_CONFIG_PREFIX"), String::from("CONDUIT_TEST__")),
        (String::from("CONDUIT_TEST__HELLO_WORLD"), String::from("Hello, world!")),
    ];
    assert_eq!(env, expect);
}

#[test]
fn within_config_reads_its_environment() {
    let mut config = WithinConduitConfig::default();
    let environ = vec![
        (String::from("CONDUIT_TEST__ALPHA"), String::from("1")),
        (String::from("UNRELATED"), String::from("2")),
        (String::from("CONDUIT_TEST__BETA"), String::from("3")),
    ];
    let r = config.from_values(
        Some("keep-device"),
        Some("/local"),
        Some("/device"),
        Some("CONDUIT_TEST__"),
        &environ,
    );
    assert_eq!(r, Ok(()));
    assert_eq!(config.sync_mode, SyncMode::KeepDevice);
    assert_eq!(config.path_local, "/local");
    assert_eq!(config.path_device, "/device");
    assert_eq!(
        config.environment,
        vec![
            (String::from("ALPHA"), String::from("1")),
            (String::from("BETA"), String::from("3")),
        ]
    );
}

#[test]
fn within_config_reports_missing_values() {
    let mut config = WithinConduitConfig::default();
    let environ: Vec<(String, String)> = Vec::new();
    assert_eq!(
        config.from_values(None, None, None, None, &environ),
        Err(ConduitEnvError::ModeNotSet)
    );
    assert_eq!(
        config.from_values(Some("sideways"), None, None, None, &environ),
        Err(ConduitEnvError::ModeInvalid)
    );
    assert_eq!(
        config.from_values(Some("merge"), None, None, None, &environ),
        Err(ConduitEnvError::LocalNotSet)
    );
    assert_eq!(
        config.from_values(Some("merge"), Some("/l"), None, None, &environ),
        Err(ConduitEnvError::DeviceNotSet)
    );
    assert_eq!(
        config.from_values(Some("merge"), Some("/l"), Some("/d"), None, &environ),
        Err(ConduitEnvError::PrefixNotSet)
    );
}

#[test]
fn within_conduit_carries_requirements() {
    let requirements = ConduitRequirements::new().with_database("ToDoDB").finish();
    let conduit = WithinConduit::new("palmrs-conduit-todotxt", requirements);
    assert_eq!(conduit.conduit_name, "palmrs-conduit-todotxt");
    assert_eq!(conduit.requirements.databases, vec![String::from("ToDoDB")]);
    assert_eq!(conduit.sync_version, "0.0.0");
    assert_eq!(conduit.config.sync_mode, SyncMode::Merge);
}
