use pihole_sync::cli::app_password::{acquire_app_password, chosen_instance};
use pihole_sync::cli::instances::{run_instances_cmd, Instances, InstancesOutcome};
use pihole_sync::cli::setup::{create_systemd_service, quote_if_needed};
use pihole_sync::cli::{warns_about_teleporter, Cli, CliAction, CliError, Commands, SetupCommands};
use pihole_sync::config::{
    default_pihole_config_path, default_trigger_mode, default_true, ApiSyncOptions, Config,
    ConfigApiSyncMode, ConfigError, ConfigSyncOptions, GravitySyncIncludes, InstanceConfig,
    SyncConfig, SyncMode, SyncTriggerMode, TeleporterImportOptions,
};
use pihole_sync::constants::{
    minutes_to_seconds, DEFAULT_CONFIG_PATH, DEFAULT_PIHOLE_CONFIG_PATH,
    DEFAULT_SYNC_INTERVAL_MINUTES, DEFAULT_SYSTEMD_PATH,
};

fn instance(host: &str) -> InstanceConfig {
    InstanceConfig {
        host: host.to_string(),
        schema: "http".to_string(),
        port: 80,
        api_key: "k".to_string(),
        update_gravity: None,
        sync_mode: None,
        api_sync_options: None,
        teleporter_sync_options: None,
    }
}

fn config(secondary: Vec<InstanceConfig>, trigger_mode: SyncTriggerMode) -> Config {
    Config {
        sync: SyncConfig {
            interval: 5,
            cache_location: "/tmp/cache".to_string(),
            trigger_mode,
            config_path: default_pihole_config_path(),
            api_poll_interval: None,
            trigger_api_readiness_timeout_secs: 60,
        },
        main: instance("main"),
        secondary,
    }
}

fn api_options() -> ApiSyncOptions {
    ApiSyncOptions {
        sync_config: Some(ConfigSyncOptions { mode: None, filter_keys: vec!["dns".to_string()] }),
        sync_groups: Some(true),
        sync_lists: None,
    }
}

#[test]
fn defaults_are_as_documented() {
    assert!(default_true());
    assert_eq!(default_trigger_mode(), SyncTriggerMode::Interval);
    assert_eq!(default_pihole_config_path(), "/etc/pihole/pihole.toml");
    assert_eq!(DEFAULT_PIHOLE_CONFIG_PATH, "/etc/pihole/pihole.toml");
    assert_eq!(DEFAULT_CONFIG_PATH, "/etc/pihole-sync/config.yaml");
    assert_eq!(DEFAULT_SYSTEMD_PATH, "/etc/systemd/system/pihole-sync.service");
    assert_eq!(DEFAULT_SYNC_INTERVAL_MINUTES, 60);
    let all = GravitySyncIncludes::default();
    assert!(all.group && all.adlist && all.adlist_by_group && all.domainlist);
    assert!(all.domainlist_by_group && all.client && all.client_by_group);
    let import = TeleporterImportOptions::default();
    assert!(import.config && import.dhcp_leases);
    assert_eq!(import.gravity, all);
}

#[test]
fn intervals_are_given_in_minutes() {
    assert_eq!(minutes_to_seconds(0), 0);
    assert_eq!(minutes_to_seconds(60), 3600);
    assert_eq!(minutes_to_seconds(u64::MAX / 60), (u64::MAX / 60) * 60);
    assert_eq!(minutes_to_seconds(u64::MAX / 60 + 1), u64::MAX);
    assert_eq!(minutes_to_seconds(u64::MAX), u64::MAX);
    let mut cfg = config(vec![], SyncTriggerMode::Interval);
    assert_eq!(cfg.sync.interval_seconds(), 300);
    assert_eq!(cfg.sync.poll_seconds(), 300);
    cfg.sync.api_poll_interval = Some(1);
    assert_eq!(cfg.sync.poll_seconds(), 60);
}

#[test]
fn a_secondary_without_mode_and_options_uses_snapshots() {
    let resolved = instance("a").resolve().unwrap();
    assert_eq!(resolved.sync_mode, Some(SyncMode::Teleporter));
    assert_eq!(resolved.teleporter_sync_options, Some(TeleporterImportOptions::default()));
    assert!(resolved.api_sync_options.is_none());
    assert_eq!(resolved.host, "a");
}

#[test]
fn named_import_options_are_kept() {
    let mut given = instance("a");
    let mut parts = TeleporterImportOptions::default();
    parts.dhcp_leases = false;
    given.teleporter_sync_options = Some(parts);
    let resolved = given.resolve().unwrap();
    assert_eq!(resolved.teleporter_sync_options, Some(parts));
}

#[test]
fn a_secondary_with_options_and_no_mode_uses_the_api() {
    let mut given = instance("a");
    given.api_sync_options = Some(api_options());
    let resolved = given.resolve().unwrap();
    assert_eq!(resolved.sync_mode, Some(SyncMode::Api));
    let options = resolved.api_sync_options.unwrap();
    let filter = options.sync_config.unwrap();
    assert_eq!(filter.mode, Some(ConfigApiSyncMode::Include));
    assert_eq!(filter.filter_keys, vec!["dns".to_string()]);
    assert_eq!(options.sync_groups, Some(true));
    assert_eq!(options.sync_lists, None);
}

#[test]
fn a_named_filter_mode_is_kept() {
    let mut given = instance("a");
    let mut options = api_options();
    options.sync_config.as_mut().unwrap().mode = Some(ConfigApiSyncMode::Exclude);
    given.api_sync_options = Some(options);
    let resolved = given.resolve().unwrap();
    assert_eq!(
        resolved.api_sync_options.unwrap().sync_config.unwrap().mode,
        Some(ConfigApiSyncMode::Exclude)
    );
}

#[test]
fn api_mode_without_options_is_refused() {
    let mut given = instance("pi2");
    given.sync_mode = Some(SyncMode::Api);
    match given.resolve() {
        Err(ConfigError::MissingApiOptions { host }) => assert_eq!(host, "pi2"),
        other => panic!("unexpected {:?}", other),
    }
}

#[test]
fn snapshot_mode_with_api_options_is_refused() {
    let mut given = instance("pi3");
    given.sync_mode = Some(SyncMode::Teleporter);
    given.api_sync_options = Some(api_options());
    match given.resolve() {
        Err(ConfigError::UnexpectedApiOptions { host }) => assert_eq!(host, "pi3"),
        other => panic!("unexpected {:?}", other),
    }
}

#[test]
fn a_configuration_is_validated_secondary_by_secondary() {
    let mut api = instance("b");
    api.api_sync_options = Some(api_options());
    let validated = config(vec![instance("a"), api], SyncTriggerMode::Interval).validate().unwrap();
    assert_eq!(validated.secondary.len(), 2);
    assert_eq!(validated.secondary[0].sync_mode, Some(SyncMode::Teleporter));
    assert_eq!(validated.secondary[1].sync_mode, Some(SyncMode::Api));
    assert_eq!(validated.main.host, "main");
    assert_eq!(validated.sync.interval, 5);

    let mut bad = instance("c");
    bad.sync_mode = Some(SyncMode::Api);
    let mut worse = instance("d");
    worse.sync_mode = Some(SyncMode::Teleporter);
    worse.api_sync_options = Some(api_options());
    match config(vec![instance("a"), bad, worse], SyncTriggerMode::Interval).validate() {
        Err(ConfigError::MissingApiOptions { host }) => assert_eq!(host, "c"),
        other => panic!("unexpected {:?}", other),
    }
    assert!(config(vec![], SyncTriggerMode::Interval).validate().is_ok());
}

#[test]
fn the_arguments_name_an_action() {
    let cli = |version, command| Cli { config: None, version, command };
    assert!(matches!(cli(true, Some(Commands::AppPassword)).parse_args(), CliAction::PrintVersion));
    assert!(matches!(cli(false, None).parse_args(), CliAction::NoCommand));
    assert!(matches!(
        cli(false, Some(Commands::Setup { command: SetupCommands::DefaultConfig })).parse_args(),
        CliAction::CreateDefaultConfig
    ));
    assert!(matches!(
        cli(false, Some(Commands::Setup { command: SetupCommands::Systemd })).parse_args(),
        CliAction::CreateSystemdService
    ));
    assert!(matches!(
        cli(false, Some(Commands::Sync { once: true, no_initial_sync: false })).parse_args(),
        CliAction::Sync { once: true, no_initial_sync: false }
    ));
    assert!(matches!(cli(false, Some(Commands::AppPassword)).parse_args(), CliAction::AppPassword));
    assert!(matches!(
        cli(false, Some(Commands::Instances(Instances::List))).parse_args(),
        CliAction::Instances(Instances::List)
    ));
    assert!(!CliAction::PrintVersion.uses_config());
    assert!(!CliAction::CreateDefaultConfig.uses_config());
    assert!(!CliAction::CreateSystemdService.uses_config());
    assert!(CliAction::NoCommand.uses_config());
    assert!(CliAction::AppPassword.uses_config());
}

#[test]
fn the_configuration_path_is_the_named_or_the_default_one() {
    assert_eq!(Cli::resolve_config_path(Some("/x/c.yaml"), false), Ok("/x/c.yaml".to_string()));
    assert_eq!(Cli::resolve_config_path(Some("/x/c.yaml"), true), Ok("/x/c.yaml".to_string()));
    assert_eq!(
        Cli::resolve_config_path(None, true),
        Ok("/etc/pihole-sync/config.yaml".to_string())
    );
    assert_eq!(Cli::resolve_config_path(None, false), Err(CliError::NoConfig));
}

#[test]
fn snapshots_with_a_watching_trigger_are_warned_about() {
    let mut api = instance("b");
    api.sync_mode = Some(SyncMode::Api);
    assert!(warns_about_teleporter(&config(vec![instance("a")], SyncTriggerMode::WatchConfigFile)));
    assert!(warns_about_teleporter(&config(vec![api.clone(), instance("a")], SyncTriggerMode::WatchConfigApi)));
    assert!(!warns_about_teleporter(&config(vec![instance("a")], SyncTriggerMode::Interval)));
    assert!(!warns_about_teleporter(&config(vec![api], SyncTriggerMode::WatchConfigFile)));
    assert!(!warns_about_teleporter(&config(vec![], SyncTriggerMode::WatchConfigFile)));
}

#[test]
fn values_with_spaces_are_quoted() {
    assert_eq!(quote_if_needed("/opt/pihole-sync"), "/opt/pihole-sync");
    assert_eq!(quote_if_needed("/opt/pi hole"), "\"/opt/pi hole\"");
    assert_eq!(quote_if_needed(""), "");
    assert_eq!(quote_if_needed(" "), "\" \"");
}

#[test]
fn the_service_file_names_directory_program_and_configuration() {
    let text = create_systemd_service("/opt/pi hole", "/opt/pi hole/pihole-sync", "/etc/c.yaml");
    let expected = "[Unit]\nDescription=Pi-hole Sync Service\nAfter=network.target pihole-FTL.service\n\n[Service]\nWorkingDirectory=\"/opt/pi hole\"\nRestart=always\nUser=pihole\nGroup=pihole\nEnvironment=\"RUST_LOG=info\"\nExecStart=\"/opt/pi hole/pihole-sync\" -c /etc/c.yaml sync\n\n[Install]\nWantedBy=multi-user.target\n";
    assert_eq!(text, expected);
}

#[test]
fn instances_can_be_added_and_removed() {
    let mut cfg = config(vec![instance("a")], SyncTriggerMode::Interval);
    assert_eq!(run_instances_cmd(Instances::List, &mut cfg), InstancesOutcome::Listed);
    assert_eq!(cfg.secondary.len(), 1);
    let add = Instances::Add {
        host: "b".to_string(),
        schema: "https".to_string(),
        port: 443,
        api_key: "key".to_string(),
        update_gravity: true,
    };
    assert_eq!(run_instances_cmd(add, &mut cfg), InstancesOutcome::Added);
    assert_eq!(cfg.secondary.len(), 2);
    assert_eq!(cfg.secondary[1].host, "b");
    assert_eq!(cfg.secondary[1].port, 443);
    assert_eq!(cfg.secondary[1].update_gravity, Some(true));
    assert_eq!(cfg.secondary[1].sync_mode, None);
    assert_eq!(cfg.secondary[1].teleporter_sync_options, Some(TeleporterImportOptions::default()));
    assert_eq!(
        run_instances_cmd(Instances::Remove { host: "zzz".to_string() }, &mut cfg),
        InstancesOutcome::NotFound
    );
    assert_eq!(cfg.secondary.len(), 2);
    assert_eq!(
        run_instances_cmd(Instances::Remove { host: "a".to_string() }, &mut cfg),
        InstancesOutcome::Removed
    );
    assert_eq!(cfg.secondary.len(), 1);
    assert_eq!(cfg.secondary[0].host, "b");
    assert_eq!(cfg.main.host, "main");
}

#[test]
fn the_choice_of_instances_starts_with_main() {
    let cfg = config(vec![instance("a"), instance("b")], SyncTriggerMode::Interval);
    assert_eq!(acquire_app_password(&cfg), vec!["main", "a", "b"]);
    assert_eq!(chosen_instance(&cfg, 0).map(|i| i.host.as_str()), Some("main"));
    assert_eq!(chosen_instance(&cfg, 2).map(|i| i.host.as_str()), Some("b"));
    assert!(chosen_instance(&cfg, 3).is_none());
}
