use crate::constants::{minutes_as_seconds, minutes_to_seconds, DEFAULT_PIHOLE_CONFIG_PATH};
use vstd::prelude::*;

verus! {

/// How a secondary is kept in line with main.
#[derive(Debug, Clone, Copy, PartialEq, Eq)]
pub enum SyncMode {
    /// By importing a snapshot archive of main.
    Teleporter,
    /// By calls of the API: a part of the configuration, groups, lists.
    Api,
}

/// What starts a cycle.
#[derive(Debug, Clone, Copy, PartialEq, Eq)]
pub enum SyncTriggerMode {
    /// A fixed interval.
    Interval,
    /// A change of main's configuration file.
    WatchConfigFile,
    /// A change of main's configuration as its API reports it.
    WatchConfigApi,
}

/// When and where the synchroniser runs.
#[derive(Debug, Clone)]
pub struct SyncConfig {
    /// Minutes between two cycles.
    pub interval: u64,
    /// The directory in which the snapshot archive is kept.
    pub cache_location: String,
    pub trigger_mode: SyncTriggerMode,
    /// The file that the file-watch trigger observes.
    pub config_path: String,
    /// Minutes between two polls of main's configuration; the interval where
    /// none is given.
    pub api_poll_interval: Option<u64>,
    /// Seconds to wait for the instances to answer after a trigger.
    pub trigger_api_readiness_timeout_secs: u64,
}

/// How the paths of a configuration filter are read.
#[derive(Debug, Clone, Copy, PartialEq, Eq)]
pub enum ConfigApiSyncMode {
    /// Only the paths are synchronised.
    Include,
    /// Everything but the paths is synchronised.
    Exclude,
}

/// Which part of main's configuration a secondary receives.
#[derive(Debug, Clone)]
pub struct ConfigSyncOptions {
    pub mode: Option<ConfigApiSyncMode>,
    pub filter_keys: Vec<String>,
}

/// What a secondary in API mode receives.
#[derive(Debug, Clone)]
pub struct ApiSyncOptions {
    pub sync_config: Option<ConfigSyncOptions>,
    pub sync_groups: Option<bool>,
    pub sync_lists: Option<bool>,
}

/// Which tables of the snapshot's database a secondary imports.
#[derive(Debug, Clone, Copy, PartialEq, Eq)]
pub struct GravitySyncIncludes {
    pub group: bool,
    pub adlist: bool,
    pub adlist_by_group: bool,
    pub domainlist: bool,
    pub domainlist_by_group: bool,
    pub client: bool,
    pub client_by_group: bool,
}

/// Which parts of a snapshot a secondary imports.
#[derive(Debug, Clone, Copy, PartialEq, Eq)]
pub struct TeleporterImportOptions {
    pub config: bool,
    pub dhcp_leases: bool,
    pub gravity: GravitySyncIncludes,
}

/// One instance: where it is reached, its credential, and, for a secondary,
/// how it is synchronised.
#[derive(Debug, Clone)]
pub struct InstanceConfig {
    pub host: String,
    pub schema: String,
    pub port: u16,
    pub api_key: String,
    /// Whether the instance rebuilds its lists after a synchronisation.
    pub update_gravity: Option<bool>,
    pub sync_mode: Option<SyncMode>,
    pub api_sync_options: Option<ApiSyncOptions>,
    pub teleporter_sync_options: Option<TeleporterImportOptions>,
}

/// The whole configuration: main, its secondaries, and when to run.
#[derive(Debug, Clone)]
pub struct Config {
    pub sync: SyncConfig,
    pub main: InstanceConfig,
    pub secondary: Vec<InstanceConfig>,
}

/// Why a configuration is refused.
#[derive(Debug)]
pub enum ConfigError {
    /// The secondary at `host` is in API mode and names nothing to
    /// synchronise.
    MissingApiOptions { host: String },
    /// The secondary at `host` is in snapshot mode and has options for the
    /// API mode.
    UnexpectedApiOptions { host: String },
}

/// The value of options that are not given: on.
pub fn default_true() -> (r: bool)
    ensures
        r,
{
    true
}

/// The trigger of a configuration that names none: the interval.
pub fn default_trigger_mode() -> (r: SyncTriggerMode)
    ensures
        r == SyncTriggerMode::Interval,
{
    SyncTriggerMode::Interval
}

/// The watched file of a configuration that names none.
pub fn default_pihole_config_path() -> (r: String)
    ensures
        r@ == DEFAULT_PIHOLE_CONFIG_PATH@,
{
    DEFAULT_PIHOLE_CONFIG_PATH.to_owned()
}

/// Every table is imported.
pub open spec fn all_tables() -> GravitySyncIncludes {
    GravitySyncIncludes {
        group: true,
        adlist: true,
        adlist_by_group: true,
        domainlist: true,
        domainlist_by_group: true,
        client: true,
        client_by_group: true,
    }
}

/// Every part of the snapshot is imported.
pub open spec fn full_import() -> TeleporterImportOptions {
    TeleporterImportOptions { config: true, dhcp_leases: true, gravity: all_tables() }
}

impl Default for GravitySyncIncludes {
    fn default() -> (r: Self)
        ensures
            r == all_tables(),
    {
        GravitySyncIncludes {
            group: true,
            adlist: true,
            adlist_by_group: true,
            domainlist: true,
            domainlist_by_group: true,
            client: true,
            client_by_group: true,
        }
    }
}

impl Default for TeleporterImportOptions {
    fn default() -> (r: Self)
        ensures
            r == full_import(),
    {
        TeleporterImportOptions {
            config: true,
            dhcp_leases: true,
            gravity: GravitySyncIncludes {
                group: true,
                adlist: true,
                adlist_by_group: true,
                domainlist: true,
                domainlist_by_group: true,
                client: true,
                client_by_group: true,
            },
        }
    }
}

/// The mode in which a secondary is synchronised: the one it names; else the
/// API mode where it has options for it, and the snapshot mode where not.
pub open spec fn effective_mode(instance: InstanceConfig) -> SyncMode {
    match instance.sync_mode {
        Some(mode) => mode,
        None => if instance.api_sync_options is Some {
            SyncMode::Api
        } else {
            SyncMode::Teleporter
        },
    }
}

/// Options with the filter mode filled in: a filter that names no mode
/// includes its paths.
pub open spec fn with_filter_mode(options: Option<ApiSyncOptions>) -> Option<ApiSyncOptions> {
    match options {
        Some(ApiSyncOptions { sync_config: Some(filter), sync_groups, sync_lists }) => Some(
            ApiSyncOptions {
                sync_config: Some(
                    ConfigSyncOptions {
                        mode: Some(
                            match filter.mode {
                                Some(mode) => mode,
                                None => ConfigApiSyncMode::Include,
                            },
                        ),
                        filter_keys: filter.filter_keys,
                    },
                ),
                sync_groups,
                sync_lists,
            },
        ),
        _ => options,
    }
}

/// A secondary as the engine uses it, or why it is refused. The mode is
/// spelled out. The API mode needs its options; the snapshot mode refuses
/// them and imports everything where it names no parts.
pub open spec fn resolved(instance: InstanceConfig) -> Result<InstanceConfig, ConfigError> {
    match effective_mode(instance) {
        SyncMode::Api => if instance.api_sync_options is None {
            Err(ConfigError::MissingApiOptions { host: instance.host })
        } else {
            Ok(
                InstanceConfig {
                    sync_mode: Some(SyncMode::Api),
                    api_sync_options: with_filter_mode(instance.api_sync_options),
                    ..instance
                },
            )
        },
        SyncMode::Teleporter => if instance.api_sync_options is Some {
            Err(ConfigError::UnexpectedApiOptions { host: instance.host })
        } else {
            Ok(
                InstanceConfig {
                    sync_mode: Some(SyncMode::Teleporter),
                    teleporter_sync_options: Some(
                        match instance.teleporter_sync_options {
                            Some(options) => options,
                            None => full_import(),
                        },
                    ),
                    ..instance
                },
            )
        },
    }
}

/// The secondaries as the engine uses them, or why the first of them that is
/// refused is refused.
pub open spec fn resolved_all(instances: Seq<InstanceConfig>) -> Result<
    Seq<InstanceConfig>,
    ConfigError,
>
    decreases instances.len(),
{
    if instances.len() == 0 {
        Ok(Seq::empty())
    } else {
        match resolved_all(instances.drop_last()) {
            Err(e) => Err(e),
            Ok(before) => match resolved(instances.last()) {
                Err(e) => Err(e),
                Ok(last) => Ok(before.push(last)),
            },
        }
    }
}

impl InstanceConfig {
    /// The secondary as the engine uses it, or why it is refused.
    pub fn resolve(self) -> (r: Result<InstanceConfig, ConfigError>)
        ensures
            r == resolved(self),
    {
        let mode = match self.sync_mode {
            Some(mode) => mode,
            None => if self.api_sync_options.is_some() {
                SyncMode::Api
            } else {
                SyncMode::Teleporter
            },
        };
        match mode {
            SyncMode::Api => match self.api_sync_options {
                None => Err(ConfigError::MissingApiOptions { host: self.host }),
                Some(options) => {
                    let options = match options.sync_config {
                        Some(filter) => ApiSyncOptions {
                            sync_config: Some(
                                ConfigSyncOptions {
                                    mode: Some(
                                        match filter.mode {
                                            Some(mode) => mode,
                                            None => ConfigApiSyncMode::Include,
                                        },
                                    ),
                                    filter_keys: filter.filter_keys,
                                },
                            ),
                            sync_groups: options.sync_groups,
                            sync_lists: options.sync_lists,
                        },
                        None => options,
                    };
                    Ok(
                        InstanceConfig {
                            host: self.host,
                            schema: self.schema,
                            port: self.port,
                            api_key: self.api_key,
                            update_gravity: self.update_gravity,
                            sync_mode: Some(SyncMode::Api),
                            api_sync_options: Some(options),
                            teleporter_sync_options: self.teleporter_sync_options,
                        },
                    )
                },
            },
            SyncMode::Teleporter => match self.api_sync_options {
                Some(_) => Err(ConfigError::UnexpectedApiOptions { host: self.host }),
                None => {
                    let parts = match self.teleporter_sync_options {
                        Some(options) => options,
                        None => TeleporterImportOptions::default(),
                    };
                    Ok(
                        InstanceConfig {
                            host: self.host,
                            schema: self.schema,
                            port: self.port,
                            api_key: self.api_key,
                            update_gravity: self.update_gravity,
                            sync_mode: Some(SyncMode::Teleporter),
                            api_sync_options: None,
                            teleporter_sync_options: Some(parts),
                        },
                    )
                },
            },
        }
    }
}

impl SyncConfig {
    /// Seconds between two cycles.
    pub fn interval_seconds(&self) -> (seconds: u64)
        ensures
            seconds as int == if minutes_as_seconds(self.interval as int) <= u64::MAX as int {
                minutes_as_seconds(self.interval as int)
            } else {
                u64::MAX as int
            },
    {
        minutes_to_seconds(self.interval)
    }

    /// Minutes between two polls of main's configuration.
    pub open spec fn poll_minutes(&self) -> u64 {
        match self.api_poll_interval {
            Some(minutes) => minutes,
            None => self.interval,
        }
    }

    /// Seconds between two polls of main's configuration.
    pub fn poll_seconds(&self) -> (seconds: u64)
        ensures
            seconds as int == if minutes_as_seconds(self.poll_minutes() as int) <= u64::MAX as int {
                minutes_as_seconds(self.poll_minutes() as int)
            } else {
                u64::MAX as int
            },
    {
        match self.api_poll_interval {
            Some(minutes) => minutes_to_seconds(minutes),
            None => minutes_to_seconds(self.interval),
        }
    }
}

impl Config {
    /// The configuration as the engine uses it: each secondary resolved, in
    /// the given order; or the reason for which the first secondary that is
    /// refused is refused.
    pub fn validate(self) -> (r: Result<Config, ConfigError>)
        ensures
            match r {
                Ok(config) => resolved_all(self.secondary@) == Ok::<
                    Seq<InstanceConfig>,
                    ConfigError,
                >(config.secondary@) && config.sync == self.sync && config.main == self.main,
                Err(e) => resolved_all(self.secondary@) == Err::<Seq<InstanceConfig>, ConfigError>(
                    e,
                ),
            },
    {
        let Config { sync, main, secondary } = self;
        let ghost given = secondary@;
        let mut rest = secondary;
        let mut done: Vec<InstanceConfig> = Vec::new();
        proof {
            assert(given.take(0) =~= Seq::<InstanceConfig>::empty());
        }
        while rest.len() > 0
            invariant
                given == self.secondary@,
                done@.len() + rest@.len() == given.len(),
                rest@ == given.skip(done@.len() as int),
                resolved_all(given.take(done@.len() as int)) == Ok::<
                    Seq<InstanceConfig>,
                    ConfigError,
                >(done@),
            decreases rest.len(),
        {
            let ghost k = done@.len() as int;
            let instance = rest.remove(0);
            proof {
                assert(instance == given[k]);
                assert(given.take(k + 1).drop_last() =~= given.take(k));
                assert(given.take(k + 1).last() == given[k]);
                assert(rest@ =~= given.skip(k + 1));
            }
            match instance.resolve() {
                Ok(resolved) => {
                    done.push(resolved);
                },
                Err(e) => {
                    proof {
                        lemma_refused_stays_refused(given, k + 1);
                    }
                    return Err(e);
                },
            }
        }
        proof {
            assert(given.take(done@.len() as int) =~= given);
        }
        Ok(Config { sync, main, secondary: done })
    }
}

/// Once a secondary is refused, the list is refused for that reason,
/// whatever follows.
pub proof fn lemma_refused_stays_refused(instances: Seq<InstanceConfig>, k: int)
    requires
        0 <= k <= instances.len(),
        resolved_all(instances.take(k)) is Err,
    ensures
        resolved_all(instances) == resolved_all(instances.take(k)),
    decreases instances.len() - k,
{
    if k == instances.len() {
        assert(instances.take(k) =~= instances);
    } else {
        assert(instances.take(k + 1).drop_last() =~= instances.take(k));
        lemma_refused_stays_refused(instances, k + 1);
    }
}

} // verus!
