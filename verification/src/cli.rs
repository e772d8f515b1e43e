pub mod app_password;
pub mod instances;
pub mod setup;

use crate::cli::instances::Instances;
use crate::config::{Config, SyncTriggerMode};
use crate::constants::DEFAULT_CONFIG_PATH;
use crate::sync::teleporter::{is_teleporter, uses_teleporter};
use vstd::prelude::*;

verus! {

/// The helper files that can be created.
#[derive(Debug, Clone, Copy, PartialEq, Eq)]
pub enum SetupCommands {
    /// A default configuration in the current directory.
    DefaultConfig,
    /// A systemd service file.
    Systemd,
}

/// The commands of the program.
#[derive(Debug)]
pub enum Commands {
    /// Synchronise: once, or until the process ends; with or without a cycle
    /// at the start.
    Sync { once: bool, no_initial_sync: bool },
    /// Acquire an app password for an instance.
    AppPassword,
    /// Create a helper file.
    Setup { command: SetupCommands },
    /// Manage the configured instances.
    Instances(Instances),
}

/// The arguments of the program.
#[derive(Debug)]
pub struct Cli {
    /// The path of the configuration file.
    pub config: Option<String>,
    /// Whether the version is asked for.
    pub version: bool,
    pub command: Option<Commands>,
}

/// What the program is to do.
#[derive(Debug)]
pub enum CliAction {
    PrintVersion,
    CreateDefaultConfig,
    CreateSystemdService,
    /// Nothing was asked for. The configuration is looked for all the same.
    NoCommand,
    Sync { once: bool, no_initial_sync: bool },
    AppPassword,
    Instances(Instances),
}

/// Why the arguments cannot be followed.
#[derive(Debug, Clone, Copy, PartialEq, Eq)]
pub enum CliError {
    /// No configuration file was named and the default one does not exist.
    NoConfig,
}

/// What the arguments ask for. The version comes before any command; the
/// helper files come without a configuration; everything else needs one.
pub open spec fn action_of(cli: Cli) -> CliAction {
    if cli.version {
        CliAction::PrintVersion
    } else {
        match cli.command {
            Some(Commands::Setup { command: SetupCommands::DefaultConfig }) => {
                CliAction::CreateDefaultConfig
            },
            Some(Commands::Setup { command: SetupCommands::Systemd }) => {
                CliAction::CreateSystemdService
            },
            Some(Commands::Sync { once, no_initial_sync }) => CliAction::Sync {
                once,
                no_initial_sync,
            },
            Some(Commands::AppPassword) => CliAction::AppPassword,
            Some(Commands::Instances(command)) => CliAction::Instances(command),
            None => CliAction::NoCommand,
        }
    }
}

/// Whether an action needs the configuration file.
pub open spec fn needs_config(action: CliAction) -> bool {
    !(action is PrintVersion || action is CreateDefaultConfig || action is CreateSystemdService)
}

impl CliAction {
    /// Whether the action needs the configuration file.
    pub fn uses_config(&self) -> (r: bool)
        ensures
            r == needs_config(*self),
    {
        match self {
            CliAction::PrintVersion => false,
            CliAction::CreateDefaultConfig => false,
            CliAction::CreateSystemdService => false,
            _ => true,
        }
    }
}

impl Cli {
    /// What the arguments ask for.
    pub fn parse_args(self) -> (action: CliAction)
        ensures
            action == action_of(self),
    {
        if self.version {
            return CliAction::PrintVersion;
        }
        match self.command {
            Some(Commands::Setup { command }) => match command {
                SetupCommands::DefaultConfig => CliAction::CreateDefaultConfig,
                SetupCommands::Systemd => CliAction::CreateSystemdService,
            },
            Some(Commands::Sync { once, no_initial_sync }) => CliAction::Sync {
                once,
                no_initial_sync,
            },
            Some(Commands::AppPassword) => CliAction::AppPassword,
            Some(Commands::Instances(command)) => CliAction::Instances(command),
            None => CliAction::NoCommand,
        }
    }

    /// The path of the configuration file: the one named; else the default
    /// one, where it exists.
    pub fn resolve_config_path(config_path_cli: Option<&str>, default_exists: bool) -> (r: Result<
        String,
        CliError,
    >)
        ensures
            match config_path_cli {
                Some(path) => r matches Ok(found) && found@ == path@,
                None => if default_exists {
                    r matches Ok(found) && found@ == DEFAULT_CONFIG_PATH@
                } else {
                    r == Err::<String, CliError>(CliError::NoConfig)
                },
            },
    {
        match config_path_cli {
            Some(path) => Ok(path.to_owned()),
            None => if default_exists {
                Ok(DEFAULT_CONFIG_PATH.to_owned())
            } else {
                Err(CliError::NoConfig)
            },
        }
    }
}

/// Whether a configuration combines snapshots with a trigger that watches for
/// changes. An import makes a secondary deaf for a while, so that frequent
/// changes keep it deaf; the user is warned.
pub fn warns_about_teleporter(config: &Config) -> (warn: bool)
    ensures
        warn == ((exists|i: int|
            0 <= i < config.secondary@.len() && is_teleporter(#[trigger] config.secondary@[i]))
            && config.sync.trigger_mode != SyncTriggerMode::Interval),
{
    let watches = match config.sync.trigger_mode {
        SyncTriggerMode::Interval => false,
        _ => true,
    };
    let mut i: usize = 0;
    while i < config.secondary.len()
        invariant
            i <= config.secondary.len(),
            watches == (config.sync.trigger_mode != SyncTriggerMode::Interval),
            forall|k: int| 0 <= k < i ==> !is_teleporter(#[trigger] config.secondary@[k]),
        decreases config.secondary.len() - i,
    {
        if uses_teleporter(&config.secondary[i]) {
            return watches;
        }
        i += 1;
    }
    false
}

} // verus!
