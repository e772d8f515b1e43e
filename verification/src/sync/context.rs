use crate::config::{InstanceConfig, SyncTriggerMode};
use crate::sync::config_sync::{is_api, mode_is_api, ApiSyncNeeds};
use crate::sync::teleporter::{is_teleporter, uses_teleporter};
use vstd::prelude::*;

verus! {

/// Which kinds of synchronisation the configured secondaries use.
#[derive(Debug, Clone, Copy, PartialEq, Eq)]
pub struct SyncModes {
    pub teleporter: bool,
    pub api: bool,
}

/// Which kinds of synchronisation the secondaries use: each kind that one of
/// them uses.
pub open spec fn sync_modes(secondaries: Seq<InstanceConfig>) -> SyncModes {
    SyncModes {
        teleporter: exists|i: int|
            0 <= i < secondaries.len() && is_teleporter(#[trigger] secondaries[i]),
        api: exists|i: int| 0 <= i < secondaries.len() && is_api(#[trigger] secondaries[i]),
    }
}

/// Which kinds of synchronisation the secondaries use.
pub fn determine_sync_modes(secondaries: &[InstanceConfig]) -> (modes: SyncModes)
    ensures
        modes == sync_modes(secondaries@),
{
    let mut teleporter = false;
    let mut api = false;
    let mut i: usize = 0;
    while i < secondaries.len()
        invariant
            i <= secondaries.len(),
            teleporter == exists|k: int| 0 <= k < i && is_teleporter(#[trigger] secondaries@[k]),
            api == exists|k: int| 0 <= k < i && is_api(#[trigger] secondaries@[k]),
        decreases secondaries.len() - i,
    {
        if uses_teleporter(&secondaries[i]) {
            teleporter = true;
        }
        if mode_is_api(&secondaries[i]) {
            api = true;
        }
        i += 1;
    }
    SyncModes { teleporter, api }
}

/// What the engine remembers from one cycle to the next.
#[derive(Debug, Clone, Copy, PartialEq, Eq)]
pub struct SyncState {
    /// The hash of main's configuration as the last cycle saw it.
    pub last_main_config_hash: Option<u64>,
    /// The hash of the snapshot that the last cycle downloaded.
    pub last_teleporter_hash: Option<u64>,
    /// Whether that snapshot reached every secondary.
    pub last_teleporter_applied: bool,
}

impl Default for SyncState {
    fn default() -> (state: Self)
        ensures
            state == (SyncState {
                last_main_config_hash: None,
                last_teleporter_hash: None,
                last_teleporter_applied: false,
            }),
    {
        SyncState {
            last_main_config_hash: None,
            last_teleporter_hash: None,
            last_teleporter_applied: false,
        }
    }
}

impl SyncState {
    /// Whether a snapshot with this hash is uploaded: not where the last
    /// snapshot had the same hash and reached every secondary.
    pub fn should_upload(&self, backup_hash: u64) -> (upload: bool)
        ensures
            upload == !(self.last_teleporter_hash == Some(backup_hash)
                && self.last_teleporter_applied),
    {
        let same = match self.last_teleporter_hash {
            Some(hash) => hash == backup_hash,
            None => false,
        };
        !(same && self.last_teleporter_applied)
    }

    /// Remembers the snapshot of this cycle and whether it counts as applied:
    /// where it was uploaded, whether every upload succeeded; where the
    /// upload was skipped, it does.
    pub fn record_teleporter(&mut self, backup_hash: u64, uploaded: Option<bool>)
        ensures
            *final(self) == (SyncState {
                last_teleporter_hash: Some(backup_hash),
                last_teleporter_applied: match uploaded {
                    Some(all_ok) => all_ok,
                    None => true,
                },
                ..*old(self)
            }),
    {
        self.last_teleporter_hash = Some(backup_hash);
        self.last_teleporter_applied = match uploaded {
            Some(all_ok) => all_ok,
            None => true,
        };
    }

    /// Remembers the hash of main's configuration as this cycle saw it; a
    /// cycle that saw none, or could not hash it, leaves the memory as it is.
    pub fn record_main_config(&mut self, hash: Option<u64>)
        ensures
            *final(self) == (SyncState {
                last_main_config_hash: match hash {
                    Some(h) => Some(h),
                    None => old(self).last_main_config_hash,
                },
                ..*old(self)
            }),
    {
        match hash {
            Some(h) => {
                self.last_main_config_hash = Some(h);
            },
            None => {},
        }
    }
}

/// What a cycle fetches from main.
#[derive(Debug, Clone, Copy, PartialEq, Eq)]
pub struct FetchPlan {
    /// The snapshot archive.
    pub snapshot: bool,
    /// The configuration.
    pub config: bool,
    /// The groups.
    pub groups: bool,
    /// The lists.
    pub lists: bool,
}

/// What a cycle fetches from main: the snapshot where a secondary is
/// synchronised by snapshot; for the secondaries in API mode each kind that
/// is needed, once, and the configuration only where the trigger did not
/// hand it over already.
pub open spec fn fetch_plan(modes: SyncModes, needs: ApiSyncNeeds, config_given: bool) -> FetchPlan {
    FetchPlan {
        snapshot: modes.teleporter,
        config: modes.api && needs.config && !config_given,
        groups: modes.api && needs.groups,
        lists: modes.api && needs.lists,
    }
}

/// What a cycle fetches from main.
pub fn perform_sync(modes: &SyncModes, needs: &ApiSyncNeeds, config_given: bool) -> (plan: FetchPlan)
    ensures
        plan == fetch_plan(*modes, *needs, config_given),
{
    FetchPlan {
        snapshot: modes.teleporter,
        config: modes.api && needs.config && !config_given,
        groups: modes.api && needs.groups,
        lists: modes.api && needs.lists,
    }
}

/// Where a cycle stands.
#[derive(Debug, Clone, Copy, PartialEq, Eq)]
pub enum CyclePhase {
    /// No cycle runs.
    Idle,
    /// Main's state is fetched.
    FetchMain,
    /// The secondary at this position is worked on.
    PerSecondaryApply(usize),
    /// The sessions that the cycle opened are closed.
    SessionTeardown,
}

/// The phase that follows `phase` in a cycle over `secondaries` secondaries.
/// A failure while one secondary is worked on does not change what follows.
pub open spec fn phase_after(phase: CyclePhase, secondaries: nat) -> CyclePhase {
    match phase {
        CyclePhase::Idle => CyclePhase::FetchMain,
        CyclePhase::FetchMain => if secondaries == 0 {
            CyclePhase::SessionTeardown
        } else {
            CyclePhase::PerSecondaryApply(0)
        },
        CyclePhase::PerSecondaryApply(i) => if i + 1 < secondaries {
            CyclePhase::PerSecondaryApply((i + 1) as usize)
        } else {
            CyclePhase::SessionTeardown
        },
        CyclePhase::SessionTeardown => CyclePhase::Idle,
    }
}

impl CyclePhase {
    /// The phase that follows this one.
    pub fn next(&self, secondaries: usize) -> (phase: CyclePhase)
        ensures
            phase == phase_after(*self, secondaries as nat),
    {
        match self {
            CyclePhase::Idle => CyclePhase::FetchMain,
            CyclePhase::FetchMain => if secondaries == 0 {
                CyclePhase::SessionTeardown
            } else {
                CyclePhase::PerSecondaryApply(0)
            },
            CyclePhase::PerSecondaryApply(i) => if *i < secondaries && *i + 1 < secondaries {
                CyclePhase::PerSecondaryApply(*i + 1)
            } else {
                CyclePhase::SessionTeardown
            },
            CyclePhase::SessionTeardown => CyclePhase::Idle,
        }
    }
}

/// The phase reached from `phase` after `steps` steps.
pub open spec fn phase_after_steps(phase: CyclePhase, secondaries: nat, steps: nat) -> CyclePhase
    decreases steps,
{
    if steps == 0 {
        phase
    } else {
        phase_after_steps(phase_after(phase, secondaries), secondaries, (steps - 1) as nat)
    }
}

/// Every cycle ends with the teardown of its sessions: a cycle that has
/// begun reaches the teardown before it is idle again, each secondary having
/// had its turn.
pub proof fn lemma_cycle_reaches_teardown(secondaries: nat, at: nat)
    requires
        at < secondaries <= usize::MAX,
    ensures
        phase_after_steps(CyclePhase::FetchMain, secondaries, 1) == CyclePhase::PerSecondaryApply(
            0,
        ),
        phase_after_steps(
            CyclePhase::PerSecondaryApply(at as usize),
            secondaries,
            (secondaries - at) as nat,
        ) == CyclePhase::SessionTeardown,
    decreases secondaries - at,
{
    reveal_with_fuel(phase_after_steps, 2);
    if at + 1 < secondaries {
        lemma_cycle_reaches_teardown(secondaries, at + 1);
    }
}

/// What the engine does before its trigger takes over.
#[derive(Debug, Clone, Copy, PartialEq, Eq)]
pub enum InitialStep {
    /// Run a cycle.
    RunCycle,
    /// Fetch main's configuration and remember its hash, without a cycle.
    SeedBaseline,
    /// Nothing.
    Nothing,
}

/// What the engine does before its trigger takes over: a cycle, unless the
/// initial cycle is switched off; then, where the trigger polls main's
/// configuration, the baseline for the poll is fetched.
pub fn handle_initial_sync(disable_initial_sync: bool, trigger_mode: SyncTriggerMode) -> (step:
    InitialStep)
    ensures
        step == if !disable_initial_sync {
            InitialStep::RunCycle
        } else if trigger_mode == SyncTriggerMode::WatchConfigApi {
            InitialStep::SeedBaseline
        } else {
            InitialStep::Nothing
        },
{
    if !disable_initial_sync {
        InitialStep::RunCycle
    } else {
        match trigger_mode {
            SyncTriggerMode::WatchConfigApi => InitialStep::SeedBaseline,
            _ => InitialStep::Nothing,
        }
    }
}

/// How a run of the engine goes.
#[derive(Debug, Clone, Copy, PartialEq, Eq)]
pub struct RunPlan {
    /// Whether the directory for the snapshot archive is made sure of.
    pub ensure_cache_directory: bool,
    /// What is done before the trigger takes over.
    pub first: InitialStep,
    /// The trigger that takes over, or none for a single cycle.
    pub trigger: Option<SyncTriggerMode>,
}

/// How a run of the engine goes: one cycle and no trigger where a single run
/// is asked for; else the initial step and the configured trigger. The
/// cache directory is needed where a secondary is synchronised by snapshot.
pub fn run(
    modes: &SyncModes,
    trigger_mode: SyncTriggerMode,
    run_once: bool,
    disable_initial_sync: bool,
) -> (plan: RunPlan)
    ensures
        plan.ensure_cache_directory == modes.teleporter,
        run_once ==> plan.first == InitialStep::RunCycle && plan.trigger is None,
        !run_once ==> plan.trigger == Some(trigger_mode) && plan.first == if !disable_initial_sync {
            InitialStep::RunCycle
        } else if trigger_mode == SyncTriggerMode::WatchConfigApi {
            InitialStep::SeedBaseline
        } else {
            InitialStep::Nothing
        },
{
    if run_once {
        RunPlan {
            ensure_cache_directory: modes.teleporter,
            first: InitialStep::RunCycle,
            trigger: None,
        }
    } else {
        RunPlan {
            ensure_cache_directory: modes.teleporter,
            first: handle_initial_sync(disable_initial_sync, trigger_mode),
            trigger: Some(trigger_mode),
        }
    }
}

} // verus!
