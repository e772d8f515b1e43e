use crate::config::{InstanceConfig, SyncMode};
use crate::sync::context::SyncState;
use vstd::prelude::*;

verus! {

/// Whether a secondary is synchronised by snapshot: it says so, or names no
/// mode.
pub open spec fn is_teleporter(instance: InstanceConfig) -> bool {
    instance.sync_mode == Some(SyncMode::Teleporter) || instance.sync_mode is None
}

/// Whether a secondary is synchronised by snapshot.
pub fn uses_teleporter(instance: &InstanceConfig) -> (r: bool)
    ensures
        r == is_teleporter(*instance),
{
    match instance.sync_mode {
        Some(SyncMode::Teleporter) => true,
        Some(SyncMode::Api) => false,
        None => true,
    }
}

/// Whether a secondary rebuilds its lists after it has imported a snapshot.
pub fn upload_backup(instance: &InstanceConfig) -> (gravity: bool)
    ensures
        gravity == (instance.update_gravity == Some(true)),
{
    match instance.update_gravity {
        Some(value) => value,
        None => false,
    }
}

/// The position of the first secondary at or after `from` that is
/// synchronised by snapshot, if there is one.
pub open spec fn next_target(secondaries: Seq<InstanceConfig>, from: int) -> Option<int>
    decreases secondaries.len() - from,
{
    if from < 0 || from >= secondaries.len() {
        None
    } else if is_teleporter(secondaries[from]) {
        Some(from)
    } else {
        next_target(secondaries, from + 1)
    }
}

/// The position of the first secondary at or after `from` that is
/// synchronised by snapshot.
pub fn find_target(secondaries: &[InstanceConfig], from: usize) -> (found: Option<usize>)
    ensures
        match found {
            Some(i) => next_target(secondaries@, from as int) == Some(i as int) && from <= i
                < secondaries@.len(),
            None => next_target(secondaries@, from as int) is None,
        },
{
    let mut i: usize = from;
    while i < secondaries.len()
        invariant
            from <= i,
            next_target(secondaries@, from as int) == next_target(secondaries@, i as int),
        decreases secondaries.len() - i,
    {
        if uses_teleporter(&secondaries[i]) {
            return Some(i);
        }
        i += 1;
    }
    None
}

/// Where the snapshot part of a cycle stands.
#[derive(Debug, Clone, Copy, PartialEq, Eq)]
pub enum SnapshotSync {
    /// The part has not begun.
    Start,
    /// The snapshot is being downloaded from main.
    Downloading,
    /// The snapshot with this hash is being uploaded to the secondary at
    /// `at`; `all_ok` tells whether everything has succeeded so far.
    Uploading { hash: u64, at: usize, all_ok: bool },
    /// The secondary at `at` is rebuilding its lists after its import.
    Rebuilding { hash: u64, at: usize, all_ok: bool },
    /// The part is over.
    Finished,
}

/// What the program reports to the snapshot part.
#[derive(Debug, Clone, Copy, PartialEq, Eq)]
pub enum SnapshotEvent {
    /// The part begins.
    Begin,
    /// The snapshot was downloaded and has this hash, or could not be
    /// downloaded.
    Downloaded(Option<u64>),
    /// The step that was handed out was carried out, with or without
    /// success.
    Carried(bool),
}

/// What the program is to do next with the snapshot.
#[derive(Debug, Clone, Copy, PartialEq, Eq)]
pub enum SnapshotStep {
    /// Download the snapshot from main and report its hash.
    Download,
    /// Upload the snapshot to the secondary at this position.
    Upload { secondary: usize },
    /// Have the secondary at this position rebuild its lists.
    TriggerGravity { secondary: usize },
    /// Nothing: the part is over.
    Finished,
}

/// The state after an event, the step to take, and what the engine
/// remembers.
pub struct SnapshotTurn {
    pub state: SnapshotSync,
    pub step: SnapshotStep,
    pub memory: SyncState,
}

/// What the engine remembers once the snapshot with this hash was dealt
/// with: the hash, and whether the snapshot counts as applied.
pub open spec fn remembered(memory: SyncState, hash: u64, applied: bool) -> SyncState {
    SyncState { last_teleporter_hash: Some(hash), last_teleporter_applied: applied, ..memory }
}

/// The upload to the next secondary at or after `from`, or the end of the
/// part, at which the engine remembers whether every secondary was served.
pub open spec fn upload_from(
    secondaries: Seq<InstanceConfig>,
    memory: SyncState,
    hash: u64,
    from: int,
    all_ok: bool,
) -> SnapshotTurn {
    match next_target(secondaries, from) {
        Some(i) => SnapshotTurn {
            state: SnapshotSync::Uploading { hash, at: i as usize, all_ok },
            step: SnapshotStep::Upload { secondary: i as usize },
            memory,
        },
        None => SnapshotTurn {
            state: SnapshotSync::Finished,
            step: SnapshotStep::Finished,
            memory: remembered(memory, hash, all_ok),
        },
    }
}

/// What follows an event in a state. An event that the state does not wait
/// for counts as the failure of what the state waits for. A snapshot whose
/// hash is the one remembered as applied is not uploaded again. A failure
/// with one secondary never keeps the snapshot from the next.
pub open spec fn snapshot_turn(
    state: SnapshotSync,
    event: SnapshotEvent,
    secondaries: Seq<InstanceConfig>,
    memory: SyncState,
) -> SnapshotTurn {
    match state {
        SnapshotSync::Start => SnapshotTurn {
            state: SnapshotSync::Downloading,
            step: SnapshotStep::Download,
            memory,
        },
        SnapshotSync::Downloading => match event {
            SnapshotEvent::Downloaded(Some(hash)) => if memory.last_teleporter_hash == Some(hash)
                && memory.last_teleporter_applied {
                SnapshotTurn {
                    state: SnapshotSync::Finished,
                    step: SnapshotStep::Finished,
                    memory: remembered(memory, hash, true),
                }
            } else {
                upload_from(secondaries, memory, hash, 0, true)
            },
            _ => SnapshotTurn {
                state: SnapshotSync::Finished,
                step: SnapshotStep::Finished,
                memory,
            },
        },
        SnapshotSync::Uploading { hash, at, all_ok } => if event == SnapshotEvent::Carried(true) {
            if at < secondaries.len() && secondaries[at as int].update_gravity == Some(true) {
                SnapshotTurn {
                    state: SnapshotSync::Rebuilding { hash, at, all_ok },
                    step: SnapshotStep::TriggerGravity { secondary: at },
                    memory,
                }
            } else {
                upload_from(secondaries, memory, hash, at + 1, all_ok)
            }
        } else {
            upload_from(secondaries, memory, hash, at + 1, false)
        },
        SnapshotSync::Rebuilding { hash, at, all_ok } => upload_from(
            secondaries,
            memory,
            hash,
            at + 1,
            all_ok && event == SnapshotEvent::Carried(true),
        ),
        SnapshotSync::Finished => SnapshotTurn {
            state: SnapshotSync::Finished,
            step: SnapshotStep::Finished,
            memory,
        },
    }
}

fn position_after(secondaries: &[InstanceConfig], at: usize) -> (from: usize)
    ensures
        next_target(secondaries@, at + 1) == next_target(secondaries@, from as int),
{
    let n = secondaries.len();
    if at < n {
        at + 1
    } else {
        n
    }
}

fn upload_next(
    secondaries: &[InstanceConfig],
    memory: &mut SyncState,
    hash: u64,
    from: usize,
    all_ok: bool,
) -> (next: (SnapshotSync, SnapshotStep))
    ensures
        next.0 == upload_from(secondaries@, *old(memory), hash, from as int, all_ok).state,
        next.1 == upload_from(secondaries@, *old(memory), hash, from as int, all_ok).step,
        *final(memory) == upload_from(secondaries@, *old(memory), hash, from as int, all_ok).memory,
{
    match find_target(secondaries, from) {
        Some(i) => (SnapshotSync::Uploading { hash, at: i, all_ok }, SnapshotStep::Upload {
            secondary: i,
        }),
        None => {
            memory.record_teleporter(hash, Some(all_ok));
            (SnapshotSync::Finished, SnapshotStep::Finished)
        },
    }
}

impl SnapshotSync {
    /// A snapshot part that has not begun.
    pub fn new() -> (part: Self)
        ensures
            part == SnapshotSync::Start,
    {
        SnapshotSync::Start
    }

    /// Takes an event and tells what to do next with the snapshot.
    pub fn sync_teleporter(
        self,
        event: SnapshotEvent,
        secondaries: &[InstanceConfig],
        memory: &mut SyncState,
    ) -> (next: (SnapshotSync, SnapshotStep))
        ensures
            next.0 == snapshot_turn(self, event, secondaries@, *old(memory)).state,
            next.1 == snapshot_turn(self, event, secondaries@, *old(memory)).step,
            *final(memory) == snapshot_turn(self, event, secondaries@, *old(memory)).memory,
    {
        match self {
            SnapshotSync::Start => (SnapshotSync::Downloading, SnapshotStep::Download),
            SnapshotSync::Downloading => match event {
                SnapshotEvent::Downloaded(Some(hash)) => if memory.should_upload(hash) {
                    upload_next(secondaries, memory, hash, 0, true)
                } else {
                    memory.record_teleporter(hash, None);
                    (SnapshotSync::Finished, SnapshotStep::Finished)
                },
                _ => (SnapshotSync::Finished, SnapshotStep::Finished),
            },
            SnapshotSync::Uploading { hash, at, all_ok } => {
                let from = position_after(secondaries, at);
                match event {
                    SnapshotEvent::Carried(true) => if at < secondaries.len() && upload_backup(
                        &secondaries[at],
                    ) {
                        (
                            SnapshotSync::Rebuilding { hash, at, all_ok },
                            SnapshotStep::TriggerGravity { secondary: at },
                        )
                    } else {
                        upload_next(secondaries, memory, hash, from, all_ok)
                    },
                    _ => upload_next(secondaries, memory, hash, from, false),
                }
            },
            SnapshotSync::Rebuilding { hash, at, all_ok } => {
                let from = position_after(secondaries, at);
                let ok = match event {
                    SnapshotEvent::Carried(true) => true,
                    _ => false,
                };
                upload_next(secondaries, memory, hash, from, all_ok && ok)
            },
            SnapshotSync::Finished => (SnapshotSync::Finished, SnapshotStep::Finished),
        }
    }
}

/// Failures with one secondary do not keep the snapshot from the next: after
/// an upload that failed, the part goes on with the next secondary as it
/// would after one that succeeded; and where the part ends after a failure,
/// the snapshot does not count as applied.
pub proof fn lemma_upload_failures_are_isolated(
    secondaries: Seq<InstanceConfig>,
    memory: SyncState,
    hash: u64,
    at: usize,
    all_ok: bool,
)
    ensures
        snapshot_turn(
            SnapshotSync::Uploading { hash, at, all_ok },
            SnapshotEvent::Carried(false),
            secondaries,
            memory,
        ) == upload_from(secondaries, memory, hash, at + 1, false),
        snapshot_turn(
            SnapshotSync::Uploading { hash, at, all_ok },
            SnapshotEvent::Carried(false),
            secondaries,
            memory,
        ).step == upload_from(secondaries, memory, hash, at + 1, true).step,
        upload_from(secondaries, memory, hash, at + 1, false).state == SnapshotSync::Finished
            ==> !upload_from(secondaries, memory, hash, at + 1, false).memory.last_teleporter_applied,
{
}

/// A snapshot that was applied is not uploaded again: once the engine
/// remembers a hash as applied, the download of a snapshot with that hash
/// ends the part, without any upload.
pub proof fn lemma_unchanged_snapshot_is_skipped(
    secondaries: Seq<InstanceConfig>,
    memory: SyncState,
    hash: u64,
)
    ensures
        snapshot_turn(
            SnapshotSync::Downloading,
            SnapshotEvent::Downloaded(Some(hash)),
            secondaries,
            remembered(memory, hash, true),
        ).step == SnapshotStep::Finished,
        snapshot_turn(
            SnapshotSync::Downloading,
            SnapshotEvent::Downloaded(Some(hash)),
            secondaries,
            remembered(memory, hash, false),
        ) == upload_from(secondaries, remembered(memory, hash, false), hash, 0, true),
{
}

} // verus!
