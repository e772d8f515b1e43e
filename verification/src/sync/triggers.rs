use crate::sync::util::FILE_WATCH_DEBOUNCE_MS;
use vstd::prelude::*;

verus! {

/// The interval trigger: a cycle after each interval, for ever or for a
/// given number of cycles.
#[derive(Debug, Clone, Copy, PartialEq, Eq)]
pub struct IntervalMode {
    max_iterations: Option<usize>,
    iterations: usize,
}

impl IntervalMode {
    /// The number of cycles after which the trigger ends, if it ends.
    pub closed spec fn max_iterations(&self) -> Option<usize> {
        self.max_iterations
    }

    /// The number of cycles counted.
    pub closed spec fn iterations(&self) -> usize {
        self.iterations
    }

    /// A trigger that has run no cycle yet.
    pub fn new(max_iterations: Option<usize>) -> (mode: Self)
        ensures
            mode.max_iterations() == max_iterations,
            mode.iterations() == 0,
    {
        IntervalMode { max_iterations, iterations: 0 }
    }

    /// Counts a cycle and tells whether the trigger goes on: it ends when the
    /// given number of cycles has run, and never where none is given. How
    /// the cycle ended makes no difference.
    pub fn run_interval_mode(&mut self) -> (goes_on: bool)
        ensures
            final(self).max_iterations() == old(self).max_iterations(),
            match old(self).max_iterations() {
                Some(max) => final(self).iterations() == (if old(self).iterations() < max {
                    old(self).iterations() + 1
                } else {
                    old(self).iterations() as int
                }) && goes_on == (final(self).iterations() < max),
                None => final(self).iterations() == old(self).iterations() && goes_on,
            },
    {
        match self.max_iterations {
            Some(max) => {
                if self.iterations < max {
                    self.iterations = self.iterations + 1;
                }
                self.iterations < max
            },
            None => true,
        }
    }
}

/// Where the file-watch trigger stands.
#[derive(Debug, Clone, Copy, PartialEq, Eq)]
pub enum WatchState {
    /// Waiting for a change of the watched file.
    Idle,
    /// A change was seen; the debounce window is open.
    Debouncing,
}

/// What reaches the file-watch trigger.
#[derive(Debug, Clone, Copy, PartialEq, Eq)]
pub enum WatchEvent {
    /// A change in the watched directory, which concerns the watched file or
    /// does not.
    Change { hits_target: bool },
    /// The watcher reports an error.
    Fault,
    /// The debounce window has passed.
    WindowClosed,
}

/// What the file-watch trigger does on an event.
#[derive(Debug, Clone, Copy, PartialEq, Eq)]
pub enum WatchAction {
    /// Nothing.
    Ignore,
    /// Open the debounce window, of this many milliseconds.
    Debounce { window_ms: u64 },
    /// The event belongs to the burst whose window is open: drop it.
    Coalesce,
    /// Start a cycle.
    RunCycle,
}

/// The state that follows `state` on `event`. A change of the watched file
/// opens the debounce window; whatever arrives while it is open is dropped;
/// when it closes, the trigger is idle again.
pub open spec fn watch_state_after(state: WatchState, event: WatchEvent) -> WatchState {
    match (state, event) {
        (WatchState::Idle, WatchEvent::Change { hits_target: true }) => WatchState::Debouncing,
        (WatchState::Idle, _) => WatchState::Idle,
        (WatchState::Debouncing, WatchEvent::WindowClosed) => WatchState::Idle,
        (WatchState::Debouncing, _) => WatchState::Debouncing,
    }
}

/// What the trigger does in `state` on `event`. The one cycle of a burst
/// starts when the window closes.
pub open spec fn watch_action(state: WatchState, event: WatchEvent) -> WatchAction {
    match (state, event) {
        (WatchState::Idle, WatchEvent::Change { hits_target: true }) => WatchAction::Debounce {
            window_ms: FILE_WATCH_DEBOUNCE_MS,
        },
        (WatchState::Idle, _) => WatchAction::Ignore,
        (WatchState::Debouncing, WatchEvent::WindowClosed) => WatchAction::RunCycle,
        (WatchState::Debouncing, _) => WatchAction::Coalesce,
    }
}

/// The number of cycles that a run of events starts, from `state`.
pub open spec fn cycles_started(state: WatchState, events: Seq<WatchEvent>) -> nat
    decreases events.len(),
{
    if events.len() == 0 {
        0
    } else {
        let now: nat = if watch_action(state, events[0]) == WatchAction::RunCycle {
            1
        } else {
            0
        };
        now + cycles_started(watch_state_after(state, events[0]), events.drop_first())
    }
}

/// The state after a run of events, from `state`.
pub open spec fn watch_state_after_all(state: WatchState, events: Seq<WatchEvent>) -> WatchState
    decreases events.len(),
{
    if events.len() == 0 {
        state
    } else {
        watch_state_after_all(watch_state_after(state, events[0]), events.drop_first())
    }
}

/// Whether no event of the run closes the window.
pub open spec fn within_window(events: Seq<WatchEvent>) -> bool {
    forall|i: int| 0 <= i < events.len() ==> events[i] != WatchEvent::WindowClosed
}

/// Whether a change in the watched directory concerns the watched file: one
/// of the changed paths is the path of the file as it was given, or its
/// canonical path, which differs where the given path goes through a link.
pub fn affects_target(paths: &[String], target: &str, canonical_target: &str) -> (hit: bool)
    ensures
        hit == exists|i: int|
            0 <= i < paths@.len() && ((#[trigger] paths@[i])@ == target@ || paths@[i]@
                == canonical_target@),
{
    let literal = target.to_owned();
    let canonical = canonical_target.to_owned();
    let mut i: usize = 0;
    while i < paths.len()
        invariant
            i <= paths.len(),
            literal@ == target@,
            canonical@ == canonical_target@,
            forall|k: int|
                0 <= k < i ==> !((#[trigger] paths@[k])@ == target@ || paths@[k]@
                    == canonical_target@),
        decreases paths.len() - i,
    {
        if paths[i] == literal || paths[i] == canonical {
            return true;
        }
        i += 1;
    }
    false
}

/// The file-watch trigger.
#[derive(Debug, Clone, Copy, PartialEq, Eq)]
pub struct FileWatch {
    state: WatchState,
}

impl FileWatch {
    /// Where the trigger stands.
    pub closed spec fn state(&self) -> WatchState {
        self.state
    }

    /// An idle trigger.
    pub fn new() -> (watch: Self)
        ensures
            watch.state() == WatchState::Idle,
    {
        FileWatch { state: WatchState::Idle }
    }

    /// Takes an event and tells what to do.
    pub fn process_file_watch_events(&mut self, event: WatchEvent) -> (action: WatchAction)
        ensures
            final(self).state() == watch_state_after(old(self).state(), event),
            action == watch_action(old(self).state(), event),
    {
        match self.state {
            WatchState::Idle => match event {
                WatchEvent::Change { hits_target } => if hits_target {
                    self.state = WatchState::Debouncing;
                    WatchAction::Debounce { window_ms: FILE_WATCH_DEBOUNCE_MS }
                } else {
                    WatchAction::Ignore
                },
                _ => WatchAction::Ignore,
            },
            WatchState::Debouncing => match event {
                WatchEvent::WindowClosed => {
                    self.state = WatchState::Idle;
                    WatchAction::RunCycle
                },
                _ => WatchAction::Coalesce,
            },
        }
    }
}

/// Whether a cycle that a change of main's configuration file has triggered
/// is run: not while main is being upgraded, and not while an instance does
/// not answer. A cycle that is not run is dropped, not kept for later.
pub fn watch_config_file(upgrade_running: bool, instances_ready: bool) -> (run: bool)
    ensures
        run == (!upgrade_running && instances_ready),
{
    !upgrade_running && instances_ready
}

proof fn lemma_burst_is_dropped(events: Seq<WatchEvent>)
    requires
        within_window(events),
    ensures
        cycles_started(WatchState::Debouncing, events) == 0,
        watch_state_after_all(WatchState::Debouncing, events) == WatchState::Debouncing,
    decreases events.len(),
{
    if events.len() > 0 {
        assert(events[0] != WatchEvent::WindowClosed);
        assert forall|i: int| 0 <= i < events.drop_first().len() implies events.drop_first()[i]
            != WatchEvent::WindowClosed by {
            assert(events.drop_first()[i] == events[i + 1]);
        }
        lemma_burst_is_dropped(events.drop_first());
    }
}

proof fn lemma_cycles_append(state: WatchState, first: Seq<WatchEvent>, second: Seq<WatchEvent>)
    ensures
        cycles_started(state, first + second) == cycles_started(state, first) + cycles_started(
            watch_state_after_all(state, first),
            second,
        ),
        watch_state_after_all(state, first + second) == watch_state_after_all(
            watch_state_after_all(state, first),
            second,
        ),
    decreases first.len(),
{
    if first.len() == 0 {
        assert(first + second =~= second);
    } else {
        assert((first + second)[0] == first[0]);
        assert((first + second).drop_first() =~= first.drop_first() + second);
        lemma_cycles_append(watch_state_after(state, first[0]), first.drop_first(), second);
    }
}

/// Debounce coalescing: a change of the watched file, followed by any events
/// while the window is open, followed by the closing of the window, starts
/// exactly one cycle and leaves the trigger idle.
pub proof fn lemma_burst_starts_one_cycle(burst: Seq<WatchEvent>)
    requires
        within_window(burst),
    ensures
        cycles_started(
            WatchState::Idle,
            seq![WatchEvent::Change { hits_target: true }] + burst + seq![WatchEvent::WindowClosed],
        ) == 1,
        watch_state_after_all(
            WatchState::Idle,
            seq![WatchEvent::Change { hits_target: true }] + burst + seq![WatchEvent::WindowClosed],
        ) == WatchState::Idle,
{
    let first = seq![WatchEvent::Change { hits_target: true }];
    let last = seq![WatchEvent::WindowClosed];
    reveal_with_fuel(cycles_started, 2);
    reveal_with_fuel(watch_state_after_all, 2);
    assert(first.drop_first() =~= Seq::<WatchEvent>::empty());
    assert(last.drop_first() =~= Seq::<WatchEvent>::empty());
    lemma_burst_is_dropped(burst);
    lemma_cycles_append(WatchState::Idle, first, burst);
    lemma_cycles_append(WatchState::Idle, first + burst, last);
}

/// The trigger that polls main's configuration: it remembers the hash of
/// the configuration that the secondaries were last brought in line with.
#[derive(Debug, Clone, Copy, PartialEq, Eq)]
pub struct ApiWatch {
    last_main_config_hash: Option<u64>,
}

/// What a poll comes to.
#[derive(Debug, Clone, Copy, PartialEq, Eq)]
pub enum PollStep {
    /// The configuration could not be fetched or hashed: wait for the next
    /// poll.
    Failed,
    /// The configuration is the one remembered: wait for the next poll.
    Unchanged,
    /// The configuration has changed: start a cycle with the fetched
    /// configuration, which has this hash.
    RunCycle { hash: u64 },
}

impl ApiWatch {
    /// The hash remembered.
    pub closed spec fn baseline(&self) -> Option<u64> {
        self.last_main_config_hash
    }

    /// A trigger with the given baseline: the hash that the initial cycle
    /// saw, or the one that was fetched in its place, or none.
    pub fn new(last_main_config_hash: Option<u64>) -> (watch: Self)
        ensures
            watch.baseline() == last_main_config_hash,
    {
        ApiWatch { last_main_config_hash }
    }

    /// What a poll comes to, given the hash of the fetched configuration, or
    /// none where it could not be fetched or hashed.
    pub fn watch_config_api_with_fetch(&self, fetched: Option<u64>) -> (step: PollStep)
        ensures
            step == match fetched {
                None => PollStep::Failed,
                Some(hash) => if self.baseline() == Some(hash) {
                    PollStep::Unchanged
                } else {
                    PollStep::RunCycle { hash }
                },
            },
    {
        match fetched {
            None => PollStep::Failed,
            Some(hash) => {
                let same = match self.last_main_config_hash {
                    Some(last) => last == hash,
                    None => false,
                };
                if same {
                    PollStep::Unchanged
                } else {
                    PollStep::RunCycle { hash }
                }
            },
        }
    }

    /// Takes the end of the cycle that a poll has started: after a cycle
    /// that went through, the hash of its configuration is remembered; after
    /// one that failed, the baseline stays, so that the next poll starts the
    /// cycle again.
    pub fn watch_config_api_main(&mut self, hash: u64, went_through: bool)
        ensures
            final(self).baseline() == if went_through {
                Some(hash)
            } else {
                old(self).baseline()
            },
    {
        if went_through {
            self.last_main_config_hash = Some(hash);
        }
    }
}

} // verus!
