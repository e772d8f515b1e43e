use pihole_sync::sync::triggers::{
    watch_config_file, ApiWatch, FileWatch, IntervalMode, PollStep, WatchAction, WatchEvent,
};

#[test]
fn interval_mode_runs_the_given_number_of_cycles() {
    let mut mode = IntervalMode::new(Some(1));
    assert!(!mode.run_interval_mode());
    let mut mode = IntervalMode::new(Some(3));
    assert!(mode.run_interval_mode());
    assert!(mode.run_interval_mode());
    assert!(!mode.run_interval_mode());
    assert!(!mode.run_interval_mode());
}

#[test]
fn interval_mode_without_a_bound_never_ends() {
    let mut mode = IntervalMode::new(None);
    for _ in 0..1000 {
        assert!(mode.run_interval_mode());
    }
}

#[test]
fn interval_mode_with_a_bound_of_zero_ends_after_the_first_cycle() {
    let mut mode = IntervalMode::new(Some(0));
    assert!(!mode.run_interval_mode());
}

#[test]
fn a_burst_of_changes_starts_one_cycle() {
    for n in 1..20 {
        let mut watch = FileWatch::new();
        let mut cycles = 0;
        let mut actions = Vec::new();
        for _ in 0..n {
            actions.push(watch.process_file_watch_events(WatchEvent::Change { hits_target: true }));
        }
        actions.push(watch.process_file_watch_events(WatchEvent::WindowClosed));
        for action in &actions {
            if *action == WatchAction::RunCycle {
                cycles += 1;
            }
        }
        assert_eq!(cycles, 1);
        assert_eq!(actions[0], WatchAction::Debounce { window_ms: 750 });
        for action in &actions[1..n] {
            assert_eq!(*action, WatchAction::Coalesce);
        }
        assert_eq!(actions[n], WatchAction::RunCycle);
    }
}

#[test]
fn two_bursts_start_two_cycles() {
    let mut watch = FileWatch::new();
    let events = [
        WatchEvent::Change { hits_target: true },
        WatchEvent::Change { hits_target: false },
        WatchEvent::Fault,
        WatchEvent::WindowClosed,
        WatchEvent::Change { hits_target: true },
        WatchEvent::WindowClosed,
    ];
    let cycles = events
        .iter()
        .filter(|e| watch.process_file_watch_events(**e) == WatchAction::RunCycle)
        .count();
    assert_eq!(cycles, 2);
}

#[test]
fn changes_of_other_files_and_faults_start_nothing() {
    let mut watch = FileWatch::new();
    assert_eq!(
        watch.process_file_watch_events(WatchEvent::Change { hits_target: false }),
        WatchAction::Ignore
    );
    assert_eq!(watch.process_file_watch_events(WatchEvent::Fault), WatchAction::Ignore);
    assert_eq!(watch.process_file_watch_events(WatchEvent::WindowClosed), WatchAction::Ignore);
}

#[test]
fn a_triggered_cycle_is_dropped_during_an_upgrade() {
    assert!(watch_config_file(false, true));
    assert!(!watch_config_file(true, true));
    assert!(!watch_config_file(false, false));
    assert!(!watch_config_file(true, false));
}

#[test]
fn a_poll_starts_a_cycle_when_the_hash_has_changed() {
    let mut watch = ApiWatch::new(Some(1));
    assert_eq!(watch.watch_config_api_with_fetch(Some(1)), PollStep::Unchanged);
    assert_eq!(watch.watch_config_api_with_fetch(None), PollStep::Failed);
    assert_eq!(watch.watch_config_api_with_fetch(Some(2)), PollStep::RunCycle { hash: 2 });
    watch.watch_config_api_main(2, true);
    assert_eq!(watch.watch_config_api_with_fetch(Some(2)), PollStep::Unchanged);
    assert_eq!(watch.watch_config_api_with_fetch(Some(1)), PollStep::RunCycle { hash: 1 });
}

#[test]
fn a_poll_without_baseline_starts_a_cycle() {
    let watch = ApiWatch::new(None);
    assert_eq!(watch.watch_config_api_with_fetch(Some(5)), PollStep::RunCycle { hash: 5 });
}

#[test]
fn a_failed_cycle_leaves_the_baseline() {
    let mut watch = ApiWatch::new(Some(1));
    watch.watch_config_api_main(2, false);
    assert_eq!(watch.watch_config_api_with_fetch(Some(2)), PollStep::RunCycle { hash: 2 });
    assert_eq!(watch.watch_config_api_with_fetch(Some(1)), PollStep::Unchanged);
}
