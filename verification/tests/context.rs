use pihole_sync::config::{
    ApiSyncOptions, ConfigApiSyncMode, ConfigSyncOptions, InstanceConfig, SyncMode,
    SyncTriggerMode,
};
use pihole_sync::json::JsonValue;
use pihole_sync::pihole::client::{Group, List};
use pihole_sync::sync::config_sync::{
    determine_api_sync_needs, gravity_after_lists, sync_config_api, sync_config_for_secondary,
    sync_groups_for_secondary, sync_lists_for_secondary, record_applied, ApiSyncNeeds,
    ApiSyncPayload, Category, CollectionSync, ConfigSync,
};
use pihole_sync::sync::context::{
    determine_sync_modes, handle_initial_sync, perform_sync, run, CyclePhase, FetchPlan,
    InitialStep, SyncModes, SyncState,
};
use pihole_sync::sync::teleporter::{
    find_target, upload_backup, uses_teleporter, SnapshotEvent, SnapshotStep, SnapshotSync,
};
use pihole_sync::sync::lists::ListAction;
use pihole_sync::sync::pass::{PassEvent, PassStep, SecondaryPass};
use pihole_sync::sync::util::HashTracker;
use std::collections::HashMap;

fn instance(host: &str, mode: Option<SyncMode>, options: Option<ApiSyncOptions>) -> InstanceConfig {
    InstanceConfig {
        host: host.to_string(),
        schema: "http".to_string(),
        port: 80,
        api_key: "k".to_string(),
        update_gravity: None,
        sync_mode: mode,
        api_sync_options: options,
        teleporter_sync_options: None,
    }
}

fn options(config: Option<ConfigSyncOptions>, groups: Option<bool>, lists: Option<bool>) -> ApiSyncOptions {
    ApiSyncOptions { sync_config: config, sync_groups: groups, sync_lists: lists }
}

fn filter(mode: Option<ConfigApiSyncMode>, keys: &[&str]) -> ConfigSyncOptions {
    ConfigSyncOptions { mode, filter_keys: keys.iter().map(|k| k.to_string()).collect() }
}

fn payload() -> ApiSyncPayload {
    ApiSyncPayload {
        main_config: None,
        main_groups: vec![],
        main_group_lookup: HashMap::new(),
        main_lists: vec![],
        main_groups_hash: None,
        main_lists_hash: None,
    }
}

fn object(members: Vec<(&str, JsonValue)>) -> JsonValue {
    JsonValue::Object(members.into_iter().map(|(k, v)| (k.to_string(), v)).collect())
}

#[test]
fn modes_are_those_that_some_secondary_uses() {
    assert_eq!(determine_sync_modes(&[]), SyncModes { teleporter: false, api: false });
    let both = vec![
        instance("a", Some(SyncMode::Api), None),
        instance("b", None, None),
    ];
    assert_eq!(determine_sync_modes(&both), SyncModes { teleporter: true, api: true });
    let api = vec![instance("a", Some(SyncMode::Api), None)];
    assert_eq!(determine_sync_modes(&api), SyncModes { teleporter: false, api: true });
    let teleporter = vec![instance("a", Some(SyncMode::Teleporter), None)];
    assert_eq!(determine_sync_modes(&teleporter), SyncModes { teleporter: true, api: false });
}

#[test]
fn needs_are_the_union_over_the_api_secondaries() {
    assert!(!determine_api_sync_needs(&[]).any());
    let secondaries = vec![
        instance("a", Some(SyncMode::Api), Some(options(Some(filter(None, &["dns"])), None, None))),
        instance("b", Some(SyncMode::Api), Some(options(None, Some(true), Some(false)))),
        instance("c", Some(SyncMode::Teleporter), Some(options(None, Some(true), Some(true)))),
        instance("d", Some(SyncMode::Api), None),
    ];
    assert_eq!(
        determine_api_sync_needs(&secondaries),
        ApiSyncNeeds { config: true, groups: true, lists: false }
    );
}

#[test]
fn lists_need_groups() {
    let secondaries =
        vec![instance("a", Some(SyncMode::Api), Some(options(None, None, Some(true))))];
    let needs = determine_api_sync_needs(&secondaries);
    assert_eq!(needs, ApiSyncNeeds { config: false, groups: true, lists: true });
    assert!(needs.any());
    assert!(!ApiSyncNeeds::default().any());
}

#[test]
fn the_api_pass_works_on_api_secondaries_with_options() {
    let secondaries = vec![
        instance("a", Some(SyncMode::Api), Some(options(None, Some(true), None))),
        instance("b", None, None),
        instance("c", Some(SyncMode::Api), None),
        instance("d", Some(SyncMode::Api), Some(options(None, None, None))),
    ];
    let needs = ApiSyncNeeds { config: false, groups: true, lists: false };
    assert_eq!(sync_config_api(&secondaries, &needs), vec![0, 3]);
    assert_eq!(sync_config_api(&secondaries, &ApiSyncNeeds::default()), Vec::<usize>::new());
}

#[test]
fn a_cycle_fetches_each_kind_once_where_it_is_needed() {
    let modes = SyncModes { teleporter: true, api: true };
    let needs = ApiSyncNeeds { config: true, groups: true, lists: false };
    assert_eq!(
        perform_sync(&modes, &needs, false),
        FetchPlan { snapshot: true, config: true, groups: true, lists: false }
    );
    assert_eq!(
        perform_sync(&modes, &needs, true),
        FetchPlan { snapshot: true, config: false, groups: true, lists: false }
    );
    let modes = SyncModes { teleporter: true, api: false };
    assert_eq!(
        perform_sync(&modes, &needs, false),
        FetchPlan { snapshot: true, config: false, groups: false, lists: false }
    );
}

#[test]
fn a_cycle_goes_through_its_phases() {
    let mut phase = CyclePhase::Idle;
    let mut seen = vec![];
    for _ in 0..6 {
        phase = phase.next(3);
        seen.push(phase);
    }
    assert_eq!(
        seen,
        vec![
            CyclePhase::FetchMain,
            CyclePhase::PerSecondaryApply(0),
            CyclePhase::PerSecondaryApply(1),
            CyclePhase::PerSecondaryApply(2),
            CyclePhase::SessionTeardown,
            CyclePhase::Idle,
        ]
    );
    assert_eq!(CyclePhase::FetchMain.next(0), CyclePhase::SessionTeardown);
}

#[test]
fn an_unchanged_snapshot_is_not_uploaded_again() {
    let mut state = SyncState::default();
    assert!(state.should_upload(11));
    state.record_teleporter(11, Some(true));
    assert!(!state.should_upload(11));
    assert!(state.should_upload(12));
    state.record_teleporter(12, Some(false));
    assert!(state.should_upload(12));
    state.record_teleporter(12, Some(true));
    assert!(!state.should_upload(12));
    state.record_teleporter(12, None);
    assert!(!state.should_upload(12));
    assert_eq!(state.last_teleporter_hash, Some(12));
}

#[test]
fn the_hash_of_the_main_configuration_is_remembered() {
    let mut state = SyncState::default();
    state.record_main_config(None);
    assert_eq!(state.last_main_config_hash, None);
    state.record_main_config(Some(4));
    assert_eq!(state.last_main_config_hash, Some(4));
    state.record_main_config(None);
    assert_eq!(state.last_main_config_hash, Some(4));
}

#[test]
fn the_snapshot_goes_to_the_teleporter_secondaries() {
    let secondaries = vec![
        instance("a", Some(SyncMode::Api), None),
        instance("b", None, None),
        instance("c", Some(SyncMode::Teleporter), None),
    ];
    assert_eq!(find_target(&secondaries, 0), Some(1));
    assert_eq!(find_target(&secondaries, 2), Some(2));
    assert_eq!(find_target(&secondaries, 3), None);
    assert!(uses_teleporter(&secondaries[1]));
    assert!(!uses_teleporter(&secondaries[0]));

    let mut memory = SyncState::default();
    let part = SnapshotSync::new();
    let (part, step) = part.sync_teleporter(SnapshotEvent::Begin, &secondaries, &mut memory);
    assert_eq!(step, SnapshotStep::Download);
    let (part, step) = part.sync_teleporter(SnapshotEvent::Downloaded(Some(5)), &secondaries, &mut memory);
    assert_eq!(step, SnapshotStep::Upload { secondary: 1 });
    let (part, step) = part.sync_teleporter(SnapshotEvent::Carried(true), &secondaries, &mut memory);
    assert_eq!(step, SnapshotStep::Upload { secondary: 2 });
    assert_eq!(memory.last_teleporter_hash, None);
    let (part, step) = part.sync_teleporter(SnapshotEvent::Carried(true), &secondaries, &mut memory);
    assert_eq!(step, SnapshotStep::Finished);
    assert_eq!(part, SnapshotSync::Finished);
    assert_eq!(memory.last_teleporter_hash, Some(5));
    assert!(memory.last_teleporter_applied);
}

#[test]
fn an_unchanged_snapshot_is_downloaded_and_not_uploaded() {
    let secondaries = vec![instance("b", None, None)];
    let mut memory = SyncState::default();
    memory.record_teleporter(5, Some(true));
    let (part, _) = SnapshotSync::new().sync_teleporter(SnapshotEvent::Begin, &secondaries, &mut memory);
    let (part, step) = part.sync_teleporter(SnapshotEvent::Downloaded(Some(5)), &secondaries, &mut memory);
    assert_eq!(step, SnapshotStep::Finished);
    assert_eq!(part, SnapshotSync::Finished);
    assert!(memory.last_teleporter_applied);
    let (part, _) = SnapshotSync::new().sync_teleporter(SnapshotEvent::Begin, &secondaries, &mut memory);
    let (_, step) = part.sync_teleporter(SnapshotEvent::Downloaded(Some(6)), &secondaries, &mut memory);
    assert_eq!(step, SnapshotStep::Upload { secondary: 0 });
}

#[test]
fn a_failed_upload_does_not_stop_the_others() {
    let mut secondaries = vec![
        instance("a", None, None),
        instance("b", None, None),
        instance("c", None, None),
    ];
    secondaries[1].update_gravity = Some(true);
    let mut memory = SyncState::default();
    let (part, _) = SnapshotSync::new().sync_teleporter(SnapshotEvent::Begin, &secondaries, &mut memory);
    let (part, step) = part.sync_teleporter(SnapshotEvent::Downloaded(Some(9)), &secondaries, &mut memory);
    assert_eq!(step, SnapshotStep::Upload { secondary: 0 });
    let (part, step) = part.sync_teleporter(SnapshotEvent::Carried(false), &secondaries, &mut memory);
    assert_eq!(step, SnapshotStep::Upload { secondary: 1 });
    let (part, step) = part.sync_teleporter(SnapshotEvent::Carried(true), &secondaries, &mut memory);
    assert_eq!(step, SnapshotStep::TriggerGravity { secondary: 1 });
    let (part, step) = part.sync_teleporter(SnapshotEvent::Carried(true), &secondaries, &mut memory);
    assert_eq!(step, SnapshotStep::Upload { secondary: 2 });
    let (_, step) = part.sync_teleporter(SnapshotEvent::Carried(true), &secondaries, &mut memory);
    assert_eq!(step, SnapshotStep::Finished);
    assert_eq!(memory.last_teleporter_hash, Some(9));
    assert!(!memory.last_teleporter_applied);
    assert!(memory.should_upload(9));
}

#[test]
fn a_failed_download_leaves_the_memory() {
    let secondaries = vec![instance("a", None, None)];
    let mut memory = SyncState::default();
    let (part, _) = SnapshotSync::new().sync_teleporter(SnapshotEvent::Begin, &secondaries, &mut memory);
    let (part, step) = part.sync_teleporter(SnapshotEvent::Downloaded(None), &secondaries, &mut memory);
    assert_eq!(step, SnapshotStep::Finished);
    assert_eq!(part, SnapshotSync::Finished);
    assert_eq!(memory, SyncState::default());
}

#[test]
fn gravity_follows_an_upload_where_it_is_asked_for() {
    let mut secondary = instance("a", None, None);
    assert!(!upload_backup(&secondary));
    secondary.update_gravity = Some(false);
    assert!(!upload_backup(&secondary));
    secondary.update_gravity = Some(true);
    assert!(upload_backup(&secondary));
    assert!(gravity_after_lists(2, &secondary));
    assert!(!gravity_after_lists(0, &secondary));
    secondary.update_gravity = None;
    assert!(!gravity_after_lists(2, &secondary));
}

#[test]
fn the_initial_step_depends_on_the_trigger() {
    assert_eq!(handle_initial_sync(false, SyncTriggerMode::Interval), InitialStep::RunCycle);
    assert_eq!(handle_initial_sync(false, SyncTriggerMode::WatchConfigApi), InitialStep::RunCycle);
    assert_eq!(handle_initial_sync(true, SyncTriggerMode::WatchConfigApi), InitialStep::SeedBaseline);
    assert_eq!(handle_initial_sync(true, SyncTriggerMode::WatchConfigFile), InitialStep::Nothing);
    assert_eq!(handle_initial_sync(true, SyncTriggerMode::Interval), InitialStep::Nothing);
}

#[test]
fn a_single_run_has_no_trigger() {
    let modes = SyncModes { teleporter: true, api: false };
    let plan = run(&modes, SyncTriggerMode::WatchConfigFile, true, true);
    assert!(plan.ensure_cache_directory);
    assert_eq!(plan.first, InitialStep::RunCycle);
    assert_eq!(plan.trigger, None);
    let modes = SyncModes { teleporter: false, api: true };
    let plan = run(&modes, SyncTriggerMode::WatchConfigApi, false, true);
    assert!(!plan.ensure_cache_directory);
    assert_eq!(plan.first, InitialStep::SeedBaseline);
    assert_eq!(plan.trigger, Some(SyncTriggerMode::WatchConfigApi));
}

#[test]
fn the_configuration_part_filters_the_main_configuration() {
    let main = Some(object(vec![(
        "dns",
        object(vec![
            ("upstreams", JsonValue::Array(vec![JsonValue::Text("1.1.1.1".to_string())])),
            ("hosts", JsonValue::Array(vec![JsonValue::Text("x".to_string())])),
        ]),
    )]));
    let keep_only = options(Some(filter(None, &["dns.upstreams"])), None, None);
    match sync_config_for_secondary(&keep_only, &main) {
        ConfigSync::Filtered(part) => assert_eq!(
            part,
            object(vec![(
                "dns",
                object(vec![(
                    "upstreams",
                    JsonValue::Array(vec![JsonValue::Text("1.1.1.1".to_string())])
                )])
            )])
        ),
        other => panic!("unexpected {:?}", other),
    }
    let leave_out = options(Some(filter(Some(ConfigApiSyncMode::Exclude), &["dns.upstreams"])), None, None);
    match sync_config_for_secondary(&leave_out, &main) {
        ConfigSync::Filtered(part) => assert_eq!(
            part,
            object(vec![(
                "dns",
                object(vec![("hosts", JsonValue::Array(vec![JsonValue::Text("x".to_string())]))])
            )])
        ),
        other => panic!("unexpected {:?}", other),
    }
    assert!(matches!(sync_config_for_secondary(&keep_only, &None), ConfigSync::NoMainConfig));
    assert!(matches!(
        sync_config_for_secondary(&options(None, Some(true), None), &main),
        ConfigSync::NotRequested
    ));
}

#[test]
fn the_same_hash_twice_in_a_row_makes_no_call() {
    let mut tracker = HashTracker::new();
    let wanted = options(None, Some(true), Some(true));
    let mut main = payload();
    main.main_groups = vec![Group { name: "A".to_string(), comment: None, enabled: true, id: Some(1) }];
    main.main_groups_hash = Some(77);
    main.main_lists = vec![List {
        address: "a".to_string(),
        list_type: "block".to_string(),
        comment: None,
        groups: vec![],
        enabled: true,
        id: None,
    }];
    main.main_lists_hash = Some(88);
    assert_eq!(
        sync_groups_for_secondary(&wanted, &main, &tracker, "pi2"),
        CollectionSync::Reconcile { hash: 77 }
    );
    record_applied(&mut tracker, Category::Groups, "pi2", 77);
    assert_eq!(sync_groups_for_secondary(&wanted, &main, &tracker, "pi2"), CollectionSync::Unchanged);
    assert_eq!(
        sync_lists_for_secondary(&wanted, &main, &tracker, "pi2"),
        CollectionSync::Reconcile { hash: 88 }
    );
    record_applied(&mut tracker, Category::Lists, "pi2", 88);
    assert_eq!(sync_lists_for_secondary(&wanted, &main, &tracker, "pi2"), CollectionSync::Unchanged);
    main.main_groups_hash = Some(78);
    assert_eq!(
        sync_groups_for_secondary(&wanted, &main, &tracker, "pi2"),
        CollectionSync::Reconcile { hash: 78 }
    );
}

#[test]
fn a_collection_part_can_be_skipped_for_three_reasons() {
    let tracker = HashTracker::new();
    let mut main = payload();
    let wanted = options(None, Some(true), Some(true));
    assert_eq!(
        sync_groups_for_secondary(&options(None, None, None), &main, &tracker, "h"),
        CollectionSync::NotRequested
    );
    assert_eq!(
        sync_groups_for_secondary(&options(None, Some(false), None), &main, &tracker, "h"),
        CollectionSync::NotRequested
    );
    assert_eq!(sync_groups_for_secondary(&wanted, &main, &tracker, "h"), CollectionSync::NothingFetched);
    main.main_groups = vec![Group { name: "A".to_string(), comment: None, enabled: true, id: Some(1) }];
    assert_eq!(sync_groups_for_secondary(&wanted, &main, &tracker, "h"), CollectionSync::HashUnavailable);
    assert_eq!(sync_lists_for_secondary(&wanted, &main, &tracker, "h"), CollectionSync::NothingFetched);
}

#[test]
fn a_pass_goes_through_config_groups_and_lists() {
    use_pass();
}

fn use_pass() {
    let mut tracker = HashTracker::new();
    let mut secondary = instance(
        "pi2",
        Some(SyncMode::Api),
        Some(options(Some(filter(None, &["dns"])), Some(true), Some(true))),
    );
    secondary.update_gravity = Some(true);
    let mut main = payload();
    main.main_config = Some(object(vec![("dns", JsonValue::Bool(true)), ("ntp", JsonValue::Null)]));
    main.main_groups = vec![Group { name: "A".to_string(), comment: None, enabled: true, id: Some(1) }];
    main.main_groups_hash = Some(77);
    main.main_lists = vec![List {
        address: "a".to_string(),
        list_type: "block".to_string(),
        comment: None,
        groups: vec![1],
        enabled: true,
        id: None,
    }];
    main.main_lists_hash = Some(88);
    main.main_group_lookup.insert(1, "A".to_string());

    let pass = SecondaryPass::new();
    let (pass, step) = pass.advance(PassEvent::Begin, &secondary, &main, &mut tracker);
    let part = match step {
        PassStep::HashConfig(part) => part,
        other => panic!("unexpected {:?}", other),
    };
    assert_eq!(part, object(vec![("dns", JsonValue::Bool(true))]));
    let (pass, step) = pass.advance(PassEvent::Hashed(Some(1)), &secondary, &main, &mut tracker);
    assert!(matches!(&step, PassStep::PatchConfig(p) if *p == part));
    let (pass, step) = pass.advance(PassEvent::Carried(false), &secondary, &main, &mut tracker);
    assert!(matches!(step, PassStep::FetchGroups));
    assert!(tracker.has_changed("config:pi2", 1));
    let (pass, step) = pass.advance(PassEvent::Groups(Some(vec![])), &secondary, &main, &mut tracker);
    assert!(matches!(&step, PassStep::WriteGroups(plan) if plan.len() == 1));
    let (pass, step) = pass.advance(PassEvent::Carried(true), &secondary, &main, &mut tracker);
    assert!(matches!(step, PassStep::FetchGroupsAndLists));
    assert!(!tracker.has_changed("groups:pi2", 77));
    let their_groups = vec![Group { name: "A".to_string(), comment: None, enabled: true, id: Some(4) }];
    let (pass, step) = pass.advance(
        PassEvent::GroupsAndLists(Some((their_groups, vec![]))),
        &secondary,
        &main,
        &mut tracker,
    );
    match &step {
        PassStep::WriteLists(plan) => {
            assert_eq!(plan.len(), 1);
            assert!(matches!(&plan[0], ListAction::Create(l) if l.groups == vec![4]));
        }
        other => panic!("unexpected {:?}", other),
    }
    let (pass, step) = pass.advance(PassEvent::Carried(true), &secondary, &main, &mut tracker);
    assert!(matches!(step, PassStep::TriggerGravity));
    assert!(!tracker.has_changed("lists:pi2", 88));
    let (pass, step) = pass.advance(PassEvent::Carried(true), &secondary, &main, &mut tracker);
    assert!(matches!(step, PassStep::Finished));
    assert!(pass.is_finished());

    // the second pass: groups and lists have the recorded hashes, the
    // configuration is applied because its first apply failed
    let (pass, step) = SecondaryPass::new().advance(PassEvent::Begin, &secondary, &main, &mut tracker);
    assert!(matches!(step, PassStep::HashConfig(_)));
    let (pass, step) = pass.advance(PassEvent::Hashed(Some(1)), &secondary, &main, &mut tracker);
    assert!(matches!(step, PassStep::PatchConfig(_)));
    let (pass, step) = pass.advance(PassEvent::Carried(true), &secondary, &main, &mut tracker);
    assert!(matches!(step, PassStep::Finished));
    assert!(pass.is_finished());

    // the third pass makes no call at all
    let (pass, step) = SecondaryPass::new().advance(PassEvent::Begin, &secondary, &main, &mut tracker);
    assert!(matches!(step, PassStep::HashConfig(_)));
    let (pass, step) = pass.advance(PassEvent::Hashed(Some(1)), &secondary, &main, &mut tracker);
    assert!(matches!(step, PassStep::Finished));
    assert!(pass.is_finished());
}

#[test]
fn a_pass_without_options_is_over_at_once() {
    let mut tracker = HashTracker::new();
    let secondary = instance("pi2", Some(SyncMode::Api), None);
    let (pass, step) = SecondaryPass::new().advance(PassEvent::Begin, &secondary, &payload(), &mut tracker);
    assert!(matches!(step, PassStep::Finished));
    assert!(pass.is_finished());
}

#[test]
fn a_hash_that_cannot_be_computed_skips_the_configuration() {
    let mut tracker = HashTracker::new();
    let secondary = instance(
        "pi2",
        Some(SyncMode::Api),
        Some(options(Some(filter(None, &["dns"])), None, None)),
    );
    let mut main = payload();
    main.main_config = Some(object(vec![("dns", JsonValue::Bool(true))]));
    let (pass, _) = SecondaryPass::new().advance(PassEvent::Begin, &secondary, &main, &mut tracker);
    let (pass, step) = pass.advance(PassEvent::Hashed(None), &secondary, &main, &mut tracker);
    assert!(matches!(step, PassStep::Finished));
    assert!(pass.is_finished());
}

#[test]
fn lists_written_without_a_write_do_not_rebuild() {
    let mut tracker = HashTracker::new();
    let mut secondary = instance("pi2", Some(SyncMode::Api), Some(options(None, None, Some(true))));
    secondary.update_gravity = Some(true);
    let mut main = payload();
    let list = List {
        address: "a".to_string(),
        list_type: "block".to_string(),
        comment: None,
        groups: vec![0],
        enabled: true,
        id: None,
    };
    main.main_lists = vec![list.clone()];
    main.main_lists_hash = Some(3);
    let (pass, step) = SecondaryPass::new().advance(PassEvent::Begin, &secondary, &main, &mut tracker);
    assert!(matches!(step, PassStep::FetchGroupsAndLists));
    let (pass, step) = pass.advance(
        PassEvent::GroupsAndLists(Some((vec![], vec![list]))),
        &secondary,
        &main,
        &mut tracker,
    );
    assert!(matches!(&step, PassStep::WriteLists(plan) if plan.is_empty()));
    let (pass, step) = pass.advance(PassEvent::Carried(true), &secondary, &main, &mut tracker);
    assert!(matches!(step, PassStep::Finished));
    assert!(pass.is_finished());
    assert!(!tracker.has_changed("lists:pi2", 3));
}
