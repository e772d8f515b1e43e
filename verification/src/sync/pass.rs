use crate::config::{ApiSyncOptions, InstanceConfig};
use crate::json::{JsonTree, JsonValue};
use crate::pihole::client::{group_views, list_views, Group, GroupView, List, ListView};
use crate::pihole::config_filter::filtered;
use crate::sync::config_sync::{
    category_name, collection_sync, filter_mode_of, filter_paths, gate_open, gravity_after_lists,
    lemma_category_keys_differ, needs_apply, record_applied, sync_config_for_secondary,
    sync_groups_for_secondary, sync_lists_for_secondary, ApiSyncPayload, Category, CollectionSync,
    ConfigSync,
};
use crate::sync::groups::{group_action_views, group_changes, sync_groups, GroupAction};
use crate::sync::lists::{
    list_action_views, list_changes, lookup_names, name_ids, sync_lists, wanted_lists, ListAction,
};
use crate::sync::reconcile::Change;
use crate::sync::util::{record_key, HashTracker};
use vstd::prelude::*;

verus! {

/// Where the pass over one secondary stands. The parts of a pass come in a
/// fixed order: the configuration, then the groups, then the lists. The
/// configuration comes first because applying it can restart the secondary.
#[derive(Debug)]
pub enum SecondaryPass {
    /// The pass has not begun.
    Start,
    /// The part of main's configuration for the secondary is being hashed.
    ConfigHashing { part: JsonValue },
    /// The part is being applied; after success `hash` is recorded.
    ConfigPatching { hash: u64 },
    /// The secondary's groups are being fetched.
    GroupsFetching { hash: u64 },
    /// The groups are being written; after success `hash` is recorded.
    GroupsWriting { hash: u64 },
    /// The secondary's groups and lists are being fetched.
    ListsFetching { hash: u64 },
    /// The lists are being written, by this number of writes; after success
    /// `hash` is recorded.
    ListsWriting { hash: u64, writes: usize },
    /// The secondary is rebuilding its lists.
    Gravity,
    /// The pass is over.
    Finished,
}

/// What the program reports to a pass.
#[derive(Debug)]
pub enum PassEvent {
    /// The pass begins.
    Begin,
    /// The tree that was handed out has this hash, or could not be
    /// serialised.
    Hashed(Option<u64>),
    /// The step that was handed out was carried out, with or without
    /// success.
    Carried(bool),
    /// The secondary's groups, or none where they could not be fetched.
    Groups(Option<Vec<Group>>),
    /// The secondary's groups and lists, or none where they could not be
    /// fetched.
    GroupsAndLists(Option<(Vec<Group>, Vec<List>)>),
}

/// What the program is to do next for the secondary.
#[derive(Debug)]
pub enum PassStep {
    /// Serialise this tree and report its hash.
    HashConfig(JsonValue),
    /// Apply this tree as the secondary's configuration and wait until the
    /// secondary answers again.
    PatchConfig(JsonValue),
    /// Fetch the secondary's groups.
    FetchGroups,
    /// Make these writes, one after the other, with the throttle between
    /// them; stop at the first that fails.
    WriteGroups(Vec<GroupAction>),
    /// Fetch the secondary's groups and lists.
    FetchGroupsAndLists,
    /// Make these writes, as for groups.
    WriteLists(Vec<ListAction>),
    /// Have the secondary rebuild its lists.
    TriggerGravity,
    /// Nothing: the pass is over.
    Finished,
}

/// The value of a [`SecondaryPass`].
pub enum PassView {
    Start,
    ConfigHashing { part: JsonTree },
    ConfigPatching { hash: u64 },
    GroupsFetching { hash: u64 },
    GroupsWriting { hash: u64 },
    ListsFetching { hash: u64 },
    ListsWriting { hash: u64, writes: usize },
    Gravity,
    Finished,
}

/// The value of a [`PassEvent`].
pub enum EventView {
    Begin,
    Hashed(Option<u64>),
    Carried(bool),
    Groups(Option<Seq<GroupView>>),
    GroupsAndLists(Option<(Seq<GroupView>, Seq<ListView>)>),
}

/// The value of a [`PassStep`].
pub enum StepView {
    HashConfig(JsonTree),
    PatchConfig(JsonTree),
    FetchGroups,
    WriteGroups(Seq<Change<GroupView>>),
    FetchGroupsAndLists,
    WriteLists(Seq<Change<ListView>>),
    TriggerGravity,
    Finished,
}

impl View for SecondaryPass {
    type V = PassView;

    open spec fn view(&self) -> PassView {
        match self {
            SecondaryPass::Start => PassView::Start,
            SecondaryPass::ConfigHashing { part } => PassView::ConfigHashing { part: part@ },
            SecondaryPass::ConfigPatching { hash } => PassView::ConfigPatching { hash: *hash },
            SecondaryPass::GroupsFetching { hash } => PassView::GroupsFetching { hash: *hash },
            SecondaryPass::GroupsWriting { hash } => PassView::GroupsWriting { hash: *hash },
            SecondaryPass::ListsFetching { hash } => PassView::ListsFetching { hash: *hash },
            SecondaryPass::ListsWriting { hash, writes } => PassView::ListsWriting {
                hash: *hash,
                writes: *writes,
            },
            SecondaryPass::Gravity => PassView::Gravity,
            SecondaryPass::Finished => PassView::Finished,
        }
    }
}

impl View for PassEvent {
    type V = EventView;

    open spec fn view(&self) -> EventView {
        match self {
            PassEvent::Begin => EventView::Begin,
            PassEvent::Hashed(hash) => EventView::Hashed(*hash),
            PassEvent::Carried(ok) => EventView::Carried(*ok),
            PassEvent::Groups(Some(groups)) => EventView::Groups(Some(group_views(groups@))),
            PassEvent::Groups(None) => EventView::Groups(None),
            PassEvent::GroupsAndLists(Some((groups, lists))) => EventView::GroupsAndLists(
                Some((group_views(groups@), list_views(lists@))),
            ),
            PassEvent::GroupsAndLists(None) => EventView::GroupsAndLists(None),
        }
    }
}

impl View for PassStep {
    type V = StepView;

    open spec fn view(&self) -> StepView {
        match self {
            PassStep::HashConfig(part) => StepView::HashConfig(part@),
            PassStep::PatchConfig(part) => StepView::PatchConfig(part@),
            PassStep::FetchGroups => StepView::FetchGroups,
            PassStep::WriteGroups(plan) => StepView::WriteGroups(group_action_views(plan@)),
            PassStep::FetchGroupsAndLists => StepView::FetchGroupsAndLists,
            PassStep::WriteLists(plan) => StepView::WriteLists(list_action_views(plan@)),
            PassStep::TriggerGravity => StepView::TriggerGravity,
            PassStep::Finished => StepView::Finished,
        }
    }
}

/// What a pass works with: the secondary's host and policy, and what main
/// holds.
pub struct PassInput {
    pub host: Seq<char>,
    pub update_gravity: Option<bool>,
    pub options: Option<ApiSyncOptions>,
    pub main_config: Option<JsonTree>,
    pub main_groups: Seq<GroupView>,
    pub main_names: Map<u32, Seq<char>>,
    pub main_lists: Seq<ListView>,
    pub groups_hash: Option<u64>,
    pub lists_hash: Option<u64>,
}

/// What the pass over `instance` works with.
pub open spec fn pass_input(instance: InstanceConfig, payload: ApiSyncPayload) -> PassInput {
    PassInput {
        host: instance.host@,
        update_gravity: instance.update_gravity,
        options: instance.api_sync_options,
        main_config: match payload.main_config {
            Some(config) => Some(config@),
            None => None,
        },
        main_groups: group_views(payload.main_groups@),
        main_names: lookup_names(payload.main_group_lookup@),
        main_lists: list_views(payload.main_lists@),
        groups_hash: payload.main_groups_hash,
        lists_hash: payload.main_lists_hash,
    }
}

/// The state after an event, the step to take, and the records of
/// last-applied hashes.
pub struct Turn {
    pub state: PassView,
    pub step: StepView,
    pub records: Map<Seq<char>, u64>,
}

/// The end of a pass.
pub open spec fn finish(records: Map<Seq<char>, u64>) -> Turn {
    Turn { state: PassView::Finished, step: StepView::Finished, records }
}

/// The lists part begins: the secondary's groups and lists are fetched where
/// the lists are to be reconciled; else the pass is over.
pub open spec fn enter_lists(input: PassInput, records: Map<Seq<char>, u64>) -> Turn {
    match input.options {
        Some(options) => match collection_sync(
            options.sync_lists,
            input.main_lists.len(),
            input.lists_hash,
            records,
            Category::Lists,
            input.host,
        ) {
            CollectionSync::Reconcile { hash } => Turn {
                state: PassView::ListsFetching { hash },
                step: StepView::FetchGroupsAndLists,
                records,
            },
            _ => finish(records),
        },
        None => finish(records),
    }
}

/// The groups part begins: the secondary's groups are fetched where the
/// groups are to be reconciled; else the lists part begins.
pub open spec fn enter_groups(input: PassInput, records: Map<Seq<char>, u64>) -> Turn {
    match input.options {
        Some(options) => match collection_sync(
            options.sync_groups,
            input.main_groups.len(),
            input.groups_hash,
            records,
            Category::Groups,
            input.host,
        ) {
            CollectionSync::Reconcile { hash } => Turn {
                state: PassView::GroupsFetching { hash },
                step: StepView::FetchGroups,
                records,
            },
            _ => enter_lists(input, records),
        },
        None => finish(records),
    }
}

/// The configuration part begins: the part of main's configuration that the
/// secondary's filter keeps is handed out for hashing; where the secondary
/// receives no configuration, or main's could not be fetched, the groups
/// part begins.
pub open spec fn enter_config(input: PassInput, records: Map<Seq<char>, u64>) -> Turn {
    match input.options {
        Some(options) => match (options.sync_config, input.main_config) {
            (Some(filter), Some(config)) => {
                let part = filtered(config, filter_paths(filter), filter_mode_of(filter.mode));
                Turn {
                    state: PassView::ConfigHashing { part },
                    step: StepView::HashConfig(part),
                    records,
                }
            },
            _ => enter_groups(input, records),
        },
        None => finish(records),
    }
}

/// The records after a step of the unit `category` that ended with success
/// or without: only success is recorded.
pub open spec fn recorded(
    records: Map<Seq<char>, u64>,
    event: EventView,
    category: Category,
    host: Seq<char>,
    hash: u64,
) -> Map<Seq<char>, u64> {
    if event == EventView::Carried(true) {
        records.insert(record_key(category_name(category), host), hash)
    } else {
        records
    }
}

/// What follows an event in a state. A pass that has not begun begins on
/// any event. Later, an event that the state does not wait for counts as
/// the failure of what the state waits for. A failure ends the part in
/// which it occurs, and never the pass: the next part begins.
pub open spec fn turn(
    state: PassView,
    event: EventView,
    input: PassInput,
    records: Map<Seq<char>, u64>,
) -> Turn {
    match state {
        PassView::Start => enter_config(input, records),
        PassView::ConfigHashing { part } => match event {
            EventView::Hashed(Some(hash)) => if gate_open(
                records,
                Category::Config,
                input.host,
                hash,
            ) {
                Turn {
                    state: PassView::ConfigPatching { hash },
                    step: StepView::PatchConfig(part),
                    records,
                }
            } else {
                enter_groups(input, records)
            },
            _ => enter_groups(input, records),
        },
        PassView::ConfigPatching { hash } => enter_groups(
            input,
            recorded(records, event, Category::Config, input.host, hash),
        ),
        PassView::GroupsFetching { hash } => match event {
            EventView::Groups(Some(theirs)) => Turn {
                state: PassView::GroupsWriting { hash },
                step: StepView::WriteGroups(group_changes(input.main_groups, theirs)),
                records,
            },
            _ => enter_lists(input, records),
        },
        PassView::GroupsWriting { hash } => enter_lists(
            input,
            recorded(records, event, Category::Groups, input.host, hash),
        ),
        PassView::ListsFetching { hash } => match event {
            EventView::GroupsAndLists(Some((their_groups, their_lists))) => {
                let plan = list_changes(
                    wanted_lists(
                        input.main_lists,
                        input.main_names,
                        name_ids(their_groups),
                        input.options matches Some(options) && options.sync_groups == Some(true),
                    ),
                    their_lists,
                );
                Turn {
                    state: PassView::ListsWriting { hash, writes: plan.len() as usize },
                    step: StepView::WriteLists(plan),
                    records,
                }
            },
            _ => finish(records),
        },
        PassView::ListsWriting { hash, writes } => if event == EventView::Carried(true) {
            let after = recorded(records, event, Category::Lists, input.host, hash);
            if writes > 0 && input.update_gravity == Some(true) {
                Turn { state: PassView::Gravity, step: StepView::TriggerGravity, records: after }
            } else {
                finish(after)
            }
        } else {
            finish(records)
        },
        PassView::Gravity => finish(records),
        PassView::Finished => finish(records),
    }
}

fn begin_lists(instance: &InstanceConfig, payload: &ApiSyncPayload, tracker: &HashTracker) -> (next: (
    SecondaryPass,
    PassStep,
))
    ensures
        next.0@ == enter_lists(pass_input(*instance, *payload), tracker@).state,
        next.1@ == enter_lists(pass_input(*instance, *payload), tracker@).step,
{
    match &instance.api_sync_options {
        Some(options) => match sync_lists_for_secondary(
            options,
            payload,
            tracker,
            instance.host.as_str(),
        ) {
            CollectionSync::Reconcile { hash } => (
                SecondaryPass::ListsFetching { hash },
                PassStep::FetchGroupsAndLists,
            ),
            _ => (SecondaryPass::Finished, PassStep::Finished),
        },
        None => (SecondaryPass::Finished, PassStep::Finished),
    }
}

fn begin_groups(instance: &InstanceConfig, payload: &ApiSyncPayload, tracker: &HashTracker) -> (next:
    (SecondaryPass, PassStep))
    ensures
        next.0@ == enter_groups(pass_input(*instance, *payload), tracker@).state,
        next.1@ == enter_groups(pass_input(*instance, *payload), tracker@).step,
{
    match &instance.api_sync_options {
        Some(options) => match sync_groups_for_secondary(
            options,
            payload,
            tracker,
            instance.host.as_str(),
        ) {
            CollectionSync::Reconcile { hash } => (
                SecondaryPass::GroupsFetching { hash },
                PassStep::FetchGroups,
            ),
            _ => begin_lists(instance, payload, tracker),
        },
        None => (SecondaryPass::Finished, PassStep::Finished),
    }
}

fn begin_config(instance: &InstanceConfig, payload: &ApiSyncPayload, tracker: &HashTracker) -> (next:
    (SecondaryPass, PassStep))
    ensures
        next.0@ == enter_config(pass_input(*instance, *payload), tracker@).state,
        next.1@ == enter_config(pass_input(*instance, *payload), tracker@).step,
{
    match &instance.api_sync_options {
        Some(options) => match sync_config_for_secondary(options, &payload.main_config) {
            ConfigSync::Filtered(part) => {
                let copy = part.deep_copy();
                (SecondaryPass::ConfigHashing { part }, PassStep::HashConfig(copy))
            },
            _ => begin_groups(instance, payload, tracker),
        },
        None => (SecondaryPass::Finished, PassStep::Finished),
    }
}

fn flag_is_set(flag: &Option<bool>) -> (r: bool)
    ensures
        r == (*flag == Some(true)),
{
    match flag {
        Some(value) => *value,
        None => false,
    }
}

impl SecondaryPass {
    /// A pass that has not begun.
    pub fn new() -> (pass: Self)
        ensures
            pass@ == PassView::Start,
    {
        SecondaryPass::Start
    }

    /// Whether the pass is over.
    pub fn is_finished(&self) -> (r: bool)
        ensures
            r == (self@ == PassView::Finished),
    {
        match self {
            SecondaryPass::Finished => true,
            _ => false,
        }
    }

    /// Takes an event and tells what to do next for the secondary. The hash
    /// of a part is recorded when, and only when, the part was applied with
    /// success.
    pub fn advance(
        self,
        event: PassEvent,
        instance: &InstanceConfig,
        payload: &ApiSyncPayload,
        tracker: &mut HashTracker,
    ) -> (next: (SecondaryPass, PassStep))
        ensures
            next.0@ == turn(self@, event@, pass_input(*instance, *payload), old(tracker)@).state,
            next.1@ == turn(self@, event@, pass_input(*instance, *payload), old(tracker)@).step,
            final(tracker)@ == turn(
                self@,
                event@,
                pass_input(*instance, *payload),
                old(tracker)@,
            ).records,
    {
        let host = instance.host.as_str();
        match self {
            SecondaryPass::Start => begin_config(instance, payload, tracker),
            SecondaryPass::ConfigHashing { part } => match event {
                PassEvent::Hashed(Some(hash)) => if needs_apply(
                    tracker,
                    Category::Config,
                    host,
                    hash,
                ) {
                    (SecondaryPass::ConfigPatching { hash }, PassStep::PatchConfig(part))
                } else {
                    begin_groups(instance, payload, tracker)
                },
                _ => begin_groups(instance, payload, tracker),
            },
            SecondaryPass::ConfigPatching { hash } => {
                match event {
                    PassEvent::Carried(true) => {
                        record_applied(tracker, Category::Config, host, hash);
                    },
                    _ => {},
                }
                begin_groups(instance, payload, tracker)
            },
            SecondaryPass::GroupsFetching { hash } => match event {
                PassEvent::Groups(Some(theirs)) => {
                    let plan = sync_groups(payload.main_groups.as_slice(), theirs.as_slice());
                    (SecondaryPass::GroupsWriting { hash }, PassStep::WriteGroups(plan))
                },
                _ => begin_lists(instance, payload, tracker),
            },
            SecondaryPass::GroupsWriting { hash } => {
                match event {
                    PassEvent::Carried(true) => {
                        record_applied(tracker, Category::Groups, host, hash);
                    },
                    _ => {},
                }
                begin_lists(instance, payload, tracker)
            },
            SecondaryPass::ListsFetching { hash } => match event {
                PassEvent::GroupsAndLists(Some((their_groups, their_lists))) => {
                    let with_groups = match &instance.api_sync_options {
                        Some(options) => flag_is_set(&options.sync_groups),
                        None => false,
                    };
                    let plan = sync_lists(
                        payload.main_lists.as_slice(),
                        &payload.main_group_lookup,
                        their_groups.as_slice(),
                        their_lists.as_slice(),
                        with_groups,
                    );
                    (
                        SecondaryPass::ListsWriting { hash, writes: plan.len() },
                        PassStep::WriteLists(plan),
                    )
                },
                _ => (SecondaryPass::Finished, PassStep::Finished),
            },
            SecondaryPass::ListsWriting { hash, writes } => match event {
                PassEvent::Carried(true) => {
                    record_applied(tracker, Category::Lists, host, hash);
                    if gravity_after_lists(writes, instance) {
                        (SecondaryPass::Gravity, PassStep::TriggerGravity)
                    } else {
                        (SecondaryPass::Finished, PassStep::Finished)
                    }
                },
                _ => (SecondaryPass::Finished, PassStep::Finished),
            },
            SecondaryPass::Gravity => (SecondaryPass::Finished, PassStep::Finished),
            SecondaryPass::Finished => (SecondaryPass::Finished, PassStep::Finished),
        }
    }
}

/// The number of events that a pass in this state can still take before it
/// is over.
pub open spec fn events_left(state: PassView) -> nat {
    match state {
        PassView::Start => 9,
        PassView::ConfigHashing { .. } => 8,
        PassView::ConfigPatching { .. } => 7,
        PassView::GroupsFetching { .. } => 6,
        PassView::GroupsWriting { .. } => 5,
        PassView::ListsFetching { .. } => 4,
        PassView::ListsWriting { .. } => 3,
        PassView::Gravity => 2,
        PassView::Finished => 0,
    }
}

/// A pass moves forward only: every event brings it nearer to its end, so
/// that the configuration comes before the groups and the groups before the
/// lists, and the pass is over after nine events at most, whatever they are.
pub proof fn lemma_pass_moves_forward(
    state: PassView,
    event: EventView,
    input: PassInput,
    records: Map<Seq<char>, u64>,
)
    ensures
        state != PassView::Finished ==> events_left(turn(state, event, input, records).state)
            < events_left(state),
        state == PassView::Finished ==> turn(state, event, input, records).state
            == PassView::Finished,
        turn(state, event, input, records).step == StepView::Finished <==> turn(
            state,
            event,
            input,
            records,
        ).state == PassView::Finished,
{
}

/// Failures stay where they occur: whether the configuration was applied
/// with success or not, the groups part that follows is the same; and
/// whether the groups were written with success or not, the lists part that
/// follows is the same.
pub proof fn lemma_failures_are_isolated(
    input: PassInput,
    records: Map<Seq<char>, u64>,
    hash: u64,
    ok: bool,
)
    ensures
        turn(PassView::ConfigPatching { hash }, EventView::Carried(ok), input, records).state
            == enter_groups(input, records).state,
        turn(PassView::ConfigPatching { hash }, EventView::Carried(ok), input, records).step
            == enter_groups(input, records).step,
        turn(PassView::GroupsWriting { hash }, EventView::Carried(ok), input, records).state
            == enter_lists(input, records).state,
        turn(PassView::GroupsWriting { hash }, EventView::Carried(ok), input, records).step
            == enter_lists(input, records).step,
{
    lemma_category_keys_differ(Category::Config, Category::Groups, input.host);
    lemma_category_keys_differ(Category::Config, Category::Lists, input.host);
    lemma_category_keys_differ(Category::Groups, Category::Lists, input.host);
}

/// Change gating: a hash is recorded exactly when its part was applied with
/// success; and while main's groups, or lists, have the hash that is
/// recorded for the secondary, their part of a pass hands out no step: no
/// call is made for them.
pub proof fn lemma_unchanged_parts_make_no_call(
    input: PassInput,
    records: Map<Seq<char>, u64>,
    hash: u64,
)
    ensures
        turn(PassView::GroupsWriting { hash }, EventView::Carried(true), input, records).records
            == records.insert(record_key(category_name(Category::Groups), input.host), hash),
        turn(PassView::GroupsWriting { hash }, EventView::Carried(false), input, records).records
            == records,
        input.groups_hash == Some(hash) && !gate_open(records, Category::Groups, input.host, hash)
            ==> enter_groups(input, records) == enter_lists(input, records),
        input.lists_hash == Some(hash) && !gate_open(records, Category::Lists, input.host, hash)
            ==> enter_lists(input, records) == finish(records),
        !gate_open(records, Category::Config, input.host, hash) ==> turn(
            PassView::ConfigHashing { part: JsonTree::Null },
            EventView::Hashed(Some(hash)),
            input,
            records,
        ) == enter_groups(input, records),
{
}

} // verus!
