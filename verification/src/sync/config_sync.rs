use crate::config::{
    ApiSyncOptions, ConfigApiSyncMode, ConfigSyncOptions, InstanceConfig, SyncMode,
};
use crate::json::JsonValue;
use crate::pihole::client::{Group, List};
use crate::pihole::config_filter::{filtered, ConfigFilter, FilterMode};
use crate::sync::util::{hash_key, record_key, HashTracker};
use std::collections::HashMap;
use vstd::prelude::*;

verus! {

/// What has to be fetched from main for the secondaries in API mode.
#[derive(Debug, Clone, Copy, PartialEq, Eq)]
pub struct ApiSyncNeeds {
    pub config: bool,
    pub groups: bool,
    pub lists: bool,
}

impl Default for ApiSyncNeeds {
    fn default() -> (needs: Self)
        ensures
            needs == (ApiSyncNeeds { config: false, groups: false, lists: false }),
    {
        ApiSyncNeeds { config: false, groups: false, lists: false }
    }
}

impl ApiSyncNeeds {
    /// Whether anything has to be fetched.
    pub fn any(&self) -> (r: bool)
        ensures
            r == (self.config || self.groups || self.lists),
    {
        self.config || self.groups || self.lists
    }
}

/// What main holds for the secondaries in API mode, fetched once per cycle.
#[derive(Debug)]
pub struct ApiSyncPayload {
    pub main_config: Option<JsonValue>,
    pub main_groups: Vec<Group>,
    pub main_group_lookup: HashMap<u32, String>,
    pub main_lists: Vec<List>,
    pub main_groups_hash: Option<u64>,
    pub main_lists_hash: Option<u64>,
}

/// Whether a secondary is synchronised by calls of the API.
pub open spec fn is_api(instance: InstanceConfig) -> bool {
    instance.sync_mode == Some(SyncMode::Api)
}

/// Whether a secondary receives a part of main's configuration.
pub open spec fn wants_config(instance: InstanceConfig) -> bool {
    is_api(instance) && (instance.api_sync_options matches Some(options) && options.sync_config
        is Some)
}

/// Whether a secondary receives main's groups.
pub open spec fn wants_groups(instance: InstanceConfig) -> bool {
    is_api(instance) && (instance.api_sync_options matches Some(options) && options.sync_groups
        == Some(true))
}

/// Whether a secondary receives main's lists.
pub open spec fn wants_lists(instance: InstanceConfig) -> bool {
    is_api(instance) && (instance.api_sync_options matches Some(options) && options.sync_lists
        == Some(true))
}

/// What has to be fetched from main: each kind that some secondary in API
/// mode receives, and the groups also where lists are fetched, whose
/// memberships go by group name.
pub open spec fn api_needs(secondaries: Seq<InstanceConfig>) -> ApiSyncNeeds {
    let lists = exists|i: int| 0 <= i < secondaries.len() && wants_lists(#[trigger] secondaries[i]);
    ApiSyncNeeds {
        config: exists|i: int|
            0 <= i < secondaries.len() && wants_config(#[trigger] secondaries[i]),
        groups: lists || exists|i: int|
            0 <= i < secondaries.len() && wants_groups(#[trigger] secondaries[i]),
        lists,
    }
}

/// Whether a secondary is synchronised by calls of the API.
pub fn mode_is_api(instance: &InstanceConfig) -> (r: bool)
    ensures
        r == is_api(*instance),
{
    match instance.sync_mode {
        Some(SyncMode::Api) => true,
        _ => false,
    }
}

fn flag_set(flag: &Option<bool>) -> (r: bool)
    ensures
        r == (*flag == Some(true)),
{
    match flag {
        Some(value) => *value,
        None => false,
    }
}

/// What has to be fetched from main for these secondaries.
pub fn determine_api_sync_needs(secondaries: &[InstanceConfig]) -> (needs: ApiSyncNeeds)
    ensures
        needs == api_needs(secondaries@),
{
    let mut config = false;
    let mut groups = false;
    let mut lists = false;
    let mut i: usize = 0;
    while i < secondaries.len()
        invariant
            i <= secondaries.len(),
            config == exists|k: int| 0 <= k < i && wants_config(#[trigger] secondaries@[k]),
            groups == exists|k: int| 0 <= k < i && wants_groups(#[trigger] secondaries@[k]),
            lists == exists|k: int| 0 <= k < i && wants_lists(#[trigger] secondaries@[k]),
        decreases secondaries.len() - i,
    {
        let instance = &secondaries[i];
        if mode_is_api(instance) {
            match &instance.api_sync_options {
                Some(options) => {
                    if options.sync_config.is_some() {
                        config = true;
                    }
                    if flag_set(&options.sync_groups) {
                        groups = true;
                    }
                    if flag_set(&options.sync_lists) {
                        lists = true;
                    }
                },
                None => {},
            }
        }
        i += 1;
    }
    if lists {
        groups = true;
    }
    ApiSyncNeeds { config, groups, lists }
}

/// The secondaries that the API pass works on, by their positions: those in
/// API mode that have options.
pub open spec fn is_api_target(instance: InstanceConfig) -> bool {
    is_api(instance) && instance.api_sync_options is Some
}

/// The positions of the secondaries that an API pass works on, in their
/// order. There are none where nothing is needed from main.
pub fn sync_config_api(secondaries: &[InstanceConfig], needs: &ApiSyncNeeds) -> (targets: Vec<usize>)
    ensures
        forall|k: int| 0 <= k < targets@.len() ==> targets@[k] < secondaries@.len(),
        forall|k: int, l: int| 0 <= k < l < targets@.len() ==> targets@[k] < targets@[l],
        forall|i: int|
            0 <= i < secondaries@.len() ==> (targets@.contains(i as usize) <==> (needs.config
                || needs.groups || needs.lists) && is_api_target(#[trigger] secondaries@[i])),
{
    let mut targets: Vec<usize> = Vec::new();
    if !needs.any() {
        return targets;
    }
    let mut i: usize = 0;
    while i < secondaries.len()
        invariant
            i <= secondaries.len(),
            needs.config || needs.groups || needs.lists,
            forall|k: int| 0 <= k < targets@.len() ==> targets@[k] < i,
            forall|k: int, l: int| 0 <= k < l < targets@.len() ==> targets@[k] < targets@[l],
            forall|j: int|
                0 <= j < i ==> (targets@.contains(j as usize) <==> is_api_target(
                    #[trigger] secondaries@[j],
                )),
        decreases secondaries.len() - i,
    {
        let ghost before = targets@;
        if mode_is_api(&secondaries[i]) && secondaries[i].api_sync_options.is_some() {
            targets.push(i);
            assert(targets@[targets@.len() - 1] == i);
        }
        proof {
            assert forall|j: int| 0 <= j < i + 1 implies (targets@.contains(j as usize)
                <==> is_api_target(#[trigger] secondaries@[j])) by {
                if before.contains(j as usize) {
                    let k = choose|k: int| 0 <= k < before.len() && before[k] == j as usize;
                    assert(targets@[k] == j as usize);
                }
                if targets@.contains(j as usize) && j < i {
                    let k = choose|k: int| 0 <= k < targets@.len() && targets@[k] == j as usize;
                    assert(before[k] == j as usize);
                }
            }
        }
        i += 1;
    }
    targets
}

/// The logical units of a secondary whose last-applied hashes are recorded.
#[derive(Debug, Clone, Copy, PartialEq, Eq)]
pub enum Category {
    Config,
    Groups,
    Lists,
}

/// The name of a category in record keys.
pub open spec fn category_name(category: Category) -> Seq<char> {
    match category {
        Category::Config => "config"@,
        Category::Groups => "groups"@,
        Category::Lists => "lists"@,
    }
}

/// Whether the unit `category` of the secondary at `host` has to be applied:
/// no hash is recorded for it, or another one than `hash`.
pub open spec fn gate_open(
    records: Map<Seq<char>, u64>,
    category: Category,
    host: Seq<char>,
    hash: u64,
) -> bool {
    let key = record_key(category_name(category), host);
    !(records.contains_key(key) && records[key] == hash)
}

impl Category {
    /// The name of the category in record keys.
    pub fn name(&self) -> (name: &'static str)
        ensures
            name@ == category_name(*self),
    {
        match self {
            Category::Config => "config",
            Category::Groups => "groups",
            Category::Lists => "lists",
        }
    }
}

/// Whether the unit `category` of the secondary at `host`, whose content on
/// main has the hash `hash`, has to be applied.
pub fn needs_apply(tracker: &HashTracker, category: Category, host: &str, hash: u64) -> (r: bool)
    ensures
        r == gate_open(tracker@, category, host@, hash),
{
    let key = hash_key(category.name(), host);
    tracker.has_changed(key.as_str(), hash)
}

/// Records that the unit `category` of the secondary at `host` was applied
/// with the hash `hash`. To be called after a successful apply only.
pub fn record_applied(tracker: &mut HashTracker, category: Category, host: &str, hash: u64)
    ensures
        final(tracker)@ == old(tracker)@.insert(record_key(category_name(category), host@), hash),
{
    let key = hash_key(category.name(), host);
    tracker.update(key.as_str(), hash);
}

/// The filter mode of a configured mode: paths are included where no mode is
/// named.
pub open spec fn filter_mode_of(mode: Option<ConfigApiSyncMode>) -> FilterMode {
    match mode {
        Some(ConfigApiSyncMode::Exclude) => FilterMode::OptOut,
        _ => FilterMode::OptIn,
    }
}

/// The paths of a configured filter.
pub open spec fn filter_paths(options: ConfigSyncOptions) -> Set<Seq<char>> {
    options.filter_keys@.map_values(|s: String| s@).to_set()
}

/// What the configuration part of a secondary's pass comes to.
#[derive(Debug)]
pub enum ConfigSync {
    /// The secondary receives no configuration.
    NotRequested,
    /// Main's configuration could not be fetched.
    NoMainConfig,
    /// The part of main's configuration that the secondary receives. It is
    /// applied where its hash is not the last-applied one.
    Filtered(JsonValue),
}

/// The configuration part of a secondary's pass: the part of main's
/// configuration that the secondary's filter keeps.
pub fn sync_config_for_secondary(options: &ApiSyncOptions, main_config: &Option<JsonValue>) -> (r:
    ConfigSync)
    ensures
        match options.sync_config {
            None => r is NotRequested,
            Some(filter) => match *main_config {
                None => r is NoMainConfig,
                Some(config) => r matches ConfigSync::Filtered(part) && part@ == filtered(
                    config@,
                    filter_paths(filter),
                    filter_mode_of(filter.mode),
                ),
            },
        },
{
    match &options.sync_config {
        None => ConfigSync::NotRequested,
        Some(filter) => match main_config {
            None => ConfigSync::NoMainConfig,
            Some(config) => {
                let mode = match filter.mode {
                    Some(ConfigApiSyncMode::Exclude) => FilterMode::OptOut,
                    _ => FilterMode::OptIn,
                };
                let config_filter = ConfigFilter::new(filter.filter_keys.as_slice(), mode);
                ConfigSync::Filtered(config_filter.filter_json(config.deep_copy()))
            },
        },
    }
}

/// What the groups part or the lists part of a secondary's pass comes to.
#[derive(Debug, Clone, Copy, PartialEq, Eq)]
pub enum CollectionSync {
    /// The secondary does not receive this collection.
    NotRequested,
    /// Main's collection is empty or could not be fetched.
    NothingFetched,
    /// Main's collection could not be hashed.
    HashUnavailable,
    /// Main's collection has the last-applied hash: no call is made.
    Unchanged,
    /// The collection is reconciled; after success `hash` is recorded.
    Reconcile { hash: u64 },
}

/// What a collection part of a pass comes to.
pub open spec fn collection_sync(
    requested: Option<bool>,
    fetched: nat,
    hash: Option<u64>,
    records: Map<Seq<char>, u64>,
    category: Category,
    host: Seq<char>,
) -> CollectionSync {
    if requested != Some(true) {
        CollectionSync::NotRequested
    } else if fetched == 0 {
        CollectionSync::NothingFetched
    } else {
        match hash {
            None => CollectionSync::HashUnavailable,
            Some(h) => if gate_open(records, category, host, h) {
                CollectionSync::Reconcile { hash: h }
            } else {
                CollectionSync::Unchanged
            },
        }
    }
}

fn decide_collection(
    requested: &Option<bool>,
    fetched: usize,
    hash: Option<u64>,
    tracker: &HashTracker,
    category: Category,
    host: &str,
) -> (r: CollectionSync)
    ensures
        r == collection_sync(*requested, fetched as nat, hash, tracker@, category, host@),
{
    if !flag_set(requested) {
        CollectionSync::NotRequested
    } else if fetched == 0 {
        CollectionSync::NothingFetched
    } else {
        match hash {
            None => CollectionSync::HashUnavailable,
            Some(h) => if needs_apply(tracker, category, host, h) {
                CollectionSync::Reconcile { hash: h }
            } else {
                CollectionSync::Unchanged
            },
        }
    }
}

/// The groups part of the pass of the secondary at `host`.
pub fn sync_groups_for_secondary(
    options: &ApiSyncOptions,
    payload: &ApiSyncPayload,
    tracker: &HashTracker,
    host: &str,
) -> (r: CollectionSync)
    ensures
        r == collection_sync(
            options.sync_groups,
            payload.main_groups@.len(),
            payload.main_groups_hash,
            tracker@,
            Category::Groups,
            host@,
        ),
{
    decide_collection(
        &options.sync_groups,
        payload.main_groups.len(),
        payload.main_groups_hash,
        tracker,
        Category::Groups,
        host,
    )
}

/// The lists part of the pass of the secondary at `host`.
pub fn sync_lists_for_secondary(
    options: &ApiSyncOptions,
    payload: &ApiSyncPayload,
    tracker: &HashTracker,
    host: &str,
) -> (r: CollectionSync)
    ensures
        r == collection_sync(
            options.sync_lists,
            payload.main_lists@.len(),
            payload.main_lists_hash,
            tracker@,
            Category::Lists,
            host@,
        ),
{
    decide_collection(
        &options.sync_lists,
        payload.main_lists.len(),
        payload.main_lists_hash,
        tracker,
        Category::Lists,
        host,
    )
}

/// Whether a secondary rebuilds its lists after its lists were reconciled:
/// where a write was made and the secondary asks for the rebuild.
pub fn gravity_after_lists(writes: usize, instance: &InstanceConfig) -> (r: bool)
    ensures
        r == (writes > 0 && instance.update_gravity == Some(true)),
{
    writes > 0 && flag_set(&instance.update_gravity)
}

/// Change gating: once a unit was applied with a hash and the hash was
/// recorded, the same hash for the same unit opens no gate, so that the next
/// attempt makes no write call; and the record leaves the gates of the other
/// units of that secondary as they were.
pub proof fn lemma_same_hash_is_skipped(
    records: Map<Seq<char>, u64>,
    category: Category,
    host: Seq<char>,
    hash: u64,
    other: Category,
    other_hash: u64,
)
    ensures
        !gate_open(
            records.insert(record_key(category_name(category), host), hash),
            category,
            host,
            hash,
        ),
        collection_sync(
            Some(true),
            1,
            Some(hash),
            records.insert(record_key(category_name(category), host), hash),
            category,
            host,
        ) == CollectionSync::Unchanged,
        other != category ==> gate_open(
            records.insert(record_key(category_name(category), host), hash),
            other,
            host,
            other_hash,
        ) == gate_open(records, other, host, other_hash),
{
    if other != category {
        lemma_category_keys_differ(category, other, host);
    }
}

/// The record keys of two categories of one host differ.
pub proof fn lemma_category_keys_differ(a: Category, b: Category, host: Seq<char>)
    requires
        a != b,
    ensures
        record_key(category_name(a), host) != record_key(category_name(b), host),
{
    reveal_strlit("config");
    reveal_strlit("groups");
    reveal_strlit("lists");
    let ka = record_key(category_name(a), host);
    let kb = record_key(category_name(b), host);
    assert(ka[0] == category_name(a)[0]);
    assert(kb[0] == category_name(b)[0]);
}

} // verus!
