use std::collections::hash_map::DefaultHasher;
use std::hash::Hasher;
use vstd::prelude::*;
use vstd::std_specs::hash::DefaultHasherAdditionalSpecFns;
use vstd::string::{StringExecFns, StringSliceAdditionalSpecFns};

verus! {

/// Milliseconds to wait after a change of the watched file before a cycle
/// starts; changes that arrive meanwhile belong to the same cycle.
pub const FILE_WATCH_DEBOUNCE_MS: u64 = 750;

/// Milliseconds between two write calls to one secondary. The remote API
/// shows no rate limit, so the engine limits itself.
pub const API_WRITE_THROTTLE_MS: u64 = 250;

/// The content hash of a byte string: what a fresh default hasher returns
/// after one write of these bytes.
pub open spec fn content_hash(bytes: Seq<u8>) -> u64 {
    DefaultHasher::spec_finish(seq![bytes])
}

/// The content hash of a snapshot archive.
pub fn teleporter_backup_hash(bytes: &[u8]) -> (hash: u64)
    ensures
        hash == content_hash(bytes@),
{
    let mut hasher = DefaultHasher::new();
    hasher.write(bytes);
    assert(hasher@ =~= seq![bytes@]);
    hasher.finish()
}

/// The content hash of a serialized value: the hash of its UTF-8 bytes.
pub fn hash_value(serialized: &str) -> (hash: u64)
    ensures
        hash == content_hash(serialized.spec_bytes()),
{
    teleporter_backup_hash(serialized.as_bytes())
}

/// The content hash of a serialized configuration tree.
pub fn hash_config(serialized_config: &str) -> (hash: u64)
    ensures
        hash == content_hash(serialized_config.spec_bytes()),
{
    hash_value(serialized_config)
}

/// The key under which the hash of `category` for the secondary at `host` is
/// recorded: the category, a colon and the host.
pub open spec fn record_key(category: Seq<char>, host: Seq<char>) -> Seq<char> {
    category + seq![':'] + host
}

/// The record key of a category and a host.
pub fn hash_key(category: &str, host: &str) -> (key: String)
    ensures
        key@ == record_key(category@, host@),
{
    let mut key = category.to_owned();
    key.append(":");
    key.append(host);
    proof {
        reveal_strlit(":");
        assert(":"@ =~= seq![':']);
    }
    key
}

/// The records that a list of entries stands for: a later entry replaces an
/// earlier one of the same key.
pub open spec fn records_of(entries: Seq<(String, u64)>) -> Map<Seq<char>, u64>
    decreases entries.len(),
{
    if entries.len() == 0 {
        Map::empty()
    } else {
        records_of(entries.drop_last()).insert(entries.last().0@, entries.last().1)
    }
}

proof fn lemma_records_push(entries: Seq<(String, u64)>, entry: (String, u64))
    ensures
        records_of(entries.push(entry)) == records_of(entries).insert(entry.0@, entry.1),
{
    assert(entries.push(entry).drop_last() =~= entries);
}

/// The last-applied content hash of each logical unit, by its key.
///
/// A key is absent until the first successful apply; `update` is called only
/// after a successful apply, so a failed apply is tried again in the next
/// cycle.
pub struct HashTracker {
    entries: Vec<(String, u64)>,
}

impl View for HashTracker {
    type V = Map<Seq<char>, u64>;

    closed spec fn view(&self) -> Map<Seq<char>, u64> {
        records_of(self.entries@)
    }
}

impl HashTracker {
    /// A tracker without records.
    pub fn new() -> (tracker: Self)
        ensures
            tracker@ == Map::<Seq<char>, u64>::empty(),
    {
        HashTracker { entries: Vec::new() }
    }

    /// Whether the unit under `key` has changed since its last successful
    /// apply: no hash is recorded for the key, or another one.
    pub fn has_changed(&self, key: &str, current_hash: u64) -> (changed: bool)
        ensures
            changed == !(self@.contains_key(key@) && self@[key@] == current_hash),
    {
        let wanted = key.to_owned();
        let mut i: usize = self.entries.len();
        assert(self.entries@.take(i as int) =~= self.entries@);
        while i > 0
            invariant
                i <= self.entries.len(),
                wanted@ == key@,
                records_of(self.entries@).contains_key(key@) == records_of(
                    self.entries@.take(i as int),
                ).contains_key(key@),
                records_of(self.entries@).contains_key(key@) ==> records_of(self.entries@)[key@]
                    == records_of(self.entries@.take(i as int))[key@],
            decreases i,
        {
            i -= 1;
            assert(self.entries@.take(i + 1).drop_last() =~= self.entries@.take(i as int));
            if self.entries[i].0 == wanted {
                return self.entries[i].1 != current_hash;
            }
        }
        true
    }

    /// Records `hash` as the last-applied hash of the unit under `key`,
    /// whatever was recorded before. No other record changes.
    pub fn update(&mut self, key: &str, hash: u64)
        ensures
            final(self)@ == old(self)@.insert(key@, hash),
    {
        let wanted = key.to_owned();
        let mut kept: Vec<(String, u64)> = Vec::new();
        let mut i: usize = 0;
        while i < self.entries.len()
            invariant
                i <= self.entries.len(),
                wanted@ == key@,
                records_of(kept@) == records_of(self.entries@.take(i as int)).remove(key@),
            decreases self.entries.len() - i,
        {
            assert(self.entries@.take(i + 1).drop_last() =~= self.entries@.take(i as int));
            if !(self.entries[i].0 == wanted) {
                let ghost before = kept@;
                kept.push((self.entries[i].0.clone(), self.entries[i].1));
                proof {
                    lemma_records_push(before, kept@.last());
                    assert(records_of(kept@) =~= records_of(self.entries@.take(i + 1)).remove(key@));
                }
            } else {
                assert(records_of(kept@) =~= records_of(self.entries@.take(i + 1)).remove(key@));
            }
            i += 1;
        }
        assert(self.entries@.take(i as int) =~= self.entries@);
        let ghost before = kept@;
        kept.push((wanted, hash));
        proof {
            lemma_records_push(before, kept@.last());
            assert(records_of(kept@) =~= old(self)@.insert(key@, hash));
        }
        self.entries = kept;
    }
}

/// What became of the search for a running upgrade of the main instance.
pub enum ProcessProbe {
    /// The search could not be run.
    NotRun,
    /// The search ran and ended with the given exit code, if it had one, and
    /// with or without output.
    Ran { exit_code: Option<i32>, printed: bool },
}

/// Whether an upgrade of the main instance is in progress, as far as the
/// search shows: it ended with success and named a process.
pub open spec fn upgrade_seen(probe: ProcessProbe) -> bool {
    probe matches ProcessProbe::Ran { exit_code, printed } && exit_code == Some(0i32) && printed
}

/// Whether an upgrade of the main instance is in progress. A search that
/// failed or found nothing counts as no upgrade.
pub fn is_pihole_update_running(probe: &ProcessProbe) -> (running: bool)
    ensures
        running == upgrade_seen(*probe),
{
    match probe {
        ProcessProbe::NotRun => false,
        ProcessProbe::Ran { exit_code, printed } => match exit_code {
            Some(code) => *code == 0 && *printed,
            None => false,
        },
    }
}

/// A successful update is remembered: right after `update` the same hash
/// counts as unchanged, and records under other keys are as before.
pub proof fn lemma_update_then_unchanged(
    records: Map<Seq<char>, u64>,
    key: Seq<char>,
    hash: u64,
    other: Seq<char>,
)
    ensures
        records.insert(key, hash).contains_key(key) && records.insert(key, hash)[key] == hash,
        other != key ==> records.insert(key, hash).contains_key(other) == records.contains_key(
            other,
        ),
        other != key && records.contains_key(other) ==> records.insert(key, hash)[other]
            == records[other],
{
}

} // verus!
