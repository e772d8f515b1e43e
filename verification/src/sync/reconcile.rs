use vstd::prelude::*;

verus! {

/// A write that brings one entry of a secondary's collection in line with
/// main. Nothing is ever deleted.
pub enum Change<T> {
    /// The secondary has no entry of this identity: create it.
    Create(T),
    /// The secondary's entry of this identity differs: update it.
    Update(T),
}

/// The entry of `existing` with identity `wanted`; the last one, where
/// several have it.
pub open spec fn entry_of<T, K>(existing: Seq<T>, wanted: K, key: spec_fn(T) -> K) -> Option<T>
    decreases existing.len(),
{
    if existing.len() == 0 {
        None
    } else if key(existing.last()) == wanted {
        Some(existing.last())
    } else {
        entry_of(existing.drop_last(), wanted, key)
    }
}

/// Whether the secondary holds `wanted` as it should be: it has an entry of
/// that identity which agrees with it.
pub open spec fn in_sync<T, K>(
    wanted: T,
    existing: Seq<T>,
    key: spec_fn(T) -> K,
    same: spec_fn(T, T) -> bool,
) -> bool {
    entry_of(existing, key(wanted), key) matches Some(found) && same(wanted, found)
}

/// The write that one wanted entry needs, if any.
pub open spec fn change_for<T, K>(
    wanted: T,
    existing: Seq<T>,
    key: spec_fn(T) -> K,
    same: spec_fn(T, T) -> bool,
) -> Seq<Change<T>> {
    match entry_of(existing, key(wanted), key) {
        Some(found) => if same(wanted, found) {
            Seq::empty()
        } else {
            seq![Change::Update(wanted)]
        },
        None => seq![Change::Create(wanted)],
    }
}

/// The writes that make a secondary's collection hold every wanted entry, in
/// the order of the wanted entries: an update where the entry of that
/// identity differs, a creation where there is none, nothing where it agrees.
pub open spec fn changes<T, K>(
    wanted: Seq<T>,
    existing: Seq<T>,
    key: spec_fn(T) -> K,
    same: spec_fn(T, T) -> bool,
) -> Seq<Change<T>>
    decreases wanted.len(),
{
    if wanted.len() == 0 {
        Seq::empty()
    } else {
        changes(wanted.drop_last(), existing, key, same) + change_for(
            wanted.last(),
            existing,
            key,
            same,
        )
    }
}

/// No two wanted entries have the same identity.
pub open spec fn distinct_keys<T, K>(wanted: Seq<T>, key: spec_fn(T) -> K) -> bool {
    forall|i: int, j: int|
        0 <= i < j < wanted.len() ==> key(#[trigger] wanted[i]) != key(#[trigger] wanted[j])
}

/// What a successful write leaves on the secondary. A creation appends an
/// entry of the wanted identity that agrees with the wanted entry. An update
/// makes every entry of that identity agree with the wanted entry and leaves
/// the others as they were. Fields that the comparison does not read, such as
/// an id that the secondary assigns, may be anything.
pub open spec fn applied<T, K>(
    before: Seq<T>,
    after: Seq<T>,
    change: Change<T>,
    key: spec_fn(T) -> K,
    same: spec_fn(T, T) -> bool,
) -> bool {
    match change {
        Change::Create(wanted) => {
            &&& after.len() == before.len() + 1
            &&& after.drop_last() == before
            &&& key(after.last()) == key(wanted)
            &&& same(wanted, after.last())
        },
        Change::Update(wanted) => {
            &&& after.len() == before.len()
            &&& forall|i: int|
                0 <= i < before.len() ==> if key(#[trigger] before[i]) == key(wanted) {
                    key(after[i]) == key(wanted) && same(wanted, after[i])
                } else {
                    after[i] == before[i]
                }
        },
    }
}

/// Whether `states` are the collections that a secondary holds before, between
/// and after the given writes, each of them successful.
pub open spec fn is_run<T, K>(
    states: Seq<Seq<T>>,
    writes: Seq<Change<T>>,
    key: spec_fn(T) -> K,
    same: spec_fn(T, T) -> bool,
) -> bool {
    &&& states.len() == writes.len() + 1
    &&& forall|i: int|
        0 <= i < writes.len() ==> applied(
            #[trigger] states[i],
            states[i + 1],
            writes[i],
            key,
            same,
        )
}

pub proof fn lemma_changes_step<T, K>(
    wanted: Seq<T>,
    existing: Seq<T>,
    key: spec_fn(T) -> K,
    same: spec_fn(T, T) -> bool,
    k: int,
)
    requires
        0 <= k < wanted.len(),
    ensures
        changes(wanted.take(k + 1), existing, key, same) == changes(
            wanted.take(k),
            existing,
            key,
            same,
        ) + change_for(wanted[k], existing, key, same),
{
    assert(wanted.take(k + 1).drop_last() =~= wanted.take(k));
}

/// The writes for the first `k` wanted entries are the first of the writes
/// for all of them.
pub proof fn lemma_changes_prefix<T, K>(
    wanted: Seq<T>,
    existing: Seq<T>,
    key: spec_fn(T) -> K,
    same: spec_fn(T, T) -> bool,
    k: int,
)
    requires
        0 <= k <= wanted.len(),
    ensures
        changes(wanted.take(k), existing, key, same).len() <= changes(
            wanted,
            existing,
            key,
            same,
        ).len(),
        changes(wanted.take(k), existing, key, same) == changes(wanted, existing, key, same).take(
            changes(wanted.take(k), existing, key, same).len() as int,
        ),
    decreases wanted.len() - k,
{
    let all = changes(wanted, existing, key, same);
    if k == wanted.len() {
        assert(wanted.take(k) =~= wanted);
        assert(all.take(all.len() as int) =~= all);
    } else {
        lemma_changes_prefix(wanted, existing, key, same, k + 1);
        lemma_changes_step(wanted, existing, key, same, k);
        let shorter = changes(wanted.take(k), existing, key, same);
        let longer = changes(wanted.take(k + 1), existing, key, same);
        assert(shorter =~= longer.take(shorter.len() as int));
        assert(shorter =~= all.take(shorter.len() as int));
    }
}

/// No write is needed exactly where every wanted entry is in sync.
pub proof fn lemma_no_changes<T, K>(
    wanted: Seq<T>,
    existing: Seq<T>,
    key: spec_fn(T) -> K,
    same: spec_fn(T, T) -> bool,
)
    ensures
        changes(wanted, existing, key, same).len() == 0 <==> forall|i: int|
            0 <= i < wanted.len() ==> in_sync(#[trigger] wanted[i], existing, key, same),
    decreases wanted.len(),
{
    if wanted.len() > 0 {
        lemma_no_changes(wanted.drop_last(), existing, key, same);
        if changes(wanted, existing, key, same).len() == 0 {
            assert forall|i: int| 0 <= i < wanted.len() implies in_sync(
                #[trigger] wanted[i],
                existing,
                key,
                same,
            ) by {
                if i < wanted.len() - 1 {
                    assert(wanted.drop_last()[i] == wanted[i]);
                }
            }
        } else {
            if forall|i: int|
                0 <= i < wanted.len() ==> in_sync(#[trigger] wanted[i], existing, key, same) {
                assert forall|i: int| 0 <= i < wanted.drop_last().len() implies in_sync(
                    #[trigger] wanted.drop_last()[i],
                    existing,
                    key,
                    same,
                ) by {
                    assert(wanted.drop_last()[i] == wanted[i]);
                }
                assert(in_sync(wanted[wanted.len() - 1], existing, key, same));
            }
        }
    }
}

/// What an update leaves of the entry of an identity.
pub proof fn lemma_update_effect<T, K>(
    before: Seq<T>,
    after: Seq<T>,
    wanted: T,
    key: spec_fn(T) -> K,
    same: spec_fn(T, T) -> bool,
    other: K,
)
    requires
        applied(before, after, Change::Update(wanted), key, same),
    ensures
        other != key(wanted) ==> entry_of(after, other, key) == entry_of(before, other, key),
        other == key(wanted) && entry_of(before, other, key) is Some ==> (entry_of(
            after,
            other,
            key,
        ) matches Some(found) && same(wanted, found)),
    decreases before.len(),
{
    if before.len() > 0 {
        let n = before.len() - 1;
        assert(before[n] == before.last() && after[n] == after.last());
        assert forall|i: int| 0 <= i < before.drop_last().len() implies if key(
            #[trigger] before.drop_last()[i],
        ) == key(wanted) {
            key(after.drop_last()[i]) == key(wanted) && same(wanted, after.drop_last()[i])
        } else {
            after.drop_last()[i] == before.drop_last()[i]
        } by {
            assert(before.drop_last()[i] == before[i]);
            assert(after.drop_last()[i] == after[i]);
        }
        lemma_update_effect(before.drop_last(), after.drop_last(), wanted, key, same, other);
    }
}

/// After the writes for the first `k` wanted entries, each of these entries
/// is in sync, and the entries of all other identities are as they were.
proof fn lemma_run_prefix<T, K>(
    wanted: Seq<T>,
    existing: Seq<T>,
    key: spec_fn(T) -> K,
    same: spec_fn(T, T) -> bool,
    states: Seq<Seq<T>>,
    k: int,
)
    requires
        distinct_keys(wanted, key),
        is_run(states, changes(wanted, existing, key, same), key, same),
        states[0] == existing,
        0 <= k <= wanted.len(),
    ensures
        changes(wanted.take(k), existing, key, same).len() <= changes(
            wanted,
            existing,
            key,
            same,
        ).len(),
        forall|i: int|
            0 <= i < k ==> in_sync(
                #[trigger] wanted[i],
                states[changes(wanted.take(k), existing, key, same).len() as int],
                key,
                same,
            ),
        forall|other: K|
            (forall|i: int| 0 <= i < k ==> key(#[trigger] wanted[i]) != other) ==> #[trigger] entry_of(
                states[changes(wanted.take(k), existing, key, same).len() as int],
                other,
                key,
            ) == entry_of(existing, other, key),
    decreases k,
{
    let all = changes(wanted, existing, key, same);
    lemma_changes_prefix(wanted, existing, key, same, k);
    if k == 0 {
        assert(wanted.take(0) =~= Seq::<T>::empty());
    } else {
        lemma_run_prefix(wanted, existing, key, same, states, k - 1);
        lemma_changes_step(wanted, existing, key, same, k - 1);
        let done = changes(wanted.take(k - 1), existing, key, same);
        let now = changes(wanted.take(k), existing, key, same);
        let before = states[done.len() as int];
        let after = states[now.len() as int];
        let w = wanted[k - 1];
        let step = change_for(w, existing, key, same);
        assert(now == done + step);
        assert(now == all.take(now.len() as int));
        assert(entry_of(before, key(w), key) == entry_of(existing, key(w), key));
        if step.len() == 0 {
            assert(now =~= done);
        } else {
            assert(step.len() == 1);
            assert(now.len() == done.len() + 1);
            assert(all[done.len() as int] == now[done.len() as int]);
            assert(now[done.len() as int] == step[0]);
            assert(applied(states[done.len() as int], states[done.len() as int + 1], all[done.len() as int], key, same));
            match step[0] {
                Change::Create(c) => {
                    assert(c == w);
                    assert forall|i: int| 0 <= i < k implies in_sync(
                        #[trigger] wanted[i],
                        after,
                        key,
                        same,
                    ) by {
                        if i < k - 1 {
                            assert(key(wanted[i]) != key(w));
                            assert(in_sync(wanted[i], before, key, same));
                        }
                    }
                },
                Change::Update(c) => {
                    assert(c == w);
                    assert forall|i: int| 0 <= i < k implies in_sync(
                        #[trigger] wanted[i],
                        after,
                        key,
                        same,
                    ) by {
                        lemma_update_effect(before, after, w, key, same, key(wanted[i]));
                        if i < k - 1 {
                            assert(key(wanted[i]) != key(w));
                            assert(in_sync(wanted[i], before, key, same));
                        }
                    }
                },
            }
        }
        assert forall|other: K|
            (forall|i: int| 0 <= i < k ==> key(#[trigger] wanted[i]) != other) implies #[trigger] entry_of(
            after,
            other,
            key,
        ) == entry_of(existing, other, key) by {
            assert(key(wanted[k - 1]) != other);
            assert(forall|i: int| 0 <= i < k - 1 ==> key(#[trigger] wanted[i]) != other);
            assert(entry_of(before, other, key) == entry_of(existing, other, key));
            if step.len() > 0 {
                match step[0] {
                    Change::Create(c) => {
                        assert(after.drop_last() == before);
                        assert(key(after.last()) == key(w));
                        assert(entry_of(after, other, key) == entry_of(before, other, key));
                    },
                    Change::Update(c) => {
                        lemma_update_effect(before, after, w, key, same, other);
                    },
                }
            } else {
                assert(after == before);
            }
        }
    }
}

/// Reconciliation converges: once the writes of one pass have all succeeded,
/// a second pass over the same wanted entries finds nothing to write.
/// `states` are the secondary's collections before, between and after the
/// writes; the wanted entries have distinct identities.
pub proof fn lemma_reconcile_converges<T, K>(
    wanted: Seq<T>,
    existing: Seq<T>,
    key: spec_fn(T) -> K,
    same: spec_fn(T, T) -> bool,
    states: Seq<Seq<T>>,
)
    requires
        distinct_keys(wanted, key),
        is_run(states, changes(wanted, existing, key, same), key, same),
        states[0] == existing,
    ensures
        changes(wanted, states.last(), key, same) == Seq::<Change<T>>::empty(),
{
    lemma_run_prefix(wanted, existing, key, same, states, wanted.len() as int);
    assert(wanted.take(wanted.len() as int) =~= wanted);
    lemma_no_changes(wanted, states.last(), key, same);
    assert(changes(wanted, states.last(), key, same) =~= Seq::<Change<T>>::empty());
}

/// A change of one wanted entry, on a secondary that was in sync, needs
/// exactly one write: the update of that entry. `altered` has the identity of
/// the entry that it replaces and no longer agrees with the secondary's.
pub proof fn lemma_one_change<T, K>(
    wanted: Seq<T>,
    existing: Seq<T>,
    key: spec_fn(T) -> K,
    same: spec_fn(T, T) -> bool,
    at: int,
    altered: T,
)
    requires
        changes(wanted, existing, key, same).len() == 0,
        0 <= at < wanted.len(),
        key(altered) == key(wanted[at]),
        !in_sync(altered, existing, key, same),
    ensures
        changes(wanted.update(at, altered), existing, key, same) == seq![Change::Update(altered)],
    decreases wanted.len(),
{
    lemma_no_changes(wanted, existing, key, same);
    let n = wanted.len() - 1;
    let next = wanted.update(at, altered);
    if at == n {
        assert(next.drop_last() =~= wanted.drop_last());
        assert(in_sync(wanted[at], existing, key, same));
        assert(changes(next, existing, key, same) =~= seq![Change::Update(altered)]);
    } else {
        assert(next.drop_last() =~= wanted.drop_last().update(at, altered));
        assert(wanted.drop_last()[at] == wanted[at]);
        lemma_one_change(wanted.drop_last(), existing, key, same, at, altered);
        assert(in_sync(wanted[n], existing, key, same));
        assert(next.last() == wanted[n]);
        assert(changes(next, existing, key, same) =~= seq![Change::Update(altered)]);
    }
}

} // verus!
