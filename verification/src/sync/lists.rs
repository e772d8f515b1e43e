use crate::order::{
    key_views, lemma_stable_order, positions, ranking, ranking_of, text_eq, Key,
};
use crate::path::{append_decimal, chars_of, decimal, push_decimal};
use crate::pihole::client::{
    copy_text, group_views, list_views, same_text, text_of, Group, GroupView, List, ListView,
};
use crate::sync::reconcile::{
    changes, distinct_keys, entry_of, is_run, lemma_changes_step, lemma_reconcile_converges,
    Change,
};
use std::collections::HashMap;
use vstd::prelude::*;
use vstd::string::StringExecFns;

verus! {

broadcast use vstd::std_specs::hash::group_hash_axioms;

/// The names that a table from group id to name holds.
pub open spec fn lookup_names(lookup: Map<u32, String>) -> Map<u32, Seq<char>> {
    Map::new(|id: u32| lookup.contains_key(id), |id: u32| lookup[id]@)
}

/// The names of main's groups by their ids. A group without an id has no
/// entry; of two groups with one id the later counts.
pub open spec fn id_names(groups: Seq<GroupView>) -> Map<u32, Seq<char>>
    decreases groups.len(),
{
    if groups.len() == 0 {
        Map::empty()
    } else {
        match groups.last().id {
            Some(id) => id_names(groups.drop_last()).insert(id, groups.last().name),
            None => id_names(groups.drop_last()),
        }
    }
}

/// The ids of a secondary's groups by their names. A group without an id has
/// no entry; of two groups with one name the later counts.
pub open spec fn name_ids(groups: Seq<GroupView>) -> Map<Seq<char>, u32>
    decreases groups.len(),
{
    if groups.len() == 0 {
        Map::empty()
    } else {
        match groups.last().id {
            Some(id) => name_ids(groups.drop_last()).insert(groups.last().name, id),
            None => name_ids(groups.drop_last()),
        }
    }
}

/// The table from id to name of the groups that have an id.
pub fn build_group_lookup(groups: &[Group]) -> (lookup: HashMap<u32, String>)
    ensures
        lookup_names(lookup@) == id_names(group_views(groups@)),
{
    let ghost all = group_views(groups@);
    let mut lookup: HashMap<u32, String> = HashMap::new();
    let mut i: usize = 0;
    assert(lookup_names(lookup@) =~= id_names(all.take(0)));
    while i < groups.len()
        invariant
            i <= groups.len(),
            all == group_views(groups@),
            lookup_names(lookup@) == id_names(all.take(i as int)),
        decreases groups.len() - i,
    {
        assert(all.take(i + 1).drop_last() =~= all.take(i as int));
        assert(all.take(i + 1).last() == groups@[i as int]@);
        let ghost before = lookup@;
        match groups[i].id {
            Some(id) => {
                lookup.insert(id, groups[i].name.clone());
                assert(lookup_names(lookup@) =~= lookup_names(before).insert(
                    id,
                    groups@[i as int].name@,
                ));
            },
            None => {},
        }
        i += 1;
    }
    assert(all.take(groups.len() as int) =~= all);
    lookup
}

/// The name under which a group of main is looked up on a secondary: its
/// name on main, or `id:` and its id where main's table has no such group.
pub open spec fn group_name(main_names: Map<u32, Seq<char>>, id: u32) -> Seq<char> {
    if main_names.contains_key(id) {
        main_names[id]
    } else {
        seq!['i', 'd', ':'] + decimal(id as nat)
    }
}

/// The id on the secondary of main's group `id`: that of the secondary's
/// group of the same name; the default group 0 where the secondary has none.
pub open spec fn resolved(
    id: u32,
    main_names: Map<u32, Seq<char>>,
    secondary_ids: Map<Seq<char>, u32>,
) -> u32 {
    let name = group_name(main_names, id);
    if secondary_ids.contains_key(name) {
        secondary_ids[name]
    } else {
        0
    }
}

/// The groups of a list as they count: a list without groups is in the
/// default group 0.
pub open spec fn raw_groups(groups: Seq<u32>) -> Seq<u32> {
    if groups.len() == 0 {
        seq![0u32]
    } else {
        groups
    }
}

/// The ids of the groups that a list of main is to have on a secondary.
/// Memberships go by group name, never by main's ids. Where the secondary's
/// groups are not synchronised and main's list is in any group but the
/// default one, the list goes to the default group alone.
pub open spec fn desired_ids(
    groups: Seq<u32>,
    main_names: Map<u32, Seq<char>>,
    secondary_ids: Map<Seq<char>, u32>,
    sync_groups: bool,
) -> Set<u32> {
    let raw = raw_groups(groups);
    if !sync_groups && exists|i: int| 0 <= i < raw.len() && raw[i] != 0 {
        set![0u32]
    } else {
        Set::new(
            |id: u32|
                exists|i: int|
                    0 <= i < raw.len() && #[trigger] resolved(raw[i], main_names, secondary_ids)
                        == id,
        )
    }
}

/// Strictly ascending: sorted and without duplicates.
pub open spec fn ascending(ids: Seq<u32>) -> bool {
    forall|i: int, j: int| 0 <= i < j < ids.len() ==> ids[i] < ids[j]
}

/// The ascending list of the members of a finite set of ids.
pub open spec fn sorted_ids(ids: Set<u32>) -> Seq<u32> {
    choose|list: Seq<u32>| ascending(list) && list.to_set() == ids
}

/// An ascending list is determined by its members.
pub proof fn lemma_ascending_unique(a: Seq<u32>, b: Seq<u32>)
    requires
        ascending(a),
        ascending(b),
        a.to_set() == b.to_set(),
    ensures
        a == b,
    decreases a.len(),
{
    if a.len() == 0 {
        if b.len() > 0 {
            assert(b.contains(b[0]));
            assert(b.to_set().contains(b[0]));
            assert(a.contains(b[0]));
        }
        assert(a =~= b);
    } else {
        assert(a.contains(a.last()));
        assert(b.to_set().contains(a.last()));
        assert(b.contains(a.last()));
        assert(b.len() > 0);
        assert(b.contains(b.last()));
        assert(a.to_set().contains(b.last()));
        assert(a.contains(b.last()));
        assert(a.last() == b.last());
        assert forall|x: u32| a.drop_last().to_set().contains(x) <==> b.drop_last().to_set().contains(
            x,
        ) by {
            if a.drop_last().contains(x) {
                let i = choose|i: int| 0 <= i < a.drop_last().len() && a.drop_last()[i] == x;
                assert(a[i] == x);
                assert(a.contains(x));
                assert(b.to_set().contains(x));
                let j = choose|j: int| 0 <= j < b.len() && b[j] == x;
                assert(b.drop_last()[j] == x);
            }
            if b.drop_last().contains(x) {
                let i = choose|i: int| 0 <= i < b.drop_last().len() && b.drop_last()[i] == x;
                assert(b[i] == x);
                assert(b.contains(x));
                assert(a.to_set().contains(x));
                let j = choose|j: int| 0 <= j < a.len() && a[j] == x;
                assert(a.drop_last()[j] == x);
            }
        }
        assert(a.drop_last().to_set() =~= b.drop_last().to_set());
        lemma_ascending_unique(a.drop_last(), b.drop_last());
        assert(a =~= a.drop_last().push(a.last()));
        assert(b =~= b.drop_last().push(b.last()));
    }
}

/// Puts `id` into an ascending list, unless it is there.
pub fn insert_ascending(ids: &mut Vec<u32>, id: u32)
    requires
        ascending(old(ids)@),
    ensures
        ascending(final(ids)@),
        final(ids)@.to_set() == old(ids)@.to_set().insert(id),
{
    let mut p: usize = 0;
    while p < ids.len() && ids[p] < id
        invariant
            p <= ids.len(),
            ids@ == old(ids)@,
            forall|k: int| 0 <= k < p ==> ids@[k] < id,
        decreases ids.len() - p,
    {
        p += 1;
    }
    if p < ids.len() && ids[p] == id {
        assert(ids@.contains(id));
        assert(ids@.to_set() =~= old(ids)@.to_set().insert(id));
    } else {
        let ghost before = ids@;
        ids.insert(p, id);
        assert forall|x: u32| ids@.to_set().contains(x) <==> before.to_set().insert(id).contains(
            x,
        ) by {
            if ids@.contains(x) {
                let i = choose|i: int| 0 <= i < ids@.len() && ids@[i] == x;
                if i < p {
                    assert(before[i] == x);
                } else if i > p {
                    assert(before[i - 1] == x);
                }
            }
            if before.contains(x) {
                let i = choose|i: int| 0 <= i < before.len() && before[i] == x;
                if i < p {
                    assert(ids@[i] == x);
                } else {
                    assert(ids@[i + 1] == x);
                }
            }
            if x == id {
                assert(ids@[p as int] == x);
            }
        }
        assert(ids@.to_set() =~= before.to_set().insert(id));
    }
}

/// The name under which main's group `id` is looked up on a secondary.
pub fn name_of(main_group_lookup: &HashMap<u32, String>, id: u32) -> (name: Vec<char>)
    ensures
        name@ == group_name(lookup_names(main_group_lookup@), id),
{
    match main_group_lookup.get(&id) {
        Some(name) => chars_of(name.as_str()),
        None => {
            let mut name: Vec<char> = Vec::new();
            name.push('i');
            name.push('d');
            name.push(':');
            push_decimal(&mut name, id as usize);
            assert(name@ =~= seq!['i', 'd', ':'] + decimal(id as nat));
            name
        },
    }
}

/// The id of the secondary's group of the given name, if it has one.
pub fn secondary_id(secondary_groups: &[Group], name: &Vec<char>) -> (found: Option<u32>)
    ensures
        match found {
            Some(id) => name_ids(group_views(secondary_groups@)).contains_key(name@) && name_ids(
                group_views(secondary_groups@),
            )[name@] == id,
            None => !name_ids(group_views(secondary_groups@)).contains_key(name@),
        },
{
    let ghost all = group_views(secondary_groups@);
    let mut i: usize = secondary_groups.len();
    assert(all.take(i as int) =~= all);
    while i > 0
        invariant
            i <= secondary_groups.len(),
            all == group_views(secondary_groups@),
            name_ids(all).contains_key(name@) == name_ids(all.take(i as int)).contains_key(name@),
            name_ids(all).contains_key(name@) ==> name_ids(all)[name@] == name_ids(
                all.take(i as int),
            )[name@],
        decreases i,
    {
        i -= 1;
        assert(all.take(i + 1).drop_last() =~= all.take(i as int));
        assert(all.take(i + 1).last() == secondary_groups@[i as int]@);
        match secondary_groups[i].id {
            Some(id) => {
                let theirs = chars_of(secondary_groups[i].name.as_str());
                if text_eq(&theirs, name) {
                    return Some(id);
                }
            },
            None => {},
        }
    }
    None
}

/// The ids of the groups that a list of main is to have on a secondary, in
/// ascending order, each once.
pub fn groups_for_list(
    list: &List,
    main_group_lookup: &HashMap<u32, String>,
    secondary_groups: &[Group],
    sync_groups: bool,
) -> (ids: Vec<u32>)
    ensures
        ascending(ids@),
        ids@.to_set() == desired_ids(
            list@.groups,
            lookup_names(main_group_lookup@),
            name_ids(group_views(secondary_groups@)),
            sync_groups,
        ),
{
    let ghost main_names = lookup_names(main_group_lookup@);
    let ghost secondary_ids = name_ids(group_views(secondary_groups@));
    let ghost raw = raw_groups(list@.groups);
    let mut fallback: Vec<u32> = Vec::new();
    fallback.push(0);
    let given: &Vec<u32> = if list.groups.len() == 0 {
        &fallback
    } else {
        &list.groups
    };
    assert(given@ =~= raw);
    if !sync_groups {
        let mut k: usize = 0;
        while k < given.len()
            invariant
                k <= given.len(),
                !sync_groups,
                given@ == raw,
                raw == raw_groups(list@.groups),
                forall|i: int| 0 <= i < k ==> raw[i] == 0,
            decreases given.len() - k,
        {
            if given[k] != 0 {
                assert(raw[k as int] != 0);
                let mut ids: Vec<u32> = Vec::new();
                ids.push(0);
                assert(ids@.to_set() =~= set![0u32]) by {
                    assert(ids@[0] == 0u32);
                    assert forall|x: u32| ids@.to_set().contains(x) <==> set![0u32].contains(
                        x,
                    ) by {
                        if ids@.contains(x) {
                            let i = choose|i: int| 0 <= i < ids@.len() && ids@[i] == x;
                        }
                    }
                }
                return ids;
            }
            k += 1;
        }
    }
    let mut ids: Vec<u32> = Vec::new();
    let mut i: usize = 0;
    while i < given.len()
        invariant
            i <= given.len(),
            given@ == raw,
            main_names == lookup_names(main_group_lookup@),
            secondary_ids == name_ids(group_views(secondary_groups@)),
            ascending(ids@),
            forall|x: u32|
                ids@.to_set().contains(x) <==> exists|k: int|
                    0 <= k < i && #[trigger] resolved(raw[k], main_names, secondary_ids) == x,
        decreases given.len() - i,
    {
        let name = name_of(main_group_lookup, given[i]);
        let id = match secondary_id(secondary_groups, &name) {
            Some(id) => id,
            None => 0,
        };
        assert(id == resolved(raw[i as int], main_names, secondary_ids));
        let ghost before = ids@.to_set();
        insert_ascending(&mut ids, id);
        i += 1;
        assert forall|x: u32|
            ids@.to_set().contains(x) <==> exists|k: int|
                0 <= k < i && #[trigger] resolved(raw[k], main_names, secondary_ids) == x by {
            if before.contains(x) {
                let k = choose|k: int|
                    0 <= k < i - 1 && #[trigger] resolved(raw[k], main_names, secondary_ids) == x;
                assert(resolved(raw[k], main_names, secondary_ids) == x);
            }
            if exists|k: int|
                0 <= k < i && #[trigger] resolved(raw[k], main_names, secondary_ids) == x {
                let k = choose|k: int|
                    0 <= k < i && #[trigger] resolved(raw[k], main_names, secondary_ids) == x;
                if k < i - 1 {
                    assert(before.contains(x));
                }
            }
        }
    }
    assert(ids@.to_set() =~= desired_ids(list@.groups, main_names, secondary_ids, sync_groups));
    ids
}

/// The groups of a list of main, other than the default group, in whose
/// place the list is put into the default group on the secondary: all of
/// them where the secondary's groups are not synchronised; else those whose
/// name the secondary does not know.
pub open spec fn unresolved(
    groups: Seq<u32>,
    main_names: Map<u32, Seq<char>>,
    secondary_ids: Map<Seq<char>, u32>,
    sync_groups: bool,
) -> Seq<u32>
    decreases groups.len(),
{
    if groups.len() == 0 {
        Seq::empty()
    } else if groups.last() != 0 && (!sync_groups || !secondary_ids.contains_key(
        group_name(main_names, groups.last()),
    )) {
        unresolved(groups.drop_last(), main_names, secondary_ids, sync_groups).push(groups.last())
    } else {
        unresolved(groups.drop_last(), main_names, secondary_ids, sync_groups)
    }
}

/// The memberships of a list of main that cannot be kept on the secondary.
/// These are no errors: the list goes to the default group in their place,
/// and the program warns.
pub fn unresolved_groups(
    list: &List,
    main_group_lookup: &HashMap<u32, String>,
    secondary_groups: &[Group],
    sync_groups: bool,
) -> (ids: Vec<u32>)
    ensures
        ids@ == unresolved(
            list@.groups,
            lookup_names(main_group_lookup@),
            name_ids(group_views(secondary_groups@)),
            sync_groups,
        ),
{
    let ghost main_names = lookup_names(main_group_lookup@);
    let ghost secondary_ids = name_ids(group_views(secondary_groups@));
    let mut ids: Vec<u32> = Vec::new();
    let mut i: usize = 0;
    assert(list.groups@.take(0) =~= Seq::<u32>::empty());
    while i < list.groups.len()
        invariant
            i <= list.groups.len(),
            main_names == lookup_names(main_group_lookup@),
            secondary_ids == name_ids(group_views(secondary_groups@)),
            ids@ == unresolved(list.groups@.take(i as int), main_names, secondary_ids, sync_groups),
        decreases list.groups.len() - i,
    {
        let id = list.groups[i];
        assert(list.groups@.take(i + 1).drop_last() =~= list.groups@.take(i as int));
        if id != 0 {
            if !sync_groups {
                ids.push(id);
            } else {
                let name = name_of(main_group_lookup, id);
                match secondary_id(secondary_groups, &name) {
                    Some(_) => {},
                    None => {
                        ids.push(id);
                    },
                }
            }
        }
        i += 1;
    }
    assert(list.groups@.take(list.groups.len() as int) =~= list.groups@);
    ids
}

/// Whether `id` is in the list.
pub fn contains_id(ids: &Vec<u32>, id: u32) -> (found: bool)
    ensures
        found == ids@.contains(id),
{
    let mut i: usize = 0;
    while i < ids.len()
        invariant
            i <= ids.len(),
            forall|k: int| 0 <= k < i ==> ids@[k] != id,
        decreases ids.len() - i,
    {
        if ids[i] == id {
            return true;
        }
        i += 1;
    }
    false
}

/// Whether every id of `a` is in `b`.
pub fn ids_within(a: &Vec<u32>, b: &Vec<u32>) -> (within: bool)
    ensures
        within == a@.to_set().subset_of(b@.to_set()),
{
    let mut i: usize = 0;
    while i < a.len()
        invariant
            i <= a.len(),
            forall|k: int| 0 <= k < i ==> b@.contains(#[trigger] a@[k]),
        decreases a.len() - i,
    {
        if !contains_id(b, a[i]) {
            assert(a@.contains(a@[i as int]));
            assert(a@.to_set().contains(a@[i as int]));
            return false;
        }
        i += 1;
    }
    assert forall|x: u32| a@.to_set().contains(x) implies b@.to_set().contains(x) by {
        let k = choose|k: int| 0 <= k < a@.len() && a@[k] == x;
        assert(b@.contains(a@[k]));
    }
    true
}

/// The identity of a list: its address and its type.
pub open spec fn list_key() -> spec_fn(ListView) -> (Seq<char>, Seq<char>) {
    |l: ListView| (l.address, l.list_type)
}

/// Whether a secondary's list agrees with the wanted one: in comment, in the
/// enabled flag and in the set of its groups.
pub open spec fn list_same() -> spec_fn(ListView, ListView) -> bool {
    |wanted: ListView, found: ListView|
        wanted.comment == found.comment && wanted.enabled == found.enabled
            && wanted.groups.to_set() == raw_groups(found.groups).to_set()
}

/// Whether the secondary's list `existing` agrees with the wanted list
/// `target`: in comment, in the enabled flag and in the set of its groups,
/// where a list without groups counts as in the default group.
pub fn lists_equal(target: &List, existing: &List) -> (equal: bool)
    ensures
        equal == list_same()(target@, existing@),
{
    let mut fallback: Vec<u32> = Vec::new();
    fallback.push(0);
    let theirs: &Vec<u32> = if existing.groups.len() == 0 {
        &fallback
    } else {
        &existing.groups
    };
    assert(theirs@ =~= raw_groups(existing@.groups));
    let same_groups = ids_within(&target.groups, theirs) && ids_within(theirs, &target.groups);
    assert(same_groups == (target@.groups.to_set() =~= theirs@.to_set()));
    same_text(&target.comment, &existing.comment) && target.enabled == existing.enabled
        && same_groups
}

/// Main's list as a secondary is to hold it: with the groups that it is to
/// have there.
pub open spec fn wanted_list(
    list: ListView,
    main_names: Map<u32, Seq<char>>,
    secondary_ids: Map<Seq<char>, u32>,
    sync_groups: bool,
) -> ListView {
    ListView {
        groups: sorted_ids(desired_ids(list.groups, main_names, secondary_ids, sync_groups)),
        ..list
    }
}

/// Main's lists as a secondary is to hold them.
pub open spec fn wanted_lists(
    lists: Seq<ListView>,
    main_names: Map<u32, Seq<char>>,
    secondary_ids: Map<Seq<char>, u32>,
    sync_groups: bool,
) -> Seq<ListView> {
    lists.map_values(|l: ListView| wanted_list(l, main_names, secondary_ids, sync_groups))
}

/// The writes that make a secondary's lists hold main's lists.
pub open spec fn list_changes(wanted: Seq<ListView>, secondary: Seq<ListView>) -> Seq<
    Change<ListView>,
> {
    changes(wanted, secondary, list_key(), list_same())
}

/// A write to a secondary's lists.
#[derive(Debug)]
pub enum ListAction {
    /// Create the list.
    Create(List),
    /// Update the list of the same address and type to the comment, flag and
    /// groups of this one.
    Update(List),
}

impl View for ListAction {
    type V = Change<ListView>;

    open spec fn view(&self) -> Change<ListView> {
        match self {
            ListAction::Create(list) => Change::Create(list@),
            ListAction::Update(list) => Change::Update(list@),
        }
    }
}

/// The values of a list of writes.
pub open spec fn list_action_views(actions: Seq<ListAction>) -> Seq<Change<ListView>> {
    actions.map_values(|a: ListAction| a@)
}

/// The position of the secondary's list of the given address and type; the
/// last one, where several have them.
pub fn find_list(lists: &[List], address: &String, list_type: &String) -> (found: Option<usize>)
    ensures
        match found {
            Some(i) => i < lists@.len() && entry_of(
                list_views(lists@),
                (address@, list_type@),
                list_key(),
            ) == Some(lists@[i as int]@),
            None => entry_of(list_views(lists@), (address@, list_type@), list_key()) is None,
        },
{
    let ghost all = list_views(lists@);
    let ghost wanted = (address@, list_type@);
    let mut i: usize = lists.len();
    assert(all.take(i as int) =~= all);
    while i > 0
        invariant
            i <= lists.len(),
            all == list_views(lists@),
            wanted == (address@, list_type@),
            entry_of(all, wanted, list_key()) == entry_of(all.take(i as int), wanted, list_key()),
        decreases i,
    {
        i -= 1;
        assert(all.take(i + 1).drop_last() =~= all.take(i as int));
        assert(all.take(i + 1).last() == lists@[i as int]@);
        if lists[i].address == *address && lists[i].list_type == *list_type {
            return Some(i);
        }
    }
    None
}

/// The writes that make a secondary's lists hold main's lists, in the order
/// of main's lists. Each list is first given the groups that it is to have on
/// the secondary; then it is updated where the secondary's list of that
/// address and type differs in comment, flag or groups, created where the
/// secondary has none, and left alone where it agrees. No list of the
/// secondary is ever deleted.
pub fn sync_lists(
    main_lists: &[List],
    main_group_lookup: &HashMap<u32, String>,
    secondary_groups: &[Group],
    secondary_lists: &[List],
    sync_groups: bool,
) -> (plan: Vec<ListAction>)
    ensures
        list_action_views(plan@) == list_changes(
            wanted_lists(
                list_views(main_lists@),
                lookup_names(main_group_lookup@),
                name_ids(group_views(secondary_groups@)),
                sync_groups,
            ),
            list_views(secondary_lists@),
        ),
{
    let ghost main_names = lookup_names(main_group_lookup@);
    let ghost secondary_ids = name_ids(group_views(secondary_groups@));
    let ghost wanted = wanted_lists(list_views(main_lists@), main_names, secondary_ids, sync_groups);
    let ghost secondary = list_views(secondary_lists@);
    let mut plan: Vec<ListAction> = Vec::new();
    let mut i: usize = 0;
    assert(wanted.take(0) =~= Seq::<ListView>::empty());
    assert(list_action_views(plan@) =~= list_changes(wanted.take(0), secondary));
    while i < main_lists.len()
        invariant
            i <= main_lists.len(),
            main_names == lookup_names(main_group_lookup@),
            secondary_ids == name_ids(group_views(secondary_groups@)),
            wanted == wanted_lists(list_views(main_lists@), main_names, secondary_ids, sync_groups),
            secondary == list_views(secondary_lists@),
            list_action_views(plan@) == list_changes(wanted.take(i as int), secondary),
        decreases main_lists.len() - i,
    {
        let list = &main_lists[i];
        let groups = groups_for_list(list, main_group_lookup, secondary_groups, sync_groups);
        proof {
            let ids = desired_ids(list@.groups, main_names, secondary_ids, sync_groups);
            lemma_ascending_unique(groups@, sorted_ids(ids));
            lemma_changes_step(wanted, secondary, list_key(), list_same(), i as int);
        }
        let desired = List {
            address: list.address.clone(),
            list_type: list.list_type.clone(),
            comment: copy_text(&list.comment),
            groups,
            enabled: list.enabled,
            id: list.id,
        };
        assert(desired@ == wanted[i as int]);
        let ghost before = list_action_views(plan@);
        match find_list(secondary_lists, &list.address, &list.list_type) {
            Some(at) => {
                if !lists_equal(&desired, &secondary_lists[at]) {
                    plan.push(ListAction::Update(desired));
                    assert(list_action_views(plan@) =~= before + seq![
                        Change::Update(wanted[i as int]),
                    ]);
                } else {
                    assert(list_action_views(plan@) =~= before + Seq::<Change<ListView>>::empty());
                }
            },
            None => {
                plan.push(ListAction::Create(desired));
                assert(list_action_views(plan@) =~= before + seq![Change::Create(wanted[i as int])]);
            },
        }
        i += 1;
    }
    assert(wanted.take(main_lists.len() as int) =~= wanted);
    plan
}

/// List reconciliation converges: once the writes of one pass have all
/// succeeded, a second pass over the same wanted lists finds nothing to
/// write. `states` are the secondary's lists before, between and after the
/// writes; the wanted lists have distinct identities.
pub proof fn lemma_lists_converge(
    wanted: Seq<ListView>,
    secondary: Seq<ListView>,
    states: Seq<Seq<ListView>>,
)
    requires
        distinct_keys(wanted, list_key()),
        is_run(states, list_changes(wanted, secondary), list_key(), list_same()),
        states[0] == secondary,
    ensures
        list_changes(wanted, states.last()) == Seq::<Change<ListView>>::empty(),
{
    lemma_reconcile_converges(wanted, secondary, list_key(), list_same(), states);
}

/// Memberships follow names: where main's list is in main's group `main_id`,
/// that group is called `name` on main, and the secondary's group of that
/// name has the id `secondary_id`, the list is to be in group `secondary_id`
/// on the secondary. And every group that the list is to be in is the
/// default group or is found by the name of one of the list's groups.
pub proof fn lemma_membership_by_name(
    groups: Seq<u32>,
    main_names: Map<u32, Seq<char>>,
    secondary_ids: Map<Seq<char>, u32>,
    main_id: u32,
    name: Seq<char>,
    secondary_id: u32,
)
    requires
        groups.contains(main_id),
        main_names.contains_key(main_id) && main_names[main_id] == name,
        secondary_ids.contains_key(name) && secondary_ids[name] == secondary_id,
    ensures
        desired_ids(groups, main_names, secondary_ids, true).contains(secondary_id),
        forall|id: u32|
            #[trigger] desired_ids(groups, main_names, secondary_ids, true).contains(id) ==> id == 0
                || exists|i: int|
                0 <= i < groups.len() && secondary_ids.contains_key(
                    group_name(main_names, groups[i]),
                ) && secondary_ids[group_name(main_names, groups[i])] == id,
{
    let raw = raw_groups(groups);
    let at = choose|i: int| 0 <= i < groups.len() && groups[i] == main_id;
    assert(raw == groups);
    assert(resolved(raw[at], main_names, secondary_ids) == secondary_id);
    assert forall|id: u32| #[trigger]
        desired_ids(groups, main_names, secondary_ids, true).contains(id) implies id == 0
        || exists|i: int|
        0 <= i < groups.len() && secondary_ids.contains_key(group_name(main_names, groups[i]))
            && secondary_ids[group_name(main_names, groups[i])] == id by {
        let k = choose|k: int|
            0 <= k < raw.len() && #[trigger] resolved(raw[k], main_names, secondary_ids) == id;
        if id != 0 {
            assert(secondary_ids.contains_key(group_name(main_names, groups[k])));
        }
    }
}

/// What of a list counts when main's lists are compared from one cycle to
/// the next: its groups by name, and not its id.
#[derive(Debug)]
pub struct NormalizedList {
    pub address: String,
    pub list_type: String,
    pub comment: Option<String>,
    pub enabled: bool,
    pub groups: Vec<String>,
}

/// The value of a [`NormalizedList`].
pub struct NormalizedListView {
    pub address: Seq<char>,
    pub list_type: Seq<char>,
    pub comment: Option<Seq<char>>,
    pub enabled: bool,
    pub groups: Seq<Seq<char>>,
}

/// The texts of a list of strings.
pub open spec fn texts(strings: Seq<String>) -> Seq<Seq<char>> {
    strings.map_values(|s: String| s@)
}

impl View for NormalizedList {
    type V = NormalizedListView;

    open spec fn view(&self) -> NormalizedListView {
        NormalizedListView {
            address: self.address@,
            list_type: self.list_type@,
            comment: text_of(self.comment),
            enabled: self.enabled,
            groups: texts(self.groups@),
        }
    }
}

/// The sort keys of texts: the texts themselves.
pub open spec fn text_keys(names: Seq<Seq<char>>) -> Seq<Key> {
    names.map_values(|n: Seq<char>| (n, Seq::<char>::empty()))
}

/// The texts in ascending order.
pub open spec fn sorted_texts(names: Seq<Seq<char>>) -> Seq<Seq<char>> {
    ranking(text_keys(names)).map_values(|i: int| names[i])
}

/// The names of a list's groups, in ascending order.
pub open spec fn group_names(groups: Seq<u32>, main_names: Map<u32, Seq<char>>) -> Seq<Seq<char>> {
    sorted_texts(raw_groups(groups).map_values(|id: u32| group_name(main_names, id)))
}

/// A list with its groups by name and without its id.
pub open spec fn normal_list(list: ListView, main_names: Map<u32, Seq<char>>) -> NormalizedListView {
    NormalizedListView {
        address: list.address,
        list_type: list.list_type,
        comment: list.comment,
        enabled: list.enabled,
        groups: group_names(list.groups, main_names),
    }
}

/// The sort keys of lists: address, then type.
pub open spec fn list_sort_keys(lists: Seq<ListView>) -> Seq<Key> {
    lists.map_values(|l: ListView| (l.address, l.list_type))
}

/// The normal form of main's lists: each with its groups by name and without
/// its id, in the stable order of address and type.
pub open spec fn normal_lists(lists: Seq<ListView>, main_names: Map<u32, Seq<char>>) -> Seq<
    NormalizedListView,
> {
    ranking(list_sort_keys(lists)).map_values(|i: int| normal_list(lists[i], main_names))
}

/// The values of a list of normalized lists.
pub open spec fn normalized_list_views(lists: Seq<NormalizedList>) -> Seq<NormalizedListView> {
    lists.map_values(|l: NormalizedList| l@)
}

/// The name under which main's group `id` is looked up, as a string.
pub fn name_text_of(main_group_lookup: &HashMap<u32, String>, id: u32) -> (name: String)
    ensures
        name@ == group_name(lookup_names(main_group_lookup@), id),
{
    match main_group_lookup.get(&id) {
        Some(name) => name.clone(),
        None => {
            let mut name = String::from_str("id:");
            proof {
                reveal_strlit("id:");
                assert("id:"@ =~= seq!['i', 'd', ':']);
            }
            append_decimal(&mut name, id as usize);
            name
        },
    }
}

/// The names of a list's groups, in ascending order.
pub fn group_names_of(groups: &Vec<u32>, main_group_lookup: &HashMap<u32, String>) -> (names: Vec<
    String,
>)
    ensures
        texts(names@) == group_names(groups@, lookup_names(main_group_lookup@)),
{
    let ghost main_names = lookup_names(main_group_lookup@);
    let ghost raw = raw_groups(groups@);
    let ghost wanted = raw.map_values(|id: u32| group_name(main_names, id));
    let mut fallback: Vec<u32> = Vec::new();
    fallback.push(0);
    let given: &Vec<u32> = if groups.len() == 0 {
        &fallback
    } else {
        groups
    };
    assert(given@ =~= raw);
    let mut unsorted: Vec<String> = Vec::new();
    let mut keys: Vec<(Vec<char>, Vec<char>)> = Vec::new();
    let mut i: usize = 0;
    while i < given.len()
        invariant
            i <= given.len(),
            given@ == raw,
            main_names == lookup_names(main_group_lookup@),
            unsorted@.len() == i,
            keys@.len() == i,
            forall|k: int|
                0 <= k < i ==> (#[trigger] unsorted@[k])@ == group_name(main_names, raw[k]),
            forall|k: int|
                0 <= k < i ==> (#[trigger] keys@[k]).0@ == group_name(main_names, raw[k])
                    && keys@[k].1@ == Seq::<char>::empty(),
        decreases given.len() - i,
    {
        let name = name_text_of(main_group_lookup, given[i]);
        keys.push((chars_of(name.as_str()), Vec::new()));
        unsorted.push(name);
        i += 1;
    }
    assert(texts(unsorted@) =~= wanted);
    assert(key_views(keys@) =~= text_keys(wanted));
    let order = ranking_of(&keys);
    proof {
        lemma_stable_order(text_keys(wanted), wanted.len());
    }
    let mut names: Vec<String> = Vec::new();
    let mut j: usize = 0;
    while j < order.len()
        invariant
            j <= order.len(),
            order@.len() == unsorted@.len(),
            texts(unsorted@) == wanted,
            positions(order@) == ranking(text_keys(wanted)),
            forall|k: int|
                0 <= k < order@.len() ==> 0 <= #[trigger] positions(order@)[k] < unsorted@.len(),
            names@.len() == j,
            forall|k: int| 0 <= k < j ==> (#[trigger] names@[k])@ == wanted[positions(order@)[k]],
        decreases order.len() - j,
    {
        let at = order[j];
        assert(positions(order@)[j as int] == at);
        assert(texts(unsorted@)[at as int] == unsorted@[at as int]@);
        names.push(unsorted[at].clone());
        j += 1;
    }
    assert(texts(names@) =~= sorted_texts(wanted));
    names
}

/// Main's lists in their normal form: each with the names of its groups in
/// ascending order and without its id, sorted by address and then type,
/// lists of one address and type in the order in which they were given. A
/// group that main's table does not hold is named by `id:` and its id.
pub fn normalize_lists(lists: &[List], group_lookup: &HashMap<u32, String>) -> (normalized: Vec<
    NormalizedList,
>)
    ensures
        normalized_list_views(normalized@) == normal_lists(
            list_views(lists@),
            lookup_names(group_lookup@),
        ),
{
    let ghost given = list_views(lists@);
    let ghost main_names = lookup_names(group_lookup@);
    let mut keys: Vec<(Vec<char>, Vec<char>)> = Vec::new();
    let mut i: usize = 0;
    while i < lists.len()
        invariant
            i <= lists.len(),
            keys@.len() == i,
            forall|k: int|
                0 <= k < i ==> (#[trigger] keys@[k]).0@ == lists@[k].address@ && keys@[k].1@
                    == lists@[k].list_type@,
        decreases lists.len() - i,
    {
        keys.push((chars_of(lists[i].address.as_str()), chars_of(lists[i].list_type.as_str())));
        i += 1;
    }
    assert(key_views(keys@) =~= list_sort_keys(given));
    let order = ranking_of(&keys);
    proof {
        lemma_stable_order(list_sort_keys(given), lists@.len());
    }
    let mut normalized: Vec<NormalizedList> = Vec::new();
    let mut j: usize = 0;
    while j < order.len()
        invariant
            j <= order.len(),
            order@.len() == lists@.len(),
            given == list_views(lists@),
            main_names == lookup_names(group_lookup@),
            positions(order@) == ranking(list_sort_keys(given)),
            forall|k: int|
                0 <= k < order@.len() ==> 0 <= #[trigger] positions(order@)[k] < lists@.len(),
            normalized@.len() == j,
            forall|k: int|
                0 <= k < j ==> (#[trigger] normalized@[k])@ == normal_list(
                    given[positions(order@)[k]],
                    main_names,
                ),
        decreases order.len() - j,
    {
        let at = order[j];
        assert(positions(order@)[j as int] == at);
        let list = &lists[at];
        assert(given[at as int] == list@);
        normalized.push(
            NormalizedList {
                address: list.address.clone(),
                list_type: list.list_type.clone(),
                comment: copy_text(&list.comment),
                enabled: list.enabled,
                groups: group_names_of(&list.groups, group_lookup),
            },
        );
        j += 1;
    }
    assert(normalized_list_views(normalized@) =~= normal_lists(given, main_names));
    normalized
}

} // verus!
