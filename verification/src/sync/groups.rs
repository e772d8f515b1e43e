use crate::order::{key_views, lemma_stable_order, positions, ranking, ranking_of, Key};
use crate::path::chars_of;
use crate::pihole::client::{group_views, same_text, text_of, Group, GroupView};
use crate::sync::reconcile::{
    changes, distinct_keys, entry_of, in_sync, is_run, lemma_changes_step, lemma_no_changes,
    lemma_one_change, lemma_reconcile_converges, Change,
};
use vstd::prelude::*;

verus! {

/// What of a group counts when main's groups are compared from one cycle
/// to the next: the id does not.
#[derive(Debug, Clone, Copy)]
pub struct NormalizedGroup<'a> {
    pub name: &'a str,
    pub comment: &'a Option<String>,
    pub enabled: bool,
}

/// The value of a [`NormalizedGroup`].
pub struct NormalizedGroupView {
    pub name: Seq<char>,
    pub comment: Option<Seq<char>>,
    pub enabled: bool,
}

impl<'a> View for NormalizedGroup<'a> {
    type V = NormalizedGroupView;

    open spec fn view(&self) -> NormalizedGroupView {
        NormalizedGroupView {
            name: self.name@,
            comment: text_of(*self.comment),
            enabled: self.enabled,
        }
    }
}

/// A group without its id.
pub open spec fn normal_group(group: GroupView) -> NormalizedGroupView {
    NormalizedGroupView { name: group.name, comment: group.comment, enabled: group.enabled }
}

/// The sort keys of groups: their names.
pub open spec fn group_sort_keys(groups: Seq<GroupView>) -> Seq<Key> {
    groups.map_values(|g: GroupView| (g.name, Seq::<char>::empty()))
}

/// The normal form of a list of groups: the groups without their ids, in the
/// stable order of their names.
pub open spec fn normal_groups(groups: Seq<GroupView>) -> Seq<NormalizedGroupView> {
    ranking(group_sort_keys(groups)).map_values(|i: int| normal_group(groups[i]))
}

/// The values of a list of normalized groups.
pub open spec fn normalized_group_views(groups: Seq<NormalizedGroup<'_>>) -> Seq<
    NormalizedGroupView,
> {
    groups.map_values(|g: NormalizedGroup<'_>| g@)
}

/// The groups in their normal form: without ids, sorted by name, groups of
/// one name in the order in which they were given.
pub fn normalize_groups<'a>(groups: &'a [Group]) -> (normalized: Vec<NormalizedGroup<'a>>)
    ensures
        normalized_group_views(normalized@) == normal_groups(group_views(groups@)),
{
    let mut keys: Vec<(Vec<char>, Vec<char>)> = Vec::new();
    let mut i: usize = 0;
    while i < groups.len()
        invariant
            i <= groups.len(),
            keys@.len() == i,
            forall|k: int|
                0 <= k < i ==> (#[trigger] keys@[k]).0@ == groups@[k].name@ && keys@[k].1@
                    == Seq::<char>::empty(),
        decreases groups.len() - i,
    {
        keys.push((chars_of(groups[i].name.as_str()), Vec::new()));
        i += 1;
    }
    let ghost given = group_views(groups@);
    assert(key_views(keys@) =~= group_sort_keys(given));
    let order = ranking_of(&keys);
    proof {
        lemma_stable_order(group_sort_keys(given), groups@.len());
    }
    let mut normalized: Vec<NormalizedGroup<'a>> = Vec::new();
    let mut j: usize = 0;
    while j < order.len()
        invariant
            j <= order.len(),
            order@.len() == groups@.len(),
            given == group_views(groups@),
            positions(order@) == ranking(group_sort_keys(given)),
            forall|k: int| 0 <= k < order@.len() ==> 0 <= #[trigger] positions(order@)[k] < groups@.len(),
            normalized@.len() == j,
            forall|k: int|
                0 <= k < j ==> (#[trigger] normalized@[k])@ == normal_group(
                    given[positions(order@)[k]],
                ),
        decreases order.len() - j,
    {
        let at = order[j];
        assert(positions(order@)[j as int] == at);
        let group = &groups[at];
        normalized.push(
            NormalizedGroup { name: group.name.as_str(), comment: &group.comment, enabled: group.enabled },
        );
        j += 1;
    }
    assert(normalized_group_views(normalized@) =~= normal_groups(given));
    normalized
}

/// The identity of a group: its name.
pub open spec fn group_key() -> spec_fn(GroupView) -> Seq<char> {
    |g: GroupView| g.name
}

/// Whether a secondary's group agrees with main's: in comment and in the
/// enabled flag.
pub open spec fn group_same() -> spec_fn(GroupView, GroupView) -> bool {
    |wanted: GroupView, found: GroupView|
        wanted.comment == found.comment && wanted.enabled == found.enabled
}

/// The writes that make a secondary's groups hold main's groups.
pub open spec fn group_changes(main: Seq<GroupView>, secondary: Seq<GroupView>) -> Seq<
    Change<GroupView>,
> {
    changes(main, secondary, group_key(), group_same())
}

/// A write to a secondary's groups.
#[derive(Debug)]
pub enum GroupAction {
    /// Create the group.
    Create(Group),
    /// Update the group of the same name to the comment and flag of this one.
    Update(Group),
}

impl View for GroupAction {
    type V = Change<GroupView>;

    open spec fn view(&self) -> Change<GroupView> {
        match self {
            GroupAction::Create(group) => Change::Create(group@),
            GroupAction::Update(group) => Change::Update(group@),
        }
    }
}

/// The values of a list of writes.
pub open spec fn group_action_views(actions: Seq<GroupAction>) -> Seq<Change<GroupView>> {
    actions.map_values(|a: GroupAction| a@)
}

/// The position of the secondary's group of the given name; the last one,
/// where several have it.
pub fn find_group(groups: &[Group], name: &String) -> (found: Option<usize>)
    ensures
        match found {
            Some(i) => i < groups@.len() && entry_of(group_views(groups@), name@, group_key())
                == Some(groups@[i as int]@),
            None => entry_of(group_views(groups@), name@, group_key()) is None,
        },
{
    let ghost all = group_views(groups@);
    let mut i: usize = groups.len();
    assert(all.take(i as int) =~= all);
    while i > 0
        invariant
            i <= groups.len(),
            all == group_views(groups@),
            entry_of(all, name@, group_key()) == entry_of(all.take(i as int), name@, group_key()),
        decreases i,
    {
        i -= 1;
        assert(all.take(i + 1).drop_last() =~= all.take(i as int));
        assert(all.take(i + 1).last() == groups@[i as int]@);
        if groups[i].name == *name {
            return Some(i);
        }
    }
    None
}

/// The writes that make a secondary's groups hold main's groups, in the order
/// of main's groups: for each of them an update where the secondary's group
/// of that name differs in comment or flag, a creation where the secondary
/// has no group of that name, and nothing where it agrees. No group of the
/// secondary is ever deleted.
pub fn sync_groups(main_groups: &[Group], secondary_groups: &[Group]) -> (plan: Vec<GroupAction>)
    ensures
        group_action_views(plan@) == group_changes(
            group_views(main_groups@),
            group_views(secondary_groups@),
        ),
{
    let ghost main = group_views(main_groups@);
    let ghost secondary = group_views(secondary_groups@);
    let mut plan: Vec<GroupAction> = Vec::new();
    let mut i: usize = 0;
    assert(main.take(0) =~= Seq::<GroupView>::empty());
    assert(group_action_views(plan@) =~= group_changes(main.take(0), secondary));
    while i < main_groups.len()
        invariant
            i <= main_groups.len(),
            main == group_views(main_groups@),
            secondary == group_views(secondary_groups@),
            group_action_views(plan@) == group_changes(main.take(i as int), secondary),
        decreases main_groups.len() - i,
    {
        let group = &main_groups[i];
        proof {
            lemma_changes_step(main, secondary, group_key(), group_same(), i as int);
            assert(main[i as int] == group@);
        }
        let ghost before = group_action_views(plan@);
        match find_group(secondary_groups, &group.name) {
            Some(at) => {
                let existing = &secondary_groups[at];
                if !same_text(&existing.comment, &group.comment) || existing.enabled
                    != group.enabled {
                    plan.push(GroupAction::Update(group.clone()));
                    assert(group_action_views(plan@) =~= before + seq![Change::Update(group@)]);
                } else {
                    assert(group_action_views(plan@) =~= before + Seq::<Change<GroupView>>::empty());
                }
            },
            None => {
                plan.push(GroupAction::Create(group.clone()));
                assert(group_action_views(plan@) =~= before + seq![Change::Create(group@)]);
            },
        }
        i += 1;
    }
    assert(main.take(main_groups.len() as int) =~= main);
    plan
}

/// Group reconciliation converges: once the writes of one pass have all
/// succeeded, a second pass over the same groups of main finds nothing to
/// write. `states` are the secondary's groups before, between and after the
/// writes; main's groups have distinct names.
pub proof fn lemma_groups_converge(
    main: Seq<GroupView>,
    secondary: Seq<GroupView>,
    states: Seq<Seq<GroupView>>,
)
    requires
        distinct_keys(main, group_key()),
        is_run(states, group_changes(main, secondary), group_key(), group_same()),
        states[0] == secondary,
    ensures
        group_changes(main, states.last()) == Seq::<Change<GroupView>>::empty(),
{
    lemma_reconcile_converges(main, secondary, group_key(), group_same(), states);
}

/// A group of main with its enabled flag turned over.
pub open spec fn toggled(group: GroupView) -> GroupView {
    GroupView { enabled: !group.enabled, ..group }
}

/// When main turns the enabled flag of one group over and the secondary was
/// in sync before, the next pass writes exactly one update, that of this
/// group, and nothing for any other group.
pub proof fn lemma_group_flag_change(main: Seq<GroupView>, secondary: Seq<GroupView>, at: int)
    requires
        group_changes(main, secondary).len() == 0,
        0 <= at < main.len(),
    ensures
        group_changes(main.update(at, toggled(main[at])), secondary) == seq![
            Change::Update(toggled(main[at])),
        ],
{
    lemma_no_changes(main, secondary, group_key(), group_same());
    assert(in_sync(main[at], secondary, group_key(), group_same()));
    lemma_one_change(main, secondary, group_key(), group_same(), at, toggled(main[at]));
}

/// A first pass against a secondary without groups creates each of main's
/// groups.
pub proof fn lemma_groups_created(main: Seq<GroupView>)
    ensures
        group_changes(main, Seq::empty()) == main.map_values(|g: GroupView| Change::Create(g)),
    decreases main.len(),
{
    if main.len() > 0 {
        lemma_groups_created(main.drop_last());
        assert(entry_of(Seq::<GroupView>::empty(), main.last().name, group_key()) is None);
        assert(group_changes(main, Seq::empty()) =~= main.map_values(
            |g: GroupView| Change::Create(g),
        ));
    } else {
        assert(group_changes(main, Seq::empty()) =~= main.map_values(
            |g: GroupView| Change::Create(g),
        ));
    }
}

} // verus!
