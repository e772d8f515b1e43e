use crate::json::{lemma_array_view, lemma_object_view, member_trees, trees, JsonTree, JsonValue};
use crate::path::{
    base_len, base_of, chars_of, child_of, child_path, covered, element_of, element_path,
    has_prefix, is_ancestor, is_covered, leads_to, path_set, prefix_of,
};
use vstd::prelude::*;

verus! {

/// How a path set is read.
#[derive(Clone, Copy, Debug, PartialEq, Eq)]
pub enum FilterMode {
    /// Keep only what the paths select.
    OptIn,
    /// Keep everything but what the paths select.
    OptOut,
}

/// Whether the node at `path` stays.
///
/// Opting out drops a node that is selected or lies below a selected path.
/// Opting in keeps a node that is selected itself, or whose path without its
/// array index is selected, lies below a selected path, or lies above one.
pub open spec fn included(paths: Set<Seq<char>>, mode: FilterMode, path: Seq<char>) -> bool {
    match mode {
        FilterMode::OptOut => !covered(paths, path),
        FilterMode::OptIn => paths.contains(path) || covered(paths, base_of(path)) || leads_to(
            paths,
            base_of(path),
        ),
    }
}

/// The values whose flag is set, in their order.
pub open spec fn pick_kept<A>(values: Seq<A>, keep: Seq<bool>) -> Seq<A>
    decreases values.len(),
{
    if values.len() == 0 {
        Seq::empty()
    } else if keep.last() {
        pick_kept(values.drop_last(), keep.drop_last()).push(values.last())
    } else {
        pick_kept(values.drop_last(), keep.drop_last())
    }
}

/// For each member of the object at `at`, whether it stays.
pub open spec fn member_flags(
    members: Seq<(Seq<char>, JsonTree)>,
    at: Seq<char>,
    paths: Set<Seq<char>>,
    mode: FilterMode,
) -> Seq<bool> {
    Seq::new(members.len(), |i: int| included(paths, mode, child_path(at, members[i].0)))
}

/// For each element of the array at `at`, whether it stays. The decision goes
/// by the element's position in the input.
pub open spec fn element_flags(len: nat, at: Seq<char>, paths: Set<Seq<char>>, mode: FilterMode) -> Seq<
    bool,
> {
    Seq::new(len, |i: int| included(paths, mode, element_path(at, i as nat)))
}

/// The members of the object at `at`, each filtered below its own path.
pub open spec fn filtered_members(
    members: Seq<(Seq<char>, JsonTree)>,
    at: Seq<char>,
    paths: Set<Seq<char>>,
    mode: FilterMode,
) -> Seq<(Seq<char>, JsonTree)>
    decreases members, 0int,
{
    Seq::new(
        members.len(),
        |i: int|
            if 0 <= i < members.len() {
                (members[i].0, filter_tree(members[i].1, child_path(at, members[i].0), paths, mode))
            } else {
                (Seq::empty(), JsonTree::Null)
            },
    )
}

/// The elements of the array at `at`, each filtered below its own path.
pub open spec fn filtered_elements(
    items: Seq<JsonTree>,
    at: Seq<char>,
    paths: Set<Seq<char>>,
    mode: FilterMode,
) -> Seq<JsonTree>
    decreases items, 0int,
{
    Seq::new(
        items.len(),
        |i: int|
            if 0 <= i < items.len() {
                filter_tree(items[i], element_path(at, i as nat), paths, mode)
            } else {
                JsonTree::Null
            },
    )
}

/// The tree at `at` with every node removed that the filter does not keep.
/// Scalars pass unchanged.
pub open spec fn filter_tree(
    t: JsonTree,
    at: Seq<char>,
    paths: Set<Seq<char>>,
    mode: FilterMode,
) -> JsonTree
    decreases t, 1int,
{
    match t {
        JsonTree::Object(members) => JsonTree::Object(
            pick_kept(
                filtered_members(members, at, paths, mode),
                member_flags(members, at, paths, mode),
            ),
        ),
        JsonTree::Array(items) => JsonTree::Array(
            pick_kept(
                filtered_elements(items, at, paths, mode),
                element_flags(items.len(), at, paths, mode),
            ),
        ),
        _ => t,
    }
}

/// What a filter makes of a document: with no paths, opting in keeps nothing
/// (an empty object) and opting out keeps the document; otherwise the
/// document is filtered from its root.
pub open spec fn filtered(t: JsonTree, paths: Set<Seq<char>>, mode: FilterMode) -> JsonTree {
    if paths =~= Set::empty() {
        match mode {
            FilterMode::OptIn => JsonTree::Object(Seq::empty()),
            FilterMode::OptOut => t,
        }
    } else {
        filter_tree(t, Seq::empty(), paths, mode)
    }
}

/// Dropping the last value and flag, then picking, is picking and then
/// perhaps dropping the last.
pub proof fn lemma_pick_kept_step<A>(values: Seq<A>, keep: Seq<bool>, i: int)
    requires
        0 <= i < values.len(),
        values.len() == keep.len(),
    ensures
        pick_kept(values.take(i + 1), keep.take(i + 1)) == if keep[i] {
            pick_kept(values.take(i), keep.take(i)).push(values[i])
        } else {
            pick_kept(values.take(i), keep.take(i))
        },
{
    assert(values.take(i + 1).drop_last() =~= values.take(i));
    assert(keep.take(i + 1).drop_last() =~= keep.take(i));
}

/// Picking with every flag set keeps every value.
pub proof fn lemma_pick_kept_all<A>(values: Seq<A>, keep: Seq<bool>)
    requires
        values.len() == keep.len(),
        forall|i: int| 0 <= i < keep.len() ==> keep[i],
    ensures
        pick_kept(values, keep) == values,
    decreases values.len(),
{
    if values.len() > 0 {
        lemma_pick_kept_all(values.drop_last(), keep.drop_last());
        assert(values.drop_last().push(values.last()) =~= values);
    } else {
        assert(values =~= Seq::empty());
    }
}

/// Each picked value is one of the given values, at a position whose flag is
/// set; the position is returned.
pub proof fn lemma_pick_kept_source<A>(values: Seq<A>, keep: Seq<bool>, j: int) -> (i: int)
    requires
        values.len() == keep.len(),
        0 <= j < pick_kept(values, keep).len(),
    ensures
        0 <= i < values.len(),
        keep[i],
        pick_kept(values, keep)[j] == values[i],
    decreases values.len(),
{
    let rest = pick_kept(values.drop_last(), keep.drop_last());
    if keep.last() && j == rest.len() {
        values.len() - 1
    } else {
        lemma_pick_kept_source(values.drop_last(), keep.drop_last(), j)
    }
}

/// The filter removes no element from any array that it reaches in the tree
/// at `at`: positions in its output are positions in its input.
pub open spec fn keeps_elements(
    t: JsonTree,
    at: Seq<char>,
    paths: Set<Seq<char>>,
    mode: FilterMode,
) -> bool
    decreases t,
{
    match t {
        JsonTree::Object(members) => forall|i: int|
            0 <= i < members.len() && included(paths, mode, child_path(at, (#[trigger] members[i]).0))
                ==> keeps_elements(members[i].1, child_path(at, members[i].0), paths, mode),
        JsonTree::Array(items) => forall|i: int|
            0 <= i < items.len() ==> included(paths, mode, element_path(at, i as nat))
                && keeps_elements(#[trigger] items[i], element_path(at, i as nat), paths, mode),
        _ => true,
    }
}

/// Filtering below a path twice gives what filtering once gives, where the
/// filter removes no array element.
pub proof fn lemma_filter_tree_idempotent(
    t: JsonTree,
    at: Seq<char>,
    paths: Set<Seq<char>>,
    mode: FilterMode,
)
    requires
        keeps_elements(t, at, paths, mode),
    ensures
        filter_tree(filter_tree(t, at, paths, mode), at, paths, mode) == filter_tree(
            t,
            at,
            paths,
            mode,
        ),
    decreases t,
{
    match t {
        JsonTree::Object(members) => {
            let all = filtered_members(members, at, paths, mode);
            let flags = member_flags(members, at, paths, mode);
            let once = pick_kept(all, flags);
            let all2 = filtered_members(once, at, paths, mode);
            let flags2 = member_flags(once, at, paths, mode);
            assert forall|j: int| 0 <= j < once.len() implies flags2[j] && all2[j] == once[j] by {
                let i = lemma_pick_kept_source(all, flags, j);
                assert(once[j] == all[i]);
                assert(members[i].0 == once[j].0);
                lemma_filter_tree_idempotent(
                    members[i].1,
                    child_path(at, members[i].0),
                    paths,
                    mode,
                );
            }
            lemma_pick_kept_all(all2, flags2);
            assert(all2 =~= once);
        },
        JsonTree::Array(items) => {
            let all = filtered_elements(items, at, paths, mode);
            let flags = element_flags(items.len(), at, paths, mode);
            assert forall|i: int| 0 <= i < flags.len() implies flags[i] by {
                assert(keeps_elements(items[i], element_path(at, i as nat), paths, mode));
            }
            lemma_pick_kept_all(all, flags);
            let once = pick_kept(all, flags);
            let all2 = filtered_elements(once, at, paths, mode);
            let flags2 = element_flags(once.len(), at, paths, mode);
            assert forall|i: int| 0 <= i < once.len() implies flags2[i] && all2[i] == once[i] by {
                assert(keeps_elements(items[i], element_path(at, i as nat), paths, mode));
                lemma_filter_tree_idempotent(items[i], element_path(at, i as nat), paths, mode);
            }
            lemma_pick_kept_all(all2, flags2);
            assert(all2 =~= once);
        },
        _ => {},
    }
}

/// Filtering is idempotent: a document that was filtered is not changed by
/// the same filter, provided that the filter removes no array element of the
/// document. (Array elements are judged by their position in the input, so
/// after a removal the elements behind it are judged anew under other
/// positions.)
pub proof fn lemma_filter_idempotent(t: JsonTree, paths: Set<Seq<char>>, mode: FilterMode)
    requires
        paths =~= Set::empty() || keeps_elements(t, Seq::empty(), paths, mode),
    ensures
        filtered(filtered(t, paths, mode), paths, mode) == filtered(t, paths, mode),
{
    if !(paths =~= Set::empty()) {
        lemma_filter_tree_idempotent(t, Seq::empty(), paths, mode);
    }
}

/// The two modes complement each other on the paths of object members (paths
/// without an array index): what opting out drops is exactly what the paths
/// select or hold below them, opting in keeps all of that, and a path that
/// both modes keep lies strictly above a selected path.
pub proof fn lemma_modes_complement(paths: Set<Seq<char>>, path: Seq<char>)
    requires
        base_of(path) == path,
    ensures
        included(paths, FilterMode::OptOut, path) <==> !covered(paths, path),
        covered(paths, path) ==> included(paths, FilterMode::OptIn, path),
        included(paths, FilterMode::OptIn, path) && included(paths, FilterMode::OptOut, path)
            ==> leads_to(paths, path),
{
}

/// A filter over a JSON document: a set of paths and the way to read it.
///
/// A path names object members with `.` between the keys and array elements
/// with `[index]` after the array's path.
pub struct ConfigFilter {
    paths: Vec<Vec<char>>,
    mode: FilterMode,
}

impl ConfigFilter {
    /// The paths of the filter.
    pub closed spec fn paths(&self) -> Set<Seq<char>> {
        path_set(self.paths@)
    }

    /// The mode of the filter.
    pub closed spec fn mode(&self) -> FilterMode {
        self.mode
    }

    /// A filter with the given paths, read in the given mode.
    pub fn new(paths: &[String], mode: FilterMode) -> (filter: Self)
        ensures
            filter.paths() == paths@.map_values(|s: String| s@).to_set(),
            filter.mode() == mode,
    {
        let mut own: Vec<Vec<char>> = Vec::new();
        let mut i: usize = 0;
        while i < paths.len()
            invariant
                i <= paths.len(),
                own@.len() == i,
                forall|k: int| 0 <= k < i ==> (#[trigger] own@[k])@ == paths@[k]@,
            decreases paths.len() - i,
        {
            own.push(chars_of(paths[i].as_str()));
            i += 1;
        }
        proof {
            let given = paths@.map_values(|s: String| s@);
            assert(crate::path::rows(own@) =~= given);
        }
        ConfigFilter { paths: own, mode }
    }

    /// Whether the filter has no path.
    fn is_empty(&self) -> (r: bool)
        ensures
            r == (self.paths() =~= Set::empty()),
    {
        proof {
            let rows = crate::path::rows(self.paths@);
            if self.paths@.len() > 0 {
                assert(rows[0] == self.paths@[0]@);
                assert(rows.contains(rows[0]));
                assert(self.paths().contains(rows[0]));
            } else {
                assert forall|q: Seq<char>| !self.paths().contains(q) by {
                    if rows.contains(q) {
                        let k = choose|k: int| 0 <= k < rows.len() && rows[k] == q;
                    }
                }
                assert(self.paths() =~= Set::empty());
            }
        }
        self.paths.len() == 0
    }

    /// Whether the node at `path` stays, for a path given by its characters.
    fn keeps(&self, path: &Vec<char>) -> (r: bool)
        ensures
            r == included(self.paths(), self.mode(), path@),
    {
        match self.mode {
            FilterMode::OptOut => !is_covered(&self.paths, path),
            FilterMode::OptIn => {
                assert(path@.take(path.len() as int) =~= path@);
                if has_prefix(&self.paths, path, path.len()) {
                    return true;
                }
                let base = prefix_of(path, base_len(path));
                is_covered(&self.paths, &base) || is_ancestor(&self.paths, &base)
            },
        }
    }

    /// Whether the node at `path` stays.
    pub fn should_include_path(&self, path: &str) -> (r: bool)
        ensures
            r == included(self.paths(), self.mode(), path@),
    {
        let chars = chars_of(path);
        self.keeps(&chars)
    }

    /// The document with every node removed that the filter does not keep.
    pub fn filter_json(&self, json: JsonValue) -> (r: JsonValue)
        ensures
            r@ == filtered(json@, self.paths(), self.mode()),
    {
        if self.is_empty() {
            match self.mode {
                FilterMode::OptIn => {
                    let members: Vec<(String, JsonValue)> = Vec::new();
                    proof {
                        lemma_object_view(members);
                        assert(member_trees(members@) =~= Seq::empty());
                    }
                    JsonValue::Object(members)
                },
                FilterMode::OptOut => json,
            }
        } else {
            let root: Vec<char> = Vec::new();
            self.filter_value(&json, &root)
        }
    }

    fn filter_value(&self, value: &JsonValue, at: &Vec<char>) -> (r: JsonValue)
        ensures
            r@ == filter_tree(value@, at@, self.paths(), self.mode()),
        decreases value, 1int,
    {
        match value {
            JsonValue::Null => JsonValue::Null,
            JsonValue::Bool(b) => JsonValue::Bool(*b),
            JsonValue::Number(n) => JsonValue::Number(n.clone()),
            JsonValue::Text(s) => JsonValue::Text(s.clone()),
            JsonValue::Array(items) => {
                let kept = self.filter_array(items, at);
                proof {
                    lemma_array_view(*items);
                    lemma_array_view(kept);
                }
                JsonValue::Array(kept)
            },
            JsonValue::Object(members) => {
                let kept = self.filter_object(members, at);
                proof {
                    lemma_object_view(*members);
                    lemma_object_view(kept);
                }
                JsonValue::Object(kept)
            },
        }
    }

    fn filter_object(&self, members: &Vec<(String, JsonValue)>, at: &Vec<char>) -> (r: Vec<
        (String, JsonValue),
    >)
        ensures
            member_trees(r@) == pick_kept(
                filtered_members(member_trees(members@), at@, self.paths(), self.mode()),
                member_flags(member_trees(members@), at@, self.paths(), self.mode()),
            ),
        decreases members, 0int,
    {
        let ghost given = member_trees(members@);
        let ghost all = filtered_members(given, at@, self.paths(), self.mode());
        let ghost flags = member_flags(given, at@, self.paths(), self.mode());
        let mut out: Vec<(String, JsonValue)> = Vec::new();
        let mut i: usize = 0;
        assert(member_trees(out@) =~= pick_kept(all.take(0), flags.take(0)));
        while i < members.len()
            invariant
                i <= members.len(),
                given == member_trees(members@),
                all == filtered_members(given, at@, self.paths(), self.mode()),
                flags == member_flags(given, at@, self.paths(), self.mode()),
                member_trees(out@) == pick_kept(all.take(i as int), flags.take(i as int)),
            decreases members.len() - i,
        {
            let key = &members[i].0;
            let here = child_of(at, key.as_str());
            proof {
                lemma_pick_kept_step(all, flags, i as int);
            }
            if self.keeps(&here) {
                let inner = self.filter_value(&members[i].1, &here);
                let ghost before = member_trees(out@);
                out.push((key.clone(), inner));
                assert(member_trees(out@) =~= before.push(all[i as int]));
            }
            i += 1;
        }
        assert(all.take(members.len() as int) =~= all);
        assert(flags.take(members.len() as int) =~= flags);
        out
    }

    fn filter_array(&self, items: &Vec<JsonValue>, at: &Vec<char>) -> (r: Vec<JsonValue>)
        ensures
            trees(r@) == pick_kept(
                filtered_elements(trees(items@), at@, self.paths(), self.mode()),
                element_flags(items@.len(), at@, self.paths(), self.mode()),
            ),
        decreases items, 0int,
    {
        let ghost given = trees(items@);
        let ghost all = filtered_elements(given, at@, self.paths(), self.mode());
        let ghost flags = element_flags(items@.len(), at@, self.paths(), self.mode());
        let mut out: Vec<JsonValue> = Vec::new();
        let mut i: usize = 0;
        assert(trees(out@) =~= pick_kept(all.take(0), flags.take(0)));
        while i < items.len()
            invariant
                i <= items.len(),
                given == trees(items@),
                all == filtered_elements(given, at@, self.paths(), self.mode()),
                flags == element_flags(items@.len(), at@, self.paths(), self.mode()),
                trees(out@) == pick_kept(all.take(i as int), flags.take(i as int)),
            decreases items.len() - i,
        {
            let here = element_of(at, i);
            proof {
                lemma_pick_kept_step(all, flags, i as int);
            }
            if self.keeps(&here) {
                let inner = self.filter_value(&items[i], &here);
                let ghost before = trees(out@);
                out.push(inner);
                assert(trees(out@) =~= before.push(all[i as int]));
            }
            i += 1;
        }
        assert(all.take(items.len() as int) =~= all);
        assert(flags.take(items.len() as int) =~= flags);
        out
    }
}

} // verus!
