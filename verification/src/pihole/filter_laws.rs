use crate::json::{member_of, JsonTree};
use crate::path::{base_of, child_path, covered, leads_to, lemma_bracket_from_bounds};
use crate::pihole::config_filter::{
    filter_tree, filtered, filtered_members, included, member_flags, pick_kept, FilterMode,
};
use vstd::prelude::*;

verus! {

/// The value that is reached in a document by following the keys of `route`
/// through objects, if there is one.
pub open spec fn value_at(t: JsonTree, route: Seq<Seq<char>>) -> Option<JsonTree>
    decreases route.len(),
{
    if route.len() == 0 {
        Some(t)
    } else {
        match t {
            JsonTree::Object(members) => match member_of(members, route[0]) {
                Some(below) => value_at(below, route.drop_first()),
                None => None,
            },
            _ => None,
        }
    }
}

/// The path of the node that is reached from the node at `at` by following
/// the keys of `route`.
pub open spec fn route_path(at: Seq<char>, route: Seq<Seq<char>>) -> Seq<char>
    decreases route.len(),
{
    if route.len() == 0 {
        at
    } else {
        route_path(child_path(at, route[0]), route.drop_first())
    }
}

/// Whether the filter keeps every node on the way from the node at `at`
/// along `route`; the node at `at` itself is not asked for.
pub open spec fn kept_along(
    paths: Set<Seq<char>>,
    mode: FilterMode,
    at: Seq<char>,
    route: Seq<Seq<char>>,
) -> bool
    decreases route.len(),
{
    route.len() == 0 || (included(paths, mode, child_path(at, route[0])) && kept_along(
        paths,
        mode,
        child_path(at, route[0]),
        route.drop_first(),
    ))
}

/// A value that is neither an object nor an array.
pub open spec fn is_scalar(t: JsonTree) -> bool {
    !(t is Object) && !(t is Array)
}

/// A text without an opening bracket.
pub open spec fn bracket_free(text: Seq<char>) -> bool {
    forall|i: int| 0 <= i < text.len() ==> text[i] != '['
}

/// A route whose keys are not empty and hold no opening bracket, so that the
/// path of each node on it names that node and no array element.
pub open spec fn plain_route(route: Seq<Seq<char>>) -> bool {
    forall|i: int|
        0 <= i < route.len() ==> (#[trigger] route[i]).len() > 0 && bracket_free(route[i])
}

proof fn lemma_member_of_filtered(
    members: Seq<(Seq<char>, JsonTree)>,
    at: Seq<char>,
    paths: Set<Seq<char>>,
    mode: FilterMode,
    key: Seq<char>,
)
    ensures
        member_of(
            pick_kept(
                filtered_members(members, at, paths, mode),
                member_flags(members, at, paths, mode),
            ),
            key,
        ) == if included(paths, mode, child_path(at, key)) {
            match member_of(members, key) {
                Some(below) => Some(filter_tree(below, child_path(at, key), paths, mode)),
                None => None,
            }
        } else {
            None
        },
    decreases members.len(),
{
    let all = filtered_members(members, at, paths, mode);
    let flags = member_flags(members, at, paths, mode);
    if members.len() > 0 {
        let rest = members.drop_last();
        lemma_member_of_filtered(rest, at, paths, mode, key);
        assert(all.drop_last() =~= filtered_members(rest, at, paths, mode));
        assert(flags.drop_last() =~= member_flags(rest, at, paths, mode));
        assert(all.last().0 == members.last().0);
        let before = pick_kept(all.drop_last(), flags.drop_last());
        if flags.last() {
            assert(pick_kept(all, flags) == before.push(all.last()));
            assert(before.push(all.last()).drop_last() =~= before);
        }
    }
}

/// What is reached in a filtered tree is what is reached in the tree,
/// filtered, where the filter keeps every node on the way; else nothing.
pub proof fn lemma_value_at_filtered(
    t: JsonTree,
    at: Seq<char>,
    paths: Set<Seq<char>>,
    mode: FilterMode,
    route: Seq<Seq<char>>,
)
    ensures
        value_at(filter_tree(t, at, paths, mode), route) == if kept_along(paths, mode, at, route) {
            match value_at(t, route) {
                Some(found) => Some(filter_tree(found, route_path(at, route), paths, mode)),
                None => None,
            }
        } else {
            None
        },
    decreases route.len(),
{
    if route.len() > 0 {
        match t {
            JsonTree::Object(members) => {
                lemma_member_of_filtered(members, at, paths, mode, route[0]);
                match member_of(members, route[0]) {
                    Some(below) => {
                        lemma_value_at_filtered(
                            below,
                            child_path(at, route[0]),
                            paths,
                            mode,
                            route.drop_first(),
                        );
                    },
                    None => {},
                }
            },
            _ => {},
        }
    }
}

/// Below a node, a path that lies under a selected path stays under it, and a
/// path that lies above a selected path has its parent above it too.
proof fn lemma_child_path(paths: Set<Seq<char>>, parent: Seq<char>, key: Seq<char>)
    requires
        parent.len() > 0,
    ensures
        covered(paths, parent) ==> covered(paths, child_path(parent, key)),
        leads_to(paths, child_path(parent, key)) ==> leads_to(paths, parent),
        covered(paths, child_path(parent, key)) ==> covered(paths, parent) || leads_to(
            paths,
            parent,
        ),
{
    let child = child_path(parent, key);
    let n = parent.len() as int;
    assert(child.take(n) =~= parent);
    assert(child[n] == '.');
    if covered(paths, parent) {
        if paths.contains(parent) {
            assert(paths.contains(child.take(n)));
        } else {
            let i = choose|i: int|
                0 <= i < parent.len() && parent[i] == '.' && #[trigger] paths.contains(
                    parent.take(i),
                );
            assert(child.take(i) =~= parent.take(i));
            assert(child[i] == '.');
            assert(paths.contains(child.take(i)));
        }
    }
    if leads_to(paths, child) {
        let p = choose|p: Seq<char>|
            #[trigger] paths.contains(p) && child.len() < p.len() && p.take(child.len() as int)
                == child && p[child.len() as int] == '.';
        assert(p.take(n) =~= child.take(n));
        assert(p[n] == p.take(child.len() as int)[n]);
    }
    if covered(paths, child) {
        if paths.contains(child) {
            assert(leads_to(paths, parent));
        } else {
            let i = choose|i: int|
                0 <= i < child.len() && child[i] == '.' && #[trigger] paths.contains(child.take(i));
            let p = child.take(i);
            if i < n {
                assert(parent.take(i) =~= p);
                assert(parent[i] == '.');
            } else if i == n {
                assert(p =~= parent);
            } else {
                assert(p.take(n) =~= parent);
                assert(p[n] == '.');
                assert(leads_to(paths, parent));
            }
        }
    }
}

proof fn lemma_bracket_free_child(parent: Seq<char>, key: Seq<char>)
    requires
        bracket_free(parent),
        bracket_free(key),
        key.len() > 0,
    ensures
        bracket_free(child_path(parent, key)),
        child_path(parent, key).len() > 0,
        base_of(child_path(parent, key)) == child_path(parent, key),
{
    let child = child_path(parent, key);
    assert forall|i: int| 0 <= i < child.len() implies child[i] != '[' by {
        if parent.len() > 0 {
            if i < parent.len() {
                assert(child[i] == parent[i]);
            } else if i > parent.len() {
                assert(child[i] == key[i - parent.len() - 1]);
            }
        }
    }
    lemma_bracket_from_bounds(child, 0);
    assert(child.take(child.len() as int) =~= child);
}

/// Whether a path without an array index stays when the filter opts in: it
/// lies at or below a selected path, or above one.
pub open spec fn selects(paths: Set<Seq<char>>, path: Seq<char>) -> bool {
    covered(paths, path) || leads_to(paths, path)
}

/// Along a plain route, the decision for the last node decides for the nodes
/// before it: opting out keeps the way exactly where the last node is not
/// under a selected path; opting in keeps it exactly where the last node is
/// at, under or above a selected path.
proof fn lemma_kept_along(paths: Set<Seq<char>>, at: Seq<char>, route: Seq<Seq<char>>)
    requires
        plain_route(route),
        route.len() > 0,
        bracket_free(at),
    ensures
        bracket_free(route_path(at, route)),
        route_path(at, route).len() > 0,
        kept_along(paths, FilterMode::OptOut, at, route) <==> !covered(
            paths,
            route_path(at, route),
        ),
        kept_along(paths, FilterMode::OptIn, at, route) <==> selects(paths, route_path(at, route)),
        at.len() > 0 && covered(paths, at) ==> covered(paths, route_path(at, route)),
        at.len() > 0 && selects(paths, route_path(at, route)) ==> selects(paths, at),
    decreases route.len(),
{
    let child = child_path(at, route[0]);
    let rest = route.drop_first();
    lemma_bracket_free_child(at, route[0]);
    if at.len() > 0 {
        lemma_child_path(paths, at, route[0]);
    }
    assert(paths.contains(child) ==> covered(paths, child));
    assert(included(paths, FilterMode::OptIn, child) == selects(paths, child));
    if rest.len() > 0 {
        assert forall|i: int| 0 <= i < rest.len() implies (#[trigger] rest[i]).len() > 0
            && bracket_free(rest[i]) by {
            assert(rest[i] == route[i + 1]);
        }
        lemma_kept_along(paths, child, rest);
    } else {
        assert(route_path(child, rest) == child);
        assert(kept_along(paths, FilterMode::OptOut, child, rest));
        assert(kept_along(paths, FilterMode::OptIn, child, rest));
    }
}

/// Complementarity of the two modes, scalar by scalar. For a document, a set
/// of paths and a route of plain keys from the root:
/// a scalar stands at the end of the route in the document exactly if it
/// stands there in what opting in keeps or in what opting out keeps; and it
/// stands in both only if its path lies strictly above a selected path.
/// Routes lead through objects only, so that the law speaks of the scalars
/// outside of arrays.
pub proof fn lemma_modes_split_scalars(
    t: JsonTree,
    paths: Set<Seq<char>>,
    route: Seq<Seq<char>>,
    leaf: JsonTree,
)
    requires
        plain_route(route),
        route.len() > 0,
        is_scalar(leaf),
    ensures
        value_at(t, route) == Some(leaf) <==> (value_at(
            filtered(t, paths, FilterMode::OptIn),
            route,
        ) == Some(leaf) || value_at(filtered(t, paths, FilterMode::OptOut), route) == Some(leaf)),
        value_at(filtered(t, paths, FilterMode::OptIn), route) == Some(leaf) && value_at(
            filtered(t, paths, FilterMode::OptOut),
            route,
        ) == Some(leaf) ==> leads_to(paths, route_path(Seq::empty(), route)) && !covered(
            paths,
            route_path(Seq::empty(), route),
        ),
{
    let root = Seq::<char>::empty();
    if paths =~= Set::empty() {
        assert(member_of(Seq::<(Seq<char>, JsonTree)>::empty(), route[0]) is None);
    } else {
        lemma_kept_along(paths, root, route);
        lemma_value_at_filtered(t, root, paths, FilterMode::OptIn, route);
        lemma_value_at_filtered(t, root, paths, FilterMode::OptOut, route);
    }
}

} // verus!
