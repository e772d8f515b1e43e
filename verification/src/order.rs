use vstd::prelude::*;

verus! {

/// A sort key: two texts, the second of which decides between equal firsts.
pub type Key = (Seq<char>, Seq<char>);

/// Whether `a` does not come after `b` in the lexicographic order of their
/// characters, which is the order of the strings' UTF-8 bytes.
pub open spec fn lex_le(a: Seq<char>, b: Seq<char>) -> bool
    decreases a.len(),
{
    if a.len() == 0 {
        true
    } else if b.len() == 0 {
        false
    } else if a[0] != b[0] {
        a[0] < b[0]
    } else {
        lex_le(a.drop_first(), b.drop_first())
    }
}

/// Whether key `a` does not come after key `b`: by the first text, then by
/// the second.
pub open spec fn key_le(a: Key, b: Key) -> bool {
    if a.0 == b.0 {
        lex_le(a.1, b.1)
    } else {
        lex_le(a.0, b.0)
    }
}

pub proof fn lemma_lex_le_total(a: Seq<char>, b: Seq<char>)
    ensures
        lex_le(a, b) || lex_le(b, a),
        lex_le(a, b) && lex_le(b, a) ==> a == b,
        lex_le(a, a),
    decreases a.len(),
{
    if a.len() > 0 && b.len() > 0 && a[0] == b[0] {
        lemma_lex_le_total(a.drop_first(), b.drop_first());
        if lex_le(a, b) && lex_le(b, a) {
            assert(a =~= seq![a[0]] + a.drop_first());
            assert(b =~= seq![b[0]] + b.drop_first());
        }
    } else if a.len() == 0 && b.len() == 0 {
        assert(a =~= b);
    }
    if a.len() > 0 {
        lemma_lex_le_total(a.drop_first(), a.drop_first());
    }
}

pub proof fn lemma_lex_le_transitive(a: Seq<char>, b: Seq<char>, c: Seq<char>)
    requires
        lex_le(a, b),
        lex_le(b, c),
    ensures
        lex_le(a, c),
    decreases a.len(),
{
    if a.len() > 0 && b.len() > 0 && c.len() > 0 && a[0] == b[0] && b[0] == c[0] {
        lemma_lex_le_transitive(a.drop_first(), b.drop_first(), c.drop_first());
    }
}

pub proof fn lemma_key_le_total(a: Key, b: Key)
    ensures
        key_le(a, b) || key_le(b, a),
        key_le(a, a),
        key_le(a, b) && key_le(b, a) ==> a == b,
{
    lemma_lex_le_total(a.0, b.0);
    lemma_lex_le_total(a.1, b.1);
    lemma_lex_le_total(a.1, a.1);
}

pub proof fn lemma_key_le_transitive(a: Key, b: Key, c: Key)
    requires
        key_le(a, b),
        key_le(b, c),
    ensures
        key_le(a, c),
{
    lemma_lex_le_total(a.0, b.0);
    lemma_lex_le_total(b.0, c.0);
    if a.0 == b.0 && b.0 == c.0 {
        lemma_lex_le_transitive(a.1, b.1, c.1);
    } else if a.0 == b.0 {
    } else if b.0 == c.0 {
    } else {
        lemma_lex_le_transitive(a.0, b.0, c.0);
        if a.0 == c.0 {
            lemma_lex_le_total(a.0, b.0);
        }
    }
}

/// The first position in `order` whose key comes after the key of `k`, or
/// the length of `order` where there is none.
pub open spec fn upper_bound(order: Seq<int>, keys: Seq<Key>, k: int, from: int) -> int
    decreases order.len() - from,
{
    if from < 0 || from >= order.len() {
        order.len() as int
    } else if !key_le(keys[order[from]], keys[k]) {
        from
    } else {
        upper_bound(order, keys, k, from + 1)
    }
}

/// The stable order of the first `n` keys: their positions, sorted by key,
/// positions of equal keys ascending. Each position is placed behind all
/// positions placed before it whose key does not come after its own.
pub open spec fn stable_order(keys: Seq<Key>, n: nat) -> Seq<int>
    decreases n,
{
    if n == 0 {
        Seq::empty()
    } else {
        let before = stable_order(keys, (n - 1) as nat);
        before.insert(upper_bound(before, keys, n - 1, 0), n - 1)
    }
}

/// The positions of all keys in their stable order.
pub open spec fn ranking(keys: Seq<Key>) -> Seq<int> {
    stable_order(keys, keys.len())
}

/// Whether `order` lists each of the positions below `n` once, sorted by
/// key, positions of equal keys ascending.
pub open spec fn is_stable_order(order: Seq<int>, keys: Seq<Key>, n: nat) -> bool {
    &&& order.len() == n
    &&& forall|i: int| 0 <= i < n ==> 0 <= #[trigger] order[i] < n
    &&& forall|i: int, j: int| 0 <= i < j < n ==> #[trigger] order[i] != #[trigger] order[j]
    &&& forall|i: int, j: int|
        0 <= i < j < n ==> key_le(keys[#[trigger] order[i]], keys[#[trigger] order[j]])
    &&& forall|i: int, j: int|
        0 <= i < j < n && keys[#[trigger] order[i]] == keys[#[trigger] order[j]] ==> order[i]
            < order[j]
}

pub proof fn lemma_upper_bound(order: Seq<int>, keys: Seq<Key>, k: int, from: int)
    requires
        0 <= from <= order.len(),
    ensures
        from <= upper_bound(order, keys, k, from) <= order.len(),
        forall|i: int|
            from <= i < upper_bound(order, keys, k, from) ==> key_le(
                keys[#[trigger] order[i]],
                keys[k],
            ),
        upper_bound(order, keys, k, from) < order.len() ==> !key_le(
            keys[order[upper_bound(order, keys, k, from)]],
            keys[k],
        ),
    decreases order.len() - from,
{
    if from < order.len() && key_le(keys[order[from]], keys[k]) {
        lemma_upper_bound(order, keys, k, from + 1);
    }
}

/// Placing position `n` into a stable order of the positions below it gives
/// a stable order of the positions up to it.
pub proof fn lemma_place(order: Seq<int>, keys: Seq<Key>, n: nat)
    requires
        is_stable_order(order, keys, n),
        n < keys.len(),
    ensures
        is_stable_order(
            order.insert(upper_bound(order, keys, n as int, 0), n as int),
            keys,
            n + 1,
        ),
{
    let p = upper_bound(order, keys, n as int, 0);
    lemma_upper_bound(order, keys, n as int, 0);
    let next = order.insert(p, n as int);
    assert forall|i: int, j: int| 0 <= i < j < n + 1 implies key_le(
        keys[#[trigger] next[i]],
        keys[#[trigger] next[j]],
    ) && (keys[next[i]] == keys[next[j]] ==> next[i] < next[j]) && next[i] != next[j] by {
        if j < p {
            assert(next[i] == order[i] && next[j] == order[j]);
        } else if j == p {
            assert(next[i] == order[i]);
        } else if i < p {
            assert(next[i] == order[i] && next[j] == order[j - 1]);
        } else if i == p {
            assert(next[j] == order[j - 1]);
            lemma_key_le_total(keys[order[p]], keys[n as int]);
            if p < j - 1 {
                assert(key_le(keys[order[p]], keys[order[j - 1]]));
            }
            if !key_le(keys[n as int], keys[order[j - 1]]) {
                lemma_key_le_total(keys[n as int], keys[order[j - 1]]);
                lemma_key_le_transitive(keys[order[p]], keys[order[j - 1]], keys[n as int]);
            }
            if keys[n as int] == keys[order[j - 1]] {
                lemma_key_le_total(keys[n as int], keys[n as int]);
                if p < j - 1 {
                    lemma_key_le_transitive(keys[order[p]], keys[order[j - 1]], keys[n as int]);
                }
            }
        } else {
            assert(next[i] == order[i - 1] && next[j] == order[j - 1]);
        }
    }
    assert forall|i: int| 0 <= i < n + 1 implies 0 <= #[trigger] next[i] < n + 1 by {
        if i < p {
            assert(next[i] == order[i]);
        } else if i > p {
            assert(next[i] == order[i - 1]);
        }
    }
}

/// The ranking of a list of keys is a stable order of all its positions.
pub proof fn lemma_stable_order(keys: Seq<Key>, n: nat)
    requires
        n <= keys.len(),
    ensures
        is_stable_order(stable_order(keys, n), keys, n),
    decreases n,
{
    if n > 0 {
        lemma_stable_order(keys, (n - 1) as nat);
        lemma_place(stable_order(keys, (n - 1) as nat), keys, (n - 1) as nat);
    }
}

/// The keys of a list of pairs of texts.
pub open spec fn key_views(keys: Seq<(Vec<char>, Vec<char>)>) -> Seq<Key> {
    keys.map_values(|k: (Vec<char>, Vec<char>)| (k.0@, k.1@))
}

/// The positions in a list of positions.
pub open spec fn positions(order: Seq<usize>) -> Seq<int> {
    order.map_values(|i: usize| i as int)
}

/// Whether `a` does not come after `b`.
pub fn text_le(a: &Vec<char>, b: &Vec<char>) -> (r: bool)
    ensures
        r == lex_le(a@, b@),
{
    let mut i: usize = 0;
    assert(a@.skip(0) =~= a@ && b@.skip(0) =~= b@);
    while i < a.len() && i < b.len()
        invariant
            i <= a.len(),
            i <= b.len(),
            lex_le(a@, b@) == lex_le(a@.skip(i as int), b@.skip(i as int)),
            forall|k: int| 0 <= k < i ==> a@[k] == b@[k],
        decreases a.len() - i,
    {
        assert(a@.skip(i as int).drop_first() =~= a@.skip(i + 1));
        assert(b@.skip(i as int).drop_first() =~= b@.skip(i + 1));
        if a[i] != b[i] {
            return a[i] < b[i];
        }
        i += 1;
    }
    i == a.len()
}

/// Whether two texts are equal.
pub fn text_eq(a: &Vec<char>, b: &Vec<char>) -> (r: bool)
    ensures
        r == (a@ == b@),
{
    if a.len() != b.len() {
        return false;
    }
    let mut i: usize = 0;
    while i < a.len()
        invariant
            i <= a.len(),
            a.len() == b.len(),
            forall|k: int| 0 <= k < i ==> a@[k] == b@[k],
        decreases a.len() - i,
    {
        if a[i] != b[i] {
            return false;
        }
        i += 1;
    }
    assert(a@ =~= b@);
    true
}

/// Whether the key at position `a` does not come after the key at `b`.
pub fn not_after(keys: &Vec<(Vec<char>, Vec<char>)>, a: usize, b: usize) -> (r: bool)
    requires
        a < keys.len(),
        b < keys.len(),
    ensures
        r == key_le(key_views(keys@)[a as int], key_views(keys@)[b as int]),
{
    let here = &keys[a];
    let there = &keys[b];
    if text_eq(&here.0, &there.0) {
        text_le(&here.1, &there.1)
    } else {
        text_le(&here.0, &there.0)
    }
}

/// The positions of `keys` in their stable order.
pub fn ranking_of(keys: &Vec<(Vec<char>, Vec<char>)>) -> (order: Vec<usize>)
    ensures
        positions(order@) == ranking(key_views(keys@)),
{
    let ghost all = key_views(keys@);
    let mut order: Vec<usize> = Vec::new();
    let mut n: usize = 0;
    assert(positions(order@) =~= stable_order(all, 0));
    while n < keys.len()
        invariant
            n <= keys.len(),
            all == key_views(keys@),
            order@.len() == n,
            positions(order@) == stable_order(all, n as nat),
        decreases keys.len() - n,
    {
        proof {
            lemma_stable_order(all, n as nat);
        }
        let ghost before = positions(order@);
        let mut p: usize = 0;
        while p < order.len() && not_after(keys, order[p], n)
            invariant
                p <= order.len(),
                n < keys.len(),
                order@.len() == n,
                all == key_views(keys@),
                before == positions(order@),
                is_stable_order(before, all, n as nat),
                forall|i: int| 0 <= i < order@.len() ==> order@[i] as int == before[i],
                upper_bound(before, all, n as int, 0) == upper_bound(before, all, n as int, p as int),
            decreases order.len() - p,
        {
            p += 1;
        }
        order.insert(p, n);
        assert(positions(order@) =~= before.insert(p as int, n as int));
        n += 1;
    }
    order
}

} // verus!
