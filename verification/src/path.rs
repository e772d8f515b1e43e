use vstd::prelude::*;
use vstd::string::StringExecFns;

verus! {

/// The decimal digit that stands for `d`, for `0 <= d <= 9`.
pub open spec fn digit_char(d: int) -> char {
    if d == 0 {
        '0'
    } else if d == 1 {
        '1'
    } else if d == 2 {
        '2'
    } else if d == 3 {
        '3'
    } else if d == 4 {
        '4'
    } else if d == 5 {
        '5'
    } else if d == 6 {
        '6'
    } else if d == 7 {
        '7'
    } else if d == 8 {
        '8'
    } else {
        '9'
    }
}

/// The decimal numeral of `n`, without leading zeros.
pub open spec fn decimal(n: nat) -> Seq<char>
    decreases n,
{
    if n < 10 {
        seq![digit_char(n as int)]
    } else {
        decimal(n / 10).push(digit_char((n % 10) as int))
    }
}

/// The path of the member `key` of the object at `parent`: the key itself at
/// the root, otherwise parent, a dot and the key.
pub open spec fn child_path(parent: Seq<char>, key: Seq<char>) -> Seq<char> {
    if parent.len() == 0 {
        key
    } else {
        parent + seq!['.'] + key
    }
}

/// The path of element `index` of the array at `parent`: parent followed by
/// the index in square brackets.
pub open spec fn element_path(parent: Seq<char>, index: nat) -> Seq<char> {
    parent + seq!['['] + decimal(index) + seq![']']
}

/// The position of the first `[` at or after `from`, or the length of the
/// path where there is none.
pub open spec fn bracket_from(path: Seq<char>, from: int) -> int
    decreases path.len() - from,
{
    if from < 0 || from >= path.len() {
        path.len() as int
    } else if path[from] == '[' {
        from
    } else {
        bracket_from(path, from + 1)
    }
}

/// A path without its array index: what stands before the first `[`.
pub open spec fn base_of(path: Seq<char>) -> Seq<char> {
    path.take(bracket_from(path, 0))
}

/// `s` is a member of `paths`, or lies below one: a member ends where `s` has a dot.
pub open spec fn covered(paths: Set<Seq<char>>, s: Seq<char>) -> bool {
    paths.contains(s) || exists|i: int|
        0 <= i < s.len() && s[i] == '.' && #[trigger] paths.contains(s.take(i))
}

/// `s` lies strictly above a member of `paths`: a member starts with `s` and
/// goes on with a dot.
pub open spec fn leads_to(paths: Set<Seq<char>>, s: Seq<char>) -> bool {
    exists|p: Seq<char>|
        #[trigger] paths.contains(p) && s.len() < p.len() && p.take(s.len() as int) == s && p[s.len() as int]
            == '.'
}

/// The views of a list of paths.
pub open spec fn rows(paths: Seq<Vec<char>>) -> Seq<Seq<char>> {
    paths.map_values(|p: Vec<char>| p@)
}

/// The set of paths that a list of paths spells.
pub open spec fn path_set(paths: Seq<Vec<char>>) -> Set<Seq<char>> {
    rows(paths).to_set()
}

pub proof fn lemma_bracket_from_bounds(path: Seq<char>, from: int)
    requires
        0 <= from <= path.len(),
    ensures
        from <= bracket_from(path, from) <= path.len(),
        forall|k: int| from <= k < bracket_from(path, from) ==> path[k] != '[',
        bracket_from(path, from) < path.len() ==> path[bracket_from(path, from)] == '[',
    decreases path.len() - from,
{
    if from < path.len() && path[from] != '[' {
        lemma_bracket_from_bounds(path, from + 1);
    }
}

/// The characters of a string, one by one.
pub fn chars_of(s: &str) -> (v: Vec<char>)
    ensures
        v@ == s@,
{
    let mut v: Vec<char> = Vec::new();
    for c in it: s.chars()
        invariant
            it.seq() == s@,
            v@ == it.seq().take(it.index()),
    {
        v.push(c);
        assert(v@ =~= it.seq().take(it.index() + 1));
    }
    assert(s@.take(s@.len() as int) =~= s@);
    v
}

/// A copy of the first `n` characters of `v`.
pub fn prefix_of(v: &Vec<char>, n: usize) -> (r: Vec<char>)
    requires
        n <= v.len(),
    ensures
        r@ == v@.take(n as int),
{
    let mut r: Vec<char> = Vec::new();
    let mut i: usize = 0;
    while i < n
        invariant
            i <= n <= v.len(),
            r@ == v@.take(i as int),
        decreases n - i,
    {
        r.push(v[i]);
        i += 1;
        assert(r@ =~= v@.take(i as int));
    }
    r
}

/// Appends the characters of `tail` to `v`.
pub fn push_all(v: &mut Vec<char>, tail: &Vec<char>)
    ensures
        final(v)@ == old(v)@ + tail@,
{
    let mut i: usize = 0;
    while i < tail.len()
        invariant
            i <= tail.len(),
            v@ == old(v)@ + tail@.take(i as int),
        decreases tail.len() - i,
    {
        v.push(tail[i]);
        i += 1;
        assert(v@ =~= old(v)@ + tail@.take(i as int));
    }
    assert(tail@.take(tail.len() as int) =~= tail@);
}

/// Whether the first `n` characters of `s` spell `p`.
pub fn prefix_is(s: &Vec<char>, n: usize, p: &Vec<char>) -> (r: bool)
    requires
        n <= s.len(),
    ensures
        r == (s@.take(n as int) == p@),
{
    if p.len() != n {
        assert(s@.take(n as int).len() != p@.len());
        return false;
    }
    let mut i: usize = 0;
    while i < n
        invariant
            i <= n <= s.len(),
            p.len() == n,
            s@.take(i as int) == p@.take(i as int),
        decreases n - i,
    {
        if s[i] != p[i] {
            assert(s@.take(n as int)[i as int] != p@[i as int]);
            return false;
        }
        i += 1;
        assert(s@.take(i as int) =~= s@.take(i - 1).push(s@[i - 1]));
        assert(p@.take(i as int) =~= p@.take(i - 1).push(p@[i - 1]));
    }
    assert(p@.take(n as int) =~= p@);
    true
}

/// Whether one of `paths` spells the first `n` characters of `s`.
pub fn has_prefix(paths: &Vec<Vec<char>>, s: &Vec<char>, n: usize) -> (r: bool)
    requires
        n <= s.len(),
    ensures
        r == path_set(paths@).contains(s@.take(n as int)),
{
    let mut j: usize = 0;
    while j < paths.len()
        invariant
            j <= paths.len(),
            n <= s.len(),
            forall|k: int| 0 <= k < j ==> rows(paths@)[k] != s@.take(n as int),
        decreases paths.len() - j,
    {
        if prefix_is(s, n, &paths[j]) {
            assert(rows(paths@)[j as int] == s@.take(n as int));
            assert(rows(paths@).contains(s@.take(n as int)));
            return true;
        }
        j += 1;
    }
    assert(!rows(paths@).contains(s@.take(n as int)));
    false
}

/// Whether `s` is one of `paths` or lies below one of them.
pub fn is_covered(paths: &Vec<Vec<char>>, s: &Vec<char>) -> (r: bool)
    ensures
        r == covered(path_set(paths@), s@),
{
    assert(s@.take(s.len() as int) =~= s@);
    if has_prefix(paths, s, s.len()) {
        return true;
    }
    let mut i: usize = 0;
    while i < s.len()
        invariant
            i <= s.len(),
            !path_set(paths@).contains(s@),
            forall|k: int|
                0 <= k < i && s@[k] == '.' ==> !(#[trigger] path_set(paths@).contains(s@.take(k))),
        decreases s.len() - i,
    {
        if s[i] == '.' && has_prefix(paths, s, i) {
            return true;
        }
        i += 1;
    }
    false
}

/// Whether `s` lies strictly above one of `paths`.
pub fn is_ancestor(paths: &Vec<Vec<char>>, s: &Vec<char>) -> (r: bool)
    ensures
        r == leads_to(path_set(paths@), s@),
{
    let n = s.len();
    let mut j: usize = 0;
    while j < paths.len()
        invariant
            j <= paths.len(),
            n == s.len(),
            forall|k: int|
                0 <= k < j ==> !(s@.len() < (#[trigger] rows(paths@)[k]).len() && rows(
                    paths@,
                )[k].take(s@.len() as int) == s@ && rows(paths@)[k][s@.len() as int] == '.'),
        decreases paths.len() - j,
    {
        let p = &paths[j];
        assert(rows(paths@)[j as int] == p@);
        if p.len() > n && p[n] == '.' {
            assert(s@.take(n as int) =~= s@);
            if prefix_is(p, n, s) {
                assert(path_set(paths@).contains(p@));
                return true;
            }
        }
        j += 1;
    }
    assert forall|q: Seq<char>|
        #[trigger] path_set(paths@).contains(q) implies !(s@.len() < q.len() && q.take(s@.len() as int) == s@
        && q[s@.len() as int] == '.') by {
        let k = choose|k: int| 0 <= k < rows(paths@).len() && rows(paths@)[k] == q;
        assert(rows(paths@)[k] == q);
    }
    false
}

/// The length of the part of `s` that stands before its first `[`.
pub fn base_len(s: &Vec<char>) -> (n: usize)
    ensures
        n as int == bracket_from(s@, 0),
        n <= s.len(),
{
    let mut i: usize = 0;
    while i < s.len() && s[i] != '['
        invariant
            i <= s.len(),
            bracket_from(s@, 0) == bracket_from(s@, i as int),
        decreases s.len() - i,
    {
        i += 1;
    }
    i
}

/// The decimal digit for `d`.
pub fn digit_of(d: usize) -> (c: char)
    requires
        d < 10,
    ensures
        c == digit_char(d as int),
{
    if d == 0 {
        '0'
    } else if d == 1 {
        '1'
    } else if d == 2 {
        '2'
    } else if d == 3 {
        '3'
    } else if d == 4 {
        '4'
    } else if d == 5 {
        '5'
    } else if d == 6 {
        '6'
    } else if d == 7 {
        '7'
    } else if d == 8 {
        '8'
    } else {
        '9'
    }
}

/// Appends the decimal numeral of `n` to `v`.
pub fn push_decimal(v: &mut Vec<char>, n: usize)
    ensures
        final(v)@ == old(v)@ + decimal(n as nat),
    decreases n,
{
    if n < 10 {
        v.push(digit_of(n));
        assert(v@ =~= old(v)@ + decimal(n as nat));
    } else {
        push_decimal(v, n / 10);
        v.push(digit_of(n % 10));
        assert(v@ =~= old(v)@ + decimal(n as nat));
    }
}

/// The path of the member `key` of the object at `parent`.
pub fn child_of(parent: &Vec<char>, key: &str) -> (r: Vec<char>)
    ensures
        r@ == child_path(parent@, key@),
{
    let name = chars_of(key);
    if parent.len() == 0 {
        name
    } else {
        let mut r = prefix_of(parent, parent.len());
        assert(parent@.take(parent.len() as int) =~= parent@);
        r.push('.');
        push_all(&mut r, &name);
        assert(r@ =~= parent@ + seq!['.'] + key@);
        r
    }
}

/// The path of element `index` of the array at `parent`.
pub fn element_of(parent: &Vec<char>, index: usize) -> (r: Vec<char>)
    ensures
        r@ == element_path(parent@, index as nat),
{
    let mut r = prefix_of(parent, parent.len());
    assert(parent@.take(parent.len() as int) =~= parent@);
    r.push('[');
    push_decimal(&mut r, index);
    r.push(']');
    assert(r@ =~= parent@ + seq!['['] + decimal(index as nat) + seq![']']);
    r
}

/// The decimal digit for `d`, as a string.
pub fn digit_text(d: usize) -> (text: &'static str)
    requires
        d < 10,
    ensures
        text@ == seq![digit_char(d as int)],
{
    proof {
        reveal_strlit("0");
        reveal_strlit("1");
        reveal_strlit("2");
        reveal_strlit("3");
        reveal_strlit("4");
        reveal_strlit("5");
        reveal_strlit("6");
        reveal_strlit("7");
        reveal_strlit("8");
        reveal_strlit("9");
    }
    let text = if d == 0 {
        "0"
    } else if d == 1 {
        "1"
    } else if d == 2 {
        "2"
    } else if d == 3 {
        "3"
    } else if d == 4 {
        "4"
    } else if d == 5 {
        "5"
    } else if d == 6 {
        "6"
    } else if d == 7 {
        "7"
    } else if d == 8 {
        "8"
    } else {
        "9"
    };
    assert(text@ =~= seq![digit_char(d as int)]);
    text
}

/// Appends the decimal numeral of `n` to `text`.
pub fn append_decimal(text: &mut String, n: usize)
    ensures
        final(text)@ == old(text)@ + decimal(n as nat),
    decreases n,
{
    if n < 10 {
        text.append(digit_text(n));
        assert(text@ =~= old(text)@ + decimal(n as nat));
    } else {
        append_decimal(text, n / 10);
        text.append(digit_text(n % 10));
        assert(text@ =~= old(text)@ + decimal(n as nat));
    }
}

} // verus!
