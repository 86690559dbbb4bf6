//! The order of paths, component by component, and lists of paths that are
//! kept in that order.

use crate::text::{chars_eq, rows};
use vstd::prelude::*;

verus! {

/// How one value stands to another in an order.
#[derive(Clone, Copy, Debug, PartialEq, Eq, Structural)]
pub enum Rank {
    /// It stands before the other.
    Before,
    /// It is the other.
    Same,
    /// It stands after the other.
    After,
}

/// `a` stands before `b` from index `i` on, character by character; a text
/// stands before every longer one that it opens.
pub open spec fn chars_before_from(a: Seq<char>, b: Seq<char>, i: int) -> bool
    decreases a.len() - i,
{
    if i < 0 || i >= b.len() {
        false
    } else if i >= a.len() {
        true
    } else if a[i] != b[i] {
        a[i] < b[i]
    } else {
        chars_before_from(a, b, i + 1)
    }
}

/// A component stands before another: `..` before every name, names
/// character by character.
pub open spec fn component_before(a: Seq<char>, b: Seq<char>) -> bool {
    if a == seq!['.', '.'] {
        b != seq!['.', '.']
    } else if b == seq!['.', '.'] {
        false
    } else {
        chars_before_from(a, b, 0)
    }
}

/// A path stands before another from component `i` on, component by
/// component; a path stands before every longer one that it opens.
pub open spec fn path_before_from(a: Seq<Seq<char>>, b: Seq<Seq<char>>, i: int) -> bool
    decreases a.len() - i,
{
    if i < 0 || i >= b.len() {
        false
    } else if i >= a.len() {
        true
    } else if a[i] != b[i] {
        component_before(a[i], b[i])
    } else {
        path_before_from(a, b, i + 1)
    }
}

/// A path stands before another.
pub open spec fn path_before(a: Seq<Seq<char>>, b: Seq<Seq<char>>) -> bool {
    path_before_from(a, b, 0)
}

/// Each path stands before the next.
pub open spec fn ascending(v: Seq<Seq<Seq<char>>>) -> bool {
    forall|i: int| 0 <= i < v.len() - 1 ==> #[trigger] path_before(v[i], v[i + 1])
}

/// What a vector of paths holds.
pub open spec fn paths_view(v: Seq<Vec<Vec<char>>>) -> Seq<Seq<Seq<char>>> {
    Seq::new(v.len(), |i: int| rows(v[i]@))
}

/// No text stands before itself from any index on.
pub proof fn lemma_chars_before_differs(a: Seq<char>, i: int)
    ensures
        !chars_before_from(a, a, i),
    decreases a.len() - i,
{
    if 0 <= i < a.len() {
        lemma_chars_before_differs(a, i + 1);
    }
}

/// A component that stands before another is not that other.
pub proof fn lemma_before_differs(a: Seq<char>, b: Seq<char>)
    requires
        component_before(a, b),
    ensures
        a != b,
{
    lemma_chars_before_differs(a, 0);
}

/// No path stands before itself from any component on.
pub proof fn lemma_path_before_differs(a: Seq<Seq<char>>, i: int)
    ensures
        !path_before_from(a, a, i),
    decreases a.len() - i,
{
    if 0 <= i < a.len() {
        lemma_path_before_differs(a, i + 1);
    }
}

/// The order of texts passes on: what stands before a text stands before
/// what that text stands before.
pub proof fn lemma_chars_before_chain(a: Seq<char>, b: Seq<char>, c: Seq<char>, i: int)
    requires
        chars_before_from(a, b, i),
        chars_before_from(b, c, i),
    ensures
        chars_before_from(a, c, i),
    decreases a.len() - i,
{
    if i < a.len() && a[i] == b[i] && b[i] == c[i] {
        lemma_chars_before_chain(a, b, c, i + 1);
    }
}

/// The order of components passes on.
pub proof fn lemma_component_before_chain(a: Seq<char>, b: Seq<char>, c: Seq<char>)
    requires
        component_before(a, b),
        component_before(b, c),
    ensures
        component_before(a, c),
{
    let up = seq!['.', '.'];
    if a != up && b != up && c != up {
        lemma_chars_before_chain(a, b, c, 0);
    }
}

/// The order of paths passes on.
pub proof fn lemma_path_before_chain(
    a: Seq<Seq<char>>,
    b: Seq<Seq<char>>,
    c: Seq<Seq<char>>,
    i: int,
)
    requires
        path_before_from(a, b, i),
        path_before_from(b, c, i),
    ensures
        path_before_from(a, c, i),
    decreases a.len() - i,
{
    if i < a.len() {
        if a[i] == b[i] && b[i] == c[i] {
            lemma_path_before_chain(a, b, c, i + 1);
        } else if a[i] != b[i] && b[i] != c[i] {
            lemma_component_before_chain(a[i], b[i], c[i]);
            lemma_before_differs(a[i], c[i]);
        }
    }
}

/// In an ascending list every path stands before every later one, so that
/// no path stands in it twice.
pub proof fn lemma_ascending_distinct(v: Seq<Seq<Seq<char>>>, i: int, j: int)
    requires
        ascending(v),
        0 <= i < j < v.len(),
    ensures
        path_before(v[i], v[j]),
        v[i] != v[j],
    decreases j - i,
{
    assert(path_before(v[j - 1], v[j - 1 + 1]));
    if i < j - 1 {
        lemma_ascending_distinct(v, i, j - 1);
        lemma_path_before_chain(v[i], v[j - 1], v[j], 0);
    }
    lemma_path_before_differs(v[j], 0);
}

/// How two texts stand to each other.
pub fn rank_chars(a: &[char], b: &[char]) -> (r: Rank)
    ensures
        r == Rank::Before ==> chars_before_from(a@, b@, 0),
        r == Rank::Same ==> a@ == b@,
        r == Rank::After ==> chars_before_from(b@, a@, 0),
{
    let mut i: usize = 0;
    while i < a.len() && i < b.len()
        invariant
            i <= a.len(),
            i <= b.len(),
            chars_before_from(a@, b@, 0) == chars_before_from(a@, b@, i as int),
            chars_before_from(b@, a@, 0) == chars_before_from(b@, a@, i as int),
            a@.take(i as int) == b@.take(i as int),
        decreases a.len() - i,
    {
        if a[i] != b[i] {
            if a[i] < b[i] {
                return Rank::Before;
            } else {
                return Rank::After;
            }
        }
        i += 1;
        assert(a@.take(i as int) =~= a@.take(i - 1).push(a@[i - 1]));
        assert(b@.take(i as int) =~= b@.take(i - 1).push(b@[i - 1]));
    }
    if i < b.len() {
        Rank::Before
    } else if i < a.len() {
        Rank::After
    } else {
        assert(a@.take(i as int) =~= a@);
        assert(b@.take(i as int) =~= b@);
        Rank::Same
    }
}

/// How two components stand to each other.
pub fn rank_components(a: &[char], b: &[char]) -> (r: Rank)
    ensures
        r == Rank::Before ==> component_before(a@, b@),
        r == Rank::Same ==> a@ == b@,
        r == Rank::After ==> component_before(b@, a@),
{
    let up: Vec<char> = vec!['.', '.'];
    assert(up@ =~= seq!['.', '.']);
    let a_up = chars_eq(a, up.as_slice());
    let b_up = chars_eq(b, up.as_slice());
    if a_up && b_up {
        Rank::Same
    } else if a_up {
        Rank::Before
    } else if b_up {
        Rank::After
    } else {
        rank_chars(a, b)
    }
}

/// How two paths stand to each other.
pub fn rank_paths(a: &Vec<Vec<char>>, b: &Vec<Vec<char>>) -> (r: Rank)
    ensures
        r == Rank::Before ==> path_before(rows(a@), rows(b@)),
        r == Rank::Same ==> rows(a@) == rows(b@),
        r == Rank::After ==> path_before(rows(b@), rows(a@)),
{
    let mut i: usize = 0;
    while i < a.len() && i < b.len()
        invariant
            i <= a.len(),
            i <= b.len(),
            path_before(rows(a@), rows(b@)) == path_before_from(rows(a@), rows(b@), i as int),
            path_before(rows(b@), rows(a@)) == path_before_from(rows(b@), rows(a@), i as int),
            rows(a@).take(i as int) == rows(b@).take(i as int),
        decreases a.len() - i,
    {
        match rank_components(a[i].as_slice(), b[i].as_slice()) {
            Rank::Before => {
                proof {
                    lemma_before_differs(a@[i as int]@, b@[i as int]@);
                }
                return Rank::Before;
            },
            Rank::After => {
                proof {
                    lemma_before_differs(b@[i as int]@, a@[i as int]@);
                }
                return Rank::After;
            },
            Rank::Same => {},
        }
        i += 1;
        assert(rows(a@).take(i as int) =~= rows(a@).take(i - 1).push(rows(a@)[i - 1]));
        assert(rows(b@).take(i as int) =~= rows(b@).take(i - 1).push(rows(b@)[i - 1]));
    }
    if i < b.len() {
        Rank::Before
    } else if i < a.len() {
        Rank::After
    } else {
        assert(rows(a@).take(i as int) =~= rows(a@));
        assert(rows(b@).take(i as int) =~= rows(b@));
        Rank::Same
    }
}

/// A path put into an ascending list between a path that stands before it
/// and one that stands after it leaves the list ascending.
pub proof fn lemma_insert_ascending(before: Seq<Seq<Seq<char>>>, it: Seq<Seq<char>>, i: int)
    requires
        ascending(before),
        0 <= i <= before.len(),
        i > 0 ==> path_before(before[i - 1], it),
        i < before.len() ==> path_before(it, before[i]),
    ensures
        ascending(before.insert(i, it)),
{
    let after = before.insert(i, it);
    assert forall|k: int| 0 <= k < after.len() - 1 implies #[trigger] path_before(
        after[k],
        after[k + 1],
    ) by {
        if k + 1 < i {
            assert(after[k] == before[k]);
            assert(after[k + 1] == before[k + 1]);
            assert(path_before(before[k], before[k + 1]));
        } else if k + 1 == i {
            assert(after[k] == before[i - 1]);
            assert(after[k + 1] == it);
        } else if k == i {
            assert(after[k] == it);
            assert(after[k + 1] == before[i]);
        } else {
            assert(after[k] == before[k - 1]);
            assert(after[k + 1] == before[k - 1 + 1]);
            assert(path_before(before[k - 1], before[k - 1 + 1]));
        }
    }
}

/// A list into which a value is put holds that value and what it held.
pub proof fn lemma_insert_contains<T>(before: Seq<T>, it: T, i: int)
    requires
        0 <= i <= before.len(),
    ensures
        forall|p: T| before.insert(i, it).contains(p) <==> (before.contains(p) || p == it),
{
    let after = before.insert(i, it);
    assert forall|p: T| after.contains(p) <==> (before.contains(p) || p == it) by {
        if after.contains(p) {
            let k = choose|k: int| 0 <= k < after.len() && after[k] == p;
            if k < i {
                assert(before[k] == p);
            } else if k > i {
                assert(before[k - 1] == p);
            }
        }
        if before.contains(p) {
            let k = choose|k: int| 0 <= k < before.len() && before[k] == p;
            if k < i {
                assert(after[k] == p);
            } else {
                assert(after[k + 1] == p);
            }
        }
        if p == it {
            assert(after[i] == p);
        }
    }
}

/// Where a path belongs in a list: behind the paths that stand before it.
/// The flag says whether the list holds the path there already.
pub fn insert_position(list: &Vec<Vec<Vec<char>>>, item: &Vec<Vec<char>>) -> (r: (usize, bool))
    ensures
        r.0 <= list.len(),
        r.0 > 0 ==> path_before(paths_view(list@)[r.0 - 1], rows(item@)),
        r.1 ==> r.0 < list.len() && paths_view(list@)[r.0 as int] == rows(item@),
        !r.1 && r.0 < list.len() ==> path_before(rows(item@), paths_view(list@)[r.0 as int]),
{
    let mut i: usize = 0;
    while i < list.len()
        invariant
            i <= list.len(),
            i > 0 ==> path_before(paths_view(list@)[i - 1], rows(item@)),
        decreases list.len() - i,
    {
        match rank_paths(&list[i], item) {
            Rank::Before => {},
            Rank::Same => {
                return (i, true);
            },
            Rank::After => {
                return (i, false);
            },
        }
        i += 1;
    }
    (i, false)
}

/// Puts a path into an ascending list, unless the list holds it.
pub(crate) fn insert_candidate(list: &mut Vec<Vec<Vec<char>>>, item: Vec<Vec<char>>)
    requires
        ascending(paths_view(old(list)@)),
    ensures
        ascending(paths_view(final(list)@)),
        forall|p: Seq<Seq<char>>|
            paths_view(final(list)@).contains(p) <==> (paths_view(old(list)@).contains(p) || p
                == rows(item@)),
{
    let (i, found) = insert_position(list, &item);
    let ghost before = paths_view(list@);
    let ghost it = rows(item@);
    if found {
        assert(before[i as int] == it);
        return ;
    }
    list.insert(i, item);
    proof {
        assert(paths_view(list@) =~= before.insert(i as int, it));
        lemma_insert_ascending(before, it, i as int);
        lemma_insert_contains(before, it, i as int);
    }
}

} // verus!
