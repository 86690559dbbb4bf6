//! The closing components that paths share: the suffix of a pair of paths,
//! the suffix that many pairs share, and the roots that it leaves.

use crate::text::{chars_eq, copy_range, join, rows};
use vstd::prelude::*;

verus! {

/// A pair of paths: the left and the right path of one diff header.
pub struct PathPair {
    /// The components of the left path.
    pub left: Vec<Vec<char>>,
    /// The components of the right path.
    pub right: Vec<Vec<char>>,
}

/// What a pair of paths holds.
pub open spec fn pair_view(p: PathPair) -> (Seq<Seq<char>>, Seq<Seq<char>>) {
    (rows(p.left@), rows(p.right@))
}

/// What a vector of pairs holds.
pub open spec fn pairs_view(v: Seq<PathPair>) -> Seq<(Seq<Seq<char>>, Seq<Seq<char>>)> {
    Seq::new(v.len(), |i: int| pair_view(v[i]))
}

/// How many closing components two paths share.
pub open spec fn common_tail(a: Seq<Seq<char>>, b: Seq<Seq<char>>) -> nat
    decreases a.len(),
{
    if a.len() == 0 || b.len() == 0 || a.last() != b.last() {
        0
    } else {
        1 + common_tail(a.drop_last(), b.drop_last())
    }
}

/// The last `k` components of a path.
pub open spec fn tail(a: Seq<Seq<char>>, k: int) -> Seq<Seq<char>> {
    a.subrange(a.len() - k, a.len() as int)
}

/// The closing components that two paths share.
pub open spec fn pair_suffix(a: Seq<Seq<char>>, b: Seq<Seq<char>>) -> Seq<Seq<char>> {
    tail(a, common_tail(a, b) as int)
}

/// The closing components that the first `n` pairs all share: the suffix of
/// the first pair, narrowed by the suffix of each pair after it.
pub open spec fn common_suffix(pairs: Seq<(Seq<Seq<char>>, Seq<Seq<char>>)>, n: int) -> Seq<
    Seq<char>,
>
    decreases n,
{
    if n <= 0 || n > pairs.len() {
        Seq::empty()
    } else if n == 1 {
        pair_suffix(pairs[0].0, pairs[0].1)
    } else {
        pair_suffix(common_suffix(pairs, n - 1), pair_suffix(pairs[n - 1].0, pairs[n - 1].1))
    }
}

/// `s` closes `p`: the last components of `p` are those of `s`.
pub open spec fn closes(s: Seq<Seq<char>>, p: Seq<Seq<char>>) -> bool {
    s.len() <= p.len() && tail(p, s.len() as int) == s
}

/// All paths of the first `n` pairs close with `s`.
pub open spec fn closes_all(
    s: Seq<Seq<char>>,
    pairs: Seq<(Seq<Seq<char>>, Seq<Seq<char>>)>,
    n: int,
) -> bool {
    forall|k: int| 0 <= k < n ==> closes(s, (#[trigger] pairs[k]).0) && closes(s, pairs[k].1)
}

/// The shared closing components are closing components of both paths, and
/// no more than either has.
pub proof fn lemma_common_tail(a: Seq<Seq<char>>, b: Seq<Seq<char>>)
    ensures
        common_tail(a, b) <= a.len(),
        common_tail(a, b) <= b.len(),
        tail(a, common_tail(a, b) as int) == tail(b, common_tail(a, b) as int),
    decreases a.len(),
{
    if a.len() == 0 || b.len() == 0 || a.last() != b.last() {
        assert(tail(a, 0) =~= tail(b, 0));
    } else {
        lemma_common_tail(a.drop_last(), b.drop_last());
        let k = common_tail(a.drop_last(), b.drop_last()) as int;
        assert(tail(a, k + 1) =~= tail(a.drop_last(), k).push(a.last()));
        assert(tail(b, k + 1) =~= tail(b.drop_last(), k).push(b.last()));
    }
}

/// What closes a path that closes another closes that other.
pub proof fn lemma_closes_chain(s: Seq<Seq<char>>, m: Seq<Seq<char>>, p: Seq<Seq<char>>)
    requires
        closes(s, m),
        closes(m, p),
    ensures
        closes(s, p),
{
    assert(tail(p, s.len() as int) =~= tail(tail(p, m.len() as int), s.len() as int));
}

/// What closes two paths is no longer than what they share.
pub proof fn lemma_common_tail_longest(s: Seq<Seq<char>>, a: Seq<Seq<char>>, b: Seq<Seq<char>>)
    requires
        closes(s, a),
        closes(s, b),
    ensures
        s.len() <= common_tail(a, b),
        closes(s, pair_suffix(a, b)),
    decreases s.len(),
{
    lemma_common_tail(a, b);
    if s.len() > 0 {
        assert(tail(a, s.len() as int).last() == a.last());
        assert(tail(b, s.len() as int).last() == b.last());
        assert(tail(a.drop_last(), s.len() - 1) =~= s.drop_last());
        assert(tail(b.drop_last(), s.len() - 1) =~= s.drop_last());
        lemma_common_tail_longest(s.drop_last(), a.drop_last(), b.drop_last());
    }
    assert(tail(pair_suffix(a, b), s.len() as int) =~= tail(a, s.len() as int));
}

/// The suffix that the pairs share closes every path of every pair.
pub proof fn lemma_common_suffix_shared(pairs: Seq<(Seq<Seq<char>>, Seq<Seq<char>>)>, n: int)
    requires
        1 <= n <= pairs.len(),
    ensures
        closes_all(common_suffix(pairs, n), pairs, n),
    decreases n,
{
    let cs = common_suffix(pairs, n);
    let last = pairs[n - 1];
    let own = pair_suffix(last.0, last.1);
    lemma_common_tail(last.0, last.1);
    assert(closes(own, last.0));
    assert(closes(own, last.1));
    if n == 1 {
    } else {
        lemma_common_suffix_shared(pairs, n - 1);
        let prev = common_suffix(pairs, n - 1);
        lemma_common_tail(prev, own);
        assert(closes(cs, prev));
        assert(closes(cs, own));
        lemma_closes_chain(cs, own, last.0);
        lemma_closes_chain(cs, own, last.1);
        assert forall|k: int| 0 <= k < n implies closes(cs, (#[trigger] pairs[k]).0) && closes(
            cs,
            pairs[k].1,
        ) by {
            if k < n - 1 {
                lemma_closes_chain(cs, prev, pairs[k].0);
                lemma_closes_chain(cs, prev, pairs[k].1);
            }
        }
    }
}

/// The suffix that the pairs share is the longest: whatever closes every
/// path of every pair closes that suffix too.
pub proof fn lemma_common_suffix_longest(
    s: Seq<Seq<char>>,
    pairs: Seq<(Seq<Seq<char>>, Seq<Seq<char>>)>,
    n: int,
)
    requires
        1 <= n <= pairs.len(),
        closes_all(s, pairs, n),
    ensures
        closes(s, common_suffix(pairs, n)),
        s.len() <= common_suffix(pairs, n).len(),
    decreases n,
{
    let last = pairs[n - 1];
    lemma_common_tail_longest(s, last.0, last.1);
    if n > 1 {
        lemma_common_suffix_longest(s, pairs, n - 1);
        lemma_common_tail_longest(
            s,
            common_suffix(pairs, n - 1),
            pair_suffix(last.0, last.1),
        );
    }
}

/// Where the two paths of some pair share no closing component, the pairs
/// share no suffix, and the suffix leaves no roots.
pub proof fn lemma_unshared_pair_leaves_no_suffix(
    pairs: Seq<(Seq<Seq<char>>, Seq<Seq<char>>)>,
    k: int,
)
    requires
        0 <= k < pairs.len(),
        common_tail(pairs[k].0, pairs[k].1) == 0,
    ensures
        common_suffix(pairs, pairs.len() as int).len() == 0,
{
    let n = pairs.len() as int;
    lemma_common_suffix_shared(pairs, n);
    let cs = common_suffix(pairs, n);
    assert(closes(cs, pairs[k].0) && closes(cs, pairs[k].1));
    lemma_common_tail_longest(cs, pairs[k].0, pairs[k].1);
}

/// How many closing components two paths share.
pub fn common_tail_len(a: &Vec<Vec<char>>, b: &Vec<Vec<char>>) -> (k: usize)
    ensures
        k == common_tail(rows(a@), rows(b@)),
        k <= a.len(),
        k <= b.len(),
{
    let mut k: usize = 0;
    assert(rows(a@).take(a.len() as int) =~= rows(a@));
    assert(rows(b@).take(b.len() as int) =~= rows(b@));
    while k < a.len() && k < b.len() && chars_eq(
        a[a.len() - 1 - k].as_slice(),
        b[b.len() - 1 - k].as_slice(),
    )
        invariant
            k <= a.len(),
            k <= b.len(),
            common_tail(rows(a@), rows(b@)) == k + common_tail(
                rows(a@).take(a.len() - k),
                rows(b@).take(b.len() - k),
            ),
        decreases a.len() - k,
    {
        assert(rows(a@).take(a.len() - k).drop_last() =~= rows(a@).take(a.len() - k - 1));
        assert(rows(b@).take(b.len() - k).drop_last() =~= rows(b@).take(b.len() - k - 1));
        k += 1;
    }
    k
}

/// The last `k` components of a path.
pub(crate) fn tail_of(a: &Vec<Vec<char>>, k: usize) -> (out: Vec<Vec<char>>)
    requires
        k <= a.len(),
    ensures
        rows(out@) == tail(rows(a@), k as int),
{
    let mut out: Vec<Vec<char>> = Vec::new();
    let start: usize = a.len() - k;
    let mut i: usize = start;
    while i < a.len()
        invariant
            start <= i <= a.len(),
            start == a.len() - k,
            rows(out@) == rows(a@).subrange(start as int, i as int),
        decreases a.len() - i,
    {
        let ghost before = rows(out@);
        let c = copy_range(a[i].as_slice(), 0, a[i].len());
        assert(c@ =~= a@[i as int]@);
        out.push(c);
        i += 1;
        assert(rows(out@) =~= before.push(c@));
        assert(before.push(c@) =~= rows(a@).subrange(start as int, i as int));
    }
    out
}

/// The closing components as a path, where there are any.
pub open spec fn suffix_text(components: Seq<Seq<char>>) -> Option<Seq<char>> {
    if components.len() == 0 {
        None
    } else {
        Some(join(components, '/'))
    }
}

/// The two roots that the shared suffix leaves of the first pair: what
/// stands before the suffix in its left and in its right path. There are
/// none where there is no pair or no shared suffix.
pub open spec fn roots_by_suffix(pairs: Seq<(Seq<Seq<char>>, Seq<Seq<char>>)>) -> Option<
    (Seq<char>, Seq<char>),
> {
    let suffix = common_suffix(pairs, pairs.len() as int);
    if pairs.len() == 0 || suffix.len() == 0 {
        None
    } else {
        Some(
            (
                join(pairs[0].0.take(pairs[0].0.len() - suffix.len()), '/'),
                join(pairs[0].1.take(pairs[0].1.len() - suffix.len()), '/'),
            ),
        )
    }
}

} // verus!
