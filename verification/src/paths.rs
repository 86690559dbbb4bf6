//! Relative paths as lists of components, normalized by the `relative-path`
//! crate: `.` dropped and `..` collapsed against the component before it.

use crate::text::{
    chars_of, copy_range, join, join_rows, rows, split_on, string_of, texts,
};
use relative_path::RelativePath;
use vstd::prelude::*;

verus! {

/// The items that are not empty, in order.
pub open spec fn nonempty(items: Seq<Seq<char>>) -> Seq<Seq<char>>
    decreases items.len(),
{
    if items.len() == 0 {
        Seq::empty()
    } else if items.last().len() == 0 {
        nonempty(items.drop_last())
    } else {
        nonempty(items.drop_last()).push(items.last())
    }
}

/// The components of a path: its pieces between `/`, without the empty ones.
pub open spec fn path_components(path: Seq<char>) -> Seq<Seq<char>> {
    nonempty(split_on(path, '/'))
}

/// The components with `.` dropped and each `..` taken against the component
/// before it: it removes a named component, and stays where there is none or
/// where another `..` stands.
pub open spec fn collapse(components: Seq<Seq<char>>) -> Seq<Seq<char>>
    decreases components.len(),
{
    if components.len() == 0 {
        Seq::empty()
    } else {
        let before = collapse(components.drop_last());
        let c = components.last();
        if c == seq!['.'] {
            before
        } else if c == seq!['.', '.'] {
            if before.len() == 0 || before.last() == seq!['.', '.'] {
                before.push(c)
            } else {
                before.drop_last()
            }
        } else {
            before.push(c)
        }
    }
}

/// The components of the normalized form of a path.
pub open spec fn normalized(path: Seq<char>) -> Seq<Seq<char>> {
    collapse(path_components(path))
}

/// `RelativePath::normalize`, then `RelativePath::components`: the path's
/// pieces between `/`, the empty ones left out, `.` dropped and `..`
/// collapsed, each component handed out as a string.
#[verifier::external_body]
pub(crate) fn normalized_strings(path: &str) -> (r: Vec<String>)
    ensures
        texts(r@) == normalized(path@),
{
    let mut out: Vec<String> = Vec::new();
    for c in RelativePath::new(path).normalize().components() {
        out.push(c.as_str().to_owned());
    }
    out
}

/// The components of the normalized form of `path`.
pub fn normalized_components(path: &str) -> (out: Vec<Vec<char>>)
    ensures
        rows(out@) == normalized(path@),
{
    let parts = normalized_strings(path);
    let mut out: Vec<Vec<char>> = Vec::new();
    let mut i: usize = 0;
    while i < parts.len()
        invariant
            i <= parts.len(),
            rows(out@) == texts(parts@).take(i as int),
        decreases parts.len() - i,
    {
        let ghost before = rows(out@);
        let c = chars_of(parts[i].as_str());
        out.push(c);
        i += 1;
        assert(rows(out@) =~= before.push(c@));
        assert(before.push(c@) =~= texts(parts@).take(i as int));
    }
    assert(texts(parts@).take(parts.len() as int) =~= texts(parts@));
    out
}

/// The path with the given components.
pub fn path_text(components: &Vec<Vec<char>>) -> (r: String)
    ensures
        r@ == join(rows(components@), '/'),
{
    let all = join_rows(components, components.len(), '/');
    assert(rows(components@).take(components.len() as int) =~= rows(components@));
    string_of(all.as_slice())
}

/// A copy of a path's components.
pub(crate) fn copy_path(p: &Vec<Vec<char>>, n: usize) -> (out: Vec<Vec<char>>)
    requires
        n <= p.len(),
    ensures
        rows(out@) == rows(p@).take(n as int),
{
    let mut out: Vec<Vec<char>> = Vec::new();
    let mut i: usize = 0;
    while i < n
        invariant
            i <= n <= p.len(),
            rows(out@) == rows(p@).take(i as int),
        decreases n - i,
    {
        let ghost before = rows(out@);
        let c = copy_range(p[i].as_slice(), 0, p[i].len());
        assert(c@ =~= p@[i as int]@);
        out.push(c);
        i += 1;
        assert(rows(out@) =~= before.push(c@));
        assert(before.push(c@) =~= rows(p@).take(i as int));
    }
    out
}

} // verus!
