//! Version-control patterns: which paths belong to the metadata of a
//! version-control system.

use crate::text::{
    append_chars, chars_eq, contains, contains_seq, copy_range, ends_with, is_suffix, occurs_at,
    starts_with,
};
use vstd::prelude::*;

verus! {

/// The directory name that a version-control pattern stands for: the pattern
/// without a closing `/*`, or else without a closing `/`.
pub open spec fn vcs_stem(pattern: Seq<char>) -> Seq<char> {
    if is_suffix(seq!['/', '*'], pattern) {
        pattern.subrange(0, pattern.len() - 2)
    } else if is_suffix(seq!['/'], pattern) {
        pattern.subrange(0, pattern.len() - 1)
    } else {
        pattern
    }
}

/// A path matches a version-control pattern where it is the pattern itself,
/// begins with the pattern's directory name and a `/`, or holds that name
/// between two `/`.
pub open spec fn matches_vcs(path: Seq<char>, pattern: Seq<char>) -> bool {
    let stem = vcs_stem(pattern);
    ||| path == pattern
    ||| (stem + seq!['/']).is_prefix_of(path)
    ||| contains_seq(path, seq!['/'] + stem + seq!['/'])
}

/// A path matches one of the patterns.
pub open spec fn matches_any_vcs(path: Seq<char>, patterns: Seq<Seq<char>>) -> bool {
    exists|i: int| 0 <= i < patterns.len() && matches_vcs(path, #[trigger] patterns[i])
}

/// The pattern's directory name stands in the path at index `i` as a whole
/// run of components: the path's start or a `/` before it, a `/` behind it.
pub open spec fn anchored_at(path: Seq<char>, stem: Seq<char>, i: int) -> bool {
    &&& occurs_at(path, stem, i)
    &&& (i == 0 || path[i - 1] == '/')
    &&& i + stem.len() < path.len()
    &&& path[i + stem.len()] == '/'
}

/// A match other than the pattern itself is anchored: the pattern's directory
/// name stands in the path as a whole run of components, with a `/` behind
/// it and the path's start or a `/` before it.
pub proof fn lemma_vcs_match_anchored(path: Seq<char>, pattern: Seq<char>)
    requires
        matches_vcs(path, pattern),
        path != pattern,
    ensures
        exists|i: int| anchored_at(path, vcs_stem(pattern), i),
{
    let stem = vcs_stem(pattern);
    let head = stem + seq!['/'];
    let nested = seq!['/'] + stem + seq!['/'];
    if head.is_prefix_of(path) {
        assert(path.subrange(0, head.len() as int) == head);
        assert(path.subrange(0, 0 + stem.len() as int) =~= head.subrange(0, stem.len() as int));
        assert(head.subrange(0, stem.len() as int) =~= stem);
        assert(path[stem.len() as int] == head[stem.len() as int]);
        assert(anchored_at(path, stem, 0));
    } else {
        let j = choose|j: int| occurs_at(path, nested, j);
        let found = path.subrange(j, j + nested.len());
        assert(found == nested);
        assert(path[j] == found[0]);
        assert(path[j + 1 + stem.len()] == found[1 + stem.len() as int]);
        assert(path.subrange(j + 1, j + 1 + stem.len()) =~= nested.subrange(
            1,
            1 + stem.len() as int,
        ));
        assert(nested.subrange(1, 1 + stem.len() as int) =~= stem);
        assert(anchored_at(path, stem, j + 1));
    }
}

/// Wherever the pattern's directory name stands in the path as a whole run of
/// components with a `/` behind it, the path matches; a name that is only a
/// part of a longer component does not make a match.
pub proof fn lemma_anchored_name_matches(path: Seq<char>, pattern: Seq<char>, i: int)
    requires
        anchored_at(path, vcs_stem(pattern), i),
    ensures
        matches_vcs(path, pattern),
{
    let stem = vcs_stem(pattern);
    if i == 0 {
        let head = stem + seq!['/'];
        assert(path.subrange(0, head.len() as int) =~= head) by {
            assert(path.subrange(0, 0 + stem.len() as int) == stem);
        }
    } else {
        let nested = seq!['/'] + stem + seq!['/'];
        assert(path.subrange(i - 1, i - 1 + nested.len()) =~= nested) by {
            assert(path.subrange(i, i + stem.len()) == stem);
        }
        assert(occurs_at(path, nested, i - 1));
    }
}

/// Whether `path` matches the version-control pattern `pattern`.
pub fn vcs_pattern_matches(path: &[char], pattern: &[char]) -> (r: bool)
    ensures
        r == matches_vcs(path@, pattern@),
{
    if chars_eq(path, pattern) {
        return true;
    }
    let star: Vec<char> = vec!['/', '*'];
    let slash: Vec<char> = vec!['/'];
    assert(star@ =~= seq!['/', '*']);
    assert(slash@ =~= seq!['/']);
    let stem_len: usize = if ends_with(pattern, star.as_slice()) {
        pattern.len() - 2
    } else if ends_with(pattern, slash.as_slice()) {
        pattern.len() - 1
    } else {
        pattern.len()
    };
    let mut head = copy_range(pattern, 0, stem_len);
    assert(head@ =~= vcs_stem(pattern@));
    let mut nested: Vec<char> = vec!['/'];
    append_chars(&mut nested, head.as_slice());
    nested.push('/');
    head.push('/');
    assert(head@ =~= vcs_stem(pattern@) + seq!['/']);
    assert(nested@ =~= seq!['/'] + vcs_stem(pattern@) + seq!['/']);
    starts_with(path, head.as_slice()) || contains(path, nested.as_slice())
}

} // verus!
