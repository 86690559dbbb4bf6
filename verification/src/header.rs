//! The header line that opens the section of one file in a diff. The filter
//! reads from it the path between its two markers; root resolution reads
//! its two paths word by word.

use crate::text::{
    chars_eq, chars_of, copy_range, find, find_first, lemma_find_first, opt_chars,
    split_words, starts_with, strip_lead, without_lead, words_of,
};
use vstd::prelude::*;

verus! {

/// A diff line that opens the section of one file.
pub open spec fn is_header(line: Seq<char>) -> bool {
    "diff --git "@.is_prefix_of(line)
}

/// The path that a header line names: behind the header's opening words, the
/// text between the first `a/` and the first ` b/`, where the one stands
/// before the other and the text is not empty.
pub open spec fn header_path(line: Seq<char>) -> Option<Seq<char>> {
    if !is_header(line) {
        None
    } else {
        let rest = line.subrange("diff --git "@.len() as int, line.len() as int);
        match (find_first(rest, "a/"@), find_first(rest, " b/"@)) {
            (Some(a), Some(b)) => if a + "a/"@.len() < b {
                Some(rest.subrange(a + "a/"@.len(), b))
            } else {
                None
            },
            _ => None,
        }
    }
}

/// Whether `line` opens the section of one file.
pub fn line_is_header(line: &[char]) -> (r: bool)
    ensures
        r == is_header(line@),
{
    let marker = chars_of("diff --git ");
    starts_with(line, marker.as_slice())
}

/// The path that the header line `line` names, if it names one.
pub fn header_path_of(line: &[char]) -> (r: Option<Vec<char>>)
    ensures
        opt_chars(r) == header_path(line@),
{
    let marker = chars_of("diff --git ");
    if !starts_with(line, marker.as_slice()) {
        return None;
    }
    let rest = copy_range(line, marker.len(), line.len());
    let left = chars_of("a/");
    let right = chars_of(" b/");
    match (find(rest.as_slice(), left.as_slice()), find(rest.as_slice(), right.as_slice())) {
        (Some(a), Some(b)) => {
            proof {
                lemma_find_first(rest@, left@);
            }
            if a + left.len() < b {
                proof {
                    lemma_find_first(rest@, right@);
                }
                Some(copy_range(rest.as_slice(), a + left.len(), b))
            } else {
                None
            }
        },
        _ => None,
    }
}

/// The two paths of a header line: its third and fourth word, without the
/// `a/` and `b/` that conventionally open them. A line of fewer than four
/// words, or one that does not begin with the words `diff` and `--git`, has
/// none.
pub open spec fn header_pair(line: Seq<char>) -> Option<(Seq<char>, Seq<char>)> {
    let w = words_of(line);
    if w.len() >= 4 && w[0] == "diff"@ && w[1] == "--git"@ {
        Some((strip_lead(w[2], "a/"@), strip_lead(w[3], "b/"@)))
    } else {
        None
    }
}

/// The two paths of the header line `line`, if it has them.
pub fn header_pair_of(line: &[char]) -> (r: Option<(Vec<char>, Vec<char>)>)
    ensures
        match r {
            Some(p) => header_pair(line@) == Some((p.0@, p.1@)),
            None => header_pair(line@) is None,
        },
{
    let w = split_words(line);
    if w.len() < 4 {
        return None;
    }
    let first = chars_of("diff");
    let second = chars_of("--git");
    if !chars_eq(w[0].as_slice(), first.as_slice()) || !chars_eq(
        w[1].as_slice(),
        second.as_slice(),
    ) {
        return None;
    }
    let a = chars_of("a/");
    let b = chars_of("b/");
    let left = without_lead(w[2].as_slice(), a.as_slice());
    let right = without_lead(w[3].as_slice(), b.as_slice());
    Some((left, right))
}

} // verus!
