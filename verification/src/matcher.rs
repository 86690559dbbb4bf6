//! The ignore-rule matcher: the rules of one ignore file, compiled by the
//! `ignore` crate, and the verdict it gives on a path.

use crate::text::{is_suffix, space_start, strip_lead};
use ignore::gitignore::{Gitignore, GitignoreBuilder};
use ignore::Match;
use vstd::prelude::*;

verus! {

/// What a set of ignore rules says of one path.
#[derive(Clone, Copy, Debug, PartialEq, Eq, Structural)]
pub enum Verdict {
    /// A rule ignores the path.
    Ignore,
    /// A negated rule keeps the path.
    Whitelist,
    /// No rule speaks of the path.
    NoMatch,
}

/// `ignore::gitignore::Gitignore`, the compiled rules of an ignore file.
#[verifier::external_type_specification]
#[verifier::external_body]
pub struct ExGitignore(Gitignore);

/// `ignore::gitignore::GitignoreBuilder`, which takes the lines of an ignore
/// file one by one.
#[verifier::external_type_specification]
#[verifier::external_body]
pub struct ExGitignoreBuilder(GitignoreBuilder);

/// The root that a builder holds.
pub uninterp spec fn builder_root(b: GitignoreBuilder) -> Seq<char>;

/// The rules that a builder holds, as texts, in the order in which they
/// came.
pub uninterp spec fn builder_lines(b: GitignoreBuilder) -> Seq<Seq<char>>;

/// The root that a matcher's rules are rooted at.
pub uninterp spec fn matcher_root(g: Gitignore) -> Seq<char>;

/// The rules that a matcher was compiled from, as texts.
pub uninterp spec fn matcher_lines(g: Gitignore) -> Seq<Seq<char>>;

/// Whether `GitignoreBuilder::add_line` takes a line.
pub uninterp spec fn line_accepted(line: Seq<char>) -> bool;

/// Whether `GitignoreBuilder::build` can compile the rules with the given
/// texts.
pub uninterp spec fn lines_compile(lines: Seq<Seq<char>>) -> bool;

/// The root that a builder keeps of the root it is made for: that root
/// without one `./` at its start.
pub open spec fn stored_root(root: Seq<char>) -> Seq<char> {
    strip_lead(root, seq!['.', '/'])
}

/// The text of the rule that a line of an ignore file holds: the line
/// without the white space that closes it, unless it ends in a backslash and
/// a space. A line that begins with `#` holds no rule, nor does a line of
/// which nothing is left.
pub open spec fn rule_text(line: Seq<char>) -> Option<Seq<char>> {
    let kept = if is_suffix(seq!['\\', ' '], line) {
        line
    } else {
        line.subrange(0, space_start(line, line.len() as int))
    };
    if (line.len() > 0 && line[0] == '#') || kept.len() == 0 {
        None
    } else {
        Some(kept)
    }
}

/// What `Gitignore::matched` says of `path`, for the rules compiled from
/// `lines` and rooted at `root`.
pub uninterp spec fn rule_verdict(
    root: Seq<char>,
    lines: Seq<Seq<char>>,
    path: Seq<char>,
    is_dir: bool,
) -> Verdict;

/// `GitignoreBuilder::new`: a builder that holds no rule yet. It keeps the
/// root without one `./` at its start.
#[verifier::external_body]
pub(crate) fn new_builder(root: &str) -> (b: GitignoreBuilder)
    ensures
        builder_root(b) == stored_root(root@),
        builder_lines(b) == Seq::<Seq<char>>::empty(),
{
    GitignoreBuilder::new(root)
}

/// `GitignoreBuilder::add_line`: whether the line is taken depends on the
/// line alone. A line that holds a rule and is taken adds the text of that
/// rule to the builder's rules. A line that holds no rule is taken and adds
/// nothing; a line that is refused leaves the builder as it was.
#[verifier::external_body]
pub(crate) fn add_rule_line(b: &mut GitignoreBuilder, line: &str) -> (accepted: bool)
    ensures
        accepted == line_accepted(line@),
        builder_root(*final(b)) == builder_root(*old(b)),
        builder_lines(*final(b)) == match rule_text(line@) {
            Some(text) => if accepted {
                builder_lines(*old(b)).push(text)
            } else {
                builder_lines(*old(b))
            },
            None => builder_lines(*old(b)),
        },
{
    b.add_line(None, line).is_ok()
}

/// `GitignoreBuilder::build`: whether it succeeds depends on the builder's
/// rules alone, and where it succeeds, the matcher has the builder's root
/// and rules. It fails only where the rules cannot be compiled into a set;
/// for no rule `GlobSet::new` hands out the empty set at once, so that the
/// build then succeeds.
#[verifier::external_body]
pub(crate) fn build_matcher(b: &GitignoreBuilder) -> (r: Option<Gitignore>)
    ensures
        r is Some <==> lines_compile(builder_lines(*b)),
        r matches Some(g) ==> matcher_root(g) == builder_root(*b) && matcher_lines(g)
            == builder_lines(*b),
        builder_lines(*b).len() == 0 ==> r is Some,
{
    b.build().ok()
}

/// `Gitignore::matched`: the verdict depends on the matcher's root and rules,
/// the path, and whether the path is taken as a directory. A matcher that
/// was compiled from no rule speaks of no path.
#[verifier::external_body]
pub(crate) fn match_path(g: &Gitignore, path: &str, is_dir: bool) -> (v: Verdict)
    ensures
        v == rule_verdict(matcher_root(*g), matcher_lines(*g), path@, is_dir),
        matcher_lines(*g).len() == 0 ==> v == Verdict::NoMatch,
{
    match g.matched(path, is_dir) {
        Match::None => Verdict::NoMatch,
        Match::Ignore(_) => Verdict::Ignore,
        Match::Whitelist(_) => Verdict::Whitelist,
    }
}

} // verus!
