//! Root resolution: which directory's ignore rules apply to a diff. The
//! paths of the diff's headers are compared pair by pair for the longest run
//! of closing components that all of them share; what stands before that run
//! is a candidate root, and candidates are ranked by what is known of them.

use crate::header::{header_pair, header_pair_of, is_header};
use crate::path_order::{ascending, insert_candidate, paths_view};
use crate::paths::{copy_path, normalized, normalized_components, path_text};
use crate::suffix::{
    closes, common_suffix, common_tail_len, lemma_common_suffix_shared, pair_suffix, pair_view,
    pairs_view, roots_by_suffix, suffix_text, tail, tail_of, PathPair,
};
use crate::text::{
    chars_eq, chars_of, decode_lossy, is_valid_utf8, join, join_rows, lines_of, rows,
    opt_text, split_lines, starts_with, string_of, texts,
};
use vstd::prelude::*;
use vstd::utf8::{decode_utf8, valid_utf8};

verus! {

/// How the working directory and the paths of a diff relate to repositories.
#[derive(Debug, Clone)]
pub enum PathContext {
    /// The working directory lies inside a repository.
    InRepo,
    /// It does not, and every path of the diff exists.
    OutsideRepo,
    /// It does not, and some path of the diff does not exist.
    Virtual,
}

/// A directory that may be the root, with its priority.
#[derive(Debug, Clone)]
pub struct RootCandidate {
    path: String,
    priority_score: u8,
}

/// The priority of a candidate: a repository stands above a linked working
/// tree, that above a plain directory, and within each an ignore file adds
/// one.
pub open spec fn priority(is_git_repo: bool, is_worktree: bool, has_gitignore: bool) -> u8 {
    if is_git_repo && !is_worktree && has_gitignore {
        6
    } else if is_git_repo && !is_worktree {
        5
    } else if is_git_repo && has_gitignore {
        4
    } else if is_git_repo {
        3
    } else if has_gitignore {
        2
    } else {
        1
    }
}

impl RootCandidate {
    /// The candidate's directory.
    pub closed spec fn spec_path(&self) -> Seq<char> {
        self.path@
    }

    /// The candidate's priority.
    pub closed spec fn spec_score(&self) -> u8 {
        self.priority_score
    }

    /// A candidate with the priority that the three facts give it: whether the
    /// directory lies in a repository, whether that is a linked working tree,
    /// and whether the directory holds an ignore file.
    pub fn new(path: String, is_git_repo: bool, is_worktree: bool, has_gitignore: bool) -> (c:
        RootCandidate)
        ensures
            c.spec_path() == path@,
            c.spec_score() == priority(is_git_repo, is_worktree, has_gitignore),
            1 <= c.spec_score() <= 6,
    {
        let priority_score: u8 = match (is_git_repo, is_worktree, has_gitignore) {
            (true, false, true) => 6,
            (true, false, false) => 5,
            (true, true, true) => 4,
            (true, true, false) => 3,
            (false, _, true) => 2,
            (false, _, false) => 1,
        };
        RootCandidate { path, priority_score }
    }

    /// Whether a repository is a linked working tree: it has a working
    /// directory, and the control entry in it is a file. `git_entry_is_file`
    /// is `None` where the repository has no working directory.
    pub fn is_worktree_directory(git_entry_is_file: Option<bool>) -> (r: bool)
        ensures
            r == (git_entry_is_file == Some(true)),
    {
        match git_entry_is_file {
            Some(is_file) => is_file,
            None => false,
        }
    }

    /// The candidate's directory.
    pub fn path(&self) -> (r: &String)
        ensures
            r@ == self.spec_path(),
    {
        &self.path
    }

    /// The candidate's priority.
    pub fn priority_score(&self) -> (r: u8)
        ensures
            r == self.spec_score(),
    {
        self.priority_score
    }
}

/// What is known of one path of a diff header.
#[derive(Debug)]
pub struct PathAnalysis {
    components: Vec<Vec<char>>,
    is_relative: bool,
    on_disk: bool,
}

impl PathAnalysis {
    /// The components of the normalized path.
    pub closed spec fn components(&self) -> Seq<Seq<char>> {
        rows(self.components@)
    }

    /// Whether the path was written as a relative one.
    pub closed spec fn relative(&self) -> bool {
        self.is_relative
    }

    /// Whether the path exists.
    pub closed spec fn present(&self) -> bool {
        self.on_disk
    }

    /// The normalized path.
    pub fn path(&self) -> (r: String)
        ensures
            r@ == join(self.components(), '/'),
    {
        path_text(&self.components)
    }

    /// Whether the path was written as a relative one.
    pub fn is_relative(&self) -> (r: bool)
        ensures
            r == self.relative(),
    {
        self.is_relative
    }

    /// Whether the path exists.
    pub fn path_exists(&self) -> (r: bool)
        ensures
            r == self.present(),
    {
        self.on_disk
    }
}

/// The pairs of a diff's paths: the first with the second, the third with the
/// fourth, and so on; a last path without a partner is left out.
pub open spec fn analysis_pairs(a: Seq<PathAnalysis>) -> Seq<(Seq<Seq<char>>, Seq<Seq<char>>)> {
    Seq::new(
        (a.len() / 2) as nat,
        |k: int| (a[2 * k].components(), a[2 * k + 1].components()),
    )
}

/// The paths of the headers among the first `n` lines: for each header its
/// left path, then its right path.
pub open spec fn diff_paths(lines: Seq<Seq<char>>, n: int) -> Seq<Seq<char>>
    decreases n,
{
    if n <= 0 || n > lines.len() {
        Seq::empty()
    } else if !is_header(lines[n - 1]) {
        diff_paths(lines, n - 1)
    } else {
        match header_pair(lines[n - 1]) {
            Some(p) => diff_paths(lines, n - 1).push(p.0).push(p.1),
            None => diff_paths(lines, n - 1),
        }
    }
}

/// Every path exists.
pub open spec fn all_present(analyses: Seq<PathAnalysis>) -> bool {
    forall|i: int| 0 <= i < analyses.len() ==> (#[trigger] analyses[i]).present()
}

/// Some path that was written as an absolute one does not lie under `root`:
/// the components of `root` do not open it.
pub open spec fn has_external(analyses: Seq<PathAnalysis>, root: Seq<Seq<char>>) -> bool {
    exists|i: int|
        0 <= i < analyses.len() && !(#[trigger] analyses[i]).relative() && !root.is_prefix_of(
            analyses[i].components(),
        )
}

/// The pairs of the normalized forms of the given paths.
pub open spec fn normalized_pairs(v: Seq<(String, String)>) -> Seq<
    (Seq<Seq<char>>, Seq<Seq<char>>),
> {
    Seq::new(v.len(), |i: int| (normalized(v[i].0@), normalized(v[i].1@)))
}

/// The paths as texts.
pub open spec fn joined(v: Seq<Seq<Seq<char>>>) -> Seq<Seq<char>> {
    Seq::new(v.len(), |i: int| join(v[i], '/'))
}

/// `p` is the directory that holds a path of one of the pairs.
pub open spec fn is_parent_in(p: Seq<Seq<char>>, pairs: Seq<(Seq<Seq<char>>, Seq<Seq<char>>)>)
    -> bool {
    exists|k: int|
        0 <= k < pairs.len() && {
            ||| (#[trigger] pairs[k]).0.len() > 0 && p == pairs[k].0.drop_last()
            ||| pairs[k].1.len() > 0 && p == pairs[k].1.drop_last()
        }
}

/// The directories that hold the paths of the pairs, in ascending order and
/// each once, as texts; the current directory where there is none.
pub open spec fn is_fallback_list(
    out: Seq<Seq<char>>,
    pairs: Seq<(Seq<Seq<char>>, Seq<Seq<char>>)>,
) -> bool {
    exists|cands: Seq<Seq<Seq<char>>>|
        {
            &&& ascending(cands)
            &&& forall|p: Seq<Seq<char>>| cands.contains(p) <==> is_parent_in(p, pairs)
            &&& out == if cands.len() == 0 {
                seq!["."@]
            } else {
                joined(cands)
            }
        }
}

/// The candidates of a diff whose paths exist: the two roots that the shared
/// suffix leaves, or else the directories that hold the paths.
pub open spec fn is_outside_candidates(
    out: Seq<Seq<char>>,
    pairs: Seq<(Seq<Seq<char>>, Seq<Seq<char>>)>,
) -> bool {
    match roots_by_suffix(pairs) {
        Some(roots) => out == seq![roots.0, roots.1],
        None => is_fallback_list(out, pairs),
    }
}

/// The root of a diff whose paths do not exist: the left root that the
/// shared suffix leaves; or else the directory that holds the first left
/// path; or else the current directory.
pub open spec fn virtual_root(pairs: Seq<(Seq<Seq<char>>, Seq<Seq<char>>)>) -> Seq<char> {
    match roots_by_suffix(pairs) {
        Some(roots) => roots.0,
        None => if pairs.len() > 0 && pairs[0].0.len() > 0 {
            join(pairs[0].0.drop_last(), '/')
        } else {
            "."@
        },
    }
}

/// The `i`-th candidate is selected: none has a higher priority, and none
/// behind it has the same.
pub open spec fn is_selected(candidates: Seq<RootCandidate>, i: int) -> bool {
    &&& 0 <= i < candidates.len()
    &&& forall|j: int|
        0 <= j < candidates.len() ==> (#[trigger] candidates[j]).spec_score()
            <= candidates[i].spec_score()
    &&& forall|j: int|
        i < j < candidates.len() ==> (#[trigger] candidates[j]).spec_score()
            < candidates[i].spec_score()
}

/// A path is a parent among the first `i + 1` pairs where it is one among
/// the first `i`, or holds a path of the pair behind them.
pub proof fn lemma_parent_in_step(
    p: Seq<Seq<char>>,
    pairs: Seq<(Seq<Seq<char>>, Seq<Seq<char>>)>,
    i: int,
)
    requires
        0 <= i < pairs.len(),
    ensures
        is_parent_in(p, pairs.take(i + 1)) <==> {
            ||| is_parent_in(p, pairs.take(i))
            ||| pairs[i].0.len() > 0 && p == pairs[i].0.drop_last()
            ||| pairs[i].1.len() > 0 && p == pairs[i].1.drop_last()
        },
{
    let more = pairs.take(i + 1);
    let fewer = pairs.take(i);
    if is_parent_in(p, more) {
        let k = choose|k: int|
            0 <= k < more.len() && {
                ||| (#[trigger] more[k]).0.len() > 0 && p == more[k].0.drop_last()
                ||| more[k].1.len() > 0 && p == more[k].1.drop_last()
            };
        if k < i {
            assert(fewer[k] == more[k]);
        }
    }
    if is_parent_in(p, fewer) {
        let k = choose|k: int|
            0 <= k < fewer.len() && {
                ||| (#[trigger] fewer[k]).0.len() > 0 && p == fewer[k].0.drop_last()
                ||| fewer[k].1.len() > 0 && p == fewer[k].1.drop_last()
            };
        assert(more[k] == fewer[k]);
    }
    assert(more[i] == pairs[i]);
}

/// Whether the components `p` open the path `full`.
pub fn opens(p: &Vec<Vec<char>>, full: &Vec<Vec<char>>) -> (r: bool)
    ensures
        r == rows(p@).is_prefix_of(rows(full@)),
{
    if p.len() > full.len() {
        return false;
    }
    let mut i: usize = 0;
    while i < p.len()
        invariant
            i <= p.len() <= full.len(),
            rows(p@).take(i as int) == rows(full@).take(i as int),
        decreases p.len() - i,
    {
        if !chars_eq(p[i].as_slice(), full[i].as_slice()) {
            assert(rows(full@).subrange(0, p.len() as int)[i as int] != rows(p@)[i as int]);
            return false;
        }
        i += 1;
        assert(rows(p@).take(i as int) =~= rows(p@).take(i - 1).push(rows(p@)[i - 1]));
        assert(rows(full@).take(i as int) =~= rows(full@).take(i - 1).push(rows(full@)[i - 1]));
    }
    assert(rows(p@).take(p.len() as int) =~= rows(p@));
    assert(rows(full@).take(p.len() as int) =~= rows(full@).subrange(0, p.len() as int));
    true
}

/// Where the root is settled, it is given; where candidates have to be
/// ranked first, they are given in order.
pub enum RootDecision {
    /// The root.
    Resolved(String),
    /// The directories to rank: the root is the one that
    /// `RootFinder::apply_root_selection` picks among them.
    Candidates(Vec<String>),
}

impl RootDecision {
    /// The root, where it is settled.
    pub open spec fn resolved(self) -> Option<Seq<char>> {
        match self {
            RootDecision::Resolved(root) => Some(root@),
            RootDecision::Candidates(_) => None,
        }
    }

    /// The candidates, where they have to be ranked.
    pub open spec fn candidates(self) -> Option<Seq<Seq<char>>> {
        match self {
            RootDecision::Resolved(_) => None,
            RootDecision::Candidates(list) => Some(texts(list@)),
        }
    }
}

/// Finds the root directory whose ignore rules apply to a diff.
pub struct RootFinder;

impl RootFinder {
    /// The two paths of a diff header line.
    pub fn parse_diff_header_line(line: &str) -> (r: Option<(String, String)>)
        ensures
            match r {
                Some(p) => header_pair(line@) == Some((p.0@, p.1@)),
                None => header_pair(line@) is None,
            },
    {
        let chars = chars_of(line);
        match header_pair_of(chars.as_slice()) {
            Some(p) => Some((string_of(p.0.as_slice()), string_of(p.1.as_slice()))),
            None => None,
        }
    }

    /// The paths of the headers of a diff's text, as they are written: for
    /// each header its left path, then its right path.
    pub fn extract_paths_from_text(text: &str) -> (out: Vec<String>)
        ensures
            texts(out@) == diff_paths(lines_of(text@), lines_of(text@).len() as int),
    {
        let chars = chars_of(text);
        let lines = split_lines(chars.as_slice());
        let marker = chars_of("diff --git ");
        let mut out: Vec<String> = Vec::new();
        let mut i: usize = 0;
        assert(texts(out@) =~= diff_paths(rows(lines@), 0));
        while i < lines.len()
            invariant
                i <= lines.len(),
                marker@ == "diff --git "@,
                texts(out@) == diff_paths(rows(lines@), i as int),
            decreases lines.len() - i,
        {
            let ghost before = texts(out@);
            if starts_with(lines[i].as_slice(), marker.as_slice()) {
                match header_pair_of(lines[i].as_slice()) {
                    Some(p) => {
                        let left = string_of(p.0.as_slice());
                        let right = string_of(p.1.as_slice());
                        out.push(left);
                        out.push(right);
                        assert(texts(out@) =~= before.push(p.0@).push(p.1@));
                    },
                    None => {},
                }
            }
            i += 1;
        }
        out
    }

    /// The paths of a diff's headers, as they are written: for each header
    /// its left path, then its right path. A diff that is not valid UTF-8
    /// has none to give.
    pub fn extract_diff_paths(diff: &[u8]) -> (r: Option<Vec<String>>)
        ensures
            match r {
                Some(paths) => {
                    let lines = lines_of(decode_utf8(diff@));
                    valid_utf8(diff@) && texts(paths@) == diff_paths(lines, lines.len() as int)
                },
                None => !valid_utf8(diff@),
            },
    {
        if !is_valid_utf8(diff) {
            return None;
        }
        let text = decode_lossy(diff);
        Some(Self::extract_paths_from_text(text.as_str()))
    }

    /// What is known of one path of a diff header: its normalized form, and
    /// the two facts that the caller found out: whether the path is written
    /// as a relative one, and whether it exists.
    pub fn create_path_analysis(path: &str, is_relative: bool, exists: bool) -> (a: PathAnalysis)
        ensures
            a.components() == normalized(path@),
            a.relative() == is_relative,
            a.present() == exists,
    {
        PathAnalysis { components: normalized_components(path), is_relative, on_disk: exists }
    }

    /// The context of a diff: inside a repository where the working
    /// directory lies in one; else outside where every path exists; else
    /// virtual.
    pub fn classify_context(in_repo: bool, path_analyses: &Vec<PathAnalysis>) -> (c: PathContext)
        ensures
            in_repo ==> c is InRepo,
            !in_repo && all_present(path_analyses@) ==> c is OutsideRepo,
            !in_repo && !all_present(path_analyses@) ==> c is Virtual,
    {
        if in_repo {
            return PathContext::InRepo;
        }
        let mut i: usize = 0;
        while i < path_analyses.len()
            invariant
                i <= path_analyses.len(),
                !in_repo,
                forall|j: int| 0 <= j < i ==> (#[trigger] path_analyses@[j]).present(),
            decreases path_analyses.len() - i,
        {
            if !path_analyses[i].on_disk {
                return PathContext::Virtual;
            }
            i += 1;
        }
        PathContext::OutsideRepo
    }

    /// The root of a repository: its working directory where it has one, its
    /// metadata directory where it is bare.
    pub fn get_worktree_aware_root(workdir: Option<String>, git_dir: String) -> (root: String)
        ensures
            root == match workdir {
                Some(dir) => dir,
                None => git_dir,
            },
    {
        match workdir {
            Some(dir) => dir,
            None => git_dir,
        }
    }

    /// Whether some path that was written as an absolute one lies outside the
    /// repository root.
    pub fn check_for_external_paths(path_analyses: &Vec<PathAnalysis>, git_root: &str) -> (r:
        bool)
        ensures
            r == has_external(path_analyses@, normalized(git_root@)),
    {
        let root = normalized_components(git_root);
        let mut i: usize = 0;
        while i < path_analyses.len()
            invariant
                i <= path_analyses.len(),
                rows(root@) == normalized(git_root@),
                forall|j: int|
                    0 <= j < i ==> (#[trigger] path_analyses@[j]).relative() || rows(
                        root@,
                    ).is_prefix_of(path_analyses@[j].components()),
            decreases path_analyses.len() - i,
        {
            if !path_analyses[i].is_relative && !opens(&root, &path_analyses[i].components) {
                return true;
            }
            i += 1;
        }
        false
    }

    /// The pairs of a diff's paths: the first with the second, the third with
    /// the fourth, and so on; a last path without a partner is left out.
    pub fn extract_path_pairs_from_analyses(path_analyses: &Vec<PathAnalysis>) -> (pairs: Vec<
        PathPair,
    >)
        ensures
            pairs_view(pairs@) == analysis_pairs(path_analyses@),
    {
        let mut pairs: Vec<PathPair> = Vec::new();
        let mut i: usize = 0;
        while i + 1 < path_analyses.len()
            invariant
                i <= path_analyses.len(),
                i == 2 * pairs.len(),
                forall|k: int|
                    0 <= k < pairs.len() ==> pair_view(#[trigger] pairs@[k]) == (
                        path_analyses@[2 * k].components(),
                        path_analyses@[2 * k + 1].components(),
                    ),
            decreases path_analyses.len() - i,
        {
            let left = copy_path(&path_analyses[i].components, path_analyses[i].components.len());
            let right = copy_path(
                &path_analyses[i + 1].components,
                path_analyses[i + 1].components.len(),
            );
            assert(rows(left@) =~= path_analyses@[i as int].components());
            assert(rows(right@) =~= path_analyses@[i + 1].components());
            pairs.push(PathPair { left, right });
            i += 2;
        }
        assert(pairs_view(pairs@) =~= analysis_pairs(path_analyses@));
        pairs
    }
}

impl RootFinder {
    /// The closing components that two paths share, where they share any.
    pub fn find_common_suffix_for_pair(left: &Vec<Vec<char>>, right: &Vec<Vec<char>>) -> (r:
        Option<Vec<Vec<char>>>)
        ensures
            match r {
                Some(s) => s.len() > 0 && rows(s@) == pair_suffix(rows(left@), rows(right@)),
                None => pair_suffix(rows(left@), rows(right@)).len() == 0,
            },
    {
        let k = common_tail_len(left, right);
        if k > 0 {
            let s = tail_of(left, k);
            assert(rows(s@).len() == k);
            Some(s)
        } else {
            None
        }
    }

    /// The closing components that two paths share, as a path. Both paths are
    /// normalized first.
    pub fn find_common_suffix_between_paths(suffix1: &str, suffix2: &str) -> (r: Option<String>)
        ensures
            opt_text(r) == suffix_text(pair_suffix(normalized(suffix1@), normalized(suffix2@))),
    {
        let a = normalized_components(suffix1);
        let b = normalized_components(suffix2);
        match Self::find_common_suffix_for_pair(&a, &b) {
            Some(s) => Some(path_text(&s)),
            None => None,
        }
    }

    /// The closing components that all pairs share.
    pub fn common_suffix_of(pairs: &Vec<PathPair>) -> (suffix: Vec<Vec<char>>)
        ensures
            rows(suffix@) == common_suffix(pairs_view(pairs@), pairs.len() as int),
    {
        if pairs.len() == 0 {
            let out: Vec<Vec<char>> = Vec::new();
            assert(rows(out@) =~= Seq::empty());
            return out;
        }
        let first = common_tail_len(&pairs[0].left, &pairs[0].right);
        let mut suffix = tail_of(&pairs[0].left, first);
        let mut i: usize = 1;
        while i < pairs.len()
            invariant
                1 <= i <= pairs.len(),
                rows(suffix@) == common_suffix(pairs_view(pairs@), i as int),
            decreases pairs.len() - i,
        {
            let k = common_tail_len(&pairs[i].left, &pairs[i].right);
            let own = tail_of(&pairs[i].left, k);
            let shared = common_tail_len(&suffix, &own);
            suffix = tail_of(&suffix, shared);
            i += 1;
        }
        suffix
    }

    /// The longest run of closing components that all pairs of paths share,
    /// as a path; none where there is no pair or where some pair shares
    /// nothing with the others. The paths are normalized first.
    pub fn find_common_suffix_between_strings(path_pairs: &Vec<(String, String)>) -> (r: Option<
        String,
    >)
        ensures
            opt_text(r) == suffix_text(
                common_suffix(normalized_pairs(path_pairs@), path_pairs.len() as int),
            ),
    {
        let mut pairs: Vec<PathPair> = Vec::new();
        let mut i: usize = 0;
        while i < path_pairs.len()
            invariant
                i <= path_pairs.len(),
                pairs.len() == i,
                forall|k: int|
                    0 <= k < i ==> pair_view(#[trigger] pairs@[k]) == (
                        normalized(path_pairs@[k].0@),
                        normalized(path_pairs@[k].1@),
                    ),
            decreases path_pairs.len() - i,
        {
            let left = normalized_components(path_pairs[i].0.as_str());
            let right = normalized_components(path_pairs[i].1.as_str());
            pairs.push(PathPair { left, right });
            i += 1;
        }
        assert(pairs_view(pairs@) =~= normalized_pairs(path_pairs@));
        let suffix = Self::common_suffix_of(&pairs);
        if suffix.len() == 0 {
            None
        } else {
            Some(path_text(&suffix))
        }
    }

    /// What stands before `suffix` in `full_path`, as a path; nothing where
    /// `suffix` does not close `full_path`.
    pub fn extract_root_by_suffix_removal(full_path: &Vec<Vec<char>>, suffix: &Vec<Vec<char>>)
        -> (r: Option<String>)
        ensures
            match r {
                Some(root) => {
                    &&& suffix.len() <= full_path.len()
                    &&& tail(rows(full_path@), suffix.len() as int) == rows(suffix@)
                    &&& root@ == join(
                        rows(full_path@).take(full_path.len() - suffix.len()),
                        '/',
                    )
                },
                None => suffix.len() > full_path.len() || tail(
                    rows(full_path@),
                    suffix.len() as int,
                ) != rows(suffix@),
            },
    {
        if suffix.len() > full_path.len() {
            return None;
        }
        let start: usize = full_path.len() - suffix.len();
        let mut i: usize = 0;
        while i < suffix.len()
            invariant
                i <= suffix.len(),
                start + suffix.len() == full_path.len(),
                forall|j: int|
                    0 <= j < i ==> rows(full_path@)[start + j] == #[trigger] rows(suffix@)[j],
            decreases suffix.len() - i,
        {
            if !chars_eq(full_path[start + i].as_slice(), suffix[i].as_slice()) {
                assert(tail(rows(full_path@), suffix.len() as int)[i as int] != rows(
                    suffix@,
                )[i as int]);
                return None;
            }
            i += 1;
        }
        assert(tail(rows(full_path@), suffix.len() as int) =~= rows(suffix@));
        let root = join_rows(full_path, start, '/');
        Some(string_of(root.as_slice()))
    }

    /// The two roots that the suffix shared by all pairs leaves of the first
    /// pair.
    pub fn calculate_roots_by_suffix(path_pairs: &Vec<PathPair>) -> (r: Option<(String, String)>)
        ensures
            match r {
                Some(roots) => roots_by_suffix(pairs_view(path_pairs@)) == Some(
                    (roots.0@, roots.1@),
                ),
                None => roots_by_suffix(pairs_view(path_pairs@)) is None,
            },
    {
        if path_pairs.len() == 0 {
            return None;
        }
        let suffix = Self::common_suffix_of(path_pairs);
        if suffix.len() == 0 {
            return None;
        }
        proof {
            lemma_common_suffix_shared(pairs_view(path_pairs@), path_pairs.len() as int);
            assert(closes(rows(suffix@), pairs_view(path_pairs@)[0].0));
            assert(closes(rows(suffix@), pairs_view(path_pairs@)[0].1));
        }
        let left = Self::extract_root_by_suffix_removal(&path_pairs[0].left, &suffix);
        let right = Self::extract_root_by_suffix_removal(&path_pairs[0].right, &suffix);
        match (left, right) {
            (Some(left_root), Some(right_root)) => Some((left_root, right_root)),
            _ => None,
        }
    }

    /// The two roots that the shared suffix leaves, for paths that do not
    /// exist: found as for those that do.
    pub fn calculate_virtual_roots_by_suffix(virtual_pairs: &Vec<PathPair>) -> (r: Option<
        (String, String),
    >)
        ensures
            match r {
                Some(roots) => roots_by_suffix(pairs_view(virtual_pairs@)) == Some(
                    (roots.0@, roots.1@),
                ),
                None => roots_by_suffix(pairs_view(virtual_pairs@)) is None,
            },
    {
        Self::calculate_roots_by_suffix(virtual_pairs)
    }
}

impl RootFinder {
    /// The directories that hold the paths of the pairs: each once, in
    /// ascending order. Where no path has one, the current directory stands
    /// alone.
    pub fn hierarchical_fallback_search(path_pairs: &Vec<PathPair>) -> (out: Vec<String>)
        ensures
            is_fallback_list(texts(out@), pairs_view(path_pairs@)),
    {
        let mut list: Vec<Vec<Vec<char>>> = Vec::new();
        let mut i: usize = 0;
        let ghost pv = pairs_view(path_pairs@);
        assert(pv.take(0) =~= Seq::empty());
        while i < path_pairs.len()
            invariant
                i <= path_pairs.len(),
                pv == pairs_view(path_pairs@),
                ascending(paths_view(list@)),
                forall|p: Seq<Seq<char>>|
                    paths_view(list@).contains(p) <==> is_parent_in(p, pv.take(i as int)),
            decreases path_pairs.len() - i,
        {
            let ghost start = paths_view(list@);
            let pair = &path_pairs[i];
            if pair.left.len() > 0 {
                let parent = copy_path(&pair.left, pair.left.len() - 1);
                assert(rows(parent@) =~= pv[i as int].0.drop_last());
                insert_candidate(&mut list, parent);
            }
            let ghost middle = paths_view(list@);
            if pair.right.len() > 0 {
                let parent = copy_path(&pair.right, pair.right.len() - 1);
                assert(rows(parent@) =~= pv[i as int].1.drop_last());
                insert_candidate(&mut list, parent);
            }
            assert forall|p: Seq<Seq<char>>|
                paths_view(list@).contains(p) <==> is_parent_in(p, pv.take(i + 1)) by {
                lemma_parent_in_step(p, pv, i as int);
            }
            i += 1;
        }
        assert(pv.take(path_pairs.len() as int) =~= pv);
        let ghost cands = paths_view(list@);
        let mut out: Vec<String> = Vec::new();
        if list.len() == 0 {
            let dot = chars_of(".");
            out.push(string_of(dot.as_slice()));
            assert(texts(out@) =~= seq!["."@]);
            return out;
        }
        let mut k: usize = 0;
        while k < list.len()
            invariant
                k <= list.len(),
                cands == paths_view(list@),
                texts(out@) == joined(cands).take(k as int),
            decreases list.len() - k,
        {
            let ghost before = texts(out@);
            let text = path_text(&list[k]);
            out.push(text);
            k += 1;
            assert(texts(out@) =~= before.push(text@));
            assert(before.push(text@) =~= joined(cands).take(k as int));
        }
        assert(joined(cands).take(list.len() as int) =~= joined(cands));
        out
    }

    /// The candidate with the highest priority, and among equals the last;
    /// the current directory where there is no candidate.
    pub fn apply_root_selection(candidates: Vec<RootCandidate>) -> (root: String)
        ensures
            candidates.len() == 0 ==> root@ == "."@,
            candidates.len() > 0 ==> exists|i: int|
                is_selected(candidates@, i) && root@ == candidates@[i].spec_path(),
    {
        if candidates.len() == 0 {
            let dot = chars_of(".");
            return string_of(dot.as_slice());
        }
        let mut best: usize = 0;
        let mut i: usize = 1;
        while i < candidates.len()
            invariant
                1 <= i <= candidates.len(),
                best < i,
                forall|j: int|
                    0 <= j < i ==> (#[trigger] candidates@[j]).spec_score()
                        <= candidates@[best as int].spec_score(),
                forall|j: int|
                    best < j < i ==> (#[trigger] candidates@[j]).spec_score()
                        < candidates@[best as int].spec_score(),
            decreases candidates.len() - i,
        {
            if candidates[i].priority_score >= candidates[best].priority_score {
                best = i;
            }
            i += 1;
        }
        assert(is_selected(candidates@, best as int));
        candidates[best].path.clone()
    }

    /// The directory that holds the first left path of a diff whose paths
    /// do not exist; the current directory where there is no such path.
    pub fn virtual_heuristic_fallback(virtual_pairs: &Vec<PathPair>) -> (root: String)
        ensures
            root@ == if virtual_pairs.len() > 0 && virtual_pairs@[0].left.len() > 0 {
                join(rows(virtual_pairs@[0].left@).drop_last(), '/')
            } else {
                "."@
            },
    {
        if virtual_pairs.len() > 0 && virtual_pairs[0].left.len() > 0 {
            let left = &virtual_pairs[0].left;
            let parent = join_rows(left, left.len() - 1, '/');
            assert(rows(left@).take(left.len() - 1) =~= rows(left@).drop_last());
            string_of(parent.as_slice())
        } else {
            let dot = chars_of(".");
            string_of(dot.as_slice())
        }
    }

    /// The root of a diff whose paths do not exist: the left root that the
    /// shared suffix leaves, never the right one; else the fallback.
    pub fn process_virtual_context(path_analyses: &Vec<PathAnalysis>) -> (root: String)
        ensures
            root@ == virtual_root(analysis_pairs(path_analyses@)),
    {
        let virtual_pairs = Self::extract_path_pairs_from_analyses(path_analyses);
        match Self::calculate_virtual_roots_by_suffix(&virtual_pairs) {
            Some(roots) => roots.0,
            None => {
                assert(virtual_pairs.len() > 0 ==> pairs_view(virtual_pairs@)[0].0 == rows(
                    virtual_pairs@[0].left@,
                ));
                Self::virtual_heuristic_fallback(&virtual_pairs)
            },
        }
    }

    /// The candidates of a diff whose paths exist: the two roots that the
    /// shared suffix leaves, the left one first; else the directories that
    /// hold the paths.
    pub fn process_outside_repo_context(path_analyses: &Vec<PathAnalysis>) -> (out: Vec<String>)
        ensures
            is_outside_candidates(texts(out@), analysis_pairs(path_analyses@)),
    {
        let path_pairs = Self::extract_path_pairs_from_analyses(path_analyses);
        match Self::calculate_roots_by_suffix(&path_pairs) {
            Some(roots) => {
                let mut out: Vec<String> = Vec::new();
                let ghost left = roots.0@;
                let ghost right = roots.1@;
                out.push(roots.0);
                out.push(roots.1);
                assert(texts(out@) =~= seq![left, right]);
                out
            },
            None => Self::hierarchical_fallback_search(&path_pairs),
        }
    }

    /// The root of a diff that is made inside a repository: the repository's
    /// root, where every path that is written as an absolute one lies under
    /// it; else the candidates of a diff outside a repository.
    pub fn process_in_repo_context(git_root: &str, path_analyses: &Vec<PathAnalysis>) -> (d:
        RootDecision)
        ensures
            !has_external(path_analyses@, normalized(git_root@)) ==> d.resolved() == Some(
                git_root@,
            ),
            has_external(path_analyses@, normalized(git_root@)) ==> d.candidates() is Some
                && is_outside_candidates(
                d.candidates()->0,
                analysis_pairs(path_analyses@),
            ),
    {
        if !Self::check_for_external_paths(path_analyses, git_root) {
            let chars = chars_of(git_root);
            RootDecision::Resolved(string_of(chars.as_slice()))
        } else {
            RootDecision::Candidates(Self::process_outside_repo_context(path_analyses))
        }
    }

    /// Resolves the root of a diff from what is known of its paths.
    /// `repo_root` is the root of the repository that the working directory
    /// lies in, where it lies in one. Inside a repository the repository's
    /// root is taken, unless a path lies outside it; outside one, the
    /// candidates are given where every path exists, and else the root of the
    /// virtual paths.
    pub fn find_root(repo_root: Option<&str>, path_analyses: &Vec<PathAnalysis>) -> (d:
        RootDecision)
        ensures
            match repo_root {
                Some(root) => if has_external(path_analyses@, normalized(root@)) {
                    d.candidates() is Some && is_outside_candidates(
                        d.candidates()->0,
                        analysis_pairs(path_analyses@),
                    )
                } else {
                    d.resolved() == Some(root@)
                },
                None => if all_present(path_analyses@) {
                    d.candidates() is Some && is_outside_candidates(
                        d.candidates()->0,
                        analysis_pairs(path_analyses@),
                    )
                } else {
                    d.resolved() == Some(virtual_root(analysis_pairs(path_analyses@)))
                },
            },
    {
        match Self::classify_context(repo_root.is_some(), path_analyses) {
            PathContext::InRepo => match repo_root {
                Some(root) => Self::process_in_repo_context(root, path_analyses),
                None => RootDecision::Resolved(Self::process_virtual_context(path_analyses)),
            },
            PathContext::OutsideRepo => RootDecision::Candidates(
                Self::process_outside_repo_context(path_analyses),
            ),
            PathContext::Virtual => RootDecision::Resolved(
                Self::process_virtual_context(path_analyses),
            ),
        }
    }
}

} // verus!
