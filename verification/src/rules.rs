//! Ignore rules: what the rules of an ignore file say of a path and of the
//! directories that hold it, and the lines of an ignore file.

use crate::matcher::{line_accepted, rule_text, rule_verdict, Verdict};
use crate::text::{
    chars_of, copy_bytes, copy_range, decode_lossy, index_of_byte, is_valid_utf8, next_byte, rows,
    strip_cr,
};
use vstd::prelude::*;
use vstd::utf8::{decode_utf8, valid_utf8};

verus! {

/// The index of the last `/` of `p` before `end`, or -1.
pub open spec fn last_slash(p: Seq<char>, end: int) -> int
    decreases end,
{
    if end <= 0 || end > p.len() {
        -1
    } else if p[end - 1] == '/' {
        end - 1
    } else {
        last_slash(p, end - 1)
    }
}

/// The length of `p` up to `end` without the `/` that close it.
pub open spec fn without_closing_slashes(p: Seq<char>, end: int) -> int
    decreases end,
{
    if end <= 0 || end > p.len() {
        0
    } else if p[end - 1] == '/' {
        without_closing_slashes(p, end - 1)
    } else {
        end
    }
}

/// The length of the directory that holds the first `end` characters of `p`:
/// what stands before their last `/`, without the `/` that close it; 0 where
/// they hold no `/`. Where nothing but `/` stands before a name, the
/// directory is the root `/`, of length 1; the root itself has none.
pub open spec fn parent_len(p: Seq<char>, end: int) -> int {
    let i = last_slash(p, end);
    if i < 0 {
        0
    } else if without_closing_slashes(p, i) == 0 && end > 1 {
        1
    } else {
        without_closing_slashes(p, i)
    }
}

/// The parent's length lies below `end`.
pub proof fn lemma_parent_len(p: Seq<char>, end: int)
    requires
        0 <= end <= p.len(),
    ensures
        0 <= parent_len(p, end),
        end > 0 ==> parent_len(p, end) < end,
{
    lemma_last_slash(p, end);
    let i = last_slash(p, end);
    if i >= 0 {
        lemma_without_closing_slashes(p, i);
    }
}

/// The last `/` before `end` stands before `end`.
proof fn lemma_last_slash(p: Seq<char>, end: int)
    requires
        0 <= end <= p.len(),
    ensures
        -1 <= last_slash(p, end),
        last_slash(p, end) < end || end == 0,
    decreases end,
{
    if end > 0 && p[end - 1] != '/' {
        lemma_last_slash(p, end - 1);
    }
}

/// What is left without the closing `/` is no longer than what was there.
proof fn lemma_without_closing_slashes(p: Seq<char>, end: int)
    requires
        0 <= end <= p.len(),
    ensures
        0 <= without_closing_slashes(p, end) <= end,
    decreases end,
{
    if end > 0 && p[end - 1] == '/' {
        lemma_without_closing_slashes(p, end - 1);
    }
}

/// The length of the directory that holds the first `end` characters of `p`.
pub(crate) fn parent_len_of(p: &[char], end: usize) -> (k: usize)
    requires
        end <= p.len(),
    ensures
        k == parent_len(p@, end as int),
        end > 0 ==> k < end,
{
    proof {
        lemma_parent_len(p@, end as int);
    }
    let mut i: usize = end;
    while i > 0 && p[i - 1] != '/'
        invariant
            i <= end <= p.len(),
            last_slash(p@, end as int) == last_slash(p@, i as int),
        decreases i,
    {
        i -= 1;
    }
    if i == 0 {
        return 0;
    }
    let mut k: usize = i - 1;
    while k > 0 && p[k - 1] == '/'
        invariant
            k <= i - 1,
            i <= p.len(),
            without_closing_slashes(p@, i - 1) == without_closing_slashes(p@, k as int),
        decreases k,
    {
        k -= 1;
    }
    if k == 0 && end > 1 {
        1
    } else {
        k
    }
}

/// The length of `p` without the `/` that close it.
pub fn len_without_closing_slashes(p: &[char]) -> (k: usize)
    ensures
        k == without_closing_slashes(p@, p@.len() as int),
        k <= p.len(),
{
    let mut k: usize = p.len();
    while k > 0 && p[k - 1] == '/'
        invariant
            k <= p.len(),
            without_closing_slashes(p@, p@.len() as int) == without_closing_slashes(p@, k as int),
        decreases k,
    {
        k -= 1;
    }
    k
}

/// The directories that hold the first `end` characters of `path`, the
/// nearest first.
pub open spec fn ancestors(path: Seq<char>, end: int) -> Seq<Seq<char>>
    decreases end,
{
    let k = parent_len(path, end);
    if k <= 0 || k >= end {
        Seq::empty()
    } else {
        seq![path.subrange(0, k)] + ancestors(path, k)
    }
}

/// The directories that hold a path, the nearest first. The path is taken
/// as it is written: each run of `/` parts two components, and a component
/// `.` counts like any other. The last directory of an absolute path is the
/// root `/`.
pub open spec fn directories_of(path: Seq<char>) -> Seq<Seq<char>> {
    ancestors(path, without_closing_slashes(path, path.len() as int))
}

/// The first verdict from index `i` on that speaks: that is not `NoMatch`.
pub open spec fn first_decisive(verdicts: Seq<Verdict>, i: int) -> Verdict
    decreases verdicts.len() - i,
{
    if i < 0 || i >= verdicts.len() {
        Verdict::NoMatch
    } else if verdicts[i] != Verdict::NoMatch {
        verdicts[i]
    } else {
        first_decisive(verdicts, i + 1)
    }
}

/// Whether verdicts keep a file: the verdict on the file decides; where the
/// rules do not speak of it, the verdict on the nearest directory of which
/// they speak decides; where they speak of none, the file is kept.
pub open spec fn verdicts_keep(file: Verdict, directories: Seq<Verdict>) -> bool {
    let decisive = if file != Verdict::NoMatch {
        file
    } else {
        first_decisive(directories, 0)
    };
    decisive != Verdict::Ignore
}

/// What rules say of a path: nothing where there is no rule, and else what
/// the matcher compiled from them says.
pub open spec fn verdict_of(
    root: Seq<char>,
    lines: Seq<Seq<char>>,
    path: Seq<char>,
    is_dir: bool,
) -> Verdict {
    if lines.len() == 0 {
        Verdict::NoMatch
    } else {
        rule_verdict(root, lines, path, is_dir)
    }
}

/// What the rules say of each of the directories.
pub open spec fn directory_verdicts(
    root: Seq<char>,
    lines: Seq<Seq<char>>,
    directories: Seq<Seq<char>>,
) -> Seq<Verdict> {
    Seq::new(directories.len(), |i: int| verdict_of(root, lines, directories[i], true))
}

/// Whether ignore rules keep a path: by their verdict on the path as a file
/// and their verdicts on the directories that hold it.
pub open spec fn rules_keep(root: Seq<char>, lines: Seq<Seq<char>>, path: Seq<char>) -> bool {
    verdicts_keep(
        verdict_of(root, lines, path, false),
        directory_verdicts(root, lines, directories_of(path)),
    )
}

/// Where there is no rule, every path is kept.
pub proof fn lemma_no_lines_keep(root: Seq<char>, lines: Seq<Seq<char>>, path: Seq<char>)
    requires
        lines.len() == 0,
    ensures
        rules_keep(root, lines, path),
{
    lemma_none_decisive(directory_verdicts(root, lines, directories_of(path)), 0);
}

/// Where the `n`-th verdict speaks and none before it does, it is the first
/// that speaks.
pub proof fn lemma_first_decisive(verdicts: Seq<Verdict>, i: int, n: int)
    requires
        0 <= i <= n < verdicts.len(),
        verdicts[n] != Verdict::NoMatch,
        forall|m: int| i <= m < n ==> verdicts[m] == Verdict::NoMatch,
    ensures
        first_decisive(verdicts, i) == verdicts[n],
    decreases n - i,
{
    if i < n {
        lemma_first_decisive(verdicts, i + 1, n);
    }
}

/// Where no verdict speaks, none is the first that speaks.
pub proof fn lemma_none_decisive(verdicts: Seq<Verdict>, i: int)
    requires
        0 <= i,
        forall|m: int| i <= m < verdicts.len() ==> verdicts[m] == Verdict::NoMatch,
    ensures
        first_decisive(verdicts, i) == Verdict::NoMatch,
    decreases verdicts.len() - i,
{
    if i < verdicts.len() {
        lemma_none_decisive(verdicts, i + 1);
    }
}

/// Ignore rules reach into directories, and a negated rule wins: a file
/// that the rules ignore leaves; a file that a negated rule keeps stays; a
/// file of which the rules do not speak leaves with the nearest directory
/// above it of which they speak, where they ignore that directory, and
/// stays where they speak of none.
pub proof fn lemma_rules_inherit(file: Verdict, directories: Seq<Verdict>, n: int)
    ensures
        file == Verdict::Ignore ==> !verdicts_keep(file, directories),
        file == Verdict::Whitelist ==> verdicts_keep(file, directories),
        ({
            &&& file == Verdict::NoMatch
            &&& 0 <= n < directories.len()
            &&& directories[n] != Verdict::NoMatch
            &&& forall|m: int| 0 <= m < n ==> directories[m] == Verdict::NoMatch
        }) ==> verdicts_keep(file, directories) == (directories[n] == Verdict::Whitelist),
        ({
            &&& file == Verdict::NoMatch
            &&& forall|m: int| 0 <= m < directories.len() ==> directories[m] == Verdict::NoMatch
        }) ==> verdicts_keep(file, directories),
{
    if file == Verdict::NoMatch {
        if 0 <= n < directories.len() && directories[n] != Verdict::NoMatch && (forall|m: int|
            0 <= m < n ==> directories[m] == Verdict::NoMatch) {
            lemma_first_decisive(directories, 0, n);
        }
        if forall|m: int| 0 <= m < directories.len() ==> directories[m] == Verdict::NoMatch {
            lemma_none_decisive(directories, 0);
        }
    }
}

/// The directories that hold `path`, the nearest first.
pub fn directories(path: &[char]) -> (out: Vec<Vec<char>>)
    ensures
        rows(out@) == directories_of(path@),
{
    let mut out: Vec<Vec<char>> = Vec::new();
    let mut end: usize = len_without_closing_slashes(path);
    loop
        invariant
            end <= path.len(),
            rows(out@) + ancestors(path@, end as int) == directories_of(path@),
        decreases end,
    {
        let k = parent_len_of(path, end);
        if k == 0 || k >= end {
            assert(rows(out@) + ancestors(path@, end as int) =~= rows(out@));
            return out;
        }
        let ghost before = rows(out@);
        let dir = copy_range(path, 0, k);
        out.push(dir);
        assert(rows(out@) =~= before.push(dir@));
        assert(before + ancestors(path@, end as int) =~= rows(out@) + ancestors(path@, k as int));
        end = k;
    }
}

/// Whether verdicts keep a file: `file` is the verdict on the file,
/// `directories` hold the verdicts on the directories that hold it, the
/// nearest first.
pub fn keeps(file: Verdict, directories: &Vec<Verdict>) -> (r: bool)
    ensures
        r == verdicts_keep(file, directories@),
{
    match file {
        Verdict::Ignore => false,
        Verdict::Whitelist => true,
        Verdict::NoMatch => {
            let mut i: usize = 0;
            while i < directories.len()
                invariant
                    i <= directories.len(),
                    file == Verdict::NoMatch,
                    first_decisive(directories@, 0) == first_decisive(directories@, i as int),
                decreases directories.len() - i,
            {
                match directories[i] {
                    Verdict::Ignore => {
                        return false;
                    },
                    Verdict::Whitelist => {
                        return true;
                    },
                    Verdict::NoMatch => {},
                }
                i += 1;
            }
            true
        },
    }
}

/// The first verdict that speaks among the first `i` verdicts, where the
/// last of them speaks, is the first that speaks among all.
pub proof fn lemma_first_decisive_prefix(verdicts: Seq<Verdict>, i: int, from: int)
    requires
        0 <= from < i <= verdicts.len(),
        verdicts[i - 1] != Verdict::NoMatch,
    ensures
        first_decisive(verdicts.take(i), from) == first_decisive(verdicts, from),
    decreases i - from,
{
    if verdicts[from] == Verdict::NoMatch {
        lemma_first_decisive_prefix(verdicts, i, from + 1);
    }
}

/// `line` without the byte-order marks that open it.
pub open spec fn strip_marks(line: Seq<char>) -> Seq<char>
    decreases line.len(),
{
    if line.len() > 0 && line[0] == '\u{feff}' {
        strip_marks(line.drop_first())
    } else {
        line
    }
}

/// The lines of an ignore file from byte `from` on, as they are handed to the
/// rule builder: cut at line feeds, without the carriage return before a line
/// feed, up to the first line that is not valid UTF-8.
pub open spec fn rule_lines_from(content: Seq<u8>, from: int) -> Seq<Seq<char>>
    decreases content.len() - from,
{
    let j = next_byte(content, 10u8, from);
    if from < 0 || from >= content.len() || j < from {
        Seq::empty()
    } else if !valid_utf8(content.subrange(from, j)) {
        Seq::empty()
    } else if j >= content.len() {
        seq![decode_utf8(content.subrange(from, j))]
    } else {
        seq![strip_cr(decode_utf8(content.subrange(from, j)))] + rule_lines_from(content, j + 1)
    }
}

/// The lines of an ignore file: its first line without byte-order marks, the
/// others as they stand.
pub open spec fn rule_file_lines(content: Seq<u8>) -> Seq<Seq<char>> {
    let lines = rule_lines_from(content, 0);
    if lines.len() == 0 {
        lines
    } else {
        seq![strip_marks(lines[0])] + lines.subrange(1, lines.len() as int)
    }
}

/// The rules of the first `n` lines of an ignore file that the rule builder
/// takes, as texts: of each line that holds a rule and is taken, the text of
/// that rule.
pub open spec fn taken_rules(lines: Seq<Seq<char>>, n: int) -> Seq<Seq<char>>
    decreases n,
{
    if n <= 0 || n > lines.len() {
        Seq::empty()
    } else {
        match rule_text(lines[n - 1]) {
            Some(text) => if line_accepted(lines[n - 1]) {
                taken_rules(lines, n - 1).push(text)
            } else {
                taken_rules(lines, n - 1)
            },
            None => taken_rules(lines, n - 1),
        }
    }
}

/// `line` without the byte-order marks that open it.
pub fn without_marks(line: &[char]) -> (out: Vec<char>)
    ensures
        out@ == strip_marks(line@),
{
    let mut i: usize = 0;
    assert(line@.subrange(0, line@.len() as int) =~= line@);
    while i < line.len() && line[i] == '\u{feff}'
        invariant
            i <= line.len(),
            strip_marks(line@) == strip_marks(line@.subrange(i as int, line@.len() as int)),
        decreases line.len() - i,
    {
        assert(line@.subrange(i as int, line@.len() as int).drop_first() =~= line@.subrange(
            i + 1,
            line@.len() as int,
        ));
        i += 1;
    }
    copy_range(line, i, line.len())
}

/// The lines of an ignore file, as they are handed to the rule builder.
pub fn read_rule_lines(content: &[u8]) -> (out: Vec<Vec<char>>)
    ensures
        rows(out@) == rule_file_lines(content@),
{
    let mut out: Vec<Vec<char>> = Vec::new();
    let mut pos: usize = 0;
    let mut open: bool = true;
    while open && pos < content.len()
        invariant
            pos <= content.len(),
            open ==> rows(out@) + rule_lines_from(content@, pos as int) == rule_lines_from(
                content@,
                0,
            ),
            !open ==> rows(out@) == rule_lines_from(content@, 0),
        decreases content.len() - pos + if open { 1int } else { 0int },
    {
        let j = index_of_byte(content, 10u8, pos);
        let raw = copy_bytes(content, pos, j);
        let ghost before = rows(out@);
        if !is_valid_utf8(raw.as_slice()) {
            assert(before + rule_lines_from(content@, pos as int) =~= before);
            open = false;
        } else {
            let text = decode_lossy(raw.as_slice());
            let mut line = chars_of(text.as_str());
            if j < content.len() && line.len() > 0 && line[line.len() - 1] == '\r' {
                line.pop();
            }
            out.push(line);
            assert(rows(out@) =~= before.push(line@));
            if j >= content.len() {
                assert(before + rule_lines_from(content@, pos as int) =~= rows(out@));
                open = false;
            } else {
                assert(line@ =~= strip_cr(decode_utf8(raw@)));
                assert(before + rule_lines_from(content@, pos as int) =~= rows(out@)
                    + rule_lines_from(content@, j + 1));
                pos = j + 1;
            }
        }
    }
    assert(rows(out@) =~= rule_lines_from(content@, 0)) by {
        if open {
            assert(rows(out@) + rule_lines_from(content@, pos as int) =~= rows(out@));
        }
    }
    if out.len() > 0 {
        let ghost raw_lines = rows(out@);
        let first = without_marks(out[0].as_slice());
        out.set(0, first);
        assert(rows(out@) =~= seq![strip_marks(raw_lines[0])] + raw_lines.subrange(
            1,
            raw_lines.len() as int,
        ));
    }
    out
}

} // verus!
