//! The diff filter: which sections of a diff are kept, the partitioning of
//! a diff into sections, and what becomes of failed writes and of the
//! downstream command.

use crate::config::app_config::AppConfig;
use crate::error::{Error, IoFailure};
use crate::header::{header_path, header_path_of, is_header, line_is_header};
use crate::matcher::{
    add_rule_line, build_matcher, builder_lines, builder_root, lines_compile, match_path,
    matcher_lines, matcher_root, new_builder, stored_root, Verdict,
};
use crate::rules::{
    directories, directory_verdicts, keeps, lemma_first_decisive_prefix,
    lemma_no_lines_keep, lemma_none_decisive, read_rule_lines, rule_file_lines, rules_keep,
    taken_rules,
};
use crate::text::{
    append_chars, chars_of, contains_seq, copy_range, decimal, decimal_of, decode_lossy,
    has_byte, is_valid_utf8, lemma_next_index, lines_from, lines_of, lossy_text, next_index,
    occurs_at, opt_text, rows, split_lines, string_of, strip_cr, texts,
};
use crate::vcs::{matches_any_vcs, matches_vcs, vcs_pattern_matches};
use ignore::gitignore::Gitignore;
use vstd::prelude::*;
use vstd::slice::slice_to_vec;
use vstd::string::{StrSliceExecFns, StringExecFns};
use vstd::utf8::{decode_utf8, decode_utf8_encode_utf8, encode_utf8, valid_utf8};

verus! {

/// A section's buffer is written out when it holds this many lines.
pub const FLUSH_THRESHOLD: usize = 1024;

/// Whether a file's section is kept: version-control patterns exclude first,
/// where they are active; then the ignore rules decide, where there are any.
pub open spec fn path_included(
    rules: Option<(Seq<char>, Seq<Seq<char>>)>,
    vcs_active: bool,
    patterns: Seq<Seq<char>>,
    path: Seq<char>,
) -> bool {
    &&& !(vcs_active && matches_any_vcs(path, patterns))
    &&& match rules {
        Some((root, lines)) => rules_keep(root, lines, path),
        None => true,
    }
}

/// The rules of an ignore file that the matcher takes, as texts; none where
/// there is no file.
pub open spec fn file_rules(ignore_file: Option<&[u8]>) -> Seq<Seq<char>> {
    match ignore_file {
        Some(content) => taken_rules(
            rule_file_lines(content@),
            rule_file_lines(content@).len() as int,
        ),
        None => Seq::empty(),
    }
}

/// The rules that a filter has of the given rule texts: the texts, rooted at
/// what the matcher keeps of `root`, where they can be compiled, and else
/// none.
pub open spec fn loaded_rules(root: Seq<char>, rules: Seq<Seq<char>>) -> Option<
    (Seq<char>, Seq<Seq<char>>),
> {
    if lines_compile(rules) {
        Some((stored_root(root), rules))
    } else {
        None
    }
}

/// Main filter for diffs.
pub struct Filter {
    /// The compiled ignore rules, where they could be compiled.
    gitignore: Option<Gitignore>,
    /// The version-control patterns.
    vcs_patterns: Vec<String>,
    /// Whether files that match a version-control pattern are dropped.
    vcs_filtering_enabled: bool,
    /// The command that takes the filtered diff, if there is one.
    downstream_command: Option<String>,
}

impl Filter {
    /// The root and the texts of the ignore rules, where there are rules.
    pub closed spec fn rules(&self) -> Option<(Seq<char>, Seq<Seq<char>>)> {
        match self.gitignore {
            Some(g) => Some((matcher_root(g), matcher_lines(g))),
            None => None,
        }
    }

    /// The version-control patterns.
    pub closed spec fn patterns(&self) -> Seq<Seq<char>> {
        texts(self.vcs_patterns@)
    }

    /// Whether version-control filtering is active.
    pub closed spec fn vcs_active(&self) -> bool {
        self.vcs_filtering_enabled
    }

    /// The downstream command.
    pub closed spec fn downstream(&self) -> Option<Seq<char>> {
        opt_text(self.downstream_command)
    }

    /// Whether the filter keeps the section of the file at `path`.
    pub open spec fn includes(&self, path: Seq<char>) -> bool {
        path_included(self.rules(), self.vcs_active(), self.patterns(), path)
    }

    /// A filter for the ignore rules rooted at `root`. `ignore_file` holds the
    /// bytes of the ignore file at the root's top level, where there is one.
    /// The filter has no version-control patterns and no downstream command.
    /// Its rules are those of the file that the matcher takes, rooted at
    /// `root`. Where there is no file, or the file holds no rule that the
    /// matcher takes, the rules are there and are none, and the filter keeps
    /// every path. Where the rules cannot be compiled, the filter has no
    /// rules, and keeps every path as well.
    pub fn new(root: &str, ignore_file: Option<&[u8]>) -> (r: Result<Filter, Error>)
        ensures
            match r {
                Ok(f) => {
                    &&& f.patterns() == Seq::<Seq<char>>::empty()
                    &&& !f.vcs_active()
                    &&& f.downstream() is None
                    &&& f.rules() == loaded_rules(root@, file_rules(ignore_file))
                    &&& file_rules(ignore_file).len() == 0 ==> f.rules() is Some
                    &&& file_rules(ignore_file).len() == 0 || !lines_compile(
                        file_rules(ignore_file),
                    ) ==> forall|path: Seq<char>| f.includes(path)
                },
                Err(_) => false,
            },
    {
        let mut builder = new_builder(root);
        if let Some(content) = ignore_file {
            let lines = read_rule_lines(content);
            let mut i: usize = 0;
            while i < lines.len()
                invariant
                    i <= lines.len(),
                    builder_root(builder) == stored_root(root@),
                    builder_lines(builder) == taken_rules(rows(lines@), i as int),
                decreases lines.len() - i,
            {
                let line = string_of(lines[i].as_slice());
                add_rule_line(&mut builder, line.as_str());
                i += 1;
            }
        }
        let f = Filter::from_matcher(build_matcher(&builder));
        proof {
            let taken = file_rules(ignore_file);
            if taken.len() == 0 || !lines_compile(taken) {
                assert forall|path: Seq<char>| f.includes(path) by {
                    if f.rules() is Some {
                        lemma_no_lines_keep(stored_root(root@), taken, path);
                    }
                }
            }
        }
        Ok(f)
    }

    /// A filter with the given matcher, where the rules could be compiled,
    /// and with nothing else: no version-control patterns, no downstream
    /// command.
    pub(crate) fn from_matcher(gitignore: Option<Gitignore>) -> (f: Filter)
        ensures
            f.rules() == match gitignore {
                Some(g) => Some((matcher_root(g), matcher_lines(g))),
                None => None,
            },
            f.patterns() == Seq::<Seq<char>>::empty(),
            !f.vcs_active(),
            f.downstream() is None,
    {
        let f = Filter {
            gitignore,
            vcs_patterns: Vec::new(),
            vcs_filtering_enabled: false,
            downstream_command: None,
        };
        assert(f.patterns() =~= Seq::<Seq<char>>::empty());
        f
    }

    /// A filter for the rules rooted at `root`, set up as the configuration
    /// says: with its version-control patterns where filtering is on, and
    /// with its downstream command where it has one. Its rules are those of
    /// the ignore file, as `Filter::new` loads them; where they are none or
    /// cannot be compiled, only version-control patterns exclude a path.
    pub fn configured(root: &str, ignore_file: Option<&[u8]>, config: &AppConfig) -> (r: Result<
        Filter,
        Error,
    >)
        ensures
            match r {
                Ok(f) => {
                    &&& f.vcs_active() == config.enabled()
                    &&& f.patterns() == if config.enabled() {
                        config.patterns()
                    } else {
                        Seq::<Seq<char>>::empty()
                    }
                    &&& f.downstream() == config.downstream()
                    &&& f.rules() == loaded_rules(root@, file_rules(ignore_file))
                    &&& file_rules(ignore_file).len() == 0 ==> f.rules() is Some
                    &&& file_rules(ignore_file).len() == 0 || !lines_compile(
                        file_rules(ignore_file),
                    ) ==> forall|path: Seq<char>|
                        f.includes(path) == !(f.vcs_active() && matches_any_vcs(
                            path,
                            f.patterns(),
                        ))
                },
                Err(_) => false,
            },
    {
        let filter = match Filter::new(root, ignore_file) {
            Ok(filter) => filter,
            Err(e) => {
                return Err(e);
            },
        };
        let filter = if config.vcs_enabled() {
            let given = config.vcs_patterns();
            let mut patterns: Vec<String> = Vec::new();
            let mut i: usize = 0;
            while i < given.len()
                invariant
                    i <= given.len(),
                    texts(patterns@) == texts(given@).take(i as int),
                decreases given.len() - i,
            {
                let ghost before = texts(patterns@);
                let p = given[i].clone();
                patterns.push(p);
                i += 1;
                assert(texts(patterns@) =~= before.push(p@));
                assert(before.push(p@) =~= texts(given@).take(i as int));
            }
            assert(texts(given@).take(given.len() as int) =~= texts(given@));
            filter.with_vcs_patterns(patterns)
        } else {
            filter
        };
        let filter = match config.downstream_filter() {
            Some(command) => filter.with_downstream(command.to_owned()),
            None => filter,
        };
        proof {
            let taken = file_rules(ignore_file);
            if taken.len() == 0 || !lines_compile(taken) {
                assert forall|path: Seq<char>|
                    filter.includes(path) == !(filter.vcs_active() && matches_any_vcs(
                        path,
                        filter.patterns(),
                    )) by {
                    if filter.rules() is Some {
                        lemma_no_lines_keep(stored_root(root@), taken, path);
                    }
                }
            }
        }
        Ok(filter)
    }

    /// The filter with the given version-control patterns, and with
    /// version-control filtering switched on.
    pub fn with_vcs_patterns(self, patterns: Vec<String>) -> (r: Filter)
        ensures
            r.patterns() == texts(patterns@),
            r.vcs_active(),
            r.rules() == self.rules(),
            r.downstream() == self.downstream(),
    {
        Filter {
            gitignore: self.gitignore,
            vcs_patterns: patterns,
            vcs_filtering_enabled: true,
            downstream_command: self.downstream_command,
        }
    }

    /// The filter with the given downstream command.
    pub fn with_downstream(self, command: String) -> (r: Filter)
        ensures
            r.downstream() == Some(command@),
            r.patterns() == self.patterns(),
            r.vcs_active() == self.vcs_active(),
            r.rules() == self.rules(),
    {
        Filter {
            gitignore: self.gitignore,
            vcs_patterns: self.vcs_patterns,
            vcs_filtering_enabled: self.vcs_filtering_enabled,
            downstream_command: Some(command),
        }
    }

    /// Whether ignore rules were compiled.
    pub fn has_ignore_rules(&self) -> (r: bool)
        ensures
            r == self.rules() is Some,
    {
        self.gitignore.is_some()
    }

    /// The version-control patterns.
    pub fn vcs_patterns(&self) -> (r: &Vec<String>)
        ensures
            texts(r@) == self.patterns(),
    {
        &self.vcs_patterns
    }

    /// Whether version-control filtering is active.
    pub fn vcs_filtering_enabled(&self) -> (r: bool)
        ensures
            r == self.vcs_active(),
    {
        self.vcs_filtering_enabled
    }

    /// The downstream command, if there is one.
    pub fn downstream_command(&self) -> (r: Option<&String>)
        ensures
            match r {
                Some(c) => self.downstream() == Some(c@),
                None => self.downstream() is None,
            },
    {
        self.downstream_command.as_ref()
    }

    /// The path that a diff header line names.
    pub fn extract_file_path(&self, line: &str) -> (r: Option<String>)
        ensures
            opt_text(r) == header_path(line@),
    {
        let chars = chars_of(line);
        match header_path_of(chars.as_slice()) {
            Some(p) => Some(string_of(p.as_slice())),
            None => None,
        }
    }

    /// Whether `file_path` matches the version-control pattern `pattern`.
    pub fn matches_vcs_pattern(&self, file_path: &str, pattern: &str) -> (r: bool)
        ensures
            r == matches_vcs(file_path@, pattern@),
    {
        let path = chars_of(file_path);
        let pat = chars_of(pattern);
        vcs_pattern_matches(path.as_slice(), pat.as_slice())
    }

    /// Whether `file_path` matches one of the filter's version-control
    /// patterns.
    pub fn is_vcs_file(&self, file_path: &str) -> (r: bool)
        ensures
            r == matches_any_vcs(file_path@, self.patterns()),
    {
        let path = chars_of(file_path);
        self.is_vcs_path(path.as_slice())
    }

    /// Whether `path` matches one of the filter's version-control patterns.
    pub fn is_vcs_path(&self, path: &[char]) -> (r: bool)
        ensures
            r == matches_any_vcs(path@, self.patterns()),
    {
        let mut i: usize = 0;
        while i < self.vcs_patterns.len()
            invariant
                i <= self.vcs_patterns.len(),
                forall|j: int| 0 <= j < i ==> !matches_vcs(path@, #[trigger] self.patterns()[j]),
            decreases self.vcs_patterns.len() - i,
        {
            let pat = chars_of(self.vcs_patterns[i].as_str());
            if vcs_pattern_matches(path, pat.as_slice()) {
                assert(matches_vcs(path@, self.patterns()[i as int]));
                return true;
            }
            i += 1;
        }
        false
    }

    /// Whether the section of the file at `file_path` is kept. Where the
    /// rules are none, they keep every path.
    pub fn should_include_file(&self, file_path: &str) -> (r: bool)
        ensures
            r == self.includes(file_path@),
            self.rules() matches Some(rules) && rules.1.len() == 0 ==> r == !(self.vcs_active()
                && matches_any_vcs(file_path@, self.patterns())),
    {
        let path = chars_of(file_path);
        self.should_include_path(path.as_slice())
    }

    /// Whether the section of the file at `path` is kept. Where the rules
    /// are none, they keep every path.
    pub fn should_include_path(&self, path: &[char]) -> (r: bool)
        ensures
            r == self.includes(path@),
            self.rules() matches Some(rules) && rules.1.len() == 0 ==> r == !(self.vcs_active()
                && matches_any_vcs(path@, self.patterns())),
    {
        if self.vcs_filtering_enabled && self.is_vcs_path(path) {
            return false;
        }
        match &self.gitignore {
            None => true,
            Some(g) => {
                let whole = string_of(path);
                let file = match_path(g, whole.as_str(), false);
                let dirs = directories(path);
                let ghost all = directory_verdicts(
                    matcher_root(*g),
                    matcher_lines(*g),
                    rows(dirs@),
                );
                let mut verdicts: Vec<Verdict> = Vec::new();
                let mut open: bool = file == Verdict::NoMatch;
                let mut i: usize = 0;
                assert(verdicts@ =~= all.take(0));
                while open && i < dirs.len()
                    invariant
                        i <= dirs.len(),
                        all == directory_verdicts(
                            matcher_root(*g),
                            matcher_lines(*g),
                            rows(dirs@),
                        ),
                        verdicts@ == all.take(i as int),
                        !open && file == Verdict::NoMatch ==> i > 0 && all[i - 1]
                            != Verdict::NoMatch,
                        matcher_lines(*g).len() == 0 ==> forall|m: int|
                            0 <= m < i ==> all[m] == Verdict::NoMatch,
                    decreases dirs.len() - i + if open { 1int } else { 0int },
                {
                    let name = string_of(dirs[i].as_slice());
                    let v = match_path(g, name.as_str(), true);
                    verdicts.push(v);
                    if v != Verdict::NoMatch {
                        open = false;
                    }
                    i += 1;
                    assert(verdicts@ =~= all.take(i as int));
                }
                proof {
                    if file == Verdict::NoMatch {
                        if open {
                            assert(all.take(i as int) =~= all);
                        } else {
                            lemma_first_decisive_prefix(all, i as int, 0);
                        }
                        if matcher_lines(*g).len() == 0 {
                            lemma_none_decisive(verdicts@, 0);
                        }
                    }
                }
                keeps(file, &verdicts)
            },
        }
    }
}

/// What a section buffer holds, as the contracts see it.
pub struct SectionView {
    /// The lines that wait to be written.
    pub pending: Seq<Seq<char>>,
    /// Whether the section in progress is kept.
    pub kept: bool,
    /// Whether a section has begun.
    pub active: bool,
}

impl SectionView {
    /// The state before the first line.
    pub open spec fn start() -> SectionView {
        SectionView { pending: Seq::empty(), kept: false, active: false }
    }

    /// Lines wait only in a section that is kept, and fewer than the
    /// threshold.
    pub open spec fn wf(self) -> bool {
        &&& self.pending.len() < FLUSH_THRESHOLD
        &&& self.pending.len() > 0 ==> self.active && self.kept
    }
}

/// The lines of the section in progress that are not written yet.
pub struct SectionState {
    buffer: Vec<Vec<char>>,
    kept: bool,
    active: bool,
}

impl View for SectionState {
    type V = SectionView;

    closed spec fn view(&self) -> SectionView {
        SectionView { pending: rows(self.buffer@), kept: self.kept, active: self.active }
    }
}

impl SectionState {
    /// The state before the first line.
    pub fn new() -> (s: SectionState)
        ensures
            s@ == SectionView::start(),
    {
        let s = SectionState { buffer: Vec::new(), kept: false, active: false };
        assert(s@.pending =~= Seq::empty());
        s
    }

    /// Whether a section has begun.
    pub fn is_active(&self) -> (r: bool)
        ensures
            r == self@.active,
    {
        self.active
    }

    /// The lines that are still to be written at the end of the diff.
    pub fn finish(self) -> (out: Vec<String>)
        ensures
            texts(out@) == self@.pending,
    {
        strings_of_rows(self.buffer)
    }

    /// The lines that are still to be written at the end of the diff.
    pub fn finish_rows(self) -> (out: Vec<Vec<char>>)
        ensures
            rows(out@) == self@.pending,
    {
        self.buffer
    }
}

/// The text of the given lines, each closed by a line feed.
pub open spec fn render(lines: Seq<Seq<char>>) -> Seq<char>
    decreases lines.len(),
{
    if lines.len() == 0 {
        Seq::empty()
    } else {
        render(lines.drop_last()) + lines.last() + seq!['\n']
    }
}

/// The text of two runs of lines is the text of the one and then of the
/// other.
pub proof fn lemma_render_concat(a: Seq<Seq<char>>, b: Seq<Seq<char>>)
    ensures
        render(a + b) == render(a) + render(b),
    decreases b.len(),
{
    if b.len() == 0 {
        assert(a + b =~= a);
        assert(render(a) + render(b) =~= render(a));
    } else {
        lemma_render_concat(a, b.drop_last());
        assert((a + b).drop_last() =~= a + b.drop_last());
        assert((a + b).last() == b.last());
        assert(render(a + b) =~= render(a) + render(b));
    }
}

/// The text of lines, where there are any, ends in a line feed.
pub proof fn lemma_render_ends(lines: Seq<Seq<char>>)
    ensures
        lines.len() == 0 ==> render(lines).len() == 0,
        lines.len() > 0 ==> render(lines).len() > 0 && render(lines).last() == '\n',
{
}

/// What holds no line feed and stands in none of the lines stands nowhere in
/// their text.
pub proof fn lemma_absent_from_render(lines: Seq<Seq<char>>, needle: Seq<char>)
    requires
        needle.len() > 0,
        !needle.contains('\n'),
        forall|i: int| 0 <= i < lines.len() ==> !contains_seq(#[trigger] lines[i], needle),
    ensures
        !contains_seq(render(lines), needle),
    decreases lines.len(),
{
    let n = needle.len() as int;
    let whole = render(lines);
    if lines.len() == 0 {
        assert forall|j: int| !occurs_at(whole, needle, j) by {}
    } else {
        let head = lines.drop_last();
        let before = render(head);
        let line = lines.last();
        assert forall|i: int| 0 <= i < head.len() implies !contains_seq(
            #[trigger] head[i],
            needle,
        ) by {
            assert(head[i] == lines[i]);
        }
        lemma_absent_from_render(head, needle);
        lemma_render_ends(head);
        assert(whole == before + line + seq!['\n']);
        assert forall|j: int| !occurs_at(whole, needle, j) by {
            if occurs_at(whole, needle, j) {
                let found = whole.subrange(j, j + n);
                assert(found == needle);
                if j + n <= before.len() {
                    assert(before.subrange(j, j + n) =~= found);
                    assert(occurs_at(before, needle, j));
                } else if j + n > before.len() + line.len() {
                    assert(found[n - 1] == whole[j + n - 1]);
                    assert(needle[n - 1] == '\n');
                } else if j >= before.len() {
                    assert(line.subrange(j - before.len(), j - before.len() + n) =~= found);
                    assert(occurs_at(line, needle, j - before.len()));
                    assert(contains_seq(lines[lines.len() - 1], needle));
                } else {
                    assert(found[before.len() - 1 - j] == whole[before.len() - 1]);
                    assert(whole[before.len() - 1] == before.last());
                    assert(needle[before.len() - 1 - j] == '\n');
                }
            }
        }
    }
}

/// A text has plain line endings: it is empty or closed by a line feed, and
/// no carriage return stands before a line feed.
pub open spec fn plain_endings(text: Seq<char>) -> bool {
    &&& text.len() == 0 || text.last() == '\n'
    &&& forall|i: int| 0 < i < text.len() && #[trigger] text[i] == '\n' ==> text[i - 1] != '\r'
}

/// The lines of a text with plain line endings, from `from` on, give the
/// text from `from` on back.
pub proof fn lemma_render_lines_from(text: Seq<char>, from: int)
    requires
        plain_endings(text),
        0 <= from <= text.len(),
    ensures
        render(lines_from(text, from)) == text.subrange(from, text.len() as int),
    decreases text.len() - from,
{
    if from >= text.len() {
        assert(text.subrange(from, text.len() as int) =~= Seq::empty());
    } else {
        lemma_next_index(text, '\n', from);
        let j = next_index(text, '\n', from);
        let line = text.subrange(from, j);
        assert(j < text.len());
        assert(strip_cr(line) == line) by {
            if line.len() > 0 {
                assert(line.last() == text[j - 1]);
            }
        }
        lemma_render_lines_from(text, j + 1);
        lemma_render_concat(seq![line], lines_from(text, j + 1));
        let one = seq![line];
        assert(one.last() == line);
        assert(one.drop_last() =~= Seq::<Seq<char>>::empty());
        assert(render(one.drop_last()) =~= Seq::<char>::empty());
        assert(render(one) =~= line + seq!['\n']);
        assert(line + seq!['\n'] + text.subrange(j + 1, text.len() as int) =~= text.subrange(
            from,
            text.len() as int,
        ));
    }
}

/// The lines of a text with plain line endings give the text back.
pub proof fn lemma_plain_text_renders_itself(text: Seq<char>)
    requires
        plain_endings(text),
    ensures
        render(lines_of(text)) == text,
{
    lemma_render_lines_from(text, 0);
    assert(text.subrange(0, text.len() as int) =~= text);
}

/// The index of the last header among the first `n` lines, or -1.
pub open spec fn last_header(lines: Seq<Seq<char>>, n: int) -> int
    decreases n,
{
    if n <= 0 || n > lines.len() {
        -1
    } else if is_header(lines[n - 1]) {
        n - 1
    } else {
        last_header(lines, n - 1)
    }
}

/// Whether a diff is binary: it holds a zero byte or is not valid UTF-8.
pub open spec fn is_binary(input: Seq<u8>) -> bool {
    input.contains(0u8) || !valid_utf8(input)
}

/// A diff as the filter is about to treat it.
pub enum DiffInput {
    /// The diff is binary and touches no version-control path: it is handed
    /// on as it is.
    Binary,
    /// The lines of the diff, to be filtered section by section.
    Text(Vec<String>),
}

/// The lines as strings.
pub fn strings_of_rows(lines: Vec<Vec<char>>) -> (out: Vec<String>)
    ensures
        texts(out@) == rows(lines@),
{
    let mut out: Vec<String> = Vec::new();
    let mut i: usize = 0;
    while i < lines.len()
        invariant
            i <= lines.len(),
            texts(out@) == rows(lines@).take(i as int),
        decreases lines.len() - i,
    {
        let line = string_of(lines[i].as_slice());
        let ghost before = texts(out@);
        out.push(line);
        i += 1;
        assert(texts(out@) =~= before.push(line@));
        assert(before.push(line@) =~= rows(lines@).take(i as int));
    }
    assert(rows(lines@).take(lines.len() as int) =~= rows(lines@));
    out
}

/// Appends the text of the lines, each closed by a line feed.
pub fn append_rendered(buf: &mut Vec<char>, lines: &Vec<Vec<char>>)
    ensures
        final(buf)@ == old(buf)@ + render(rows(lines@)),
{
    let mut i: usize = 0;
    assert(rows(lines@).take(0) =~= Seq::empty());
    assert(buf@ =~= old(buf)@ + render(rows(lines@).take(0)));
    while i < lines.len()
        invariant
            i <= lines.len(),
            buf@ == old(buf)@ + render(rows(lines@).take(i as int)),
        decreases lines.len() - i,
    {
        append_chars(buf, lines[i].as_slice());
        buf.push('\n');
        i += 1;
        assert(rows(lines@).take(i as int).drop_last() =~= rows(lines@).take(i - 1));
        assert(buf@ =~= old(buf)@ + render(rows(lines@).take(i as int)));
    }
    assert(rows(lines@).take(lines.len() as int) =~= rows(lines@));
}

impl Filter {
    /// Whether the section that `line` opens is kept: it names a path, and
    /// the filter keeps that path.
    pub open spec fn header_kept(&self, line: Seq<char>) -> bool {
        match header_path(line) {
            Some(p) => self.includes(p),
            None => false,
        }
    }

    /// Whether the `i`-th line is kept: it stands before every header, or the
    /// section it stands in is kept.
    pub open spec fn line_kept(&self, lines: Seq<Seq<char>>, i: int) -> bool {
        let h = last_header(lines, i + 1);
        h < 0 || self.header_kept(lines[h])
    }

    /// Those of the first `n` lines that are kept.
    pub open spec fn kept_lines(&self, lines: Seq<Seq<char>>, n: int) -> Seq<Seq<char>>
        decreases n,
    {
        if n <= 0 || n > lines.len() {
            Seq::empty()
        } else if self.line_kept(lines, n - 1) {
            self.kept_lines(lines, n - 1).push(lines[n - 1])
        } else {
            self.kept_lines(lines, n - 1)
        }
    }

    /// Every line is kept: the filter excludes no section.
    pub open spec fn keeps_all(&self, lines: Seq<Seq<char>>) -> bool {
        forall|i: int| 0 <= i < lines.len() ==> self.line_kept(lines, i)
    }

    /// Whether `line` opens the section of a file that matches a
    /// version-control pattern.
    pub open spec fn is_vcs_header(&self, line: Seq<char>) -> bool {
        match header_path(line) {
            Some(p) => matches_any_vcs(p, self.patterns()),
            None => false,
        }
    }

    /// Whether version-control filtering is active and one of the lines opens
    /// the section of a file that matches a version-control pattern.
    pub open spec fn touches_vcs(&self, lines: Seq<Seq<char>>) -> bool {
        self.vcs_active() && exists|i: int|
            0 <= i < lines.len() && self.is_vcs_header(#[trigger] lines[i])
    }

    /// Whether a diff is handed on as it is: it is binary, and no section
    /// has to leave for a version-control pattern.
    pub open spec fn passes_through(&self, input: Seq<u8>) -> bool {
        !self.touches_vcs(lines_of(lossy_text(input))) && is_binary(input)
    }

    /// What the filter makes of a diff: the diff itself where it passes
    /// through, else the kept lines of its text, each closed by a line feed.
    pub open spec fn output(&self, input: Seq<u8>) -> Seq<u8> {
        if self.passes_through(input) {
            input
        } else {
            let lines = lines_of(lossy_text(input));
            encode_utf8(render(self.kept_lines(lines, lines.len() as int)))
        }
    }

    /// One step of the partitioner: the state after `line`, and the lines to
    /// write now. A header hands out what waited and opens a section; a line
    /// before every header is written at once; a line of a section that is
    /// kept waits, until the threshold is reached; any other line is dropped.
    pub open spec fn step(&self, s: SectionView, line: Seq<char>) -> (
        SectionView,
        Seq<Seq<char>>,
    ) {
        if is_header(line) {
            let keep = self.header_kept(line);
            (
                SectionView {
                    pending: if keep {
                        seq![line]
                    } else {
                        Seq::empty()
                    },
                    kept: keep,
                    active: true,
                },
                s.pending,
            )
        } else if !s.active {
            (s, seq![line])
        } else if !s.kept {
            (s, Seq::empty())
        } else if s.pending.len() + 1 >= FLUSH_THRESHOLD {
            (SectionView { pending: Seq::empty(), ..s }, s.pending.push(line))
        } else {
            (SectionView { pending: s.pending.push(line), ..s }, Seq::empty())
        }
    }

    /// The partitioner after the first `n` lines: its state, and all the
    /// lines it has handed out.
    pub open spec fn run(&self, lines: Seq<Seq<char>>, n: int) -> (SectionView, Seq<Seq<char>>)
        decreases n,
    {
        if n <= 0 || n > lines.len() {
            (SectionView::start(), Seq::empty())
        } else {
            let before = self.run(lines, n - 1);
            let next = self.step(before.0, lines[n - 1]);
            (next.0, before.1 + next.1)
        }
    }

    /// Takes one line of the diff and gives the lines to write now.
    pub fn feed_chars(&self, state: &mut SectionState, line: Vec<char>) -> (out: Vec<Vec<char>>)
        ensures
            (final(state)@, rows(out@)) == self.step(old(state)@, line@),
            old(state)@.wf() ==> final(state)@.wf(),
    {
        if line_is_header(line.as_slice()) {
            let keep = match header_path_of(line.as_slice()) {
                Some(p) => self.should_include_path(p.as_slice()),
                None => false,
            };
            let mut fresh: Vec<Vec<char>> = Vec::new();
            if keep {
                fresh.push(line);
            }
            let mut out = fresh;
            std::mem::swap(&mut state.buffer, &mut out);
            state.kept = keep;
            state.active = true;
            assert(final(state)@.pending =~= if keep {
                seq![line@]
            } else {
                Seq::empty()
            });
            out
        } else if !state.active {
            let mut out: Vec<Vec<char>> = Vec::new();
            out.push(line);
            assert(rows(out@) =~= seq![line@]);
            out
        } else if !state.kept {
            let out: Vec<Vec<char>> = Vec::new();
            assert(rows(out@) =~= Seq::<Seq<char>>::empty());
            out
        } else if state.buffer.len() >= FLUSH_THRESHOLD - 1 {
            state.buffer.push(line);
            let mut out: Vec<Vec<char>> = Vec::new();
            std::mem::swap(&mut state.buffer, &mut out);
            assert(rows(out@) =~= old(state)@.pending.push(line@));
            assert(final(state)@.pending =~= Seq::empty());
            out
        } else {
            state.buffer.push(line);
            let out: Vec<Vec<char>> = Vec::new();
            assert(rows(out@) =~= Seq::<Seq<char>>::empty());
            assert(final(state)@.pending =~= old(state)@.pending.push(line@));
            out
        }
    }

    /// Takes one line of the diff and gives the lines to write now.
    pub fn feed_line(&self, state: &mut SectionState, line: &str) -> (out: Vec<String>)
        ensures
            (final(state)@, texts(out@)) == self.step(old(state)@, line@),
            old(state)@.wf() ==> final(state)@.wf(),
    {
        let out = self.feed_chars(state, chars_of(line));
        strings_of_rows(out)
    }

    /// Whether version-control filtering is active and one of the lines opens
    /// the section of a file that matches a version-control pattern.
    pub fn touches_vcs_rows(&self, lines: &Vec<Vec<char>>) -> (r: bool)
        ensures
            r == self.touches_vcs(rows(lines@)),
    {
        if !self.vcs_filtering_enabled {
            return false;
        }
        let mut i: usize = 0;
        while i < lines.len()
            invariant
                i <= lines.len(),
                self.vcs_active(),
                forall|j: int| 0 <= j < i ==> !self.is_vcs_header(#[trigger] rows(lines@)[j]),
            decreases lines.len() - i,
        {
            let hit = match header_path_of(lines[i].as_slice()) {
                Some(p) => self.is_vcs_path(p.as_slice()),
                None => false,
            };
            if hit {
                assert(self.is_vcs_header(rows(lines@)[i as int]));
                return true;
            }
            i += 1;
        }
        false
    }

    /// The lines of a diff that is to be filtered, or nothing where the diff
    /// passes through.
    pub fn prepare_rows(&self, input: &[u8]) -> (r: Option<Vec<Vec<char>>>)
        ensures
            match r {
                Some(lines) => !self.passes_through(input@) && rows(lines@) == lines_of(
                    lossy_text(input@),
                ),
                None => self.passes_through(input@),
            },
            valid_utf8(input@) ==> lossy_text(input@) == decode_utf8(input@),
    {
        let text = decode_lossy(input);
        let chars = chars_of(text.as_str());
        let lines = split_lines(chars.as_slice());
        if !self.touches_vcs_rows(&lines) {
            if has_byte(input, 0u8) || !is_valid_utf8(input) {
                return None;
            }
        }
        Some(lines)
    }

    /// How the filter is about to treat a diff: hand it on as it is, or
    /// filter its lines.
    pub fn prepare(&self, input: &[u8]) -> (r: DiffInput)
        ensures
            match r {
                DiffInput::Text(lines) => !self.passes_through(input@) && texts(lines@)
                    == lines_of(lossy_text(input@)),
                DiffInput::Binary => self.passes_through(input@),
            },
    {
        match self.prepare_rows(input) {
            Some(lines) => DiffInput::Text(strings_of_rows(lines)),
            None => DiffInput::Binary,
        }
    }

    /// The kept lines of a diff, each closed by a line feed.
    pub fn partition(&self, lines: &Vec<Vec<char>>) -> (text: Vec<char>)
        ensures
            text@ == render(self.kept_lines(rows(lines@), lines.len() as int)),
    {
        let mut state = SectionState::new();
        let mut text: Vec<char> = Vec::new();
        let mut i: usize = 0;
        assert(text@ =~= render(self.run(rows(lines@), 0).1));
        while i < lines.len()
            invariant
                i <= lines.len(),
                state@ == self.run(rows(lines@), i as int).0,
                text@ == render(self.run(rows(lines@), i as int).1),
            decreases lines.len() - i,
        {
            let line = copy_range(lines[i].as_slice(), 0, lines[i].len());
            assert(line@ =~= rows(lines@)[i as int]);
            let chunk = self.feed_chars(&mut state, line);
            append_rendered(&mut text, &chunk);
            proof {
                lemma_render_concat(self.run(rows(lines@), i as int).1, rows(chunk@));
            }
            i += 1;
        }
        let rest = state.finish_rows();
        append_rendered(&mut text, &rest);
        proof {
            let all = rows(lines@);
            lemma_render_concat(self.run(all, all.len() as int).1, rows(rest@));
            self.lemma_stream_is_batch(all, all.len() as int);
        }
        text
    }

    /// Filters the text of a diff: its kept lines, each closed by a line feed.
    pub fn filter_text(&self, text: &str) -> (out: String)
        ensures
            out@ == render(self.kept_lines(lines_of(text@), lines_of(text@).len() as int)),
    {
        let chars = chars_of(text);
        let lines = split_lines(chars.as_slice());
        let kept = self.partition(&lines);
        string_of(kept.as_slice())
    }

    /// Filters a diff: the sections of files that the filter excludes leave,
    /// the rest comes out in order. A binary diff of which no section has to
    /// leave for a version-control pattern comes out unchanged, and so does
    /// a diff in valid UTF-8 with plain line endings of which every section
    /// is kept.
    pub fn process_diff(&self, input: &[u8]) -> (out: Vec<u8>)
        ensures
            out@ == self.output(input@),
            valid_utf8(input@) && plain_endings(decode_utf8(input@)) && self.keeps_all(
                lines_of(decode_utf8(input@)),
            ) ==> out@ == input@,
    {
        let lines = match self.prepare_rows(input) {
            Some(lines) => lines,
            None => {
                return slice_to_vec(input);
            },
        };
        proof {
            if valid_utf8(input@) && plain_endings(decode_utf8(input@)) && self.keeps_all(
                lines_of(decode_utf8(input@)),
            ) {
                self.lemma_kept_diff_is_unchanged(input@);
                decode_utf8_encode_utf8(input@);
            }
        }
        let text = self.partition(&lines);
        let rendered = string_of(text.as_slice());
        rendered.as_str().as_bytes_vec()
    }
}

impl Filter {
    /// The partitioner writes what is kept, in order: after any number of
    /// lines, what it has handed out and what still waits are together the
    /// kept lines. What waits is less than the threshold, whatever the size
    /// of a section. A section is open once a header has come, and is kept
    /// where its header is.
    pub proof fn lemma_stream_is_batch(&self, lines: Seq<Seq<char>>, n: int)
        requires
            0 <= n <= lines.len(),
        ensures
            self.run(lines, n).1 + self.run(lines, n).0.pending == self.kept_lines(lines, n),
            self.run(lines, n).0.wf(),
            self.run(lines, n).0.active == (last_header(lines, n) >= 0),
            self.run(lines, n).0.active ==> self.run(lines, n).0.kept == self.header_kept(
                lines[last_header(lines, n)],
            ),
        decreases n,
    {
        if n > 0 {
            self.lemma_stream_is_batch(lines, n - 1);
            let before = self.run(lines, n - 1);
            let next = self.step(before.0, lines[n - 1]);
            let line = lines[n - 1];
            let all = before.1 + next.1 + next.0.pending;
            if is_header(line) {
                if self.header_kept(line) {
                    assert(all =~= (before.1 + before.0.pending).push(line));
                } else {
                    assert(all =~= before.1 + before.0.pending);
                }
            } else if !before.0.active {
                assert(before.0.pending.len() == 0);
                assert(all =~= (before.1 + before.0.pending).push(line));
            } else if !before.0.kept {
                assert(all =~= before.1 + before.0.pending);
            } else {
                assert(all =~= (before.1 + before.0.pending).push(line));
            }
        } else {
            assert(self.run(lines, n).1 + self.run(lines, n).0.pending =~= Seq::empty());
        }
    }

    /// The buffer is bounded: however many lines a section has, fewer than
    /// the threshold wait to be written.
    pub proof fn lemma_buffer_bounded(&self, lines: Seq<Seq<char>>, n: int)
        requires
            0 <= n <= lines.len(),
        ensures
            self.run(lines, n).0.pending.len() < FLUSH_THRESHOLD,
    {
        self.lemma_stream_is_batch(lines, n);
    }

    /// Two filters with the same rules and patterns keep the same lines.
    pub proof fn lemma_same_rules_same_lines(
        &self,
        other: &Filter,
        lines: Seq<Seq<char>>,
        n: int,
    )
        requires
            self.rules() == other.rules(),
            self.patterns() == other.patterns(),
            self.vcs_active() == other.vcs_active(),
        ensures
            self.kept_lines(lines, n) == other.kept_lines(lines, n),
        decreases n,
    {
        if 0 < n <= lines.len() {
            self.lemma_same_rules_same_lines(other, lines, n - 1);
        }
    }

    /// Filtering is determined by the rules and the patterns: two filters
    /// with the same ignore rules, the same version-control patterns and the
    /// same switch keep the same lines of every diff and give the same
    /// output.
    pub proof fn lemma_same_rules_same_output(&self, other: &Filter, input: Seq<u8>)
        requires
            self.rules() == other.rules(),
            self.patterns() == other.patterns(),
            self.vcs_active() == other.vcs_active(),
        ensures
            self.output(input) == other.output(input),
            forall|lines: Seq<Seq<char>>, i: int|
                self.line_kept(lines, i) == other.line_kept(lines, i),
    {
        let lines = lines_of(lossy_text(input));
        self.lemma_same_rules_same_lines(other, lines, lines.len() as int);
        assert(self.touches_vcs(lines) == other.touches_vcs(lines));
    }

    /// Where every line is kept, the kept lines are the lines.
    pub proof fn lemma_all_kept(&self, lines: Seq<Seq<char>>, n: int)
        requires
            0 <= n <= lines.len(),
            self.keeps_all(lines),
        ensures
            self.kept_lines(lines, n) == lines.take(n),
        decreases n,
    {
        if n > 0 {
            self.lemma_all_kept(lines, n - 1);
            assert(lines.take(n) =~= lines.take(n - 1).push(lines[n - 1]));
        } else {
            assert(lines.take(0) =~= Seq::<Seq<char>>::empty());
        }
    }

    /// A diff of which every section is kept, with plain line endings, comes
    /// out as the text that went in.
    pub proof fn lemma_kept_diff_is_unchanged(&self, input: Seq<u8>)
        requires
            !self.passes_through(input),
            plain_endings(lossy_text(input)),
            self.keeps_all(lines_of(lossy_text(input))),
        ensures
            self.output(input) == encode_utf8(lossy_text(input)),
    {
        let lines = lines_of(lossy_text(input));
        self.lemma_all_kept(lines, lines.len() as int);
        assert(lines.take(lines.len() as int) =~= lines);
        lemma_plain_text_renders_itself(lossy_text(input));
    }

    /// The lines of a section whose path matches a version-control pattern
    /// leave where version-control filtering is active, whatever the ignore
    /// rules say.
    pub proof fn lemma_vcs_section_leaves(&self, lines: Seq<Seq<char>>, i: int)
        requires
            0 <= i < lines.len(),
            self.vcs_active(),
            last_header(lines, i + 1) >= 0,
            self.is_vcs_header(lines[last_header(lines, i + 1)]),
        ensures
            !self.line_kept(lines, i),
    {
    }

    /// Every kept line is a line that is kept.
    pub proof fn lemma_kept_lines_are_kept(&self, lines: Seq<Seq<char>>, n: int, k: int)
        requires
            0 <= n <= lines.len(),
            0 <= k < self.kept_lines(lines, n).len(),
        ensures
            exists|i: int|
                0 <= i < n && #[trigger] self.line_kept(lines, i) && lines[i] == self.kept_lines(
                    lines,
                    n,
                )[k],
        decreases n,
    {
        if n > 0 {
            let fewer = self.kept_lines(lines, n - 1);
            if k < fewer.len() {
                self.lemma_kept_lines_are_kept(lines, n - 1, k);
                let i = choose|i: int|
                    0 <= i < n - 1 && #[trigger] self.line_kept(lines, i) && lines[i] == fewer[k];
                assert(self.line_kept(lines, i));
            } else {
                assert(self.line_kept(lines, n - 1));
            }
        }
    }

    /// What stands only in lines of sections that leave stands nowhere in the
    /// text that comes out: a text that holds no line feed and stands in no
    /// kept line of a diff stands nowhere in the text of its kept lines.
    pub proof fn lemma_excluded_text_is_absent(&self, lines: Seq<Seq<char>>, needle: Seq<char>)
        requires
            needle.len() > 0,
            !needle.contains('\n'),
            forall|i: int|
                0 <= i < lines.len() && #[trigger] self.line_kept(lines, i) ==> !contains_seq(
                    lines[i],
                    needle,
                ),
        ensures
            !contains_seq(render(self.kept_lines(lines, lines.len() as int)), needle),
    {
        let kept = self.kept_lines(lines, lines.len() as int);
        assert forall|k: int| 0 <= k < kept.len() implies !contains_seq(
            #[trigger] kept[k],
            needle,
        ) by {
            self.lemma_kept_lines_are_kept(lines, lines.len() as int, k);
        }
        lemma_absent_from_render(kept, needle);
    }

    /// A binary diff of which no section has to leave for a version-control
    /// pattern comes out as it went in, byte for byte.
    pub proof fn lemma_binary_passthrough(&self, input: Seq<u8>)
        requires
            is_binary(input),
            !self.touches_vcs(lines_of(lossy_text(input))),
        ensures
            self.output(input) == input,
    {
    }
}

/// What the filter was writing when a write failed.
#[derive(Clone, Copy, Debug, PartialEq, Eq, Structural)]
pub enum WriteStage {
    /// A binary diff, handed on as it is.
    Binary,
    /// The lines of a section.
    Line,
    /// A line before every header.
    Header,
}

/// The opening words of the message for a failed write.
pub open spec fn stage_text(stage: WriteStage) -> Seq<char> {
    match stage {
        WriteStage::Binary => "Failed to write binary data: "@,
        WriteStage::Line => "Failed to write line: "@,
        WriteStage::Header => "Failed to write header line: "@,
    }
}

/// An exit code as it is shown: `Some(<code>)`, or `None` where the command
/// ended without one.
pub open spec fn shown_code(code: Option<i32>) -> Seq<char> {
    match code {
        Some(c) => "Some("@ + decimal(c as int) + ")"@,
        None => "None"@,
    }
}

/// The message for a downstream command that ended with a failure.
pub open spec fn failed_text(command: Seq<char>, code: Option<i32>) -> Seq<char> {
    "Downstream command '"@ + command + "' failed with exit code: "@ + shown_code(code)
}

impl Filter {
    /// What becomes of a failed write: a broken pipe ends the work quietly,
    /// any other failure is a processing error that names what was written.
    pub fn write_outcome(stage: WriteStage, failure: &IoFailure) -> (r: Result<(), Error>)
        ensures
            failure.broken_pipe ==> r is Ok,
            !failure.broken_pipe ==> (r matches Err(Error::Processing(m)) && m@ == stage_text(
                stage,
            ) + failure.message@),
    {
        if failure.broken_pipe {
            return Ok(());
        }
        let mut text = match stage {
            WriteStage::Binary => "Failed to write binary data: ".to_owned(),
            WriteStage::Line => "Failed to write line: ".to_owned(),
            WriteStage::Header => "Failed to write header line: ".to_owned(),
        };
        text.append(failure.message.as_str());
        Err(Error::Processing(text))
    }

    /// The error for a diff that could not be read.
    pub fn read_failure(detail: &str) -> (e: Error)
        ensures
            e matches Error::Processing(m) && m@ == "Failed to read input data: "@ + detail@,
    {
        let mut text = "Failed to read input data: ".to_owned();
        text.append(detail);
        Error::Processing(text)
    }

    /// The error for a downstream command that could not be started.
    pub fn spawn_failure(command: &str, detail: &str) -> (e: Error)
        ensures
            e matches Error::DownstreamSpawnFailed(m) && m@
                == "Failed to spawn downstream command '"@ + command@ + "': "@ + detail@,
    {
        let mut text = "Failed to spawn downstream command '".to_owned();
        text.append(command);
        text.append("': ");
        text.append(detail);
        Error::DownstreamSpawnFailed(text)
    }

    /// The error for a downstream command whose end could not be awaited.
    pub fn wait_failure(detail: &str) -> (e: Error)
        ensures
            e matches Error::Processing(m) && m@ == "Failed to wait for downstream command: "@
                + detail@,
    {
        let mut text = "Failed to wait for downstream command: ".to_owned();
        text.append(detail);
        Error::Processing(text)
    }

    /// What becomes of a run through a downstream command, once the command
    /// has ended: its failure is an error that holds its exit code; where it
    /// succeeded, the outcome of the filtering stands.
    pub fn downstream_outcome(
        command: &str,
        success: bool,
        exit_code: Option<i32>,
        processed: Result<(), Error>,
    ) -> (r: Result<(), Error>)
        ensures
            success ==> r == processed,
            !success ==> (r matches Err(Error::DownstreamProcessFailed(m)) && m@ == failed_text(
                command@,
                exit_code,
            )),
    {
        if success {
            return processed;
        }
        let mut text = "Downstream command '".to_owned();
        text.append(command);
        text.append("' failed with exit code: ");
        match exit_code {
            Some(code) => {
                text.append("Some(");
                let digits = decimal_of(code);
                text.append(string_of(digits.as_slice()).as_str());
                text.append(")");
            },
            None => {
                text.append("None");
            },
        }
        assert(text@ =~= failed_text(command@, exit_code));
        Err(Error::DownstreamProcessFailed(text))
    }
}

} // verus!
