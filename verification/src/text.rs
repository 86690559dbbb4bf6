//! Text as sequences of characters: searching, splitting, trimming and the
//! conversions between `str`, `String` and `Vec<char>`.

use vstd::prelude::*;

verus! {

/// `std::string::String::push` appends one character.
pub assume_specification[ String::push ](s: &mut String, c: char)
    ensures
        final(s)@ == old(s)@.push(c),
;

/// The characters of a string slice.
pub fn chars_of(s: &str) -> (out: Vec<char>)
    ensures
        out@ == s@,
{
    let mut out: Vec<char> = Vec::new();
    for c in it: s.chars()
        invariant
            it.seq() == s@,
            out@ == s@.take(it.index()),
    {
        out.push(c);
        assert(out@ =~= s@.take(it.index() + 1));
    }
    assert(out@ =~= s@);
    out
}

/// The string made of the given characters.
pub fn string_of(v: &[char]) -> (out: String)
    ensures
        out@ == v@,
{
    let mut out = String::new();
    let mut i: usize = 0;
    while i < v.len()
        invariant
            i <= v.len(),
            out@ == v@.take(i as int),
        decreases v.len() - i,
    {
        out.push(v[i]);
        i += 1;
        assert(out@ =~= v@.take(i as int));
    }
    assert(out@ =~= v@);
    out
}

/// The characters of `s` from index `from` up to, not including, `to`.
pub(crate) fn copy_range(s: &[char], from: usize, to: usize) -> (out: Vec<char>)
    requires
        from <= to <= s.len(),
    ensures
        out@ == s@.subrange(from as int, to as int),
{
    let mut out: Vec<char> = Vec::new();
    let mut i: usize = from;
    while i < to
        invariant
            from <= i <= to <= s.len(),
            out@ == s@.subrange(from as int, i as int),
        decreases to - i,
    {
        out.push(s[i]);
        i += 1;
        assert(out@ =~= s@.subrange(from as int, i as int));
    }
    out
}

/// Appends the characters of `tail` to `buf`.
pub fn append_chars(buf: &mut Vec<char>, tail: &[char])
    ensures
        final(buf)@ == old(buf)@ + tail@,
{
    let mut i: usize = 0;
    while i < tail.len()
        invariant
            i <= tail.len(),
            buf@ == old(buf)@ + tail@.take(i as int),
        decreases tail.len() - i,
    {
        buf.push(tail[i]);
        i += 1;
        assert(buf@ =~= old(buf)@ + tail@.take(i as int));
    }
    assert(tail@.take(tail.len() as int) =~= tail@);
}

/// Whether two character sequences are equal.
pub fn chars_eq(a: &[char], b: &[char]) -> (r: bool)
    ensures
        r == (a@ == b@),
{
    if a.len() != b.len() {
        return false;
    }
    let mut i: usize = 0;
    while i < a.len()
        invariant
            i <= a.len(),
            a.len() == b.len(),
            a@.take(i as int) == b@.take(i as int),
        decreases a.len() - i,
    {
        if a[i] != b[i] {
            return false;
        }
        i += 1;
        assert(a@.take(i as int) =~= a@.take(i - 1).push(a@[i - 1]));
        assert(b@.take(i as int) =~= b@.take(i - 1).push(b@[i - 1]));
    }
    assert(a@.take(a.len() as int) =~= a@);
    assert(b@.take(b.len() as int) =~= b@);
    true
}

/// What a vector of character vectors holds.
pub open spec fn rows(v: Seq<Vec<char>>) -> Seq<Seq<char>> {
    Seq::new(v.len(), |i: int| v[i]@)
}

/// What a vector of strings holds.
pub open spec fn texts(v: Seq<String>) -> Seq<Seq<char>> {
    Seq::new(v.len(), |i: int| v[i]@)
}

/// What an optional string holds.
pub open spec fn opt_text(o: Option<String>) -> Option<Seq<char>> {
    match o {
        Some(v) => Some(v@),
        None => None,
    }
}

/// What an optional vector of characters holds.
pub open spec fn opt_chars(o: Option<Vec<char>>) -> Option<Seq<char>> {
    match o {
        Some(v) => Some(v@),
        None => None,
    }
}

/// `p` stands in `s` at index `i`.
pub open spec fn occurs_at(s: Seq<char>, p: Seq<char>, i: int) -> bool {
    0 <= i && i + p.len() <= s.len() && s.subrange(i, i + p.len()) == p
}

/// `p` stands somewhere in `s`.
pub open spec fn contains_seq(s: Seq<char>, p: Seq<char>) -> bool {
    exists|i: int| occurs_at(s, p, i)
}

/// `s` without `p` at its start, where it starts with `p`.
pub open spec fn strip_lead(s: Seq<char>, p: Seq<char>) -> Seq<char> {
    if p.is_prefix_of(s) {
        s.subrange(p.len() as int, s.len() as int)
    } else {
        s
    }
}

/// `p` is the tail of `s`.
pub open spec fn is_suffix(p: Seq<char>, s: Seq<char>) -> bool {
    p.len() <= s.len() && s.subrange(s.len() - p.len(), s.len() as int) == p
}

/// The first index at or after `from` where `p` stands in `s`.
pub open spec fn find_from(s: Seq<char>, p: Seq<char>, from: int) -> Option<int>
    decreases s.len() + 1 - from,
{
    if from < 0 || from + p.len() > s.len() {
        None
    } else if occurs_at(s, p, from) {
        Some(from)
    } else {
        find_from(s, p, from + 1)
    }
}

/// The first index where `p` stands in `s`.
pub open spec fn find_first(s: Seq<char>, p: Seq<char>) -> Option<int> {
    find_from(s, p, 0)
}

/// `find_from` gives the least occurrence at or after `from`, and none only
/// where there is none.
pub proof fn lemma_find_from(s: Seq<char>, p: Seq<char>, from: int)
    requires
        0 <= from,
    ensures
        match find_from(s, p, from) {
            Some(i) => from <= i && occurs_at(s, p, i) && forall|j: int|
                from <= j < i ==> !occurs_at(s, p, j),
            None => forall|j: int| from <= j ==> !occurs_at(s, p, j),
        },
    decreases s.len() + 1 - from,
{
    if from + p.len() > s.len() {
    } else if occurs_at(s, p, from) {
    } else {
        lemma_find_from(s, p, from + 1);
    }
}

/// `find_first` finds an occurrence exactly where there is one.
pub proof fn lemma_find_first(s: Seq<char>, p: Seq<char>)
    ensures
        find_first(s, p) is Some <==> contains_seq(s, p),
        match find_first(s, p) {
            Some(i) => occurs_at(s, p, i) && forall|j: int| 0 <= j < i ==> !occurs_at(s, p, j),
            None => true,
        },
{
    lemma_find_from(s, p, 0);
}

/// Whether `p` stands in `s` at index `i`.
pub fn occurs_at_index(s: &[char], p: &[char], i: usize) -> (r: bool)
    ensures
        r == occurs_at(s@, p@, i as int),
{
    if p.len() > s.len() || i > s.len() - p.len() {
        return false;
    }
    let mut k: usize = 0;
    while k < p.len()
        invariant
            k <= p.len(),
            i + p.len() <= s.len(),
            s@.subrange(i as int, i + k) == p@.take(k as int),
        decreases p.len() - k,
    {
        if s[i + k] != p[k] {
            assert(s@.subrange(i as int, i + p.len())[k as int] != p@[k as int]);
            return false;
        }
        k += 1;
        assert(s@.subrange(i as int, i + k) =~= s@.subrange(i as int, i + k - 1).push(
            s@[i + k - 1],
        ));
        assert(p@.take(k as int) =~= p@.take(k - 1).push(p@[k - 1]));
    }
    assert(p@.take(p.len() as int) =~= p@);
    true
}

/// Whether `s` begins with `p`.
pub fn starts_with(s: &[char], p: &[char]) -> (r: bool)
    ensures
        r == p@.is_prefix_of(s@),
{
    let r = occurs_at_index(s, p, 0);
    proof {
        if r {
            assert(p@ =~= s@.subrange(0, p@.len() as int));
        }
        if p@.is_prefix_of(s@) {
            assert(s@.subrange(0, 0 + p@.len() as int) =~= p@);
        }
    }
    r
}

/// `s` without `p` at its start, where it starts with `p`.
pub fn without_lead(s: &[char], p: &[char]) -> (out: Vec<char>)
    ensures
        out@ == strip_lead(s@, p@),
{
    if starts_with(s, p) {
        copy_range(s, p.len(), s.len())
    } else {
        let out = copy_range(s, 0, s.len());
        assert(out@ =~= s@);
        out
    }
}

/// Whether `s` ends with `p`.
pub fn ends_with(s: &[char], p: &[char]) -> (r: bool)
    ensures
        r == is_suffix(p@, s@),
{
    if p.len() > s.len() {
        return false;
    }
    occurs_at_index(s, p, s.len() - p.len())
}

/// The first index where `p` stands in `s`, if there is one.
pub fn find(s: &[char], p: &[char]) -> (r: Option<usize>)
    ensures
        match r {
            Some(i) => find_first(s@, p@) == Some(i as int),
            None => find_first(s@, p@) is None,
        },
{
    if p.len() > s.len() {
        return None;
    }
    let last: usize = s.len() - p.len();
    let mut i: usize = 0;
    loop
        invariant
            i <= last,
            last == s.len() - p.len(),
            find_first(s@, p@) == find_from(s@, p@, i as int),
        decreases last - i,
    {
        if occurs_at_index(s, p, i) {
            return Some(i);
        }
        if i == last {
            assert(find_from(s@, p@, i + 1) is None);
            return None;
        }
        i += 1;
    }
}

/// Whether `p` stands somewhere in `s`.
pub fn contains(s: &[char], p: &[char]) -> (r: bool)
    ensures
        r == contains_seq(s@, p@),
{
    proof {
        lemma_find_first(s@, p@);
    }
    find(s, p).is_some()
}

/// The first index at or after `from` where `s` holds `c`; the length of `s`
/// where it holds none.
pub open spec fn next_index(s: Seq<char>, c: char, from: int) -> int
    decreases s.len() - from,
{
    if from < 0 || from >= s.len() {
        s.len() as int
    } else if s[from] == c {
        from
    } else {
        next_index(s, c, from + 1)
    }
}

/// `next_index` lies between `from` and the length, stops on `c` and passes
/// over nothing that is `c`.
pub proof fn lemma_next_index(s: Seq<char>, c: char, from: int)
    requires
        0 <= from <= s.len(),
    ensures
        from <= next_index(s, c, from) <= s.len(),
        next_index(s, c, from) < s.len() ==> s[next_index(s, c, from)] == c,
        forall|k: int| from <= k < next_index(s, c, from) ==> s[k] != c,
    decreases s.len() - from,
{
    if from < s.len() && s[from] != c {
        lemma_next_index(s, c, from + 1);
    }
}

/// The first index at or after `from` where `s` holds `c`; the length of `s`
/// where it holds none.
pub(crate) fn index_of_char(s: &[char], c: char, from: usize) -> (r: usize)
    requires
        from <= s.len(),
    ensures
        r == next_index(s@, c, from as int),
        from <= r <= s.len(),
{
    let mut i: usize = from;
    while i < s.len() && s[i] != c
        invariant
            from <= i <= s.len(),
            next_index(s@, c, from as int) == next_index(s@, c, i as int),
        decreases s.len() - i,
    {
        i += 1;
    }
    i
}

/// The pieces of `s` from `from` on, cut at each `sep`: one more piece than
/// there are separators.
pub open spec fn split_from(s: Seq<char>, sep: char, from: int) -> Seq<Seq<char>>
    decreases s.len() - from,
{
    let j = next_index(s, sep, from);
    if from < 0 || from > s.len() || j < from {
        Seq::empty()
    } else if j >= s.len() {
        seq![s.subrange(from, s.len() as int)]
    } else {
        seq![s.subrange(from, j)] + split_from(s, sep, j + 1)
    }
}

/// The pieces of `s` cut at each `sep`.
pub open spec fn split_on(s: Seq<char>, sep: char) -> Seq<Seq<char>> {
    split_from(s, sep, 0)
}

/// The pieces of `s` cut at each `sep`.
pub fn split(s: &[char], sep: char) -> (out: Vec<Vec<char>>)
    ensures
        rows(out@) == split_on(s@, sep),
{
    let mut out: Vec<Vec<char>> = Vec::new();
    let mut pos: usize = 0;
    loop
        invariant
            pos <= s.len(),
            rows(out@) + split_from(s@, sep, pos as int) == split_on(s@, sep),
        decreases s.len() - pos,
    {
        let j = index_of_char(s, sep, pos);
        let piece = copy_range(s, pos, j);
        let ghost before = rows(out@);
        out.push(piece);
        assert(rows(out@) =~= before.push(piece@));
        if j >= s.len() {
            assert(before + split_from(s@, sep, pos as int) =~= rows(out@));
            return out;
        }
        assert(before + split_from(s@, sep, pos as int) =~= rows(out@) + split_from(
            s@,
            sep,
            j + 1,
        ));
        pos = j + 1;
    }
}

/// `line` without one closing carriage return.
pub open spec fn strip_cr(line: Seq<char>) -> Seq<char> {
    if line.len() > 0 && line.last() == '\r' {
        line.drop_last()
    } else {
        line
    }
}

/// The lines of `s` from `from` on. A line ends at a line feed, and a
/// carriage return just before that line feed belongs to the line ending. The
/// last line needs no line ending, and then keeps a closing carriage return.
pub open spec fn lines_from(s: Seq<char>, from: int) -> Seq<Seq<char>>
    decreases s.len() - from,
{
    let j = next_index(s, '\n', from);
    if from < 0 || from >= s.len() || j < from {
        Seq::empty()
    } else if j >= s.len() {
        seq![s.subrange(from, s.len() as int)]
    } else {
        seq![strip_cr(s.subrange(from, j))] + lines_from(s, j + 1)
    }
}

/// The lines of `s`, without their line endings.
pub open spec fn lines_of(s: Seq<char>) -> Seq<Seq<char>> {
    lines_from(s, 0)
}

/// The lines of `s`, without their line endings.
pub fn split_lines(s: &[char]) -> (out: Vec<Vec<char>>)
    ensures
        rows(out@) == lines_of(s@),
{
    let mut out: Vec<Vec<char>> = Vec::new();
    let mut pos: usize = 0;
    while pos < s.len()
        invariant
            pos <= s.len(),
            rows(out@) + lines_from(s@, pos as int) == lines_of(s@),
        decreases s.len() - pos,
    {
        let j = index_of_char(s, '\n', pos);
        let ghost before = rows(out@);
        if j >= s.len() {
            let piece = copy_range(s, pos, j);
            out.push(piece);
            assert(rows(out@) =~= before.push(piece@));
            assert(before + lines_from(s@, pos as int) =~= rows(out@));
            return out;
        }
        let end: usize = if j > pos && s[j - 1] == '\r' {
            j - 1
        } else {
            j
        };
        let piece = copy_range(s, pos, end);
        assert(piece@ =~= strip_cr(s@.subrange(pos as int, j as int)));
        out.push(piece);
        assert(rows(out@) =~= before.push(piece@));
        assert(before + lines_from(s@, pos as int) =~= rows(out@) + lines_from(s@, j + 1));
        pos = j + 1;
    }
    assert(rows(out@) + lines_from(s@, pos as int) =~= rows(out@));
    out
}

/// The text of `bytes` as `String::from_utf8_lossy` reads it.
pub uninterp spec fn lossy_text(bytes: Seq<u8>) -> Seq<char>;

/// `String::from_utf8_lossy`: the text of the bytes, with each sequence
/// that is not valid UTF-8 replaced; bytes that are valid UTF-8 give the text
/// that they encode.
#[verifier::external_body]
pub(crate) fn decode_lossy(bytes: &[u8]) -> (s: String)
    ensures
        s@ == lossy_text(bytes@),
        vstd::utf8::valid_utf8(bytes@) ==> s@ == vstd::utf8::decode_utf8(bytes@),
{
    String::from_utf8_lossy(bytes).into_owned()
}

/// `std::str::from_utf8` succeeds exactly on valid UTF-8.
#[verifier::external_body]
pub(crate) fn is_valid_utf8(bytes: &[u8]) -> (r: bool)
    ensures
        r == vstd::utf8::valid_utf8(bytes@),
{
    std::str::from_utf8(bytes).is_ok()
}

/// The first index at or after `from` where `s` holds the byte `b`; the
/// length of `s` where it holds none.
pub open spec fn next_byte(s: Seq<u8>, b: u8, from: int) -> int
    decreases s.len() - from,
{
    if from < 0 || from >= s.len() {
        s.len() as int
    } else if s[from] == b {
        from
    } else {
        next_byte(s, b, from + 1)
    }
}

/// The first index at or after `from` where `s` holds the byte `b`; the
/// length of `s` where it holds none.
pub(crate) fn index_of_byte(s: &[u8], b: u8, from: usize) -> (r: usize)
    requires
        from <= s.len(),
    ensures
        r == next_byte(s@, b, from as int),
        from <= r <= s.len(),
{
    let mut i: usize = from;
    while i < s.len() && s[i] != b
        invariant
            from <= i <= s.len(),
            next_byte(s@, b, from as int) == next_byte(s@, b, i as int),
        decreases s.len() - i,
    {
        i += 1;
    }
    i
}

/// Whether `s` holds the byte `b`.
pub fn has_byte(s: &[u8], b: u8) -> (r: bool)
    ensures
        r == s@.contains(b),
{
    let mut i: usize = 0;
    while i < s.len()
        invariant
            i <= s.len(),
            forall|k: int| 0 <= k < i ==> s@[k] != b,
        decreases s.len() - i,
    {
        if s[i] == b {
            return true;
        }
        i += 1;
    }
    false
}

/// The bytes of `s` from index `from` up to, not including, `to`.
pub(crate) fn copy_bytes(s: &[u8], from: usize, to: usize) -> (out: Vec<u8>)
    requires
        from <= to <= s.len(),
    ensures
        out@ == s@.subrange(from as int, to as int),
{
    let mut out: Vec<u8> = Vec::new();
    let mut i: usize = from;
    while i < to
        invariant
            from <= i <= to <= s.len(),
            out@ == s@.subrange(from as int, i as int),
        decreases to - i,
    {
        out.push(s[i]);
        i += 1;
        assert(out@ =~= s@.subrange(from as int, i as int));
    }
    out
}

/// Whether `c` is white space, as Unicode defines it.
pub open spec fn is_space(c: char) -> bool {
    ||| c == ' '
    ||| c == '\u{9}'
    ||| c == '\u{a}'
    ||| c == '\u{b}'
    ||| c == '\u{c}'
    ||| c == '\u{d}'
    ||| c == '\u{85}'
    ||| c == '\u{a0}'
    ||| c == '\u{1680}'
    ||| c == '\u{2000}'
    ||| c == '\u{2001}'
    ||| c == '\u{2002}'
    ||| c == '\u{2003}'
    ||| c == '\u{2004}'
    ||| c == '\u{2005}'
    ||| c == '\u{2006}'
    ||| c == '\u{2007}'
    ||| c == '\u{2008}'
    ||| c == '\u{2009}'
    ||| c == '\u{200a}'
    ||| c == '\u{2028}'
    ||| c == '\u{2029}'
    ||| c == '\u{202f}'
    ||| c == '\u{205f}'
    ||| c == '\u{3000}'
}

/// Whether `c` is white space.
pub fn char_is_space(c: char) -> (r: bool)
    ensures
        r == is_space(c),
{
    c == ' ' || c == '\u{9}' || c == '\u{a}' || c == '\u{b}' || c == '\u{c}' || c == '\u{d}'
        || c == '\u{85}' || c == '\u{a0}' || c == '\u{1680}' || c == '\u{2000}' || c
        == '\u{2001}' || c == '\u{2002}' || c == '\u{2003}' || c == '\u{2004}' || c
        == '\u{2005}' || c == '\u{2006}' || c == '\u{2007}' || c == '\u{2008}' || c
        == '\u{2009}' || c == '\u{200a}' || c == '\u{2028}' || c == '\u{2029}' || c
        == '\u{202f}' || c == '\u{205f}' || c == '\u{3000}'
}

/// The first index at or after `from` whose character is white space or not
/// as `spaces` is false or true: the end of the run of white space
/// (`spaces`) or of other characters (`!spaces`) that begins at `from`.
pub open spec fn run_end(s: Seq<char>, from: int, spaces: bool) -> int
    decreases s.len() - from,
{
    if from < 0 || from >= s.len() {
        s.len() as int
    } else if is_space(s[from]) != spaces {
        from
    } else {
        run_end(s, from + 1, spaces)
    }
}

/// A run ends at or after its start, within `s`, and on a character of the
/// other kind.
pub proof fn lemma_run_end(s: Seq<char>, from: int, spaces: bool)
    requires
        0 <= from <= s.len(),
    ensures
        from <= run_end(s, from, spaces) <= s.len(),
        run_end(s, from, spaces) < s.len() ==> is_space(s[run_end(s, from, spaces)]) != spaces,
    decreases s.len() - from,
{
    if from < s.len() && is_space(s[from]) == spaces {
        lemma_run_end(s, from + 1, spaces);
    }
}

/// The start of the run of white space that ends at `end`.
pub open spec fn space_start(s: Seq<char>, end: int) -> int
    decreases end,
{
    if end <= 0 || end > s.len() {
        0
    } else if !is_space(s[end - 1]) {
        end
    } else {
        space_start(s, end - 1)
    }
}

/// `s` without the white space that opens and closes it.
pub open spec fn trimmed(s: Seq<char>) -> Seq<char> {
    let a = run_end(s, 0, true);
    let b = space_start(s, s.len() as int);
    if a >= b {
        Seq::empty()
    } else {
        s.subrange(a, b)
    }
}

/// The end of the run of white space, or of other characters, that begins
/// at `from`.
pub(crate) fn run_end_of(s: &[char], from: usize, spaces: bool) -> (r: usize)
    requires
        from <= s.len(),
    ensures
        r == run_end(s@, from as int, spaces),
        from <= r <= s.len(),
{
    let mut i: usize = from;
    while i < s.len() && char_is_space(s[i]) == spaces
        invariant
            from <= i <= s.len(),
            run_end(s@, from as int, spaces) == run_end(s@, i as int, spaces),
        decreases s.len() - i,
    {
        i += 1;
    }
    i
}

/// `s` without the white space that opens and closes it.
pub fn trim(s: &[char]) -> (out: Vec<char>)
    ensures
        out@ == trimmed(s@),
{
    let a = run_end_of(s, 0, true);
    let mut b: usize = s.len();
    while b > 0 && char_is_space(s[b - 1])
        invariant
            b <= s.len(),
            space_start(s@, s@.len() as int) == space_start(s@, b as int),
        decreases b,
    {
        b -= 1;
    }
    if a >= b {
        Vec::new()
    } else {
        copy_range(s, a, b)
    }
}

/// The words of `s` from `from` on: the runs of characters that are not
/// white space.
pub open spec fn words_from(s: Seq<char>, from: int) -> Seq<Seq<char>>
    decreases s.len() - from,
{
    let a = run_end(s, from, true);
    let b = run_end(s, a, false);
    if from < 0 || a < from || a >= s.len() || b <= a || b > s.len() {
        Seq::empty()
    } else {
        seq![s.subrange(a, b)] + words_from(s, b)
    }
}

/// The words of `s`.
pub open spec fn words_of(s: Seq<char>) -> Seq<Seq<char>> {
    words_from(s, 0)
}

/// The words of `s`.
pub fn split_words(s: &[char]) -> (out: Vec<Vec<char>>)
    ensures
        rows(out@) == words_of(s@),
{
    let mut out: Vec<Vec<char>> = Vec::new();
    let mut pos: usize = 0;
    loop
        invariant
            pos <= s.len(),
            rows(out@) + words_from(s@, pos as int) == words_of(s@),
        decreases s.len() - pos,
    {
        let a = run_end_of(s, pos, true);
        if a >= s.len() {
            assert(rows(out@) + words_from(s@, pos as int) =~= rows(out@));
            return out;
        }
        let b = run_end_of(s, a, false);
        proof {
            lemma_run_end(s@, pos as int, true);
            lemma_run_end(s@, a + 1, false);
        }
        assert(b > a);
        let word = copy_range(s, a, b);
        let ghost before = rows(out@);
        out.push(word);
        assert(rows(out@) =~= before.push(word@));
        assert(before + words_from(s@, pos as int) =~= rows(out@) + words_from(s@, b as int));
        pos = b;
    }
}

/// The items in order, with `sep` between each two.
pub open spec fn join(items: Seq<Seq<char>>, sep: char) -> Seq<char>
    decreases items.len(),
{
    if items.len() == 0 {
        Seq::empty()
    } else if items.len() == 1 {
        items[0]
    } else {
        join(items.drop_last(), sep) + seq![sep] + items.last()
    }
}

/// The first `n` items in order, with `sep` between each two.
pub(crate) fn join_rows(items: &Vec<Vec<char>>, n: usize, sep: char) -> (out: Vec<char>)
    requires
        n <= items.len(),
    ensures
        out@ == join(rows(items@).take(n as int), sep),
{
    let mut out: Vec<char> = Vec::new();
    let mut i: usize = 0;
    assert(join(rows(items@).take(0), sep) =~= Seq::empty());
    while i < n
        invariant
            i <= n <= items.len(),
            out@ == join(rows(items@).take(i as int), sep),
        decreases n - i,
    {
        if i > 0 {
            out.push(sep);
        }
        append_chars(&mut out, items[i].as_slice());
        i += 1;
        assert(rows(items@).take(i as int).drop_last() =~= rows(items@).take(i - 1));
        assert(out@ =~= join(rows(items@).take(i as int), sep));
    }
    out
}

/// The character of a decimal digit.
pub open spec fn digit_char(d: int) -> char {
    if d == 0 {
        '0'
    } else if d == 1 {
        '1'
    } else if d == 2 {
        '2'
    } else if d == 3 {
        '3'
    } else if d == 4 {
        '4'
    } else if d == 5 {
        '5'
    } else if d == 6 {
        '6'
    } else if d == 7 {
        '7'
    } else if d == 8 {
        '8'
    } else {
        '9'
    }
}

/// The decimal digits of a natural number.
pub open spec fn digits(n: nat) -> Seq<char>
    decreases n,
{
    if n < 10 {
        seq![digit_char(n as int)]
    } else {
        digits(n / 10).push(digit_char((n % 10) as int))
    }
}

/// A whole number in decimal, with a minus sign where it is negative.
pub open spec fn decimal(n: int) -> Seq<char> {
    if n < 0 {
        seq!['-'] + digits((-n) as nat)
    } else {
        digits(n as nat)
    }
}

/// The character of the decimal digit `d`.
pub(crate) fn digit_of(d: u64) -> (c: char)
    requires
        d < 10,
    ensures
        c == digit_char(d as int),
{
    if d == 0 {
        '0'
    } else if d == 1 {
        '1'
    } else if d == 2 {
        '2'
    } else if d == 3 {
        '3'
    } else if d == 4 {
        '4'
    } else if d == 5 {
        '5'
    } else if d == 6 {
        '6'
    } else if d == 7 {
        '7'
    } else if d == 8 {
        '8'
    } else {
        '9'
    }
}

/// The decimal digits of `n`.
pub fn digits_of(n: u64) -> (out: Vec<char>)
    ensures
        out@ == digits(n as nat),
    decreases n,
{
    if n < 10 {
        let mut out: Vec<char> = Vec::new();
        out.push(digit_of(n));
        assert(out@ =~= seq![digit_char(n as int)]);
        out
    } else {
        let mut out = digits_of(n / 10);
        out.push(digit_of(n % 10));
        out
    }
}

/// `n` in decimal.
pub fn decimal_of(n: i32) -> (out: Vec<char>)
    ensures
        out@ == decimal(n as int),
{
    if n < 0 {
        let magnitude: u64 = (-(n as i64)) as u64;
        let mut out: Vec<char> = Vec::new();
        out.push('-');
        let body = digits_of(magnitude);
        append_chars(&mut out, body.as_slice());
        assert(out@ =~= seq!['-'] + digits((-n) as nat));
        out
    } else {
        digits_of(n as u64)
    }
}

/// `c` in lower case, where it is an upper-case letter of ASCII.
pub open spec fn ascii_lower(c: char) -> char {
    if 'A' <= c <= 'Z' {
        ((c as u8) + 32) as char
    } else {
        c
    }
}

/// `s` with its upper-case letters of ASCII in lower case.
pub open spec fn ascii_lowered(s: Seq<char>) -> Seq<char> {
    Seq::new(s.len(), |i: int| ascii_lower(s[i]))
}

/// `s` with its upper-case letters of ASCII in lower case.
pub fn to_ascii_lower(s: &[char]) -> (out: Vec<char>)
    ensures
        out@ == ascii_lowered(s@),
{
    let mut out: Vec<char> = Vec::new();
    let mut i: usize = 0;
    while i < s.len()
        invariant
            i <= s.len(),
            out@ == ascii_lowered(s@.take(i as int)),
        decreases s.len() - i,
    {
        let c = s[i];
        let low: char = if 'A' <= c && c <= 'Z' {
            ((c as u8) + 32) as char
        } else {
            c
        };
        out.push(low);
        i += 1;
        assert(out@ =~= ascii_lowered(s@.take(i as int)));
    }
    assert(s@.take(s.len() as int) =~= s@);
    out
}

} // verus!
