//! Character and line primitives shared by the classifier and the searcher:
//! whitespace tests, substring containment, comment-marker matching,
//! trimming, and splitting file content into lines.

use vstd::prelude::*;

verus! {

/// Whitespace as understood by the line classifier: the ASCII blank
/// characters (space, tab, line feed, carriage return, vertical tab,
/// form feed).
pub open spec fn is_ws(c: char) -> bool {
    c == ' ' || c == '\t' || c == '\n' || c == '\r' || c == '\u{b}' || c == '\u{c}'
}

/// A line is blank when every character on it is whitespace.
pub open spec fn blank_line(l: Seq<char>) -> bool {
    forall|i: int| 0 <= i < l.len() ==> is_ws(l[i])
}

/// The pattern `p` occurs in `l` starting at position `i`.
pub open spec fn match_at(l: Seq<char>, p: Seq<char>, i: int) -> bool {
    0 <= i && i + p.len() <= l.len() && l.subrange(i, i + p.len() as int) == p
}

/// The pattern `p` occurs somewhere in `l`.
pub open spec fn contains_seq(l: Seq<char>, p: Seq<char>) -> bool {
    exists|i: int| match_at(l, p, i)
}

/// The marker `m` occurs directly after a (possibly empty) run of leading
/// whitespace: how a single-line comment is recognized.
pub open spec fn leading_ws_match(l: Seq<char>, m: Seq<char>) -> bool {
    exists|j: int|
        0 <= j && j + m.len() <= l.len() && (forall|k: int| 0 <= k < j ==> is_ws(l[k]))
            && #[trigger] l.subrange(j, j + m.len() as int) == m
}

/// `l` with leading and trailing whitespace removed.
pub open spec fn trim_spec(l: Seq<char>) -> Seq<char>
    decreases l.len(),
{
    if l.len() == 0 {
        l
    } else if is_ws(l[0]) {
        trim_spec(l.subrange(1, l.len() as int))
    } else if is_ws(l[l.len() - 1]) {
        trim_spec(l.subrange(0, l.len() - 1))
    } else {
        l
    }
}

/// Index of the first line feed in `s`, or `s.len()` if there is none.
pub open spec fn first_nl(s: Seq<char>) -> int
    decreases s.len(),
{
    if s.len() == 0 {
        0
    } else if s[0] == '\n' {
        0
    } else {
        1 + first_nl(s.subrange(1, s.len() as int))
    }
}

/// A line terminated by a line feed loses one trailing carriage return,
/// if it has one.
pub open spec fn strip_cr(l: Seq<char>) -> Seq<char> {
    if l.len() > 0 && l[l.len() - 1] == '\r' {
        l.subrange(0, l.len() - 1)
    } else {
        l
    }
}

/// The lines of `s`: pieces separated by line feeds, each stripped of one
/// carriage return preceding the line feed; a trailing line terminator
/// does not open a final empty line.
pub open spec fn spec_lines(s: Seq<char>) -> Seq<Seq<char>>
    decreases s.len(),
    via spec_lines_decreases
{
    if s.len() == 0 {
        Seq::empty()
    } else {
        let i = first_nl(s);
        if i == s.len() {
            seq![s]
        } else {
            seq![strip_cr(s.subrange(0, i))] + spec_lines(s.subrange(i + 1, s.len() as int))
        }
    }
}

/// `first_nl` always lies between 0 and the length of the sequence.
pub proof fn lemma_first_nl_le(s: Seq<char>)
    ensures
        0 <= first_nl(s) <= s.len(),
    decreases s.len(),
{
    if s.len() > 0 && s[0] != '\n' {
        lemma_first_nl_le(s.subrange(1, s.len() as int));
    }
}

#[via_fn]
proof fn spec_lines_decreases(s: Seq<char>) {
    lemma_first_nl_le(s);
}

/// The extension of a path: everything after the last dot, or the whole
/// path when it has no dot.
pub open spec fn ext_of(p: Seq<char>) -> Seq<char>
    decreases p.len(),
{
    if p.len() == 0 {
        p
    } else if p[p.len() - 1] == '.' {
        Seq::empty()
    } else {
        ext_of(p.subrange(0, p.len() - 1)).push(p[p.len() - 1])
    }
}

/// Executable whitespace test, matching `is_ws`.
pub fn char_is_ws(c: char) -> (r: bool)
    ensures
        r == is_ws(c),
{
    c == ' ' || c == '\t' || c == '\n' || c == '\r' || c == '\u{b}' || c == '\u{c}'
}

/// Executable blank-line test, matching `blank_line`.
pub fn is_line_blank(line: &str) -> (r: bool)
    ensures
        r == blank_line(line@),
{
    let n = line.unicode_len();
    let mut i: usize = 0;
    while i < n
        invariant
            n == line@.len(),
            0 <= i <= n,
            forall|k: int| 0 <= k < i ==> is_ws(line@[k]),
        decreases n - i,
    {
        if !char_is_ws(line.get_char(i)) {
            assert(!blank_line(line@));
            return false;
        }
        i += 1;
    }
    true
}

/// Two string slices hold the same characters.
pub fn str_eq(a: &str, b: &str) -> (r: bool)
    ensures
        r == (a@ == b@),
{
    let na = a.unicode_len();
    let nb = b.unicode_len();
    if na != nb {
        return false;
    }
    let mut i: usize = 0;
    while i < na
        invariant
            na == a@.len(),
            na == b@.len(),
            0 <= i <= na,
            forall|k: int| 0 <= k < i ==> a@[k] == b@[k],
        decreases na - i,
    {
        if a.get_char(i) != b.get_char(i) {
            assert(a@ != b@);
            return false;
        }
        i += 1;
    }
    assert(a@ =~= b@);
    true
}

/// Whether `p` occurs in `l` starting exactly at position `i`.
pub fn match_at_str(l: &str, p: &str, i: usize) -> (r: bool)
    requires
        i + p@.len() <= l@.len(),
    ensures
        r == match_at(l@, p@, i as int),
{
    let n = l.unicode_len();
    let m = p.unicode_len();
    let mut j: usize = 0;
    while j < m
        invariant
            n == l@.len(),
            m == p@.len(),
            i + m <= n,
            0 <= j <= m,
            forall|k: int| 0 <= k < j ==> l@[i + k] == p@[k],
        decreases m - j,
    {
        if l.get_char(i + j) != p.get_char(j) {
            assert(l@.subrange(i as int, i + p@.len() as int)[j as int] == l@[i + j]);
            return false;
        }
        j += 1;
    }
    assert(l@.subrange(i as int, i + p@.len() as int) =~= p@);
    true
}

/// Executable substring search, matching `contains_seq`.
pub fn contains_pattern(l: &str, p: &str) -> (r: bool)
    ensures
        r == contains_seq(l@, p@),
{
    let n = l.unicode_len();
    let m = p.unicode_len();
    if m > n {
        assert(forall|i: int| !match_at(l@, p@, i));
        return false;
    }
    if m == 0 {
        assert(l@.subrange(0, 0) =~= p@);
        assert(match_at(l@, p@, 0));
        return true;
    }
    let mut i: usize = 0;
    while i <= n - m
        invariant
            n == l@.len(),
            m == p@.len(),
            1 <= m <= n,
            0 <= i <= n - m + 1,
            forall|k: int| 0 <= k < i ==> !match_at(l@, p@, k),
        decreases n - m + 1 - i,
    {
        if match_at_str(l, p, i) {
            return true;
        }
        i += 1;
    }
    assert(forall|k: int| match_at(l@, p@, k) ==> 0 <= k <= n - m);
    false
}

/// Position of the first non-whitespace character of `l`, or the length
/// of `l` when every character is whitespace.
pub fn first_non_ws(l: &str) -> (j: usize)
    ensures
        0 <= j <= l@.len(),
        forall|k: int| 0 <= k < j ==> is_ws(l@[k]),
        j < l@.len() ==> !is_ws(l@[j as int]),
{
    let n = l.unicode_len();
    let mut j: usize = 0;
    while j < n
        invariant
            n == l@.len(),
            0 <= j <= n,
            forall|k: int| 0 <= k < j ==> is_ws(l@[k]),
        decreases n - j,
    {
        if !char_is_ws(l.get_char(j)) {
            return j;
        }
        j += 1;
    }
    j
}

/// Executable single-line-comment test, matching `leading_ws_match`: the
/// marker must follow only whitespace.  The marker may not begin with a
/// whitespace character, so the leading whitespace run it can follow is
/// unambiguous.
pub fn starts_after_ws(l: &str, m: &str) -> (r: bool)
    requires
        m@.len() > 0,
        !is_ws(m@[0]),
    ensures
        r == leading_ws_match(l@, m@),
{
    let n = l.unicode_len();
    let mlen = m.unicode_len();
    let j = first_non_ws(l);
    // `j` is the first non-whitespace position, or `n` if the line is
    // all whitespace.
    if j == n {
        // Any candidate start would sit on a whitespace character.
        assert forall|i: int| !(0 <= i && i + m@.len() <= l@.len() && (forall|k: int|
            0 <= k < i ==> is_ws(l@[k])) && #[trigger] l@.subrange(i, i + m@.len() as int) == m@) by {
            if 0 <= i && i + m@.len() <= l@.len() && l@.subrange(i, i + m@.len() as int) == m@ {
                assert(l@.subrange(i, i + m@.len() as int)[0] == l@[i]);
                assert(is_ws(l@[i]));
                assert(!is_ws(m@[0]));
            }
        }
        return false;
    }
    if mlen > n - j {
        // The marker cannot start at `j`, and no other start is possible:
        // earlier starts sit on whitespace, later starts would require
        // position `j` to be whitespace.
        assert forall|i: int| !(0 <= i && i + m@.len() <= l@.len() && (forall|k: int|
            0 <= k < i ==> is_ws(l@[k])) && #[trigger] l@.subrange(i, i + m@.len() as int) == m@) by {
            if 0 <= i && i + m@.len() <= l@.len() && (forall|k: int| 0 <= k < i ==> is_ws(l@[k]))
                && l@.subrange(i, i + m@.len() as int) == m@ {
                assert(l@.subrange(i, i + m@.len() as int)[0] == l@[i]);
                if i < j {
                    assert(is_ws(l@[i]));
                } else {
                    assert(i > j);
                    assert(is_ws(l@[j as int]));
                }
            }
        }
        return false;
    }
    let r = match_at_str(l, m, j);
    if r {
        assert(leading_ws_match(l@, m@));
    } else {
        assert forall|i: int| !(0 <= i && i + m@.len() <= l@.len() && (forall|k: int|
            0 <= k < i ==> is_ws(l@[k])) && #[trigger] l@.subrange(i, i + m@.len() as int) == m@) by {
            if 0 <= i && i + m@.len() <= l@.len() && (forall|k: int| 0 <= k < i ==> is_ws(l@[k]))
                && l@.subrange(i, i + m@.len() as int) == m@ {
                assert(l@.subrange(i, i + m@.len() as int)[0] == l@[i]);
                if i < j {
                    assert(is_ws(l@[i]));
                } else if i > j {
                    assert(is_ws(l@[j as int]));
                }
            }
        }
    }
    r
}

/// Trimming a sequence whose characters are all whitespace leaves nothing.
pub proof fn lemma_trim_all_ws(l: Seq<char>)
    requires
        forall|k: int| 0 <= k < l.len() ==> is_ws(l[k]),
    ensures
        trim_spec(l) == Seq::<char>::empty(),
    decreases l.len(),
{
    if l.len() == 0 {
        assert(l =~= Seq::<char>::empty());
    } else {
        lemma_trim_all_ws(l.subrange(1, l.len() as int));
    }
}

/// When `f` and `e` bound the non-whitespace region of `l`, trimming
/// yields exactly that region.
pub proof fn lemma_trim_range(l: Seq<char>, f: int, e: int)
    requires
        0 <= f <= e < l.len(),
        !is_ws(l[f]),
        !is_ws(l[e]),
        forall|k: int| 0 <= k < f ==> is_ws(l[k]),
        forall|k: int| e < k < l.len() ==> is_ws(l[k]),
    ensures
        trim_spec(l) == l.subrange(f, e + 1),
    decreases l.len(),
{
    if f > 0 {
        let l2 = l.subrange(1, l.len() as int);
        lemma_trim_range(l2, f - 1, e - 1);
        assert(l2.subrange(f - 1, e) =~= l.subrange(f, e + 1));
    } else if e < l.len() - 1 {
        let l2 = l.subrange(0, l.len() - 1);
        lemma_trim_range(l2, f, e);
        assert(l2.subrange(f, e + 1) =~= l.subrange(f, e + 1));
    } else {
        assert(l.subrange(0, l.len() as int) =~= l);
    }
}

/// Position of the last non-whitespace character of `line`, given the
/// position `f` of some non-whitespace character.
fn last_non_ws(line: &str, f: usize) -> (e: usize)
    requires
        f < line@.len(),
        !is_ws(line@[f as int]),
    ensures
        f <= e < line@.len(),
        !is_ws(line@[e as int]),
        forall|k: int| e < k < line@.len() ==> is_ws(line@[k]),
{
    let n = line.unicode_len();
    let mut e: usize = n - 1;
    while e > f
        invariant
            n == line@.len(),
            f <= e < n,
            f < n,
            !is_ws(line@[f as int]),
            forall|k: int| e < k < n ==> is_ws(line@[k]),
        decreases e,
    {
        if !char_is_ws(line.get_char(e)) {
            return e;
        }
        e -= 1;
    }
    e
}

/// `line` with leading and trailing whitespace removed, matching
/// `trim_spec`.
pub fn trim_str(line: &str) -> (r: String)
    ensures
        r@ == trim_spec(line@),
{
    let n = line.unicode_len();
    let f = first_non_ws(line);
    if f == n {
        proof {
            lemma_trim_all_ws(line@);
        }
        return String::new();
    }
    let e = last_non_ws(line, f);
    proof {
        lemma_trim_range(line@, f as int, e as int);
    }
    line.substring_char(f, e + 1).to_owned()
}

/// `first_nl` is determined by the position of the first line feed.
proof fn lemma_first_nl_at(s: Seq<char>, j: int)
    requires
        0 <= j <= s.len(),
        forall|k: int| 0 <= k < j ==> s[k] != '\n',
        j == s.len() || s[j] == '\n',
    ensures
        first_nl(s) == j,
    decreases s.len(),
{
    if j > 0 {
        lemma_first_nl_at(s.subrange(1, s.len() as int), j - 1);
    }
}

/// Splits file content into its lines, matching `spec_lines`.
pub fn split_lines(content: &str) -> (r: Vec<String>)
    ensures
        r.deep_view() == spec_lines(content@),
{
    let n = content.unicode_len();
    let mut r: Vec<String> = Vec::new();
    let mut start: usize = 0;
    let mut pos: usize = 0;
    proof {
        assert(content@.subrange(0, n as int) =~= content@);
        assert(r.deep_view() =~= Seq::<Seq<char>>::empty());
        assert(Seq::<Seq<char>>::empty() + spec_lines(content@) =~= spec_lines(content@));
    }
    while pos < n
        invariant
            n == content@.len(),
            0 <= start <= pos <= n,
            forall|k: int| start <= k < pos ==> content@[k] != '\n',
            r.deep_view() + spec_lines(content@.subrange(start as int, n as int)) == spec_lines(
                content@,
            ),
        decreases n - pos,
    {
        if content.get_char(pos) == '\n' {
            // The piece from `start` to this line feed is one line, less a
            // carriage return directly before the line feed.
            let end = if pos > start && content.get_char(pos - 1) == '\r' {
                pos - 1
            } else {
                pos
            };
            let piece = content.substring_char(start, end);
            let ghost prev = r.deep_view();
            r.push(piece.to_owned());
            proof {
                let rest = content@.subrange(start as int, n as int);
                lemma_first_nl_at(rest, pos - start);
                assert(rest.subrange(0, pos - start) =~= content@.subrange(
                    start as int,
                    pos as int,
                ));
                assert(strip_cr(content@.subrange(start as int, pos as int)) =~= piece@);
                assert(rest.subrange(pos - start + 1, rest.len() as int) =~= content@.subrange(
                    pos + 1,
                    n as int,
                ));
                assert(spec_lines(rest) == seq![piece@] + spec_lines(
                    content@.subrange(pos + 1, n as int),
                ));
                assert(r.deep_view() =~= prev.push(piece@));
                assert(r.deep_view() + spec_lines(content@.subrange(pos + 1, n as int))
                    =~= prev + spec_lines(rest));
            }
            pos += 1;
            start = pos;
        } else {
            pos += 1;
        }
    }
    if start < n {
        let piece = content.substring_char(start, n);
        let ghost prev = r.deep_view();
        r.push(piece.to_owned());
        proof {
            let rest = content@.subrange(start as int, n as int);
            lemma_first_nl_at(rest, n - start);
            assert(spec_lines(rest) == seq![rest]);
            assert(r.deep_view() =~= prev.push(piece@));
            assert(r.deep_view() =~= prev + spec_lines(rest));
        }
    } else {
        proof {
            assert(content@.subrange(start as int, n as int) =~= Seq::<char>::empty());
            assert(r.deep_view() =~= r.deep_view() + spec_lines(
                content@.subrange(start as int, n as int),
            ));
        }
    }
    r
}

/// When `d` is the position of the last dot of `p`, the extension is
/// everything after it.
proof fn lemma_ext_of_dot(p: Seq<char>, d: int)
    requires
        0 <= d < p.len(),
        p[d] == '.',
        forall|k: int| d < k < p.len() ==> p[k] != '.',
    ensures
        ext_of(p) == p.subrange(d + 1, p.len() as int),
    decreases p.len(),
{
    if d == p.len() - 1 {
        assert(p.subrange(d + 1, p.len() as int) =~= Seq::<char>::empty());
    } else {
        let p2 = p.subrange(0, p.len() - 1);
        lemma_ext_of_dot(p2, d);
        assert(p2.subrange(d + 1, p2.len() as int).push(p[p.len() - 1]) =~= p.subrange(
            d + 1,
            p.len() as int,
        ));
    }
}

/// A path without a dot is its own extension.
proof fn lemma_ext_of_no_dot(p: Seq<char>)
    requires
        forall|k: int| 0 <= k < p.len() ==> p[k] != '.',
    ensures
        ext_of(p) == p,
    decreases p.len(),
{
    if p.len() > 0 {
        let p2 = p.subrange(0, p.len() - 1);
        lemma_ext_of_no_dot(p2);
        assert(p2.push(p[p.len() - 1]) =~= p);
    }
}

/// The extension of `path`: the characters after its last dot, or the
/// whole path when it has no dot, matching `ext_of`.
pub fn extension_of(path: &str) -> (r: String)
    ensures
        r@ == ext_of(path@),
{
    let n = path.unicode_len();
    let mut i: usize = n;
    while i > 0
        invariant
            n == path@.len(),
            0 <= i <= n,
            forall|k: int| i <= k < n ==> path@[k] != '.',
        decreases i,
    {
        if path.get_char(i - 1) == '.' {
            proof {
                lemma_ext_of_dot(path@, i - 1);
            }
            return path.substring_char(i, n).to_owned();
        }
        i -= 1;
    }
    proof {
        lemma_ext_of_no_dot(path@);
    }
    path.to_owned()
}

} // verus!
