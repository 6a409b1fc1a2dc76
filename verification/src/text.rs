//! Character-level text handling shared by the readers: conversion between
//! strings and character vectors, splitting, trimming and searching.

use vstd::prelude::*;
use vstd::string::*;

verus! {

/// The characters of a string.
pub fn chars_of(s: &str) -> (v: Vec<char>)
    ensures
        v@ == s@,
{
    broadcast use vstd::string::group_string_axioms;

    let mut v: Vec<char> = Vec::new();
    for c in it: s.chars()
        invariant
            it.seq() == s@,
            v@ == s@.take(it.index() as int),
    {
        assert(s@.take(it.index() + 1) == s@.take(it.index() as int).push(c));
        v.push(c);
    }
    assert(s@.take(s@.len() as int) == s@);
    v
}

/// Collects characters into a `String` with `Iterator::collect`; the result
/// holds exactly the given characters, in order.
#[verifier::external_body]
pub(crate) fn string_of(cs: &[char]) -> (s: String)
    ensures
        s@ == cs@,
{
    cs.iter().collect()
}

/// A copy of the characters `cs[from..to]`.
pub fn copy_range(cs: &[char], from: usize, to: usize) -> (v: Vec<char>)
    requires
        from <= to <= cs.len(),
    ensures
        v@ == cs@.subrange(from as int, to as int),
{
    let mut v: Vec<char> = Vec::new();
    let mut i = from;
    while i < to
        invariant
            from <= i <= to <= cs.len(),
            v@ == cs@.subrange(from as int, i as int),
        decreases to - i,
    {
        v.push(cs[i]);
        assert(cs@.subrange(from as int, i + 1) == cs@.subrange(from as int, i as int).push(
            cs@[i as int],
        ));
        i += 1;
    }
    v
}

/// Whether two character slices hold the same text.
pub fn chars_eq(a: &[char], b: &[char]) -> (r: bool)
    ensures
        r == (a@ == b@),
{
    if a.len() != b.len() {
        return false;
    }
    let mut i: usize = 0;
    while i < a.len()
        invariant
            a.len() == b.len(),
            i <= a.len(),
            forall|j: int| 0 <= j < i ==> a@[j] == b@[j],
        decreases a.len() - i,
    {
        if a[i] != b[i] {
            return false;
        }
        i += 1;
    }
    assert(a@ =~= b@);
    true
}

/// Whether a character slice spells out `lit`.
pub fn chars_eq_str(a: &[char], lit: &str) -> (r: bool)
    ensures
        r == (a@ == lit@),
{
    let b = chars_of(lit);
    chars_eq(a, b.as_slice())
}

/// White space as Unicode defines it (the `White_Space` property).
pub open spec fn is_whitespace(c: char) -> bool {
    let u = c as u32;
    ||| 0x09 <= u <= 0x0D
    ||| u == 0x20
    ||| u == 0x85
    ||| u == 0xA0
    ||| u == 0x1680
    ||| 0x2000 <= u <= 0x200A
    ||| u == 0x2028
    ||| u == 0x2029
    ||| u == 0x202F
    ||| u == 0x205F
    ||| u == 0x3000
}

/// Tests a character for Unicode white space.
pub fn char_is_whitespace(c: char) -> (r: bool)
    ensures
        r == is_whitespace(c),
{
    let u = c as u32;
    (0x09 <= u && u <= 0x0D) || u == 0x20 || u == 0x85 || u == 0xA0 || u == 0x1680 || (0x2000 <= u
        && u <= 0x200A) || u == 0x2028 || u == 0x2029 || u == 0x202F || u == 0x205F || u == 0x3000
}

/// White space within ASCII: space, tab, line feed, form feed and carriage
/// return.
pub open spec fn is_ascii_whitespace(c: char) -> bool {
    c == ' ' || c == '\t' || c == '\n' || c == '\x0C' || c == '\r'
}

/// Tests a character for ASCII white space.
pub fn char_is_ascii_whitespace(c: char) -> (r: bool)
    ensures
        r == is_ascii_whitespace(c),
{
    c == ' ' || c == '\t' || c == '\n' || c == '\x0C' || c == '\r'
}

/// An ASCII decimal digit.
pub open spec fn is_digit(c: char) -> bool {
    '0' <= c <= '9'
}

/// The value of an ASCII decimal digit.
pub open spec fn digit_value(c: char) -> int {
    c as u32 - '0' as u32
}

/// Tests a character for an ASCII decimal digit.
pub fn char_is_digit(c: char) -> (r: bool)
    ensures
        r == is_digit(c),
{
    '0' <= c && c <= '9'
}

/// The value of an ASCII decimal digit.
pub fn char_digit_value(c: char) -> (r: u8)
    requires
        is_digit(c),
    ensures
        r == digit_value(c),
        r <= 9,
{
    (c as u32 - '0' as u32) as u8
}

/// The position of the first `c` in `s`, or the length of `s` if there is
/// none.
pub open spec fn first_index_of(s: Seq<char>, c: char) -> int
    decreases s.len(),
{
    if s.len() == 0 {
        0
    } else if s[0] == c {
        0
    } else {
        1 + first_index_of(s.drop_first(), c)
    }
}

/// `first_index_of` is the least position that holds `c`.
pub proof fn lemma_first_index_of(s: Seq<char>, c: char)
    ensures
        0 <= first_index_of(s, c) <= s.len(),
        forall|j: int| 0 <= j < first_index_of(s, c) ==> s[j] != c,
        first_index_of(s, c) < s.len() ==> s[first_index_of(s, c)] == c,
    decreases s.len(),
{
    if s.len() > 0 && s[0] != c {
        let t = s.drop_first();
        lemma_first_index_of(t, c);
        assert forall|j: int| 0 <= j < first_index_of(s, c) implies s[j] != c by {
            if j > 0 {
                assert(s[j] == t[j - 1]);
            }
        }
    }
}

/// A position that holds `c`, or the end, with no `c` before it is
/// `first_index_of`.
pub proof fn lemma_first_index_is(s: Seq<char>, c: char, i: int)
    requires
        0 <= i <= s.len(),
        forall|j: int| 0 <= j < i ==> s[j] != c,
        i < s.len() ==> s[i] == c,
    ensures
        first_index_of(s, c) == i,
{
    lemma_first_index_of(s, c);
}

/// The pieces of `s` between occurrences of `sep`. There is always at least
/// one piece; pieces may be empty.
pub open spec fn split_spec(s: Seq<char>, sep: char) -> Seq<Seq<char>>
    decreases s.len(),
{
    let i = first_index_of(s, sep);
    if 0 <= i < s.len() {
        seq![s.take(i)] + split_spec(s.skip(i + 1), sep)
    } else {
        seq![s]
    }
}

/// The position of the first `c` at or after `from`, or the length of `cs`.
pub fn find_char(cs: &[char], from: usize, c: char) -> (i: usize)
    requires
        from <= cs.len(),
    ensures
        from <= i <= cs.len(),
        i == from + first_index_of(cs@.skip(from as int), c),
        forall|j: int| from <= j < i ==> cs@[j] != c,
        i < cs.len() ==> cs@[i as int] == c,
{
    let mut i = from;
    while i < cs.len() && cs[i] != c
        invariant
            from <= i <= cs.len(),
            forall|j: int| from <= j < i ==> cs@[j] != c,
        decreases cs.len() - i,
    {
        i += 1;
    }
    proof {
        lemma_first_index_is(cs@.skip(from as int), c, i - from);
    }
    i
}

/// Whether `c` occurs in `cs`.
pub fn contains_char(cs: &[char], c: char) -> (r: bool)
    ensures
        r == cs@.contains(c),
{
    let i = find_char(cs, 0, c);
    assert(cs@.skip(0) == cs@);
    i < cs.len()
}

/// The views of a vector of character vectors.
pub open spec fn views(v: Seq<Vec<char>>) -> Seq<Seq<char>> {
    v.map_values(|p: Vec<char>| p@)
}

/// Splits `cs` at every `sep`, as `str::split` does for a character.
pub fn split_on(cs: &[char], sep: char) -> (pieces: Vec<Vec<char>>)
    ensures
        views(pieces@) == split_spec(cs@, sep),
        pieces.len() >= 1,
{
    let mut pieces: Vec<Vec<char>> = Vec::new();
    let mut start: usize = 0;
    assert(cs@.skip(0) == cs@);
    assert(views(pieces@) + split_spec(cs@, sep) == split_spec(cs@, sep));
    loop
        invariant_except_break
            start <= cs.len(),
            split_spec(cs@, sep) == views(pieces@) + split_spec(cs@.skip(start as int), sep),
        ensures
            views(pieces@) == split_spec(cs@, sep),
            pieces.len() >= 1,
        decreases cs.len() - start,
    {
        let i = find_char(cs, start, sep);
        let piece = copy_range(cs, start, i);
        let ghost before = views(pieces@);
        let ghost rest = cs@.skip(start as int);
        pieces.push(piece);
        assert(views(pieces@) == before.push(piece@));
        assert(rest.take(i - start) == cs@.subrange(start as int, i as int));
        if i >= cs.len() {
            assert(split_spec(rest, sep) == seq![rest]);
            assert(rest.take(i - start) == rest);
            break ;
        }
        assert(rest.skip(i - start + 1) == cs@.skip(i + 1));
        assert(split_spec(rest, sep) == seq![rest.take(i - start)] + split_spec(
            cs@.skip(i + 1),
            sep,
        ));
        start = i + 1;
    }
    pieces
}

/// A line without the carriage return that may end it.
pub open spec fn strip_cr(line: Seq<char>) -> Seq<char> {
    if line.len() > 0 && line.last() == '\r' {
        line.drop_last()
    } else {
        line
    }
}

/// The lines of a text, as `str::lines` yields them: a line ends at a line
/// feed, a carriage return just before that line feed is dropped with it, and
/// a text that ends in a line feed has no empty last line.
pub open spec fn lines_spec(s: Seq<char>) -> Seq<Seq<char>>
    decreases s.len(),
{
    let i = first_index_of(s, '\n');
    if s.len() == 0 {
        seq![]
    } else if 0 <= i < s.len() {
        seq![strip_cr(s.take(i))] + lines_spec(s.skip(i + 1))
    } else {
        seq![s]
    }
}

/// Splits a text into its lines.
pub fn lines_of(cs: &[char]) -> (lines: Vec<Vec<char>>)
    ensures
        views(lines@) == lines_spec(cs@),
{
    let mut lines: Vec<Vec<char>> = Vec::new();
    let mut start: usize = 0;
    assert(cs@.skip(0) == cs@);
    assert(views(lines@) + lines_spec(cs@) == lines_spec(cs@));
    while start < cs.len()
        invariant
            start <= cs.len(),
            lines_spec(cs@) == views(lines@) + lines_spec(cs@.skip(start as int)),
        decreases cs.len() - start,
    {
        let i = find_char(cs, start, '\n');
        let ghost before = views(lines@);
        let ghost rest = cs@.skip(start as int);
        assert(rest.take(i - start) == cs@.subrange(start as int, i as int));
        if i >= cs.len() {
            let line = copy_range(cs, start, i);
            lines.push(line);
            assert(views(lines@) == before.push(line@));
            assert(rest.take(i - start) == rest);
            assert(lines_spec(rest) == seq![rest]);
            assert(lines_spec(cs@.skip(cs.len() as int)) == Seq::<Seq<char>>::empty());
            start = cs.len();
        } else {
            let end = if i > start && cs[i - 1] == '\r' {
                i - 1
            } else {
                i
            };
            let line = copy_range(cs, start, end);
            lines.push(line);
            assert(views(lines@) == before.push(line@));
            assert(line@ == strip_cr(rest.take(i - start))) by {
                let full = rest.take(i - start);
                if i > start {
                    assert(full.last() == cs@[i - 1]);
                    assert(full.drop_last() == cs@.subrange(start as int, i - 1));
                }
            }
            assert(rest.skip(i - start + 1) == cs@.skip(i + 1));
            assert(lines_spec(rest) == seq![strip_cr(rest.take(i - start))] + lines_spec(
                cs@.skip(i + 1),
            ));
            start = i + 1;
        }
    }
    assert(lines_spec(cs@.skip(cs.len() as int)) == Seq::<Seq<char>>::empty());
    lines
}

/// A class of characters to trim or to split at.
#[derive(Clone, Copy, Debug, PartialEq, Eq, Structural)]
pub enum CharClass {
    /// Unicode white space.
    Whitespace,
    /// ASCII white space.
    AsciiWhitespace,
    /// ASCII decimal digits.
    Digit,
    /// One given character.
    Only(char),
}

impl CharClass {
    /// Whether `c` belongs to the class.
    pub open spec fn has(self, c: char) -> bool {
        match self {
            CharClass::Whitespace => is_whitespace(c),
            CharClass::AsciiWhitespace => is_ascii_whitespace(c),
            CharClass::Digit => is_digit(c),
            CharClass::Only(x) => c == x,
        }
    }

    /// Tests a character for membership.
    pub fn contains(&self, c: char) -> (r: bool)
        ensures
            r == self.has(c),
    {
        match self {
            CharClass::Whitespace => char_is_whitespace(c),
            CharClass::AsciiWhitespace => char_is_ascii_whitespace(c),
            CharClass::Digit => char_is_digit(c),
            CharClass::Only(x) => c == *x,
        }
    }
}

/// The number of leading characters of `s` that belong to `class`.
pub open spec fn leading_run(s: Seq<char>, class: CharClass) -> int
    decreases s.len(),
{
    if s.len() > 0 && class.has(s[0]) {
        1 + leading_run(s.drop_first(), class)
    } else {
        0
    }
}

/// The number of leading characters of `s` that do not belong to `class`.
pub open spec fn leading_gap(s: Seq<char>, class: CharClass) -> int
    decreases s.len(),
{
    if s.len() > 0 && !class.has(s[0]) {
        1 + leading_gap(s.drop_first(), class)
    } else {
        0
    }
}

/// The number of trailing characters of `s` that belong to `class`.
pub open spec fn trailing_run(s: Seq<char>, class: CharClass) -> int
    decreases s.len(),
{
    if s.len() > 0 && class.has(s.last()) {
        1 + trailing_run(s.drop_last(), class)
    } else {
        0
    }
}

/// `leading_run` is the position of the first character outside the class.
pub proof fn lemma_leading_run(s: Seq<char>, class: CharClass)
    ensures
        0 <= leading_run(s, class) <= s.len(),
        forall|j: int| 0 <= j < leading_run(s, class) ==> class.has(s[j]),
        leading_run(s, class) < s.len() ==> !class.has(s[leading_run(s, class)]),
    decreases s.len(),
{
    if s.len() > 0 && class.has(s[0]) {
        let t = s.drop_first();
        lemma_leading_run(t, class);
        assert forall|j: int| 0 <= j < leading_run(s, class) implies class.has(s[j]) by {
            if j > 0 {
                assert(s[j] == t[j - 1]);
            }
        }
    }
}

/// A position outside the class, or the end, with only characters of the
/// class before it is `leading_run`.
pub proof fn lemma_leading_run_is(s: Seq<char>, class: CharClass, n: int)
    requires
        0 <= n <= s.len(),
        forall|j: int| 0 <= j < n ==> class.has(s[j]),
        n < s.len() ==> !class.has(s[n]),
    ensures
        leading_run(s, class) == n,
{
    lemma_leading_run(s, class);
}

/// `leading_gap` is the position of the first character of the class.
pub proof fn lemma_leading_gap(s: Seq<char>, class: CharClass)
    ensures
        0 <= leading_gap(s, class) <= s.len(),
        forall|j: int| 0 <= j < leading_gap(s, class) ==> !class.has(s[j]),
        leading_gap(s, class) < s.len() ==> class.has(s[leading_gap(s, class)]),
    decreases s.len(),
{
    if s.len() > 0 && !class.has(s[0]) {
        let t = s.drop_first();
        lemma_leading_gap(t, class);
        assert forall|j: int| 0 <= j < leading_gap(s, class) implies !class.has(s[j]) by {
            if j > 0 {
                assert(s[j] == t[j - 1]);
            }
        }
    }
}

/// A position of the class, or the end, with no character of the class
/// before it is `leading_gap`.
pub proof fn lemma_leading_gap_is(s: Seq<char>, class: CharClass, n: int)
    requires
        0 <= n <= s.len(),
        forall|j: int| 0 <= j < n ==> !class.has(s[j]),
        n < s.len() ==> class.has(s[n]),
    ensures
        leading_gap(s, class) == n,
{
    lemma_leading_gap(s, class);
}

/// `trailing_run` counts the characters after the last one outside the
/// class.
pub proof fn lemma_trailing_run(s: Seq<char>, class: CharClass)
    ensures
        0 <= trailing_run(s, class) <= s.len(),
        forall|j: int| s.len() - trailing_run(s, class) <= j < s.len() ==> class.has(s[j]),
        trailing_run(s, class) < s.len() ==> !class.has(s[s.len() - trailing_run(s, class) - 1]),
    decreases s.len(),
{
    if s.len() > 0 && class.has(s.last()) {
        let t = s.drop_last();
        lemma_trailing_run(t, class);
        assert forall|j: int| s.len() - trailing_run(s, class) <= j < s.len() implies class.has(
            s[j],
        ) by {
            if j < s.len() - 1 {
                assert(s[j] == t[j]);
            }
        }
    }
}

/// A stretch of characters of the class at the end, with a character outside
/// the class or nothing before it, is `trailing_run` long.
pub proof fn lemma_trailing_run_is(s: Seq<char>, class: CharClass, n: int)
    requires
        0 <= n <= s.len(),
        forall|j: int| s.len() - n <= j < s.len() ==> class.has(s[j]),
        n < s.len() ==> !class.has(s[s.len() - n - 1]),
    ensures
        trailing_run(s, class) == n,
{
    lemma_trailing_run(s, class);
}

/// `s` without its leading characters of `class`.
pub open spec fn trim_start_spec(s: Seq<char>, class: CharClass) -> Seq<char> {
    s.skip(leading_run(s, class))
}

/// `s` without its trailing characters of `class`.
pub open spec fn trim_end_spec(s: Seq<char>, class: CharClass) -> Seq<char> {
    s.take(s.len() - trailing_run(s, class))
}

/// `s` without its leading and trailing characters of `class`.
pub open spec fn trim_spec(s: Seq<char>, class: CharClass) -> Seq<char> {
    trim_end_spec(trim_start_spec(s, class), class)
}

/// The first position at or after `from` whose character is outside `class`.
pub fn skip_class(cs: &[char], from: usize, class: CharClass) -> (i: usize)
    requires
        from <= cs.len(),
    ensures
        from <= i <= cs.len(),
        i == from + leading_run(cs@.skip(from as int), class),
        forall|j: int| from <= j < i ==> class.has(cs@[j]),
        i < cs.len() ==> !class.has(cs@[i as int]),
{
    let mut i = from;
    while i < cs.len() && class.contains(cs[i])
        invariant
            from <= i <= cs.len(),
            forall|j: int| from <= j < i ==> class.has(cs@[j]),
        decreases cs.len() - i,
    {
        i += 1;
    }
    proof {
        lemma_leading_run_is(cs@.skip(from as int), class, i - from);
    }
    i
}

/// The first position at or after `from` whose character is in `class`.
pub fn find_class(cs: &[char], from: usize, class: CharClass) -> (i: usize)
    requires
        from <= cs.len(),
    ensures
        from <= i <= cs.len(),
        i == from + leading_gap(cs@.skip(from as int), class),
        forall|j: int| from <= j < i ==> !class.has(cs@[j]),
        i < cs.len() ==> class.has(cs@[i as int]),
{
    let mut i = from;
    while i < cs.len() && !class.contains(cs[i])
        invariant
            from <= i <= cs.len(),
            forall|j: int| from <= j < i ==> !class.has(cs@[j]),
        decreases cs.len() - i,
    {
        i += 1;
    }
    proof {
        lemma_leading_gap_is(cs@.skip(from as int), class, i - from);
    }
    i
}

/// Removes leading characters of `class`.
pub fn trim_start(cs: &[char], class: CharClass) -> (v: Vec<char>)
    ensures
        v@ == trim_start_spec(cs@, class),
{
    let i = skip_class(cs, 0, class);
    assert(cs@.skip(0) == cs@);
    let v = copy_range(cs, i, cs.len());
    assert(cs@.subrange(i as int, cs.len() as int) == cs@.skip(i as int));
    v
}

/// Removes leading and trailing characters of `class`.
pub fn trim(cs: &[char], class: CharClass) -> (v: Vec<char>)
    ensures
        v@ == trim_spec(cs@, class),
{
    let from = skip_class(cs, 0, class);
    assert(cs@.skip(0) == cs@);
    let mut to = cs.len();
    while to > from && class.contains(cs[to - 1])
        invariant
            from <= to <= cs.len(),
            forall|j: int| to <= j < cs.len() ==> class.has(cs@[j]),
        decreases to,
    {
        to -= 1;
    }
    proof {
        let t = cs@.skip(from as int);
        assert(t == trim_start_spec(cs@, class));
        assert forall|j: int| t.len() - (cs.len() - to) <= j < t.len() implies class.has(t[j]) by {
            assert(t[j] == cs@[j + from]);
        }
        if cs.len() - to < t.len() {
            assert(t[t.len() - (cs.len() - to) - 1] == cs@[to - 1]);
        }
        lemma_trailing_run_is(t, class, cs.len() - to);
        assert(t.take(t.len() - (cs.len() - to)) == cs@.subrange(from as int, to as int));
    }
    copy_range(cs, from, to)
}

/// Whether `needle` occurs in `hay` at position `i`.
pub open spec fn occurs_at(hay: Seq<char>, needle: Seq<char>, i: int) -> bool {
    0 <= i && i + needle.len() <= hay.len() && hay.subrange(i, i + needle.len()) == needle
}

/// Whether `needle` occurs somewhere in `hay`.
pub open spec fn contains_seq(hay: Seq<char>, needle: Seq<char>) -> bool {
    exists|i: int| occurs_at(hay, needle, i)
}

/// Whether `needle` occurs in `hay` at position `i`.
pub fn matches_at(hay: &[char], needle: &[char], i: usize) -> (r: bool)
    ensures
        r == occurs_at(hay@, needle@, i as int),
{
    if needle.len() > hay.len() || i > hay.len() - needle.len() {
        return false;
    }
    let mut k: usize = 0;
    while k < needle.len()
        invariant
            k <= needle.len(),
            i + needle.len() <= hay.len(),
            forall|j: int| 0 <= j < k ==> hay@[i + j] == needle@[j],
        decreases needle.len() - k,
    {
        if hay[i + k] != needle[k] {
            assert(hay@.subrange(i as int, i + needle.len())[k as int] != needle@[k as int]);
            return false;
        }
        k += 1;
    }
    assert(hay@.subrange(i as int, i + needle.len()) =~= needle@);
    true
}

/// The first position at or after `from` where `needle` occurs in `hay`.
pub fn find_seq(hay: &[char], needle: &[char], from: usize) -> (r: Option<usize>)
    ensures
        match r {
            Some(i) => from <= i && occurs_at(hay@, needle@, i as int) && forall|j: int|
                from <= j < i ==> !occurs_at(hay@, needle@, j),
            None => forall|j: int| from <= j ==> !occurs_at(hay@, needle@, j),
        },
{
    if needle.len() > hay.len() {
        return None;
    }
    let last = hay.len() - needle.len();
    if from > last {
        return None;
    }
    let mut i = from;
    loop
        invariant
            from <= i <= last,
            last == hay.len() - needle.len(),
            forall|j: int| from <= j < i ==> !occurs_at(hay@, needle@, j),
        decreases last - i,
    {
        if matches_at(hay, needle, i) {
            return Some(i);
        }
        if i == last {
            return None;
        }
        i += 1;
    }
}

/// Whether `needle` occurs somewhere in `hay`.
pub fn contains_chars(hay: &[char], needle: &[char]) -> (r: bool)
    ensures
        r == contains_seq(hay@, needle@),
{
    find_seq(hay, needle, 0).is_some()
}

/// The character that writes a digit.
pub open spec fn digit_char(d: int) -> char {
    if d == 0 {
        '0'
    } else if d == 1 {
        '1'
    } else if d == 2 {
        '2'
    } else if d == 3 {
        '3'
    } else if d == 4 {
        '4'
    } else if d == 5 {
        '5'
    } else if d == 6 {
        '6'
    } else if d == 7 {
        '7'
    } else if d == 8 {
        '8'
    } else {
        '9'
    }
}

/// The digits that write a natural number in base ten, without leading
/// zeros; zero is written `0`.
pub open spec fn digits_of(n: nat) -> Seq<char>
    decreases n,
{
    if n < 10 {
        seq![digit_char(n as int)]
    } else {
        digits_of(n / 10).push(digit_char((n % 10) as int))
    }
}

/// The character that writes a digit.
pub fn digit_to_char(d: u8) -> (c: char)
    requires
        d <= 9,
    ensures
        c == digit_char(d as int),
        is_digit(c),
        digit_value(c) == d,
{
    match d {
        0 => '0',
        1 => '1',
        2 => '2',
        3 => '3',
        4 => '4',
        5 => '5',
        6 => '6',
        7 => '7',
        8 => '8',
        _ => '9',
    }
}

/// Writes a number in base ten.
pub fn write_number(n: u64) -> (v: Vec<char>)
    ensures
        v@ == digits_of(n as nat),
    decreases n,
{
    if n < 10 {
        let mut v: Vec<char> = Vec::new();
        v.push(digit_to_char(n as u8));
        v
    } else {
        let mut v = write_number(n / 10);
        v.push(digit_to_char((n % 10) as u8));
        v
    }
}

} // verus!
