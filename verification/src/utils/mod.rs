//! Helpers for paths, menus and patterns.

use vstd::prelude::*;
use vstd::string::*;
use crate::text::{
    chars_of, char_is_whitespace, find_class, is_whitespace, leading_gap, lines_of, lines_spec,
    split_on, split_spec, string_of, trim, trim_spec, views, CharClass,
};
use crate::utils::pattern_replacement::append_chars;

pub mod pattern_replacement;

verus! {

/// Reads `std::path::MAIN_SEPARATOR`, the character that separates the
/// components of a path on the machine at hand: a slash or a backslash.
#[verifier::external_body]
pub(crate) fn main_separator() -> (c: char)
    ensures
        c == '/' || c == '\\',
{
    std::path::MAIN_SEPARATOR
}

/// `p`, with `sep` added at its end unless it ends with `sep`.
pub open spec fn with_trailing(p: Seq<char>, sep: char) -> Seq<char> {
    if p.len() > 0 && p.last() == sep {
        p
    } else {
        p.push(sep)
    }
}

/// `p` with `sep` at its end, added unless `p` ends with it.
pub fn with_trailing_sep(p: &str, sep: char) -> (s: String)
    ensures
        s@ == with_trailing(p@, sep),
{
    let mut cs = chars_of(p);
    if cs.len() == 0 || cs[cs.len() - 1] != sep {
        cs.push(sep);
    }
    string_of(cs.as_slice())
}

/// The path `p` with the path separator of the machine at its end, added if
/// `p` does not end with it. The result is never `None`.
pub fn ensure_trailing_path_sep(p: &str) -> (r: Option<String>)
    ensures
        r matches Some(s) && (s@ == with_trailing(p@, '/') || s@ == with_trailing(p@, '\\')),
{
    Some(with_trailing_sep(p, main_separator()))
}

/// Calls `std::path::Path::is_absolute`: whether a path stands for the same
/// place whatever the current directory is. What counts as absolute depends
/// on the machine.
#[verifier::external_body]
pub(crate) fn path_is_absolute(p: &str) -> (r: bool) {
    std::path::Path::new(p).is_absolute()
}

/// Calls `std::path::Path::parent`: the path without its last component, or
/// `None` for a path that has none above it.
#[verifier::external_body]
pub(crate) fn path_parent(p: &str) -> (r: Option<String>) {
    std::path::Path::new(p).parent().map(|d| d.to_string_lossy().into_owned())
}

/// Calls `std::path::Path::join`: the path that `p` stands for when read
/// from the directory `dir`.
#[verifier::external_body]
pub(crate) fn path_join(dir: &str, p: &str) -> (r: String) {
    std::path::Path::new(dir).join(p).to_string_lossy().into_owned()
}

/// What is known of a path that a configuration file names.
#[derive(Clone, Debug, PartialEq, Eq)]
pub enum ConfigPathKind {
    /// The path is absolute.
    Absolute,
    /// The path is not absolute, and this is what it stands for when read
    /// from the directory of the configuration file.
    FromConfigDir(String),
    /// The path is not absolute, and the configuration file has no directory
    /// above it.
    NoConfigDir,
}

/// The place that a configuration file means by the path `p`: `p` itself if
/// it is absolute, and else `p` read from the directory of the file; `None`
/// where the file has no directory.
pub fn resolve_config_path(p: String, kind: ConfigPathKind) -> (r: Option<String>)
    ensures
        r == match kind {
            ConfigPathKind::Absolute => Some(p),
            ConfigPathKind::FromConfigDir(joined) => Some(joined),
            ConfigPathKind::NoConfigDir => None,
        },
{
    match kind {
        ConfigPathKind::Absolute => Some(p),
        ConfigPathKind::FromConfigDir(joined) => Some(joined),
        ConfigPathKind::NoConfigDir => None,
    }
}

/// If `p` is an absolute path, `p` is returned as it is. Else it is taken to
/// be meant from the directory of `config_file`; the result is `None` where
/// `config_file` has no directory above it.
pub fn path_relative_to_config(config_file: &str, p: String) -> (r: Option<String>) {
    let kind = if path_is_absolute(p.as_str()) {
        ConfigPathKind::Absolute
    } else {
        match path_parent(config_file) {
            Some(dir) => ConfigPathKind::FromConfigDir(path_join(dir.as_str(), p.as_str())),
            None => ConfigPathKind::NoConfigDir,
        }
    };
    resolve_config_path(p, kind)
}

/// One entry of a menu file.
#[derive(Clone, Debug, PartialEq, Eq)]
pub struct MenuEntry {
    /// The number under which the entry is chosen, from 1.
    pub index: usize,
    /// The value of the entry: the first word of its line.
    pub value: String,
    /// What the entry is: the rest of its line, if there is any.
    pub description: Option<String>,
}

/// A `MenuEntry` with its texts as sequences of characters.
pub struct MenuEntryView {
    pub index: int,
    pub value: Seq<char>,
    pub description: Option<Seq<char>>,
}

impl View for MenuEntry {
    type V = MenuEntryView;

    open spec fn view(&self) -> MenuEntryView {
        MenuEntryView {
            index: self.index as int,
            value: self.value@,
            description: match self.description {
                Some(d) => Some(d@),
                None => None,
            },
        }
    }
}

/// The views of a sequence of menu entries.
pub open spec fn menu_views(entries: Seq<MenuEntry>) -> Seq<MenuEntryView> {
    entries.map_values(|e: MenuEntry| e@)
}

/// The value of a menu line: everything before its first white space.
pub open spec fn menu_value(line: Seq<char>) -> Seq<char> {
    line.take(leading_gap(line, CharClass::Whitespace))
}

/// The description of a menu line: what follows its first white space,
/// trimmed, if the line has any white space.
pub open spec fn menu_description(line: Seq<char>) -> Option<Seq<char>> {
    let gap = leading_gap(line, CharClass::Whitespace);
    if 0 <= gap < line.len() {
        Some(trim_spec(line.skip(gap + 1), CharClass::Whitespace))
    } else {
        None
    }
}

/// The entries that a sequence of menu lines holds. A line that is empty or
/// starts with white space holds none; the others are numbered from 1.
pub open spec fn menu_of(lines: Seq<Seq<char>>) -> Seq<MenuEntryView>
    decreases lines.len(),
{
    if lines.len() == 0 {
        Seq::empty()
    } else {
        let before = menu_of(lines.drop_last());
        let line = lines.last();
        if menu_value(line).len() == 0 {
            before
        } else {
            before.push(
                MenuEntryView {
                    index: before.len() as int + 1,
                    value: menu_value(line),
                    description: menu_description(line),
                },
            )
        }
    }
}

/// The lines of a menu file after its first line, which is a heading.
pub open spec fn menu_lines(contents: Seq<char>) -> Seq<Seq<char>> {
    let lines = lines_spec(contents);
    if lines.len() == 0 {
        lines
    } else {
        lines.skip(1)
    }
}

/// Reads the entries of a menu file from its contents. The first line is a
/// heading and holds no entry.
pub fn parse_menu(contents: &str) -> (entries: Vec<MenuEntry>)
    ensures
        menu_views(entries@) == menu_of(menu_lines(contents@)),
{
    let cs = chars_of(contents);
    let lines = lines_of(cs.as_slice());
    let mut entries: Vec<MenuEntry> = Vec::new();
    if lines.len() == 0 {
        assert(menu_views(entries@) =~= menu_of(menu_lines(contents@)));
        return entries;
    }
    let ghost rest = menu_lines(contents@);
    assert(rest == views(lines@).skip(1));
    let mut i: usize = 1;
    assert(rest.take(0) == Seq::<Seq<char>>::empty());
    assert(menu_views(entries@) =~= menu_of(rest.take(0)));
    while i < lines.len()
        invariant
            1 <= i <= lines.len(),
            rest == views(lines@).skip(1),
            entries.len() < i,
            menu_views(entries@) == menu_of(rest.take(i - 1)),
        decreases lines.len() - i,
    {
        let line = lines[i].as_slice();
        assert(rest.take(i as int).drop_last() == rest.take(i - 1));
        assert(rest.take(i as int).last() == line@);
        let gap = find_class(line, 0, CharClass::Whitespace);
        assert(line@.skip(0) == line@);
        if gap > 0 {
            let value = string_of(&line[0..gap]);
            let description = if gap < line.len() {
                let tail = trim(&line[gap + 1..line.len()], CharClass::Whitespace);
                assert(line@.subrange(gap + 1, line.len() as int) == line@.skip(gap + 1));
                Some(string_of(tail.as_slice()))
            } else {
                None
            };
            let ghost before = menu_views(entries@);
            let entry = MenuEntry { index: entries.len() + 1, value, description };
            entries.push(entry);
            assert(menu_views(entries@) =~= before.push(entry@));
        }
        i += 1;
    }
    assert(rest.take(lines.len() - 1) == rest);
    entries
}

/// The smallest and the largest number of a menu, neither beyond 1 on its
/// side: an empty menu has both at 1.
pub fn menu_index_bounds(entries: &[MenuEntry]) -> (r: (usize, usize))
    ensures
        r.0 <= 1 <= r.1,
        forall|i: int| 0 <= i < entries.len() ==> r.0 <= (#[trigger] entries@[i]).index <= r.1,
        r.0 == 1 || exists|i: int| 0 <= i < entries.len() && entries@[i].index == r.0,
        r.1 == 1 || exists|i: int| 0 <= i < entries.len() && entries@[i].index == r.1,
{
    let mut min_index: usize = 1;
    let mut max_index: usize = 1;
    let mut k: usize = 0;
    while k < entries.len()
        invariant
            k <= entries.len(),
            min_index <= 1 <= max_index,
            forall|i: int| 0 <= i < k ==> min_index <= (#[trigger] entries@[i]).index <= max_index,
            min_index == 1 || exists|i: int| 0 <= i < k && entries@[i].index == min_index,
            max_index == 1 || exists|i: int| 0 <= i < k && entries@[i].index == max_index,
        decreases entries.len() - k,
    {
        let index = entries[k].index;
        if index < min_index {
            min_index = index;
        }
        if index > max_index {
            max_index = index;
        }
        k += 1;
    }
    (min_index, max_index)
}

/// The number of bytes that a character takes in UTF-8.
pub open spec fn utf8_width(c: char) -> int {
    let u = c as u32;
    if u < 0x80 {
        1
    } else if u < 0x800 {
        2
    } else if u < 0x10000 {
        3
    } else {
        4
    }
}

/// The number of bytes that the first `k` characters of `s` take in UTF-8.
pub open spec fn byte_offset(s: Seq<char>, k: int) -> int
    decreases k,
{
    if k <= 0 {
        0
    } else {
        byte_offset(s, k - 1) + utf8_width(s[k - 1])
    }
}

/// A word starts at position `i` of `s`: a character that is not white space
/// and follows white space or stands first.
pub open spec fn is_word_start(s: Seq<char>, i: int) -> bool {
    0 <= i < s.len() && !is_whitespace(s[i]) && (i == 0 || is_whitespace(s[i - 1]))
}

/// The number of words that start before position `k` of `s`.
pub open spec fn words_before(s: Seq<char>, k: int) -> int
    decreases k,
{
    if k <= 0 {
        0
    } else {
        words_before(s, k - 1) + if is_word_start(s, k - 1) {
            1int
        } else {
            0int
        }
    }
}

/// A byte offset, held at the largest `usize` where it would be beyond.
pub open spec fn clipped(offset: int) -> usize {
    if offset > usize::MAX {
        usize::MAX
    } else {
        offset as usize
    }
}

/// Word number `n` of `s` starts at position `i`, words being numbered from
/// 0.
pub open spec fn is_nth_word_start(s: Seq<char>, n: int, i: int) -> bool {
    is_word_start(s, i) && words_before(s, i) == n
}

/// The byte offset at which word number `n` of `s` starts, if `s` has such a
/// word.
pub open spec fn nth_word_offset(s: Seq<char>, n: int) -> Option<usize> {
    if exists|i: int| is_nth_word_start(s, n, i) {
        Some(clipped(byte_offset(s, choose|i: int| is_nth_word_start(s, n, i))))
    } else {
        None
    }
}

/// The number of words that start before a position does not go down as the
/// position goes up.
pub proof fn lemma_words_before_monotone(s: Seq<char>, a: int, b: int)
    requires
        a <= b,
    ensures
        words_before(s, a) <= words_before(s, b),
        a <= 0 ==> words_before(s, a) == 0,
    decreases b - a,
{
    if a < b {
        lemma_words_before_monotone(s, a, b - 1);
    }
}

/// A word of a given number starts at one position only.
pub proof fn lemma_nth_word_start_unique(s: Seq<char>, n: int, i: int, j: int)
    requires
        is_nth_word_start(s, n, i),
        is_nth_word_start(s, n, j),
    ensures
        i == j,
{
    if i < j {
        lemma_words_before_monotone(s, i + 1, j);
    } else if j < i {
        lemma_words_before_monotone(s, j + 1, i);
    }
}

/// The byte offset at which word number `n` of `s` starts, words being
/// numbered from 0 and separated by white space, or `None` if `s` has no
/// such word.
pub fn find_nth_word_index(s: &str, n: usize) -> (r: Option<usize>)
    ensures
        r == nth_word_offset(s@, n as int),
        match r {
            Some(offset) => exists|i: int|
                is_word_start(s@, i) && words_before(s@, i) == n && offset == clipped(
                    byte_offset(s@, i),
                ),
            None => words_before(s@, s@.len() as int) <= n,
        },
{
    let cs = chars_of(s);
    let mut words: usize = 0;
    let mut offset: usize = 0;
    let mut last_char_was_space = true;
    let mut i: usize = 0;
    while i < cs.len()
        invariant
            i <= cs.len(),
            cs@ == s@,
            words == words_before(s@, i as int),
            words <= n,
            words <= i,
            offset == clipped(byte_offset(s@, i as int)),
            byte_offset(s@, i as int) >= 0,
            last_char_was_space == (i == 0 || is_whitespace(s@[i - 1])),
        decreases cs.len() - i,
    {
        let c = cs[i];
        let space = char_is_whitespace(c);
        if !space && last_char_was_space {
            assert(is_word_start(s@, i as int));
            if words == n {
                proof {
                    assert(is_nth_word_start(s@, n as int, i as int));
                    lemma_nth_word_start_unique(
                        s@,
                        n as int,
                        i as int,
                        choose|k: int| is_nth_word_start(s@, n as int, k),
                    );
                }
                return Some(offset);
            }
            words += 1;
        }
        last_char_was_space = space;
        let u = c as u32;
        let width: usize = if u < 0x80 {
            1
        } else if u < 0x800 {
            2
        } else if u < 0x10000 {
            3
        } else {
            4
        };
        offset = if offset > usize::MAX - width {
            usize::MAX
        } else {
            offset + width
        };
        i += 1;
    }
    proof {
        assert forall|k: int| !is_nth_word_start(s@, n as int, k) by {
            if is_word_start(s@, k) {
                lemma_words_before_monotone(s@, k + 1, s@.len() as int);
            }
        }
    }
    None
}

/// Whether every character of `s` is white space; so is the empty text.
pub open spec fn is_blank(s: Seq<char>) -> bool {
    forall|i: int| 0 <= i < s.len() ==> is_whitespace(#[trigger] s[i])
}

/// `n` spaces.
pub open spec fn spaces(n: int) -> Seq<char> {
    Seq::new(
        if n > 0 {
            n as nat
        } else {
            0
        },
        |i: int| ' ',
    )
}

/// How many spaces bring a value of `value_bytes` bytes to one column short
/// of the column at which descriptions start.
pub open spec fn padding(description_start: Option<usize>, value_bytes: usize) -> int {
    match description_start {
        Some(start) => if value_bytes < start - 1 {
            start - 1 - value_bytes
        } else {
            0
        },
        None => 0,
    }
}

/// The line of a new menu entry: the value, alone or followed by spaces up to
/// the column at which descriptions start, at least one, and the
/// description.
pub open spec fn new_menu_line(
    value: Seq<char>,
    description: Option<Seq<char>>,
    description_start: Option<usize>,
    value_bytes: usize,
) -> Seq<char> {
    match description {
        None => value,
        Some(d) => value + spaces(padding(description_start, value_bytes)) + seq![' '] + d,
    }
}

/// The lines of a menu file after an entry was added: the lines it had,
/// without the last one if that is blank, and the line of the new entry.
pub open spec fn menu_with_entry(contents: Seq<char>, line: Seq<char>) -> Seq<Seq<char>> {
    let lines = split_spec(contents, '\n');
    if is_blank(lines.last()) {
        lines.drop_last().push(line)
    } else {
        lines.push(line)
    }
}

/// Adds an entry to a menu file, given by its contents, and returns the
/// lines of the new file. The description is set at the column where the
/// second word of the heading starts, if the heading has one.
pub fn add_menu_entry(current_contents: &str, value: &str, description: Option<&str>) -> (lines:
    Vec<String>)
    ensures
        lines@.map_values(|l: String| l@) == menu_with_entry(
            current_contents@,
            new_menu_line(
                value@,
                match description {
                    Some(d) => Some(d@),
                    None => None,
                },
                nth_word_offset(current_contents@, 1),
                value.len(),
            ),
        ),
{
    let desc_start_index = find_nth_word_index(current_contents, 1);
    let mut new_line = chars_of(value);
    let ghost value_view = new_line@;
    match description {
        Some(desc) => {
            let pad: usize = match desc_start_index {
                Some(start) => if start >= 1 && value.len() < start - 1 {
                    start - 1 - value.len()
                } else {
                    0
                },
                None => 0,
            };
            let mut k: usize = 0;
            while k < pad
                invariant
                    k <= pad,
                    new_line@ == value_view + spaces(k as int),
                decreases pad - k,
            {
                new_line.push(' ');
                assert(spaces(k + 1) == spaces(k as int).push(' '));
                k += 1;
            }
            new_line.push(' ');
            let d = chars_of(desc);
            let ghost before = new_line@;
            append_chars(&mut new_line, d.as_slice());
            assert(new_line@ == value@ + spaces(pad as int) + seq![' '] + desc@);
        },
        None => {},
    }
    let ghost line = new_line@;
    let cs = chars_of(current_contents);
    let old_lines = split_on(cs.as_slice(), '\n');
    let n = old_lines.len();
    let last = old_lines[n - 1].as_slice();
    let mut blank = true;
    let mut j: usize = 0;
    while j < last.len()
        invariant
            j <= last.len(),
            blank == is_blank(last@.take(j as int)),
        decreases last.len() - j,
    {
        let ghost prev = last@.take(j as int);
        let ghost next = last@.take(j + 1);
        assert(forall|i: int| 0 <= i < j ==> next[i] == prev[i]);
        assert(next[j as int] == last@[j as int]);
        if !char_is_whitespace(last[j]) {
            blank = false;
        }
        j += 1;
    }
    assert(last@.take(last.len() as int) == last@);
    let keep = if blank {
        n - 1
    } else {
        n
    };
    let mut lines: Vec<String> = Vec::new();
    let mut i: usize = 0;
    while i < keep
        invariant
            i <= keep <= n,
            n == old_lines.len(),
            lines.len() == i,
            forall|k: int| 0 <= k < i ==> (#[trigger] lines@[k])@ == old_lines@[k]@,
        decreases keep - i,
    {
        lines.push(string_of(old_lines[i].as_slice()));
        i += 1;
    }
    lines.push(string_of(new_line.as_slice()));
    assert(lines@.map_values(|l: String| l@) =~= menu_with_entry(current_contents@, line)) by {
        let spec_lines = split_spec(current_contents@, '\n');
        assert(spec_lines == views(old_lines@));
        assert(spec_lines.last() == last@);
    }
    lines
}

/// `i` is the first entry of a menu whose value is `value`.
pub open spec fn is_first_with_value(entries: Seq<MenuEntry>, value: Seq<char>, i: int) -> bool {
    &&& 0 <= i < entries.len()
    &&& entries[i].value@ == value
    &&& forall|j: int| 0 <= j < i ==> (#[trigger] entries[j]).value@ != value
}

/// The number of the first entry of a menu whose value is `value`.
pub fn find_menu_index(entries: &[MenuEntry], value: &str) -> (r: Option<usize>)
    ensures
        match r {
            Some(index) => exists|i: int|
                is_first_with_value(entries@, value@, i) && index == entries@[i].index,
            None => forall|j: int| 0 <= j < entries.len() ==> (#[trigger] entries@[j]).value@ != value@,
        },
{
    let wanted = value.to_owned();
    let mut i: usize = 0;
    while i < entries.len()
        invariant
            i <= entries.len(),
            wanted@ == value@,
            forall|j: int| 0 <= j < i ==> (#[trigger] entries@[j]).value@ != value@,
        decreases entries.len() - i,
    {
        if entries[i].value.eq(&wanted) {
            assert(is_first_with_value(entries@, value@, i as int));
            return Some(entries[i].index);
        }
        i += 1;
    }
    None
}

/// The position of the last `c` in `s`, or -1 if there is none.
pub open spec fn last_index_of(s: Seq<char>, c: char) -> int
    decreases s.len(),
{
    if s.len() == 0 {
        -1
    } else if s.last() == c {
        s.len() - 1
    } else {
        last_index_of(s.drop_last(), c)
    }
}

/// The name of a run log without its extension: what stands before the last
/// point, or all of it if it has no point.
pub open spec fn runlog_stem_spec(value: Seq<char>) -> Seq<char> {
    let point = last_index_of(value, '.');
    if point >= 0 {
        value.take(point)
    } else {
        value
    }
}

/// The name of a run log without its extension.
pub fn runlog_stem(value: &str) -> (r: String)
    ensures
        r@ == runlog_stem_spec(value@),
{
    let cs = chars_of(value);
    let mut i = cs.len();
    assert(cs@.take(i as int) == cs@);
    while i > 0
        invariant
            i <= cs.len(),
            cs@ == value@,
            last_index_of(cs@, '.') == last_index_of(cs@.take(i as int), '.'),
        decreases i,
    {
        assert(cs@.take(i as int).drop_last() == cs@.take(i - 1));
        assert(cs@.take(i as int).last() == cs@[i - 1]);
        if cs[i - 1] == '.' {
            assert(last_index_of(cs@, '.') == i - 1);
            assert(cs@.subrange(0, i - 1) == cs@.take(i - 1));
            return string_of(&cs[0..i - 1]);
        }
        i -= 1;
    }
    assert(cs@.take(0).len() == 0);
    string_of(cs.as_slice())
}

/// The site that a run log belongs to: the first two characters of its
/// name, or `None` for a name of fewer than two characters.
pub fn site_id_of_runlog(runlog_name: &str) -> (r: Option<String>)
    ensures
        match r {
            Some(id) => runlog_name@.len() >= 2 && id@ == runlog_name@.take(2),
            None => runlog_name@.len() < 2,
        },
{
    let cs = chars_of(runlog_name);
    if cs.len() < 2 {
        None
    } else {
        Some(string_of(&cs[0..2]))
    }
}

} // verus!
