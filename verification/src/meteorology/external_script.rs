//! Meteorology from an external program: the arguments it is called with,
//! the check of how it ended, and the framing of what it printed into one
//! record per line.

use vstd::prelude::*;
use vstd::string::*;
use crate::meteorology::{get_igram_time_span, is_first_earliest, is_last_latest, MetEntry};
use crate::timestamp::Timestamp;
use crate::utils::pattern_replacement::{
    render_met_script_arg_pattern, PatternError, PatternErrorView, PatternReplacer,
};

verus! {

/// The exit code reported for a program that ended without one.
pub const NO_EXIT_CODE: i32 = -999;

/// Why no meteorology came from an external program.
#[derive(Clone, Debug, PartialEq, Eq)]
pub enum ScriptMetError {
    /// An argument holds a placeholder that cannot be replaced.
    ArgPatternError(PatternError),
    /// The program could not be started.
    ScriptRunError { script: String, error: String },
    /// The program ended with a code other than zero, or without one.
    ScriptFailedError { script: String, args: String, exit_code: i32 },
    /// A line of what the program printed is no observation. `entry_num` is
    /// the number of the line, counted from 1 with blank lines counted too;
    /// a carriage return followed by a line feed ends one line.
    EntryParseError { entry_num: u32, error: String, entry_str: String },
}

/// The text that `String::from_utf8_lossy` makes of some bytes.
pub uninterp spec fn lossy_text(bytes: Seq<u8>) -> Seq<char>;

/// Calls `String::from_utf8_lossy`, which reads bytes as UTF-8 and puts the
/// replacement character in place of what is not.
#[verifier::external_body]
pub(crate) fn text_of_bytes(bytes: &[u8]) -> (s: String)
    ensures
        s@ == lossy_text(bytes@),
{
    String::from_utf8_lossy(bytes).to_string()
}

/// Texts joined by single spaces.
pub open spec fn joined(parts: Seq<String>) -> Seq<char>
    decreases parts.len(),
{
    if parts.len() == 0 {
        Seq::empty()
    } else if parts.len() == 1 {
        parts[0]@
    } else {
        joined(parts.drop_last()) + seq![' '] + parts.last()@
    }
}

/// Joins texts by single spaces.
pub fn join_args(args: &[String]) -> (r: String)
    ensures
        r@ == joined(args@),
{
    let mut out = String::new();
    let mut i: usize = 0;
    while i < args.len()
        invariant
            i <= args.len(),
            out@ == joined(args@.take(i as int)),
        decreases args.len() - i,
    {
        assert(args@.take(i + 1).drop_last() == args@.take(i as int));
        assert(args@.take(i + 1).last() == args@[i as int]);
        if i > 0 {
            proof {
                reveal_strlit(" ");
            }
            out.append(" ");
        }
        out.append(args[i].as_str());
        i += 1;
    }
    assert(args@.take(args.len() as int) == args@);
    out
}

impl ScriptMetError {
    /// The error for a program that could not be started.
    pub fn script_run_error(script: &str, error: &str) -> (r: Self)
        ensures
            r matches ScriptMetError::ScriptRunError { script: s, error: e } && s@ == script@ && e@
                == error@,
    {
        ScriptMetError::ScriptRunError { script: script.to_owned(), error: error.to_owned() }
    }

    /// The error for a program that ended with a code other than zero, or
    /// without a code, for which `NO_EXIT_CODE` is reported.
    pub fn script_failed_error(script: &str, args: &[String], exit_code: Option<i32>) -> (r: Self)
        ensures
            r matches ScriptMetError::ScriptFailedError { script: s, args: a, exit_code: c } && s@
                == script@ && a@ == joined(args@) && c == match exit_code {
                Some(code) => code,
                None => NO_EXIT_CODE,
            },
    {
        let args = join_args(args);
        let exit_code = match exit_code {
            Some(code) => code,
            None => NO_EXIT_CODE,
        };
        ScriptMetError::ScriptFailedError { script: script.to_owned(), args, exit_code }
    }

    /// The error for a line that is no observation.
    pub fn entry_parse_error(entry_num: u32, error: &str, entry_bytes: &[u8]) -> (r: Self)
        ensures
            r matches ScriptMetError::EntryParseError { entry_num: n, error: e, entry_str: t } && n
                == entry_num && e@ == error@ && t@ == lossy_text(entry_bytes@),
    {
        let entry_str = text_of_bytes(entry_bytes);
        ScriptMetError::EntryParseError { entry_num, error: error.to_owned(), entry_str }
    }
}

/// `rendered` are the first arguments of `args` with the placeholders for
/// the times of the first and the last scan replaced.
pub open spec fn are_rendered_args(
    rendered: Seq<String>,
    args: Seq<String>,
    first: Timestamp,
    last: Timestamp,
) -> bool {
    &&& rendered.len() <= args.len()
    &&& forall|i: int|
        0 <= i < rendered.len() ==> (PatternReplacer::MetArg {
            first_igram_time: first,
            last_igram_time: last,
        }).rendered(args[i]@) == Ok::<Seq<char>, PatternErrorView>((#[trigger] rendered[i])@)
}

/// Replaces, in every argument of the program, the placeholders
/// `{FIRST_IGRAM_TIME}` and `{LAST_IGRAM_TIME}` by the times of the first and
/// the last scan. The first argument that cannot be rendered fails the call.
pub fn render_script_args(args: &[String], first_igram_time: Timestamp, last_igram_time: Timestamp) -> (r:
    Result<Vec<String>, ScriptMetError>)
    ensures
        match r {
            Ok(rendered) => rendered.len() == args.len() && are_rendered_args(
                rendered@,
                args@,
                first_igram_time,
                last_igram_time,
            ),
            Err(e) => exists|rendered: Seq<String>|
                #![trigger are_rendered_args(rendered, args@, first_igram_time, last_igram_time)]
                are_rendered_args(rendered, args@, first_igram_time, last_igram_time)
                    && rendered.len() < args.len() && (e matches ScriptMetError::ArgPatternError(
                    p,
                ) && (PatternReplacer::MetArg { first_igram_time, last_igram_time }).rendered(
                    args@[rendered.len() as int]@,
                ) == Err::<Seq<char>, PatternErrorView>(p@)),
        },
{
    let mut rendered: Vec<String> = Vec::new();
    let mut i: usize = 0;
    while i < args.len()
        invariant
            i <= args.len(),
            rendered.len() == i,
            are_rendered_args(rendered@, args@, first_igram_time, last_igram_time),
        decreases args.len() - i,
    {
        match render_met_script_arg_pattern(args[i].as_str(), first_igram_time, last_igram_time) {
            Ok(text) => {
                rendered.push(text);
            },
            Err(e) => {
                return Err(ScriptMetError::ArgPatternError(e));
            },
        }
        i += 1;
    }
    Ok(rendered)
}

/// Checks how the program ended: anything but success is an error that
/// carries the program, its arguments and its exit code.
pub fn check_script_status(script: &str, args: &[String], success: bool, exit_code: Option<i32>) -> (r:
    Result<(), ScriptMetError>)
    ensures
        success <==> r is Ok,
        !success ==> (r->Err_0 matches ScriptMetError::ScriptFailedError {
            script: s,
            args: a,
            exit_code: c,
        } && s@ == script@ && a@ == joined(args@) && c == match exit_code {
            Some(code) => code,
            None => NO_EXIT_CODE,
        }),
{
    if success {
        Ok(())
    } else {
        Err(ScriptMetError::script_failed_error(script, args, exit_code))
    }
}

/// A byte that ends a line: a line feed or a carriage return.
pub open spec fn is_line_break(b: u8) -> bool {
    b == 0x0A || b == 0x0D
}

/// A byte of ASCII white space: space, tab, line feed, form feed or carriage
/// return.
pub open spec fn is_blank_byte(b: u8) -> bool {
    b == 0x20 || b == 0x09 || b == 0x0A || b == 0x0C || b == 0x0D
}

/// The number of bytes of `s` before its first line break.
pub open spec fn line_length(s: Seq<u8>) -> int
    decreases s.len(),
{
    if s.len() > 0 && !is_line_break(s[0]) {
        1 + line_length(s.drop_first())
    } else {
        0
    }
}

/// The number of blank bytes at the start of `s`.
pub open spec fn leading_blanks(s: Seq<u8>) -> int
    decreases s.len(),
{
    if s.len() > 0 && is_blank_byte(s[0]) {
        1 + leading_blanks(s.drop_first())
    } else {
        0
    }
}

/// The number of blank bytes at the end of `s`.
pub open spec fn trailing_blanks(s: Seq<u8>) -> int
    decreases s.len(),
{
    if s.len() > 0 && is_blank_byte(s.last()) {
        1 + trailing_blanks(s.drop_last())
    } else {
        0
    }
}

/// `s` without the blank bytes at its start and at its end.
pub open spec fn trimmed(s: Seq<u8>) -> Seq<u8> {
    let t = s.skip(leading_blanks(s));
    t.take(t.len() - trailing_blanks(t))
}

/// The number of bytes of the line break at position `n` of `s`: two for a
/// carriage return followed by a line feed, one for any other, none at the
/// end of `s`.
pub open spec fn break_length(s: Seq<u8>, n: int) -> int {
    if n < 0 || n >= s.len() {
        0
    } else if s[n] == 0x0D && n + 1 < s.len() && s[n + 1] == 0x0A {
        2
    } else {
        1
    }
}

/// The records of what a program printed, each with the number of its line,
/// where the first line of `s` has the number `number`. The lines end at a
/// line feed, at a carriage return, or at a carriage return followed by a
/// line feed, which ends one line, not two. Each line is taken without the
/// blanks at its start and end; a line that is empty then is no record, but
/// is counted.
pub open spec fn script_lines(s: Seq<u8>, number: nat) -> Seq<(nat, Seq<u8>)>
    decreases s.len(),
{
    let n = line_length(s);
    let line = trimmed(s.take(n));
    let rest = if 0 <= n < s.len() {
        script_lines(s.skip(n + break_length(s, n)), number + 1)
    } else {
        Seq::empty()
    };
    if s.len() == 0 {
        Seq::empty()
    } else if line.len() > 0 {
        seq![(number, line)] + rest
    } else {
        rest
    }
}

/// The records of what a program printed, lines numbered from 1.
pub open spec fn script_records(s: Seq<u8>) -> Seq<(nat, Seq<u8>)> {
    script_lines(s, 1)
}

/// `line_length` is the position of the first line break, or the length
/// where there is none.
pub proof fn lemma_line_length(s: Seq<u8>)
    ensures
        0 <= line_length(s) <= s.len(),
        forall|j: int| 0 <= j < line_length(s) ==> !is_line_break(s[j]),
        line_length(s) < s.len() ==> is_line_break(s[line_length(s)]),
    decreases s.len(),
{
    if s.len() > 0 && !is_line_break(s[0]) {
        let t = s.drop_first();
        lemma_line_length(t);
        assert forall|j: int| 0 <= j < line_length(s) implies !is_line_break(s[j]) by {
            if j > 0 {
                assert(s[j] == t[j - 1]);
            }
        }
    }
}

/// `leading_blanks` is the position of the first byte that is not blank.
pub proof fn lemma_leading_blanks(s: Seq<u8>)
    ensures
        0 <= leading_blanks(s) <= s.len(),
        forall|j: int| 0 <= j < leading_blanks(s) ==> is_blank_byte(s[j]),
        leading_blanks(s) < s.len() ==> !is_blank_byte(s[leading_blanks(s)]),
    decreases s.len(),
{
    if s.len() > 0 && is_blank_byte(s[0]) {
        let t = s.drop_first();
        lemma_leading_blanks(t);
        assert forall|j: int| 0 <= j < leading_blanks(s) implies is_blank_byte(s[j]) by {
            if j > 0 {
                assert(s[j] == t[j - 1]);
            }
        }
    }
}

/// `trailing_blanks` counts the blank bytes after the last byte that is not
/// blank.
pub proof fn lemma_trailing_blanks(s: Seq<u8>)
    ensures
        0 <= trailing_blanks(s) <= s.len(),
        forall|j: int| s.len() - trailing_blanks(s) <= j < s.len() ==> is_blank_byte(s[j]),
        trailing_blanks(s) < s.len() ==> !is_blank_byte(s[s.len() - trailing_blanks(s) - 1]),
    decreases s.len(),
{
    if s.len() > 0 && is_blank_byte(s.last()) {
        let t = s.drop_last();
        lemma_trailing_blanks(t);
        assert forall|j: int| s.len() - trailing_blanks(s) <= j < s.len() implies is_blank_byte(
            s[j],
        ) by {
            if j < s.len() - 1 {
                assert(s[j] == t[j]);
            }
        }
    }
}

/// A position that holds a line break, or the end, with no line break before
/// it is `line_length`.
pub proof fn lemma_line_length_is(s: Seq<u8>, n: int)
    requires
        0 <= n <= s.len(),
        forall|j: int| 0 <= j < n ==> !is_line_break(s[j]),
        n < s.len() ==> is_line_break(s[n]),
    ensures
        line_length(s) == n,
{
    lemma_line_length(s);
}

/// A carriage return followed by a line feed ends a line just as a line
/// feed alone does: what a program printed has the same records, on lines
/// of the same numbers, with either. This is said of a line feed that does
/// not follow a carriage return; one that does is the second half of a
/// break already.
pub proof fn law_crlf_is_one_line_break(before: Seq<u8>, after: Seq<u8>, number: nat)
    requires
        before.len() == 0 || before.last() != 0x0D,
    ensures
        script_lines(before + seq![0x0Du8, 0x0Au8] + after, number) == script_lines(
            before + seq![0x0Au8] + after,
            number,
        ),
    decreases before.len(),
{
    let crlf = before + seq![0x0Du8, 0x0Au8] + after;
    let lf = before + seq![0x0Au8] + after;
    lemma_line_length(before);
    let n = line_length(before);
    assert forall|j: int| 0 <= j < n implies !is_line_break(crlf[j]) && !is_line_break(lf[j]) by {
        assert(crlf[j] == before[j]);
        assert(lf[j] == before[j]);
    }
    if n < before.len() {
        // The first line ends within `before`.
        assert(crlf[n] == before[n]);
        assert(lf[n] == before[n]);
        lemma_line_length_is(crlf, n);
        lemma_line_length_is(lf, n);
        assert(crlf.take(n) == lf.take(n));
        if before[n] == 0x0D {
            assert(n + 1 < before.len());
            assert(crlf[n + 1] == before[n + 1]);
            assert(lf[n + 1] == before[n + 1]);
        }
        let b = break_length(before, n);
        assert(break_length(crlf, n) == b);
        assert(break_length(lf, n) == b);
        let rest = before.skip(n + b);
        assert(crlf.skip(n + b) == rest + seq![0x0Du8, 0x0Au8] + after);
        assert(lf.skip(n + b) == rest + seq![0x0Au8] + after);
        if rest.len() > 0 {
            assert(rest.last() == before.last());
        }
        law_crlf_is_one_line_break(rest, after, number + 1);
    } else {
        // The first line is all of `before`.
        assert(crlf[n] == 0x0Du8);
        assert(crlf[n + 1] == 0x0Au8);
        assert(lf[n] == 0x0Au8);
        lemma_line_length_is(crlf, n);
        lemma_line_length_is(lf, n);
        assert(crlf.take(n) == lf.take(n));
        assert(break_length(crlf, n) == 2);
        assert(break_length(lf, n) == 1);
        assert(crlf.skip(n + 2) == after);
        assert(lf.skip(n + 1) == after);
    }
}

/// Every record is a line that is not blank: it is not empty, holds no
/// line break, and neither starts nor ends with a blank. Its number is not
/// less than the number of the first line.
pub proof fn law_records_are_nonblank_lines(s: Seq<u8>, number: nat, k: int)
    requires
        0 <= k < script_lines(s, number).len(),
    ensures
        script_lines(s, number)[k].0 >= number,
        script_lines(s, number)[k].1.len() > 0,
        forall|j: int|
            0 <= j < script_lines(s, number)[k].1.len() ==> !is_line_break(
                script_lines(s, number)[k].1[j],
            ),
        !is_blank_byte(script_lines(s, number)[k].1[0]),
        !is_blank_byte(script_lines(s, number)[k].1.last()),
    decreases s.len(),
{
    lemma_line_length(s);
    let n = line_length(s);
    let raw = s.take(n);
    let line = trimmed(raw);
    lemma_leading_blanks(raw);
    let t = raw.skip(leading_blanks(raw));
    lemma_trailing_blanks(t);
    if line.len() > 0 && k == 0 {
        assert(script_lines(s, number)[0] == (number, line));
        assert forall|j: int| 0 <= j < line.len() implies !is_line_break(line[j]) by {
            assert(line[j] == s[leading_blanks(raw) + j]);
        }
        assert(line[0] == raw[leading_blanks(raw)]);
        assert(line.last() == t[t.len() - trailing_blanks(t) - 1]);
    } else {
        let rest = s.skip(n + break_length(s, n));
        if line.len() > 0 {
            assert(script_lines(s, number)[k] == script_lines(rest, number + 1)[k - 1]);
            law_records_are_nonblank_lines(rest, number + 1, k - 1);
        } else {
            assert(script_lines(s, number)[k] == script_lines(rest, number + 1)[k]);
            law_records_are_nonblank_lines(rest, number + 1, k);
        }
    }
}

/// One line of what a program printed that is not blank: its number,
/// counted from 1, and its text without the blanks at its start and end.
#[derive(Clone, Debug, PartialEq, Eq)]
pub struct ScriptLine {
    pub number: usize,
    pub text: Vec<u8>,
}

/// Lines as pairs of number and text.
pub open spec fn lines_view(lines: Seq<ScriptLine>) -> Seq<(nat, Seq<u8>)> {
    lines.map_values(|l: ScriptLine| (l.number as nat, l.text@))
}

/// A copy of the bytes `bytes[from..to]`.
fn copy_bytes(bytes: &[u8], from: usize, to: usize) -> (v: Vec<u8>)
    requires
        from <= to <= bytes.len(),
    ensures
        v@ == bytes@.subrange(from as int, to as int),
{
    let mut v: Vec<u8> = Vec::new();
    let mut i = from;
    while i < to
        invariant
            from <= i <= to <= bytes.len(),
            v@ == bytes@.subrange(from as int, i as int),
        decreases to - i,
    {
        v.push(bytes[i]);
        assert(bytes@.subrange(from as int, i + 1) == bytes@.subrange(from as int, i as int).push(
            bytes@[i as int],
        ));
        i += 1;
    }
    v
}

/// Tests a byte for ASCII white space.
fn byte_is_blank(b: u8) -> (r: bool)
    ensures
        r == is_blank_byte(b),
{
    b == 0x20 || b == 0x09 || b == 0x0A || b == 0x0C || b == 0x0D
}

/// Cuts what a program printed into its records, each with the number of
/// its line; see `script_lines`.
pub fn split_script_output(stdout: &[u8]) -> (lines: Vec<ScriptLine>)
    ensures
        lines_view(lines@) == script_records(stdout@),
{
    let n = stdout.len();
    let mut lines: Vec<ScriptLine> = Vec::new();
    let mut start: usize = 0;
    // The number of line breaks before `start`.
    let mut breaks: usize = 0;
    assert(stdout@.skip(0) == stdout@);
    assert(lines_view(lines@) + script_lines(stdout@, 1) == script_lines(stdout@, 1));
    while start < n
        invariant
            start <= n,
            breaks <= start,
            n == stdout.len(),
            script_records(stdout@) == lines_view(lines@) + script_lines(
                stdout@.skip(start as int),
                (breaks + 1) as nat,
            ),
        decreases n - start,
    {
        let ghost s = stdout@.skip(start as int);
        let mut end = start;
        while end < n && stdout[end] != 0x0A && stdout[end] != 0x0D
            invariant
                start <= end <= n,
                n == stdout.len(),
                forall|j: int| start <= j < end ==> !is_line_break(stdout@[j]),
            decreases n - end,
        {
            end += 1;
        }
        proof {
            lemma_line_length(s);
            let k = line_length(s);
            if k < end - start {
                assert(s[k] == stdout@[start + k]);
            } else if k > end - start {
                assert(s[end - start] == stdout@[end as int]);
            }
            assert(k == end - start);
        }
        let ghost raw = s.take(end - start);
        assert(raw == stdout@.subrange(start as int, end as int));
        let mut from = start;
        while from < end && byte_is_blank(stdout[from])
            invariant
                start <= from <= end <= n,
                n == stdout.len(),
                forall|j: int| start <= j < from ==> is_blank_byte(stdout@[j]),
            decreases end - from,
        {
            from += 1;
        }
        let mut to = end;
        while to > from && byte_is_blank(stdout[to - 1])
            invariant
                from <= to <= end <= n,
                n == stdout.len(),
                forall|j: int| to <= j < end ==> is_blank_byte(stdout@[j]),
            decreases to,
        {
            to -= 1;
        }
        proof {
            lemma_leading_blanks(raw);
            let a = leading_blanks(raw);
            if a < from - start {
                assert(raw[a] == stdout@[start + a]);
            } else if a > from - start {
                assert(raw[from - start] == stdout@[from as int]);
            }
            assert(a == from - start);
            let t = raw.skip(a);
            assert(t == stdout@.subrange(from as int, end as int));
            lemma_trailing_blanks(t);
            let b = trailing_blanks(t);
            if b < end - to {
                assert(t[t.len() - b - 1] == stdout@[end - b - 1]);
            } else if b > end - to {
                assert(t[t.len() - (end - to) - 1] == stdout@[to - 1]);
            }
            assert(b == end - to);
            assert(trimmed(raw) == stdout@.subrange(from as int, to as int));
        }
        let ghost before = lines_view(lines@);
        if to > from {
            let line = ScriptLine { number: breaks + 1, text: copy_bytes(stdout, from, to) };
            lines.push(line);
            assert(lines_view(lines@) == before.push((line.number as nat, line.text@)));
        }
        if end < n {
            let step: usize = if stdout[end] == 0x0D && end + 1 < n && stdout[end + 1] == 0x0A {
                2
            } else {
                1
            };
            proof {
                assert(s[end - start] == stdout@[end as int]);
                if end + 1 < n {
                    assert(s[end - start + 1] == stdout@[end + 1]);
                }
                assert(step == break_length(s, end - start));
                assert(s.skip(end - start + step) == stdout@.skip(end + step));
            }
            start = end + step;
            breaks += 1;
        } else {
            assert(script_lines(stdout@.skip(n as int), (breaks + 2) as nat) == Seq::<
                (nat, Seq<u8>),
            >::empty());
            start = n;
        }
    }
    assert(script_lines(stdout@.skip(n as int), (breaks + 1) as nat) == Seq::<
        (nat, Seq<u8>),
    >::empty());
    lines
}

/// One record of what a program printed: the number of its line, its text,
/// and the observation that was decoded from it or the reason why none
/// could be.
#[derive(Debug, PartialEq, Eq)]
pub struct ScriptRecord {
    pub line: usize,
    pub raw: Vec<u8>,
    pub decoded: Result<MetEntry, String>,
}

/// `i` is the first record that is no observation.
pub open spec fn is_first_undecoded(records: Seq<ScriptRecord>, i: int) -> bool {
    &&& 0 <= i < records.len()
    &&& records[i].decoded is Err
    &&& forall|j: int| 0 <= j < i ==> (#[trigger] records[j]).decoded is Ok
}

/// The number of a line as an error reports it: held at the largest 32-bit
/// number beyond that.
pub open spec fn entry_number(line: usize) -> u32 {
    if line > u32::MAX {
        u32::MAX
    } else {
        line as u32
    }
}

/// `entries` are the observations of `records`, one for one.
pub open spec fn are_entries_of(entries: Seq<MetEntry>, records: Seq<ScriptRecord>) -> bool {
    &&& entries.len() == records.len()
    &&& forall|i: int|
        0 <= i < records.len() ==> (#[trigger] records[i]).decoded == Ok::<MetEntry, String>(
            entries[i],
        )
}

/// `e` reports the first record of `records` that is no observation, by the
/// number of its line and with its text.
pub open spec fn reports_first_undecoded(e: ScriptMetError, records: Seq<ScriptRecord>) -> bool {
    exists|i: int|
        is_first_undecoded(records, i) && (e matches ScriptMetError::EntryParseError {
            entry_num,
            error,
            entry_str,
        } && entry_num == entry_number(records[i].line) && records[i].decoded == Err::<
            MetEntry,
            String,
        >(error) && entry_str@ == lossy_text(records[i].raw@))
}

/// Gathers the observations of the records of what a program printed: one
/// for each record, in order. The first record that is no observation fails
/// the call, by the number of its line and with its text.
pub fn collect_script_entries(records: &[ScriptRecord]) -> (r: Result<Vec<MetEntry>, ScriptMetError>)
    ensures
        match r {
            Ok(entries) => are_entries_of(entries@, records@),
            Err(e) => reports_first_undecoded(e, records@),
        },
{
    let mut met_entries: Vec<MetEntry> = Vec::new();
    let mut i: usize = 0;
    while i < records.len()
        invariant
            i <= records.len(),
            met_entries.len() == i,
            forall|j: int|
                0 <= j < i ==> (#[trigger] records@[j]).decoded == Ok::<MetEntry, String>(
                    met_entries@[j],
                ),
        decreases records.len() - i,
    {
        match &records[i].decoded {
            Ok(entry) => {
                met_entries.push(*entry);
            },
            Err(error) => {
                let line = records[i].line;
                let entry_num: u32 = if line > 0xffff_ffff {
                    0xffff_ffff
                } else {
                    line as u32
                };
                let entry_str = text_of_bytes(records[i].raw.as_slice());
                assert(is_first_undecoded(records@, i as int));
                return Err(
                    ScriptMetError::EntryParseError { entry_num, error: error.clone(), entry_str },
                );
            },
        }
        i += 1;
    }
    Ok(met_entries)
}

/// The times that stand for the first and the last scan in the arguments of
/// the program: the earliest and the latest of the times of the scans, or,
/// for a batch without scans, the epoch in UTC for both.
pub fn script_time_span(zpd_times: &[Timestamp]) -> (r: (Timestamp, Timestamp))
    ensures
        zpd_times.len() == 0 ==> r.0 == (Timestamp { utc_millis: 0, offset_secs: 0 }) && r.1 == r.0,
        zpd_times.len() > 0 ==> exists|i: int, j: int|
            is_first_earliest(zpd_times@, i) && is_last_latest(zpd_times@, j) && r.0
                == zpd_times@[i] && r.1 == zpd_times@[j],
{
    match get_igram_time_span(zpd_times) {
        Some(span) => span,
        None => {
            let epoch = Timestamp { utc_millis: 0, offset_secs: 0 };
            (epoch, epoch)
        },
    }
}

} // verus!
