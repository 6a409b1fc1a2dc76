//! Substitution of `{KEY}` and `{KEY:format}` placeholders in patterns for
//! paths, script arguments and scripts.

use vstd::prelude::*;
use crate::text::{chars_eq_str, chars_of, find_char, first_index_of, string_of};
use crate::timestamp::{
    format_date, format_timestamp, formatted_date, formatted_instant, CivilDate, Timestamp,
};

verus! {

/// Why a pattern could not be rendered.
#[derive(Clone, Debug, PartialEq, Eq)]
pub enum PatternError {
    /// A placeholder names a key that the pattern does not know.
    UnknownKey(String),
    /// A placeholder gives a format under which the value cannot be written.
    InvalidFormat(String),
}

/// A `PatternError` with its text as a sequence of characters.
pub enum PatternErrorView {
    UnknownKey(Seq<char>),
    InvalidFormat(Seq<char>),
}

impl View for PatternError {
    type V = PatternErrorView;

    open spec fn view(&self) -> PatternErrorView {
        match self {
            PatternError::UnknownKey(key) => PatternErrorView::UnknownKey(key@),
            PatternError::InvalidFormat(format) => PatternErrorView::InvalidFormat(format@),
        }
    }
}

/// The result of rendering, with its text as a sequence of characters.
pub open spec fn rendered_view(r: Result<String, PatternError>) -> Result<
    Seq<char>,
    PatternErrorView,
> {
    match r {
        Ok(text) => Ok(text@),
        Err(e) => Err(e@),
    }
}

/// The position of the `}` that closes a placeholder opening at `i`, or the
/// length of `s` if nothing closes it.
pub open spec fn closing_brace(s: Seq<char>, i: int) -> int {
    i + 1 + first_index_of(s.skip(i + 1), '}')
}

/// A placeholder opens at position `i` of `s`: a `{`, one or more characters
/// other than `}`, and a `}`.
pub open spec fn placeholder_at(s: Seq<char>, i: int) -> bool {
    &&& 0 <= i < s.len()
    &&& s[i] == '{'
    &&& i + 2 <= closing_brace(s, i) < s.len()
}

/// The position at or after `from` where the next placeholder opens, or the
/// length of `s` if there is none.
pub open spec fn next_placeholder(s: Seq<char>, from: int) -> int
    decreases s.len() - from,
{
    if from < 0 || from >= s.len() {
        s.len() as int
    } else if placeholder_at(s, from) {
        from
    } else {
        next_placeholder(s, from + 1)
    }
}

/// The key of a placeholder: its text up to the first colon.
pub open spec fn key_of(inner: Seq<char>) -> Seq<char> {
    inner.take(first_index_of(inner, ':'))
}

/// The format of a placeholder: its text after the first colon, if it has a
/// colon.
pub open spec fn format_of(inner: Seq<char>) -> Option<Seq<char>> {
    let colon = first_index_of(inner, ':');
    if 0 <= colon < inner.len() {
        Some(inner.skip(colon + 1))
    } else {
        None
    }
}

/// The format under which a date is written when a placeholder gives none.
pub open spec fn default_date_format() -> Seq<char> {
    "%Y-%m-%d"@
}

/// The format under which a time is written when a placeholder gives none.
pub open spec fn default_time_format() -> Seq<char> {
    "%Y-%m-%dT%H:%M:%S%z"@
}

/// The format to use: the one given, or the default.
pub open spec fn format_or(format: Option<Seq<char>>, default: Seq<char>) -> Seq<char> {
    match format {
        Some(f) => f,
        None => default,
    }
}

/// What a formatting operation makes of a format.
pub open spec fn formatted_or_invalid(text: Option<Seq<char>>, format: Seq<char>) -> Result<
    Seq<char>,
    PatternErrorView,
> {
    match text {
        Some(t) => Ok(t),
        None => Err(PatternErrorView::InvalidFormat(format)),
    }
}

/// The values that the placeholders of a pattern stand for.
#[derive(Clone, Copy, Debug)]
pub enum PatternReplacer<'a> {
    /// Patterns for the data of one day. `DATE` stands for the date, written
    /// as `YYYY-MM-DD` unless a format is given; `SITE_ID` for the site.
    Daily { date: CivilDate, site_id: &'a str },
    /// The post-processing script. `GGGPATH`, `RUNLOG` and `SITE_ID` stand
    /// for the given texts; formats are ignored.
    PostProc { ggg_path_str: &'a str, runlog_name: &'a str, site_id: &'a str },
    /// Arguments of a meteorology script. `FIRST_IGRAM_TIME` and
    /// `LAST_IGRAM_TIME` stand for the times of the first and last scan,
    /// written with date, time and offset unless a format is given.
    MetArg { first_igram_time: Timestamp, last_igram_time: Timestamp },
}

impl<'a> PatternReplacer<'a> {
    /// The text that stands for the placeholder with the given key and
    /// format.
    pub open spec fn replacement(&self, key: Seq<char>, format: Option<Seq<char>>) -> Result<
        Seq<char>,
        PatternErrorView,
    > {
        match *self {
            PatternReplacer::Daily { date, site_id } => if key == "DATE"@ {
                let f = format_or(format, default_date_format());
                formatted_or_invalid(
                    formatted_date(date.year as int, date.month as int, date.day as int, f),
                    f,
                )
            } else if key == "SITE_ID"@ {
                Ok(site_id@)
            } else {
                Err(PatternErrorView::UnknownKey(key))
            },
            PatternReplacer::PostProc { ggg_path_str, runlog_name, site_id } => if key
                == "GGGPATH"@ {
                Ok(ggg_path_str@)
            } else if key == "RUNLOG"@ {
                Ok(runlog_name@)
            } else if key == "SITE_ID"@ {
                Ok(site_id@)
            } else {
                Err(PatternErrorView::UnknownKey(key))
            },
            PatternReplacer::MetArg { first_igram_time, last_igram_time } => if key
                == "FIRST_IGRAM_TIME"@ {
                let f = format_or(format, default_time_format());
                formatted_or_invalid(
                    formatted_instant(
                        first_igram_time.utc_millis as int,
                        first_igram_time.offset_secs as int,
                        f,
                    ),
                    f,
                )
            } else if key == "LAST_IGRAM_TIME"@ {
                let f = format_or(format, default_time_format());
                formatted_or_invalid(
                    formatted_instant(
                        last_igram_time.utc_millis as int,
                        last_igram_time.offset_secs as int,
                        f,
                    ),
                    f,
                )
            } else {
                Err(PatternErrorView::UnknownKey(key))
            },
        }
    }

    /// The text that stands for a placeholder, given by what is written
    /// between its braces.
    pub open spec fn replacement_of(&self, inner: Seq<char>) -> Result<Seq<char>, PatternErrorView> {
        self.replacement(key_of(inner), format_of(inner))
    }

    /// The pattern `s` from position `from` on, with every placeholder
    /// replaced; the first placeholder that cannot be replaced fails the
    /// rendering.
    pub open spec fn rendered_from(&self, s: Seq<char>, from: int) -> Result<
        Seq<char>,
        PatternErrorView,
    >
        decreases s.len() - from,
    {
        let open = next_placeholder(s, from);
        let close = closing_brace(s, open);
        if from < 0 || from >= s.len() {
            Ok(Seq::empty())
        } else if from <= open < close < s.len() {
            match self.replacement_of(s.subrange(open + 1, close)) {
                Err(e) => Err(e),
                Ok(text) => match self.rendered_from(s, close + 1) {
                    Err(e) => Err(e),
                    Ok(rest) => Ok(s.subrange(from, open) + text + rest),
                },
            }
        } else {
            Ok(s.skip(from))
        }
    }

    /// The pattern `s` with every placeholder replaced.
    pub open spec fn rendered(&self, s: Seq<char>) -> Result<Seq<char>, PatternErrorView> {
        self.rendered_from(s, 0)
    }

    /// Writes a date or a time under a format.
    fn write_date(date: &CivilDate, format: &str) -> (r: Result<String, PatternError>)
        ensures
            rendered_view(r) == formatted_or_invalid(
                formatted_date(date.year as int, date.month as int, date.day as int, format@),
                format@,
            ),
    {
        match format_date(date, format) {
            Some(text) => Ok(text),
            None => Err(PatternError::InvalidFormat(format.to_owned())),
        }
    }

    /// Writes an instant under a format.
    fn write_time(at: &Timestamp, format: &str) -> (r: Result<String, PatternError>)
        ensures
            rendered_view(r) == formatted_or_invalid(
                formatted_instant(at.utc_millis as int, at.offset_secs as int, format@),
                format@,
            ),
    {
        match format_timestamp(at, format) {
            Some(text) => Ok(text),
            None => Err(PatternError::InvalidFormat(format.to_owned())),
        }
    }

    /// The text that stands for the placeholder with the given key and
    /// format, or the reason why there is none.
    pub fn get_replacement_value(&self, key: &[char], fmt: Option<&[char]>) -> (r: Result<
        String,
        PatternError,
    >)
        ensures
            rendered_view(r) == self.replacement(
                key@,
                match fmt {
                    Some(f) => Some(f@),
                    None => None,
                },
            ),
    {
        match self {
            PatternReplacer::Daily { date, site_id } => {
                if chars_eq_str(key, "DATE") {
                    let format = match fmt {
                        Some(f) => string_of(f),
                        None => "%Y-%m-%d".to_owned(),
                    };
                    Self::write_date(date, format.as_str())
                } else if chars_eq_str(key, "SITE_ID") {
                    Ok((*site_id).to_owned())
                } else {
                    Err(PatternError::UnknownKey(string_of(key)))
                }
            },
            PatternReplacer::PostProc { ggg_path_str, runlog_name, site_id } => {
                if chars_eq_str(key, "GGGPATH") {
                    Ok((*ggg_path_str).to_owned())
                } else if chars_eq_str(key, "RUNLOG") {
                    Ok((*runlog_name).to_owned())
                } else if chars_eq_str(key, "SITE_ID") {
                    Ok((*site_id).to_owned())
                } else {
                    Err(PatternError::UnknownKey(string_of(key)))
                }
            },
            PatternReplacer::MetArg { first_igram_time, last_igram_time } => {
                if chars_eq_str(key, "FIRST_IGRAM_TIME") {
                    let format = match fmt {
                        Some(f) => string_of(f),
                        None => "%Y-%m-%dT%H:%M:%S%z".to_owned(),
                    };
                    Self::write_time(first_igram_time, format.as_str())
                } else if chars_eq_str(key, "LAST_IGRAM_TIME") {
                    let format = match fmt {
                        Some(f) => string_of(f),
                        None => "%Y-%m-%dT%H:%M:%S%z".to_owned(),
                    };
                    Self::write_time(last_igram_time, format.as_str())
                } else {
                    Err(PatternError::UnknownKey(string_of(key)))
                }
            },
        }
    }

    /// The text that stands for a placeholder, given by what is written
    /// between its braces: a key, and after a colon, if there is one, a
    /// format.
    pub fn do_pattern_replacement(&self, fmt_str: &[char]) -> (r: Result<String, PatternError>)
        ensures
            rendered_view(r) == self.replacement_of(fmt_str@),
    {
        let colon = find_char(fmt_str, 0, ':');
        assert(fmt_str@.skip(0) == fmt_str@);
        let key = &fmt_str[0..colon];
        assert(key@ == key_of(fmt_str@));
        if colon < fmt_str.len() {
            let format = &fmt_str[colon + 1..fmt_str.len()];
            assert(format@ == fmt_str@.skip(colon + 1));
            self.get_replacement_value(key, Some(format))
        } else {
            self.get_replacement_value(key, None)
        }
    }

    /// Renders a pattern: every placeholder is replaced by the text it
    /// stands for, everything else is kept as it is.
    pub fn render_pattern(&self, pattern: &str) -> (r: Result<String, PatternError>)
        ensures
            rendered_view(r) == self.rendered(pattern@),
    {
        let s = chars_of(pattern);
        let n = s.len();
        let mut out: Vec<char> = Vec::new();
        let mut pos: usize = 0;
        while pos < n
            invariant
                pos <= n,
                n == s.len(),
                s@ == pattern@,
                self.rendered(s@) == match self.rendered_from(s@, pos as int) {
                    Ok(rest) => Ok::<Seq<char>, PatternErrorView>(out@ + rest),
                    Err(e) => Err(e),
                },
            decreases n - pos,
        {
            // Look for the next placeholder at or after `pos`.
            let mut open = pos;
            let mut close = n;
            let mut found = false;
            while open < n && !found
                invariant
                    pos <= open <= n,
                    n == s.len(),
                    next_placeholder(s@, pos as int) == next_placeholder(s@, open as int),
                    found ==> placeholder_at(s@, open as int) && close == closing_brace(
                        s@,
                        open as int,
                    ),
                decreases n - open, if found { 0int } else { 1int },
            {
                if s[open] == '{' {
                    close = find_char(s.as_slice(), open + 1, '}');
                    if close < n && close >= open + 2 {
                        found = true;
                    } else {
                        assert(!placeholder_at(s@, open as int));
                        open += 1;
                    }
                } else {
                    assert(!placeholder_at(s@, open as int));
                    open += 1;
                }
            }
            let ghost before = out@;
            if !found {
                assert(next_placeholder(s@, pos as int) == n);
                append_chars(&mut out, &s[pos..n]);
                assert(s@.subrange(pos as int, n as int) == s@.skip(pos as int));
                assert(self.rendered_from(s@, n as int) == Ok::<Seq<char>, PatternErrorView>(
                    Seq::empty(),
                ));
                assert(out@ + Seq::<char>::empty() == out@);
                pos = n;
            } else {
                assert(next_placeholder(s@, pos as int) == open);
                let text = match self.do_pattern_replacement(&s[open + 1..close]) {
                    Err(e) => {
                        return Err(e);
                    },
                    Ok(text) => text,
                };
                append_chars(&mut out, &s[pos..open]);
                let replacement = chars_of(text.as_str());
                append_chars(&mut out, replacement.as_slice());
                proof {
                    match self.rendered_from(s@, close + 1) {
                        Ok(rest) => {
                            assert(before + (s@.subrange(pos as int, open as int) + text@ + rest)
                                == out@ + rest);
                        },
                        Err(_) => {},
                    }
                }
                pos = close + 1;
            }
        }
        assert(self.rendered_from(s@, n as int) == Ok::<Seq<char>, PatternErrorView>(Seq::empty()));
        assert(out@ + Seq::<char>::empty() == out@);
        Ok(string_of(out.as_slice()))
    }
}

/// Appends characters to a vector.
pub fn append_chars(out: &mut Vec<char>, more: &[char])
    ensures
        final(out)@ == old(out)@ + more@,
{
    let mut i: usize = 0;
    while i < more.len()
        invariant
            i <= more.len(),
            out@ == old(out)@ + more@.take(i as int),
        decreases more.len() - i,
    {
        out.push(more[i]);
        assert(more@.take(i + 1) == more@.take(i as int).push(more@[i as int]));
        i += 1;
    }
    assert(more@.take(more.len() as int) == more@);
}

/// Renders a pattern for the data of one day. `{DATE}` is replaced by the
/// date, written as `YYYY-MM-DD` or, in `{DATE:format}`, under the format
/// given; `{SITE_ID}` by the site. Any other key is an error.
pub fn render_daily_pattern(pattern: &str, date: CivilDate, site_id: &str) -> (r: Result<
    String,
    PatternError,
>)
    ensures
        rendered_view(r) == (PatternReplacer::Daily { date, site_id }).rendered(pattern@),
{
    let rep = PatternReplacer::Daily { date, site_id };
    rep.render_pattern(pattern)
}

/// Renders the post-processing script: `{GGGPATH}`, `{RUNLOG}` and
/// `{SITE_ID}` are replaced by the given texts. Any other key is an error.
pub fn render_postproc_script_pattern(
    postproc_script: &str,
    ggg_path_str: &str,
    runlog_name: &str,
    site_id: &str,
) -> (r: Result<String, PatternError>)
    ensures
        rendered_view(r) == (PatternReplacer::PostProc {
            ggg_path_str,
            runlog_name,
            site_id,
        }).rendered(postproc_script@),
{
    let rep = PatternReplacer::PostProc { ggg_path_str, runlog_name, site_id };
    rep.render_pattern(postproc_script)
}

/// Renders an argument of a meteorology script: `{FIRST_IGRAM_TIME}` and
/// `{LAST_IGRAM_TIME}` are replaced by the times of the first and the last
/// scan, written with date, time and offset or, after a colon, under the
/// format given. Any other key is an error.
pub fn render_met_script_arg_pattern(
    pattern: &str,
    first_igram_time: Timestamp,
    last_igram_time: Timestamp,
) -> (r: Result<String, PatternError>)
    ensures
        rendered_view(r) == (PatternReplacer::MetArg {
            first_igram_time,
            last_igram_time,
        }).rendered(pattern@),
{
    let rep = PatternReplacer::MetArg { first_igram_time, last_igram_time };
    rep.render_pattern(pattern)
}

} // verus!
