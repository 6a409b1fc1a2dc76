//! Resolution of a scan's time from the two header fields that record it: a
//! date written `DD/MM/YYYY` and a time written `HH:MM:SS.fff (GMT±N)`.

use vstd::prelude::*;
use crate::decimal::{all_digits, whole_value};
use crate::header::HeaderParam;
use crate::text::{
    chars_of, char_digit_value, char_is_digit, find_class, is_digit, leading_gap, leading_run,
    lemma_leading_gap, lemma_leading_run, skip_class, string_of, trim_start_spec, CharClass,
};
use crate::timestamp::{
    instant_of_local, local_to_instant, parse_clock, parse_date, parsed_clock, parsed_date,
    CivilDate, Timestamp,
};

verus! {

/// Why a header field could not be read as a date or a time.
#[derive(Clone, Copy, Debug, PartialEq, Eq, Structural)]
pub enum FormatCause {
    /// The time field does not hold two fragments with white space between
    /// them.
    NoWhitespace,
    /// The time field holds more than two fragments.
    ExtraText,
    /// The date field is not a date written `DD/MM/YYYY`.
    BadDate,
    /// The first fragment of the time field is not a time written
    /// `HH:MM:SS.fff`.
    BadClock,
    /// The second fragment of the time field is not `(GMT+N)` or `(GMT-N)`.
    NoOffset,
    /// The offset is a day or more.
    OffsetOutOfBounds,
    /// The date and time do not exist under the offset.
    InvalidLocalTime,
}

/// The moment of zero path difference of a scan: the instant with the offset
/// that the header states, and the calendar date that the header states.
#[derive(Clone, Copy, Debug, PartialEq, Eq, Structural)]
pub struct ZpdTime {
    pub instant: Timestamp,
    pub date: CivilDate,
}

/// The format of the date field.
pub open spec fn date_format() -> Seq<char> {
    "%d/%m/%Y"@
}

/// The format of the clock fragment of the time field.
pub open spec fn clock_format() -> Seq<char> {
    "%H:%M:%S.%3f"@
}

/// The opening of an offset group.
pub open spec fn gmt_opening() -> Seq<char> {
    seq!['(', 'G', 'M', 'T']
}

/// The digits of a text that is taken for an offset group: what stands
/// between its sign and its last character.
pub open spec fn gmt_digits(s: Seq<char>) -> Seq<char> {
    s.subrange(5, s.len() - 1)
}

/// `s` is an offset group, from its first character to its last: `(GMT`, a
/// sign, one or more digits and `)`.
pub open spec fn is_gmt_group(s: Seq<char>) -> bool {
    &&& s.len() >= 7
    &&& s.subrange(0, 4) == gmt_opening()
    &&& (s[4] == '+' || s[4] == '-')
    &&& all_digits(gmt_digits(s))
    &&& s.last() == ')'
}

/// `text` holds an offset group somewhere.
pub open spec fn holds_gmt_group(text: Seq<char>) -> bool {
    exists|from: int, to: int|
        0 <= from <= to <= text.len() && is_gmt_group(#[trigger] text.subrange(from, to))
}

/// The number of hours that an offset group states, east positive.
pub open spec fn gmt_hours(s: Seq<char>) -> int {
    let magnitude = whole_value(gmt_digits(s));
    if s[4] == '-' {
        -magnitude
    } else {
        magnitude
    }
}

/// The number of hours that `s` states, if `s` is an offset group.
pub open spec fn gmt_offset_hours(s: Seq<char>) -> Option<int> {
    if is_gmt_group(s) {
        Some(gmt_hours(s))
    } else {
        None
    }
}

/// Whether an offset of `hours` whole hours is less than a day.
pub open spec fn hours_in_bounds(hours: int) -> bool {
    -24 < hours < 24
}

/// The first fragment of a text: what stands before its first run of ASCII
/// white space, white space at the very start aside.
pub open spec fn first_fragment(text: Seq<char>) -> Seq<char> {
    let t = trim_start_spec(text, CharClass::AsciiWhitespace);
    t.take(leading_gap(t, CharClass::AsciiWhitespace))
}

/// What follows the first fragment of a text.
pub open spec fn after_first_fragment(text: Seq<char>) -> Seq<char> {
    let t = trim_start_spec(text, CharClass::AsciiWhitespace);
    t.skip(leading_gap(t, CharClass::AsciiWhitespace))
}

/// The clock fragment of a time field: its first fragment.
pub open spec fn clock_fragment(tim: Seq<char>) -> Seq<char> {
    first_fragment(tim)
}

/// The offset fragment of a time field: its second fragment.
pub open spec fn offset_fragment(tim: Seq<char>) -> Seq<char> {
    first_fragment(after_first_fragment(tim))
}

/// Whether a time field holds anything but white space after its second
/// fragment.
pub open spec fn has_extra_text(tim: Seq<char>) -> bool {
    first_fragment(after_first_fragment(after_first_fragment(tim))).len() > 0
}

/// What resolving the date field `dat` and the time field `tim` yields.
///
/// The time field must hold exactly two fragments with ASCII white space
/// between them: the clock reading and the offset group. Then the date is
/// read, then the clock reading, then the offset group, which the second
/// fragment must be from its first character to its last; the offset is the
/// number of hours of the group times 3600 seconds.
pub open spec fn resolve_spec(dat: Seq<char>, tim: Seq<char>) -> Result<
    ZpdTime,
    (HeaderParam, FormatCause),
> {
    if clock_fragment(tim).len() == 0 || offset_fragment(tim).len() == 0 {
        Err((HeaderParam::Tim, FormatCause::NoWhitespace))
    } else if has_extra_text(tim) {
        Err((HeaderParam::Tim, FormatCause::ExtraText))
    } else {
        match parsed_date(dat, date_format()) {
            None => Err((HeaderParam::Dat, FormatCause::BadDate)),
            Some(date) => match parsed_clock(clock_fragment(tim), clock_format()) {
                None => Err((HeaderParam::Tim, FormatCause::BadClock)),
                Some(clock) => match gmt_offset_hours(offset_fragment(tim)) {
                    None => Err((HeaderParam::Tim, FormatCause::NoOffset)),
                    Some(hours) => if !hours_in_bounds(hours) {
                        Err((HeaderParam::Tim, FormatCause::OffsetOutOfBounds))
                    } else {
                        match instant_of_local(
                            date.year as int,
                            date.month as int,
                            date.day as int,
                            clock.seconds as int,
                            clock.nanos as int,
                            hours * 3600,
                        ) {
                            None => Err((HeaderParam::Tim, FormatCause::InvalidLocalTime)),
                            Some(utc_millis) => Ok(
                                ZpdTime {
                                    instant: Timestamp {
                                        utc_millis,
                                        offset_secs: (hours * 3600) as i32,
                                    },
                                    date,
                                },
                            ),
                        }
                    },
                },
            },
        }
    }
}

/// What a text is as an offset group.
#[derive(Clone, Copy, Debug, PartialEq, Eq, Structural)]
pub enum GmtOffset {
    /// The text is no offset group.
    Absent,
    /// The text is an offset group and states a day or more.
    OutOfBounds,
    /// The text is an offset group and states this many hours, east
    /// positive.
    Hours(i32),
}

/// Reads `s` as an offset group: `(GMT`, a sign, digits and `)`, with
/// nothing before or after.
pub fn read_gmt_offset(s: &[char]) -> (r: GmtOffset)
    ensures
        match r {
            GmtOffset::Absent => gmt_offset_hours(s@) is None,
            GmtOffset::OutOfBounds => gmt_offset_hours(s@) matches Some(h) && !hours_in_bounds(h),
            GmtOffset::Hours(h) => gmt_offset_hours(s@) == Some(h as int) && hours_in_bounds(
                h as int,
            ),
        },
{
    let n = s.len();
    if n < 7 {
        return GmtOffset::Absent;
    }
    if s[0] != '(' || s[1] != 'G' || s[2] != 'M' || s[3] != 'T' {
        assert(s@.subrange(0, 4)[0] == s@[0]);
        assert(s@.subrange(0, 4)[1] == s@[1]);
        assert(s@.subrange(0, 4)[2] == s@[2]);
        assert(s@.subrange(0, 4)[3] == s@[3]);
        return GmtOffset::Absent;
    }
    assert(s@.subrange(0, 4) =~= gmt_opening());
    if (s[4] != '+' && s[4] != '-') || s[n - 1] != ')' {
        return GmtOffset::Absent;
    }
    let ghost digits = gmt_digits(s@);
    // Saturating read of the digits: any value past 23 is out of bounds.
    let mut acc: i32 = 0;
    let mut k: usize = 5;
    while k < n - 1
        invariant
            5 <= k <= n - 1,
            n == s.len(),
            n >= 7,
            digits == s@.subrange(5, n - 1),
            all_digits(digits.take(k - 5)),
            0 <= acc <= 24,
            acc < 24 ==> acc == whole_value(digits.take(k - 5)),
            acc == 24 ==> whole_value(digits.take(k - 5)) >= 24,
        decreases n - k,
    {
        let ghost prev = digits.take(k - 5);
        let ghost next = digits.take(k - 5 + 1);
        assert(next.drop_last() == prev);
        assert(next.last() == s@[k as int]);
        if !char_is_digit(s[k]) {
            assert(!is_digit(digits[k - 5]));
            return GmtOffset::Absent;
        }
        assert forall|j: int| 0 <= j < next.len() implies is_digit(#[trigger] next[j]) by {
            if j < prev.len() {
                assert(next[j] == prev[j]);
            }
        }
        let d = char_digit_value(s[k]) as i32;
        if acc < 24 {
            acc = acc * 10 + d;
            if acc > 24 {
                acc = 24;
            }
        }
        k += 1;
    }
    assert(digits.take(digits.len() as int) == digits);
    if acc >= 24 {
        return GmtOffset::OutOfBounds;
    }
    if s[4] == '-' {
        return GmtOffset::Hours(-acc);
    }
    GmtOffset::Hours(acc)
}

/// Where the first fragment of a text starts and ends, and where what
/// follows it starts.
pub proof fn lemma_first_fragment(text: Seq<char>) -> (at: (int, int))
    ensures
        0 <= at.0 <= at.1 <= text.len(),
        first_fragment(text) == text.subrange(at.0, at.1),
        after_first_fragment(text) == text.skip(at.1),
{
    let ws = CharClass::AsciiWhitespace;
    lemma_leading_run(text, ws);
    let t = trim_start_spec(text, ws);
    lemma_leading_gap(t, ws);
    let from = leading_run(text, ws);
    let to = from + leading_gap(t, ws);
    assert(t.take(leading_gap(t, ws)) == text.subrange(from, to));
    assert(t.skip(leading_gap(t, ws)) == text.skip(to));
    (from, to)
}

/// Cuts the first fragment off a text: the positions at which it starts and
/// ends.
fn cut_fragment(cs: &[char], from: usize) -> (r: (usize, usize))
    requires
        from <= cs.len(),
    ensures
        from <= r.0 <= r.1 <= cs.len(),
        first_fragment(cs@.skip(from as int)) == cs@.subrange(r.0 as int, r.1 as int),
        after_first_fragment(cs@.skip(from as int)) == cs@.skip(r.1 as int),
{
    let ws = CharClass::AsciiWhitespace;
    let start = skip_class(cs, from, ws);
    let end = find_class(cs, start, ws);
    proof {
        let text = cs@.skip(from as int);
        let t = trim_start_spec(text, ws);
        assert(t == cs@.skip(start as int));
        assert(t.take(end - start) == cs@.subrange(start as int, end as int));
        assert(t.skip(end - start) == cs@.skip(end as int));
    }
    (start, end)
}

/// Resolves the date field `dat` and the time field `tim` of a header to the
/// moment they state; see `resolve_spec`. The offset is taken from the text
/// as it stands, in whole hours.
pub fn resolve_header_time(dat: &str, tim: &str) -> (r: Result<ZpdTime, (HeaderParam, FormatCause)>)
    ensures
        r == resolve_spec(dat@, tim@),
{
    let cs = chars_of(tim);
    assert(cs@.skip(0) == cs@);
    let clock_at = cut_fragment(cs.as_slice(), 0);
    let offset_at = cut_fragment(cs.as_slice(), clock_at.1);
    let extra_at = cut_fragment(cs.as_slice(), offset_at.1);
    if clock_at.0 == clock_at.1 || offset_at.0 == offset_at.1 {
        return Err((HeaderParam::Tim, FormatCause::NoWhitespace));
    }
    if extra_at.0 < extra_at.1 {
        return Err((HeaderParam::Tim, FormatCause::ExtraText));
    }
    let clock_chars = &cs[clock_at.0..clock_at.1];
    let offset_chars = &cs[offset_at.0..offset_at.1];
    proof {
        reveal_strlit("%d/%m/%Y");
        reveal_strlit("%H:%M:%S.%3f");
    }
    let date = match parse_date(dat, "%d/%m/%Y") {
        None => {
            return Err((HeaderParam::Dat, FormatCause::BadDate));
        },
        Some(date) => date,
    };
    let clock_text = string_of(clock_chars);
    let clock = match parse_clock(clock_text.as_str(), "%H:%M:%S.%3f") {
        None => {
            return Err((HeaderParam::Tim, FormatCause::BadClock));
        },
        Some(clock) => clock,
    };
    let hours = match read_gmt_offset(offset_chars) {
        GmtOffset::Absent => {
            return Err((HeaderParam::Tim, FormatCause::NoOffset));
        },
        GmtOffset::OutOfBounds => {
            return Err((HeaderParam::Tim, FormatCause::OffsetOutOfBounds));
        },
        GmtOffset::Hours(hours) => hours,
    };
    let offset_secs = hours * 3600;
    match local_to_instant(&date, &clock, offset_secs) {
        None => Err((HeaderParam::Tim, FormatCause::InvalidLocalTime)),
        Some(utc_millis) => Ok(ZpdTime { instant: Timestamp { utc_millis, offset_secs }, date }),
    }
}

/// A time field in which no `(GMT±N)` group stands at any place never
/// resolves, whatever the date is.
pub proof fn law_time_without_offset_group_fails(dat: Seq<char>, tim: Seq<char>)
    requires
        !holds_gmt_group(tim),
    ensures
        resolve_spec(dat, tim) is Err,
{
    if is_gmt_group(offset_fragment(tim)) {
        let first = lemma_first_fragment(tim);
        let rest = after_first_fragment(tim);
        let second = lemma_first_fragment(rest);
        assert(rest.subrange(second.0, second.1) == tim.subrange(
            first.1 + second.0,
            first.1 + second.1,
        ));
        assert(is_gmt_group(tim.subrange(first.1 + second.0, first.1 + second.1)));
    }
}

/// A time field whose second fragment is not a `(GMT±N)` group, from its
/// first character to its last, never resolves, whatever the date and the
/// clock reading are.
pub proof fn law_malformed_offset_group_fails(dat: Seq<char>, tim: Seq<char>)
    requires
        !is_gmt_group(offset_fragment(tim)),
    ensures
        resolve_spec(dat, tim) is Err,
{
}

/// An offset group with anything before or after it is no offset group, so
/// that a time field whose second fragment is such a text never resolves.
pub proof fn law_text_around_offset_group_fails(
    dat: Seq<char>,
    tim: Seq<char>,
    before: Seq<char>,
    group: Seq<char>,
    after: Seq<char>,
)
    requires
        is_gmt_group(group),
        before.len() + after.len() > 0,
        offset_fragment(tim) == before + group + after,
    ensures
        !is_gmt_group(before + group + after),
        resolve_spec(dat, tim) is Err,
{
    let whole = before + group + after;
    if is_gmt_group(whole) {
        if before.len() > 0 {
            // The bracket that opens `group` stands where a group has none.
            let p = before.len() as int;
            assert(whole[p] == group[0]);
            assert(group.subrange(0, 4)[0] == group[0]);
            assert(group[0] == '(');
            if p < 4 {
                assert(whole.subrange(0, 4)[p] == whole[p]);
            } else if p == 4 {
            } else {
                assert(gmt_digits(whole)[p - 5] == whole[p]);
                assert(is_digit(gmt_digits(whole)[p - 5]));
            }
        } else {
            // The bracket that closes `group` stands among the digits.
            let p = group.len() - 1;
            assert(whole[p] == group[p]);
            assert(group.last() == ')');
            assert(gmt_digits(whole)[p - 5] == whole[p]);
            assert(is_digit(gmt_digits(whole)[p - 5]));
        }
    }
}

/// A time field with a third fragment never resolves.
pub proof fn law_extra_text_fails(dat: Seq<char>, tim: Seq<char>)
    requires
        has_extra_text(tim),
    ensures
        resolve_spec(dat, tim) is Err,
{
}

/// A time field whose offset group states a day or more never resolves.
pub proof fn law_offset_of_a_day_or_more_fails(dat: Seq<char>, tim: Seq<char>)
    requires
        gmt_offset_hours(offset_fragment(tim)) matches Some(h) && !hours_in_bounds(h),
    ensures
        resolve_spec(dat, tim) is Err,
{
}

/// Every moment that resolves carries an offset of whole hours, less than a
/// day, which the second and last fragment of the time field states.
pub proof fn law_resolved_offset_is_stated(dat: Seq<char>, tim: Seq<char>)
    requires
        resolve_spec(dat, tim) is Ok,
    ensures
        !has_extra_text(tim),
        is_gmt_group(offset_fragment(tim)),
        hours_in_bounds(gmt_hours(offset_fragment(tim))),
        resolve_spec(dat, tim)->Ok_0.instant.offset_secs == gmt_hours(offset_fragment(tim)) * 3600,
        resolve_spec(dat, tim)->Ok_0.instant.wf(),
{
}

} // verus!
