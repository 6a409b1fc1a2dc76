//! Reader of the text files that a weather logger writes: two header lines,
//! the first of which names the columns, and then, on every line, a date, a
//! time and the readings as compound tokens such as `Ta=26.8C`.

use vstd::prelude::*;
use crate::decimal::{decimal_spec, Decimal};
use crate::meteorology::cit_csv::entries_view;
use crate::meteorology::MetEntry;
use crate::text::{
    chars_eq_str, chars_of, contains_char, find_seq, leading_run, lines_of, lines_spec, occurs_at,
    skip_class, split_on, split_spec, string_of, views, CharClass,
};
use crate::timestamp::{
    instant_of_local, local_to_instant, parse_clock, parse_date, parsed_clock, parsed_date,
    CivilDate, ClockTime, Timestamp,
};

verus! {

/// The columns that are read.
#[derive(Clone, Copy, Debug, PartialEq, Eq, Structural)]
pub enum Col {
    Date,
    Time,
    Pres,
    Temp,
    RH,
}

/// Which of the columns a header lacks.
#[derive(Clone, Copy, Debug, PartialEq, Eq, Structural)]
pub struct MissingColumns {
    pub date: bool,
    pub time: bool,
    pub temperature: bool,
    pub humidity: bool,
    pub pressure: bool,
}

/// Why a value of a line could not be read.
#[derive(Clone, Copy, Debug, PartialEq, Eq, Structural)]
pub enum ParseProblem {
    /// The value does not hold the compound token of its column.
    NoMatch,
    /// The number of the token is too large.
    BadNumber,
    /// The value is not a date written `YYYYMMDD`.
    BadDate,
    /// The value is not a time written `HH:MM`.
    BadTime,
}

/// What is wrong with a line of data.
#[derive(Clone, Copy, Debug, PartialEq, Eq, Structural)]
pub enum LineProblem {
    /// The line has no value in the column.
    LineTooShort(Col),
    /// The line has a malformed value in the column.
    ParsingError(Col, ParseProblem),
    /// The date and time of the line do not exist under the offset, given
    /// in seconds east of UTC.
    InvalidTime(CivilDate, ClockTime, i32),
}

/// Why a file could not be read.
#[derive(Clone, Copy, Debug, PartialEq, Eq, Structural)]
pub enum JplMetError {
    /// The file is empty.
    HeaderLineMissing,
    /// The header lacks columns.
    HeaderMissingFields(MissingColumns),
    /// A line of data, by its number in the file counted from 1, cannot be
    /// read.
    LineError(usize, LineProblem),
}

/// The positions of the columns in the lines of a file.
#[derive(Clone, Copy, Debug, PartialEq, Eq, Structural)]
pub struct ColInds {
    pub date: usize,
    pub time: usize,
    pub pres: usize,
    pub temp: usize,
    pub rh: usize,
}

/// The name of a column in the header.
pub open spec fn column_name(col: Col) -> Seq<char> {
    match col {
        Col::Date => "YYYYMMDD"@,
        Col::Time => "HH:MM"@,
        Col::Pres => "Pressure"@,
        Col::Temp => "Temperature"@,
        Col::RH => "Humidity"@,
    }
}

impl Col {
    /// The name of the column as it is shown to users.
    pub open spec fn spec_name(self) -> Seq<char> {
        match self {
            Col::Pres => "Pressure"@,
            Col::Temp => "Temperature"@,
            Col::RH => "Humidity"@,
            Col::Date => "YYYYMMDD"@,
            Col::Time => "HH:MM"@,
        }
    }

    /// The name of the column as it is shown to users, which is its name in
    /// the header.
    pub fn name(&self) -> (r: &'static str)
        ensures
            r@ == self.spec_name(),
            r@ == column_name(*self),
    {
        match self {
            Col::Pres => "Pressure",
            Col::Temp => "Temperature",
            Col::RH => "Humidity",
            Col::Date => "YYYYMMDD",
            Col::Time => "HH:MM",
        }
    }
}

/// `i` is the first field of `header` that is `name`.
pub open spec fn is_position(header: Seq<Seq<char>>, name: Seq<char>, i: int) -> bool {
    &&& 0 <= i < header.len()
    &&& header[i] == name
    &&& forall|j: int| 0 <= j < i ==> header[j] != name
}

/// The position of the first field of `header` that is `name`, if any.
pub open spec fn position_of(header: Seq<Seq<char>>, name: Seq<char>) -> Option<usize> {
    if exists|i: int| is_position(header, name, i) {
        Some((choose|i: int| is_position(header, name, i)) as usize)
    } else {
        None
    }
}

/// The positions of the columns that a header names, or the columns that it
/// lacks.
pub open spec fn inds_of(header: Seq<Seq<char>>) -> Result<ColInds, JplMetError> {
    let date = position_of(header, column_name(Col::Date));
    let time = position_of(header, column_name(Col::Time));
    let temp = position_of(header, column_name(Col::Temp));
    let rh = position_of(header, column_name(Col::RH));
    let pres = position_of(header, column_name(Col::Pres));
    if date is Some && time is Some && temp is Some && rh is Some && pres is Some {
        Ok(ColInds { date: date->0, time: time->0, pres: pres->0, temp: temp->0, rh: rh->0 })
    } else {
        Err(
            JplMetError::HeaderMissingFields(
                MissingColumns {
                    date: date is None,
                    time: time is None,
                    temperature: temp is None,
                    humidity: rh is None,
                    pressure: pres is None,
                },
            ),
        )
    }
}

/// Finds the first field of a header that is `name`.
fn find_position(header: &[Vec<char>], name: &str) -> (r: Option<usize>)
    ensures
        r == position_of(views(header@), name@),
{
    let mut i: usize = 0;
    while i < header.len()
        invariant
            i <= header.len(),
            forall|j: int| 0 <= j < i ==> views(header@)[j] != name@,
        decreases header.len() - i,
    {
        assert(views(header@)[i as int] == header@[i as int]@);
        if chars_eq_str(header[i].as_slice(), name) {
            proof {
                assert(is_position(views(header@), name@, i as int));
                let k = choose|k: int| is_position(views(header@), name@, k);
                if k < i {
                    assert(views(header@)[k] != name@);
                }
            }
            return Some(i);
        }
        i += 1;
    }
    assert forall|k: int| !is_position(views(header@), name@, k) by {
        if 0 <= k < header.len() {
            assert(views(header@)[k] != name@);
        }
    }
    None
}

/// Finds the columns in a header: the date `YYYYMMDD`, the time `HH:MM`,
/// `Temperature`, `Humidity` and `Pressure`. Where a name occurs more than
/// once, its first field counts; a header that lacks a name is refused with
/// the list of all that it lacks.
pub fn header_to_inds(header: &[Vec<char>]) -> (r: Result<ColInds, JplMetError>)
    ensures
        r == inds_of(views(header@)),
{
    let date = find_position(header, "YYYYMMDD");
    let time = find_position(header, "HH:MM");
    let temp = find_position(header, "Temperature");
    let rh = find_position(header, "Humidity");
    let pres = find_position(header, "Pressure");
    match (date, time, temp, rh, pres) {
        (Some(date), Some(time), Some(temp), Some(rh), Some(pres)) => Ok(
            ColInds { date, time, pres, temp, rh },
        ),
        _ => Err(
            JplMetError::HeaderMissingFields(
                MissingColumns {
                    date: date.is_none(),
                    time: time.is_none(),
                    temperature: temp.is_none(),
                    humidity: rh.is_none(),
                    pressure: pres.is_none(),
                },
            ),
        ),
    }
}

/// What opens the compound token of a column of readings.
pub open spec fn token_opening(col: Col) -> Seq<char> {
    match col {
        Col::Pres => seq!['P', 'a', '='],
        Col::Temp => seq!['T', 'a', '='],
        _ => seq!['U', 'a', '='],
    }
}

/// The letter that closes the compound token of a column of readings.
pub open spec fn token_unit(col: Col) -> char {
    match col {
        Col::Pres => 'H',
        Col::Temp => 'C',
        _ => 'P',
    }
}

/// Where the digits of a token that opens at `i` start: after the opening
/// and after the sign, if the number has one.
pub open spec fn digits_start(s: Seq<char>, i: int) -> int {
    if i + 3 < s.len() && (s[i + 3] == '+' || s[i + 3] == '-') {
        i + 4
    } else {
        i + 3
    }
}

/// The number of digits before the point of a token that opens at `i`.
pub open spec fn whole_run(s: Seq<char>, i: int) -> int {
    leading_run(s.skip(digits_start(s, i)), CharClass::Digit)
}

/// The number of digits after the point of a token that opens at `i`.
pub open spec fn fraction_run(s: Seq<char>, i: int) -> int {
    leading_run(s.skip(digits_start(s, i) + whole_run(s, i) + 1), CharClass::Digit)
}

/// Where the token that opens at `i` ends: the position of its unit letter.
pub open spec fn token_end(s: Seq<char>, i: int) -> int {
    digits_start(s, i) + whole_run(s, i) + 1 + fraction_run(s, i)
}

/// The compound token of `col` opens at position `i` of `s`: the opening, a
/// number and the unit letter, where the number is an optional sign, one or
/// more digits, a point and one or more digits.
pub open spec fn token_at(s: Seq<char>, col: Col, i: int) -> bool {
    &&& occurs_at(s, token_opening(col), i)
    &&& whole_run(s, i) >= 1
    &&& digits_start(s, i) + whole_run(s, i) < s.len()
    &&& s[digits_start(s, i) + whole_run(s, i)] == '.'
    &&& fraction_run(s, i) >= 1
    &&& token_end(s, i) < s.len()
    &&& s[token_end(s, i)] == token_unit(col)
}

/// `i` is where the first compound token of `col` opens in `s`.
pub open spec fn is_first_token(s: Seq<char>, col: Col, i: int) -> bool {
    token_at(s, col, i) && forall|j: int| 0 <= j < i ==> !token_at(s, col, j)
}

/// The reading that a value of the column `col` holds: the number, sign
/// included, of the first compound token of `col` in it.
pub open spec fn reading_of(s: Seq<char>, col: Col) -> Result<Decimal, LineProblem> {
    if exists|i: int| token_at(s, col, i) {
        let i = choose|i: int| is_first_token(s, col, i);
        match decimal_spec(s.subrange(i + 3, token_end(s, i))) {
            Some(v) => Ok(v),
            None => Err(LineProblem::ParsingError(col, ParseProblem::BadNumber)),
        }
    } else {
        Err(LineProblem::ParsingError(col, ParseProblem::NoMatch))
    }
}

/// The first compound token of a text is unique.
pub proof fn lemma_first_token_unique(s: Seq<char>, col: Col, i: int, j: int)
    requires
        is_first_token(s, col, i),
        is_first_token(s, col, j),
    ensures
        i == j,
{
    if i < j {
        assert(!token_at(s, col, i));
    } else if j < i {
        assert(!token_at(s, col, j));
    }
}

/// Reads the reading that a value of a column of readings holds.
pub fn read_reading(s: &[char], col: Col) -> (r: Result<Decimal, LineProblem>)
    requires
        col == Col::Pres || col == Col::Temp || col == Col::RH,
    ensures
        r == reading_of(s@, col),
{
    let opening: [char; 3] = match col {
        Col::Pres => ['P', 'a', '='],
        Col::Temp => ['T', 'a', '='],
        _ => ['U', 'a', '='],
    };
    let unit = match col {
        Col::Pres => 'H',
        Col::Temp => 'C',
        _ => 'P',
    };
    assert(opening@ == token_opening(col));
    let n = s.len();
    let mut from: usize = 0;
    loop
        invariant
            n == s.len(),
            opening@ == token_opening(col),
            unit == token_unit(col),
            forall|j: int| 0 <= j < from ==> !token_at(s@, col, j),
        decreases n + 1 - from,
    {
        let i = match find_seq(s, opening.as_slice(), from) {
            None => {
                assert forall|j: int| !token_at(s@, col, j) by {
                    if j >= from {
                        assert(!occurs_at(s@, token_opening(col), j));
                    }
                }
                return Err(LineProblem::ParsingError(col, ParseProblem::NoMatch));
            },
            Some(i) => i,
        };
        assert(i + 3 <= n);
        let digits: usize = if i + 3 < n && (s[i + 3] == '+' || s[i + 3] == '-') {
            i + 4
        } else {
            i + 3
        };
        assert(digits == digits_start(s@, i as int));
        let point = skip_class(s, digits, CharClass::Digit);
        let mut end: usize = 0;
        let mut matched = false;
        if point > digits && point < n && s[point] == '.' {
            end = skip_class(s, point + 1, CharClass::Digit);
            matched = end > point + 1 && end < n && s[end] == unit;
        }
        if matched {
            assert(token_at(s@, col, i as int));
            assert(is_first_token(s@, col, i as int));
            proof {
                lemma_first_token_unique(
                    s@,
                    col,
                    i as int,
                    choose|k: int| is_first_token(s@, col, k),
                );
            }
            return match Decimal::parse_chars(&s[i + 3..end]) {
                Some(v) => Ok(v),
                None => Err(LineProblem::ParsingError(col, ParseProblem::BadNumber)),
            };
        }
        assert(!token_at(s@, col, i as int));
        assert forall|j: int| 0 <= j < i + 1 implies !token_at(s@, col, j) by {
            if from <= j < i {
                assert(!occurs_at(s@, token_opening(col), j));
            }
        }
        from = i + 1;
    }
}

/// The field of a line at a position, if the line has that many fields.
pub open spec fn field_at(parts: Seq<Seq<char>>, i: usize) -> Option<Seq<char>> {
    if i < parts.len() {
        Some(parts[i as int])
    } else {
        None
    }
}

/// The reading of the column `col` of a line, which stands at position `i`.
pub open spec fn numeric_part_of(parts: Seq<Seq<char>>, col: Col, i: usize) -> Result<
    Decimal,
    LineProblem,
> {
    match field_at(parts, i) {
        None => Err(LineProblem::LineTooShort(col)),
        Some(s) => reading_of(s, col),
    }
}

/// Reads the reading of a column of readings from the fields of a line.
pub fn parse_line_numeric_part(parts: &[Vec<char>], col: Col, inds: &ColInds) -> (r: Result<
    Decimal,
    LineProblem,
>)
    requires
        col == Col::Pres || col == Col::Temp || col == Col::RH,
    ensures
        r == numeric_part_of(
            views(parts@),
            col,
            match col {
                Col::Pres => inds.pres,
                Col::Temp => inds.temp,
                _ => inds.rh,
            },
        ),
{
    let i = match col {
        Col::Pres => inds.pres,
        Col::Temp => inds.temp,
        _ => inds.rh,
    };
    if i >= parts.len() {
        return Err(LineProblem::LineTooShort(col));
    }
    assert(views(parts@)[i as int] == parts@[i as int]@);
    read_reading(parts[i].as_slice(), col)
}

/// The format of the date column.
pub open spec fn date_format() -> Seq<char> {
    "%Y%m%d"@
}

/// The format of the time column.
pub open spec fn clock_format() -> Seq<char> {
    "%H:%M"@
}

/// The instant that a line states, read under the offset `offset`.
pub open spec fn datetime_of(parts: Seq<Seq<char>>, inds: ColInds, offset: i32) -> Result<
    Timestamp,
    LineProblem,
> {
    match field_at(parts, inds.date) {
        None => Err(LineProblem::LineTooShort(Col::Date)),
        Some(date_text) => match field_at(parts, inds.time) {
            None => Err(LineProblem::LineTooShort(Col::Time)),
            Some(time_text) => match parsed_date(date_text, date_format()) {
                None => Err(LineProblem::ParsingError(Col::Date, ParseProblem::BadDate)),
                Some(date) => match parsed_clock(time_text, clock_format()) {
                    None => Err(LineProblem::ParsingError(Col::Time, ParseProblem::BadTime)),
                    Some(clock) => match instant_of_local(
                        date.year as int,
                        date.month as int,
                        date.day as int,
                        clock.seconds as int,
                        clock.nanos as int,
                        offset as int,
                    ) {
                        None => Err(LineProblem::InvalidTime(date, clock, offset)),
                        Some(utc_millis) => Ok(Timestamp { utc_millis, offset_secs: offset }),
                    },
                },
            },
        },
    }
}

/// Reads the instant that a line states from its fields.
pub fn parse_line_datetime(parts: &[Vec<char>], inds: &ColInds, offset: i32) -> (r: Result<
    Timestamp,
    LineProblem,
>)
    ensures
        r == datetime_of(views(parts@), *inds, offset),
{
    if inds.date >= parts.len() {
        return Err(LineProblem::LineTooShort(Col::Date));
    }
    if inds.time >= parts.len() {
        return Err(LineProblem::LineTooShort(Col::Time));
    }
    assert(views(parts@)[inds.date as int] == parts@[inds.date as int]@);
    assert(views(parts@)[inds.time as int] == parts@[inds.time as int]@);
    let date_text = string_of(parts[inds.date].as_slice());
    let time_text = string_of(parts[inds.time].as_slice());
    proof {
        reveal_strlit("%Y%m%d");
        reveal_strlit("%H:%M");
    }
    let date = match parse_date(date_text.as_str(), "%Y%m%d") {
        None => {
            return Err(LineProblem::ParsingError(Col::Date, ParseProblem::BadDate));
        },
        Some(date) => date,
    };
    let clock = match parse_clock(time_text.as_str(), "%H:%M") {
        None => {
            return Err(LineProblem::ParsingError(Col::Time, ParseProblem::BadTime));
        },
        Some(clock) => clock,
    };
    match local_to_instant(&date, &clock, offset) {
        None => Err(LineProblem::InvalidTime(date, clock, offset)),
        Some(utc_millis) => Ok(Timestamp { utc_millis, offset_secs: offset }),
    }
}

/// The observation that a line gives, `None` for a line that holds a `#`,
/// or what is wrong with the line. Temperature, pressure, humidity and time
/// are read in this order; the first that fails decides.
pub open spec fn entry_of(line: Seq<char>, inds: ColInds, offset: i32) -> Result<
    Option<MetEntry>,
    LineProblem,
> {
    let parts = split_spec(line, ',');
    if line.contains('#') {
        Ok(None)
    } else {
        match numeric_part_of(parts, Col::Temp, inds.temp) {
            Err(e) => Err(e),
            Ok(temperature) => match numeric_part_of(parts, Col::Pres, inds.pres) {
                Err(e) => Err(e),
                Ok(pressure) => match numeric_part_of(parts, Col::RH, inds.rh) {
                    Err(e) => Err(e),
                    Ok(humidity) => match datetime_of(parts, inds, offset) {
                        Err(e) => Err(e),
                        Ok(datetime) => Ok(
                            Some(
                                MetEntry {
                                    datetime,
                                    temperature: Some(temperature),
                                    pressure,
                                    humidity: Some(humidity),
                                },
                            ),
                        ),
                    },
                },
            },
        }
    }
}

/// The observations that the lines of data `lines` give, in order, or what
/// is wrong with the first line that gives none and is not passed over. The
/// first line of data is line 3 of the file.
pub open spec fn entries_of(lines: Seq<Seq<char>>, inds: ColInds, offset: i32) -> Result<
    Seq<MetEntry>,
    JplMetError,
>
    decreases lines.len(),
{
    if lines.len() == 0 {
        Ok(Seq::empty())
    } else {
        match entries_of(lines.drop_last(), inds, offset) {
            Err(e) => Err(e),
            Ok(entries) => match entry_of(lines.last(), inds, offset) {
                Err(problem) => Err(
                    JplMetError::LineError((lines.len() + HEADER_LINES) as usize, problem),
                ),
                Ok(None) => Ok(entries),
                Ok(Some(entry)) => Ok(entries.push(entry)),
            },
        }
    }
}

/// A failure at a line is the failure of every longer list of lines.
pub proof fn lemma_entries_failure_propagates(
    lines: Seq<Seq<char>>,
    inds: ColInds,
    offset: i32,
    n: int,
)
    requires
        0 <= n <= lines.len(),
        entries_of(lines.take(n), inds, offset) is Err,
    ensures
        entries_of(lines, inds, offset) == entries_of(lines.take(n), inds, offset),
    decreases lines.len() - n,
{
    if n < lines.len() {
        assert(lines.take(n + 1).drop_last() == lines.take(n));
        lemma_entries_failure_propagates(lines, inds, offset, n + 1);
    } else {
        assert(lines.take(n) == lines);
    }
}

/// The number of lines at the head of a file that hold no observation: the
/// line that names the columns and the line after it.
pub const HEADER_LINES: usize = 2;

/// The lines of data of a file: its lines after the header lines.
pub open spec fn data_lines(lines: Seq<Seq<char>>) -> Seq<Seq<char>> {
    if lines.len() >= HEADER_LINES {
        lines.skip(HEADER_LINES as int)
    } else {
        Seq::empty()
    }
}

/// The observations that a file gives, or why it cannot be read.
///
/// The first line names the columns; it and the line after it hold no
/// observation. Of the other lines, one that holds a `#` is passed over;
/// every other gives one observation, whose time is local to the offset
/// `offset`, in seconds east of UTC.
pub open spec fn jpl_met_of(contents: Seq<char>, offset: i32) -> Result<Seq<MetEntry>, JplMetError> {
    let lines = lines_spec(contents);
    if lines.len() == 0 {
        Err(JplMetError::HeaderLineMissing)
    } else {
        match inds_of(split_spec(lines[0], ',')) {
            Err(e) => Err(e),
            Ok(inds) => entries_of(data_lines(lines), inds, offset),
        }
    }
}

/// Reads the observations of a file from its contents; see `jpl_met_of`.
pub fn read_jpl_vaisala_met(contents: &str, tz_offset: i32) -> (r: Result<Vec<MetEntry>, JplMetError>)
    ensures
        entries_view(r) == jpl_met_of(contents@, tz_offset),
{
    let cs = chars_of(contents);
    let lines = lines_of(cs.as_slice());
    if lines.len() == 0 {
        return Err(JplMetError::HeaderLineMissing);
    }
    let header = split_on(lines[0].as_slice(), ',');
    assert(views(lines@)[0] == lines@[0]@);
    let column_inds = match header_to_inds(header.as_slice()) {
        Err(e) => {
            return Err(e);
        },
        Ok(inds) => inds,
    };
    let mut met_data: Vec<MetEntry> = Vec::new();
    if lines.len() < HEADER_LINES {
        return Ok(met_data);
    }
    let ghost rows = data_lines(lines_spec(contents@));
    assert(rows == views(lines@).skip(2));
    let mut i: usize = HEADER_LINES;
    assert(rows.take(0) == Seq::<Seq<char>>::empty());
    while i < lines.len()
        invariant
            2 <= i <= lines.len(),
            rows == views(lines@).skip(2),
            jpl_met_of(contents@, tz_offset) == entries_of(rows, column_inds, tz_offset),
            entries_of(rows.take(i - 2), column_inds, tz_offset) == Ok::<
                Seq<MetEntry>,
                JplMetError,
            >(met_data@),
        decreases lines.len() - i,
    {
        let line = lines[i].as_slice();
        assert(rows.take(i - 1).drop_last() == rows.take(i - 2));
        assert(rows.take(i - 1).last() == line@);
        let outcome: Result<Option<MetEntry>, LineProblem> = if contains_char(line, '#') {
            Ok(None)
        } else {
            let parts = split_on(line, ',');
            match parse_line_numeric_part(parts.as_slice(), Col::Temp, &column_inds) {
                Err(e) => Err(e),
                Ok(temperature) => match parse_line_numeric_part(
                    parts.as_slice(),
                    Col::Pres,
                    &column_inds,
                ) {
                    Err(e) => Err(e),
                    Ok(pressure) => match parse_line_numeric_part(
                        parts.as_slice(),
                        Col::RH,
                        &column_inds,
                    ) {
                        Err(e) => Err(e),
                        Ok(humidity) => match parse_line_datetime(
                            parts.as_slice(),
                            &column_inds,
                            tz_offset,
                        ) {
                            Err(e) => Err(e),
                            Ok(datetime) => Ok(
                                Some(
                                    MetEntry {
                                        datetime,
                                        temperature: Some(temperature),
                                        pressure,
                                        humidity: Some(humidity),
                                    },
                                ),
                            ),
                        },
                    },
                },
            }
        };
        match outcome {
            Err(problem) => {
                proof {
                    lemma_entries_failure_propagates(rows, column_inds, tz_offset, i - 1);
                }
                return Err(JplMetError::LineError(i + 1, problem));
            },
            Ok(None) => {},
            Ok(Some(entry)) => {
                met_data.push(entry);
            },
        }
        i += 1;
    }
    assert(rows.take(lines.len() - 2) == rows);
    Ok(met_data)
}

} // verus!
