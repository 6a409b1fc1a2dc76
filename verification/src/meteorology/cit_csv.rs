//! Reader of sets of CSV files downloaded from a weather station: one file
//! of pressures and, optionally, one of temperatures and one of humidities,
//! each with a column of local times and a column of values.

use vstd::prelude::*;
use crate::decimal::{decimal_spec, Decimal};
use crate::meteorology::MetEntry;
use crate::text::{
    chars_eq, chars_eq_str, chars_of, contains_chars, contains_seq, lines_of, lines_spec, split_on,
    split_spec, string_of, trim, trim_spec, views, CharClass,
};
use crate::timestamp::{
    day_of_week, instant_of_local, local_to_instant, parse_date_time, parsed_date_time,
    weekday_of, CivilDate, CivilDateTime, Timestamp,
};

verus! {

/// The files of a set.
#[derive(Clone, Copy, Debug, PartialEq, Eq, Structural)]
pub enum CitFile {
    Pressure,
    Temperature,
    Humidity,
}

/// How the times of two files differ.
#[derive(Clone, Copy, Debug, PartialEq, Eq, Structural)]
pub enum TimeMismatch {
    /// The files hold different numbers of times.
    DifferentCounts,
    /// The files hold different times on this line, counted from 1 with the
    /// header as line 1; it is the first such line.
    DifferentOnLine(usize),
}

/// Why a set of files could not be read.
#[derive(Clone, Copy, Debug, PartialEq, Eq, Structural)]
pub enum CitMetError {
    /// The site is not one whose offsets from UTC are known.
    UnknownSite,
    /// The file is empty.
    HeaderLineMissing(CitFile),
    /// A column of the header, counted from 1, does not name what the file
    /// is to hold, is missing, or is one too many.
    UnexpectedColumn { file: CitFile, col_index: u8 },
    /// A line, counted from 1, holds fewer than two values.
    LineTooShort(CitFile, usize),
    /// A value of a line could not be read; line and column count from 1.
    ParsingError { file: CitFile, line: usize, col: u8 },
    /// The times of two files do not match line for line.
    TimeMismatch { file1: CitFile, file2: CitFile, cause: TimeMismatch },
    /// The time of a line of the pressure file, counted from 1, does not
    /// exist at the site.
    TimezoneError { line: usize },
}

/// The sites whose offsets from UTC are known.
#[derive(Clone, Copy, Debug, PartialEq, Eq, Structural)]
pub enum TcconMetSite {
    ParkFalls,
    Lamont,
    Caltech,
}

/// The seconds east of UTC of Central Standard Time.
pub const CENTRAL_STANDARD_SECS: i32 = -6 * 3600;

/// The seconds east of UTC of Central Daylight Time.
pub const CENTRAL_DAYLIGHT_SECS: i32 = -5 * 3600;

/// The seconds east of UTC of Pacific Standard Time.
pub const PACIFIC_STANDARD_SECS: i32 = -8 * 3600;

/// The seconds east of UTC of Pacific Daylight Time.
pub const PACIFIC_DAYLIGHT_SECS: i32 = -7 * 3600;

/// The hour of the day before which lines are dropped: the clock changes
/// fall before it.
pub const FIRST_HOUR_KEPT: u32 = 3;

/// Whether daylight-saving time is in force in the United States on a date
/// with the given day of the week (days since Sunday), for times of day after
/// the clocks have changed: from the second Sunday of March up to, but not
/// including, the first Sunday of November.
pub open spec fn is_usa_dst(date: CivilDate, weekday: int) -> bool {
    // The day of the month of the last Sunday that is not after the date;
    // zero or less where the month has had no Sunday yet.
    let last_sunday = date.day - weekday;
    if 3 < date.month < 11 {
        true
    } else if date.month == 3 {
        last_sunday >= 8
    } else if date.month == 11 {
        last_sunday <= 0
    } else {
        false
    }
}

/// Tells whether daylight-saving time is in force.
pub fn usa_dst(date: &CivilDate, weekday: u32) -> (r: bool)
    ensures
        r == is_usa_dst(*date, weekday as int),
{
    let last_sunday: i64 = date.day as i64 - weekday as i64;
    if 3 < date.month && date.month < 11 {
        true
    } else if date.month == 3 {
        last_sunday >= 8
    } else if date.month == 11 {
        last_sunday <= 0
    } else {
        false
    }
}

impl TcconMetSite {
    /// The site that a two-letter code names.
    pub open spec fn named(code: Seq<char>) -> Option<TcconMetSite> {
        if code == "ci"@ {
            Some(TcconMetSite::Caltech)
        } else if code == "oc"@ {
            Some(TcconMetSite::Lamont)
        } else if code == "pa"@ {
            Some(TcconMetSite::ParkFalls)
        } else {
            None
        }
    }

    /// Reads a site from its two-letter code: `ci`, `oc` or `pa`.
    pub fn from_str(s: &str) -> (r: Result<TcconMetSite, CitMetError>)
        ensures
            r == match TcconMetSite::named(s@) {
                Some(site) => Ok::<TcconMetSite, CitMetError>(site),
                None => Err(CitMetError::UnknownSite),
            },
    {
        let cs = chars_of(s);
        if chars_eq_str(cs.as_slice(), "ci") {
            Ok(TcconMetSite::Caltech)
        } else if chars_eq_str(cs.as_slice(), "oc") {
            Ok(TcconMetSite::Lamont)
        } else if chars_eq_str(cs.as_slice(), "pa") {
            Ok(TcconMetSite::ParkFalls)
        } else {
            Err(CitMetError::UnknownSite)
        }
    }

    /// The seconds east of UTC of the clocks at the site.
    pub open spec fn offset_secs(self, dst: bool) -> i32 {
        match self {
            TcconMetSite::ParkFalls | TcconMetSite::Lamont => if dst {
                CENTRAL_DAYLIGHT_SECS
            } else {
                CENTRAL_STANDARD_SECS
            },
            TcconMetSite::Caltech => if dst {
                PACIFIC_DAYLIGHT_SECS
            } else {
                PACIFIC_STANDARD_SECS
            },
        }
    }

    /// The instant at which the clocks at the site show `datetime`, or `None`
    /// where they never do.
    pub open spec fn local_instant(self, datetime: CivilDateTime) -> Option<Timestamp> {
        match weekday_of(
            datetime.date.year as int,
            datetime.date.month as int,
            datetime.date.day as int,
        ) {
            None => None,
            Some(weekday) => {
                let offset = self.offset_secs(is_usa_dst(datetime.date, weekday as int));
                match instant_of_local(
                    datetime.date.year as int,
                    datetime.date.month as int,
                    datetime.date.day as int,
                    datetime.clock.seconds as int,
                    datetime.clock.nanos as int,
                    offset as int,
                ) {
                    None => None,
                    Some(utc_millis) => Some(Timestamp { utc_millis, offset_secs: offset }),
                }
            },
        }
    }

    /// Attaches to a local date and time the offset from UTC that the clocks
    /// at the site had then.
    pub fn add_timezone(&self, datetime: &CivilDateTime) -> (r: Option<Timestamp>)
        ensures
            r == self.local_instant(*datetime),
    {
        let weekday = match day_of_week(&datetime.date) {
            None => {
                return None;
            },
            Some(w) => w,
        };
        let dst = usa_dst(&datetime.date, weekday);
        let offset = match self {
            TcconMetSite::ParkFalls | TcconMetSite::Lamont => if dst {
                CENTRAL_DAYLIGHT_SECS
            } else {
                CENTRAL_STANDARD_SECS
            },
            TcconMetSite::Caltech => if dst {
                PACIFIC_DAYLIGHT_SECS
            } else {
                PACIFIC_STANDARD_SECS
            },
        };
        match local_to_instant(&datetime.date, &datetime.clock, offset) {
            None => None,
            Some(utc_millis) => Some(Timestamp { utc_millis, offset_secs: offset }),
        }
    }
}

/// What a file must name in the second column of its header.
pub open spec fn quantity_name(file: CitFile) -> Seq<char> {
    match file {
        CitFile::Pressure => "Pressure (mb)"@,
        CitFile::Temperature => "Temperature"@,
        CitFile::Humidity => "Relative Humidity (%)"@,
    }
}

/// What is wrong with the header of a file, if anything. A header has two
/// columns: the first must name the time and the second the quantity that
/// the file is to hold. A header with one column lacks its second, and the
/// third column of a longer header is one too many.
pub open spec fn header_problem(header: Seq<char>, file: CitFile) -> Option<CitMetError> {
    let columns = split_spec(header, ',');
    if !contains_seq(columns[0], "Time"@) {
        Some(CitMetError::UnexpectedColumn { file, col_index: 1 })
    } else if columns.len() < 2 || !contains_seq(columns[1], quantity_name(file)) {
        Some(CitMetError::UnexpectedColumn { file, col_index: 2 })
    } else if columns.len() > 2 {
        Some(CitMetError::UnexpectedColumn { file, col_index: 3 })
    } else {
        None
    }
}

/// The time and the value of a data line, or what is wrong with the line,
/// which stands on line `number` of the file. The time is the first value
/// without the quotes around it, the value the second.
pub open spec fn row_of(line: Seq<char>, file: CitFile, number: int) -> Result<
    (Seq<char>, Decimal),
    CitMetError,
> {
    let values = split_spec(line, ',');
    if values.len() < 2 {
        Err(CitMetError::LineTooShort(file, number as usize))
    } else {
        match decimal_spec(values[1]) {
            None => Err(CitMetError::ParsingError { file, line: number as usize, col: 2 }),
            Some(v) => Ok((trim_spec(values[0], CharClass::Only('"')), v)),
        }
    }
}

/// The times and the values of the data lines `rows`, the first of which
/// stands on line 2 of the file, or what is wrong with the first line that
/// cannot be read.
pub open spec fn rows_of(rows: Seq<Seq<char>>, file: CitFile) -> Result<
    (Seq<Seq<char>>, Seq<Decimal>),
    CitMetError,
>
    decreases rows.len(),
{
    if rows.len() == 0 {
        Ok((Seq::empty(), Seq::empty()))
    } else {
        match rows_of(rows.drop_last(), file) {
            Err(e) => Err(e),
            Ok((times, values)) => match row_of(rows.last(), file, rows.len() as int + 1) {
                Err(e) => Err(e),
                Ok((time, value)) => Ok((times.push(time), values.push(value))),
            },
        }
    }
}

/// The times and the values that a file holds, or why it cannot be read.
pub open spec fn table_of(contents: Seq<char>, file: CitFile) -> Result<
    (Seq<Seq<char>>, Seq<Decimal>),
    CitMetError,
> {
    let lines = lines_spec(contents);
    if lines.len() == 0 {
        Err(CitMetError::HeaderLineMissing(file))
    } else {
        match header_problem(lines[0], file) {
            Some(e) => Err(e),
            None => rows_of(lines.skip(1), file),
        }
    }
}

/// A failure at a line is the failure of every longer list of lines.
pub proof fn lemma_rows_failure_propagates(rows: Seq<Seq<char>>, file: CitFile, n: int)
    requires
        0 <= n <= rows.len(),
        rows_of(rows.take(n), file) is Err,
    ensures
        rows_of(rows, file) == rows_of(rows.take(n), file),
    decreases rows.len() - n,
{
    if n < rows.len() {
        assert(rows.take(n + 1).drop_last() == rows.take(n));
        lemma_rows_failure_propagates(rows, file, n + 1);
    } else {
        assert(rows.take(n) == rows);
    }
}

/// The times and the values of a file as they come out of reading it.
pub struct CitTable {
    pub times: Vec<Vec<char>>,
    pub values: Vec<Decimal>,
}

impl CitTable {
    /// The table as a pair of sequences.
    pub open spec fn as_seqs(&self) -> (Seq<Seq<char>>, Seq<Decimal>) {
        (views(self.times@), self.values@)
    }
}

/// The result of reading a file, as sequences.
pub open spec fn table_view(r: Result<CitTable, CitMetError>) -> Result<
    (Seq<Seq<char>>, Seq<Decimal>),
    CitMetError,
> {
    match r {
        Ok(table) => Ok(table.as_seqs()),
        Err(e) => Err(e),
    }
}

/// Reads the times and the values of one file of a set from its contents.
///
/// The first line is the header. Every other line must hold, separated by
/// commas, a time and a value; what follows the value is ignored.
pub fn read_cit_csv(contents: &str, file: CitFile) -> (r: Result<CitTable, CitMetError>)
    ensures
        table_view(r) == table_of(contents@, file),
        r matches Ok(table) ==> table.times.len() == table.values.len(),
{
    let cs = chars_of(contents);
    let lines = lines_of(cs.as_slice());
    if lines.len() == 0 {
        return Err(CitMetError::HeaderLineMissing(file));
    }
    let columns = split_on(lines[0].as_slice(), ',');
    let time_name = chars_of("Time");
    let quantity = match file {
        CitFile::Pressure => chars_of("Pressure (mb)"),
        CitFile::Temperature => chars_of("Temperature"),
        CitFile::Humidity => chars_of("Relative Humidity (%)"),
    };
    assert(views(lines@)[0] == lines@[0]@);
    assert(views(columns@)[0] == columns@[0]@);
    if !contains_chars(columns[0].as_slice(), time_name.as_slice()) {
        return Err(CitMetError::UnexpectedColumn { file, col_index: 1 });
    }
    if columns.len() < 2 {
        return Err(CitMetError::UnexpectedColumn { file, col_index: 2 });
    }
    assert(views(columns@)[1] == columns@[1]@);
    if !contains_chars(columns[1].as_slice(), quantity.as_slice()) {
        return Err(CitMetError::UnexpectedColumn { file, col_index: 2 });
    }
    if columns.len() > 2 {
        return Err(CitMetError::UnexpectedColumn { file, col_index: 3 });
    }
    let ghost rows = lines_spec(contents@).skip(1);
    assert(rows == views(lines@).skip(1));
    let mut times: Vec<Vec<char>> = Vec::new();
    let mut values: Vec<Decimal> = Vec::new();
    let mut i: usize = 1;
    assert(rows.take(0) == Seq::<Seq<char>>::empty());
    assert(views(times@) == Seq::<Seq<char>>::empty());
    assert(views(lines@)[0] == lines@[0]@);
    assert(table_of(contents@, file) == rows_of(rows, file));
    while i < lines.len()
        invariant
            1 <= i <= lines.len(),
            rows == views(lines@).skip(1),
            table_of(contents@, file) == rows_of(rows, file),
            rows_of(rows.take(i - 1), file) == Ok::<(Seq<Seq<char>>, Seq<Decimal>), CitMetError>(
                (views(times@), values@),
            ),
            times.len() == values.len(),
        decreases lines.len() - i,
    {
        let line = lines[i].as_slice();
        assert(rows.take(i as int).drop_last() == rows.take(i - 1));
        assert(rows.take(i as int).last() == line@);
        let fields = split_on(line, ',');
        let row: Result<(Vec<char>, Decimal), CitMetError> = if fields.len() < 2 {
            Err(CitMetError::LineTooShort(file, i + 1))
        } else {
            assert(views(fields@)[0] == fields@[0]@);
            assert(views(fields@)[1] == fields@[1]@);
            match Decimal::parse_chars(fields[1].as_slice()) {
                None => Err(CitMetError::ParsingError { file, line: i + 1, col: 2 }),
                Some(v) => Ok((trim(fields[0].as_slice(), CharClass::Only('"')), v)),
            }
        };
        match row {
            Err(e) => {
                proof {
                    lemma_rows_failure_propagates(rows, file, i as int);
                }
                return Err(e);
            },
            Ok((time, value)) => {
                let ghost before = views(times@);
                times.push(time);
                values.push(value);
                assert(views(times@) == before.push(time@));
            },
        }
        i += 1;
    }
    assert(rows.take(lines.len() - 1) == rows);
    Ok(CitTable { times, values })
}

/// The number of the line that holds the data line at position `index`,
/// lines counted from 1 with the header as line 1.
pub open spec fn line_number(index: int) -> usize {
    if index + 2 > usize::MAX {
        usize::MAX
    } else {
        (index + 2) as usize
    }
}

/// The number of the line that holds the data line at position `index`.
pub fn line_number_of(index: usize) -> (r: usize)
    ensures
        r == line_number(index as int),
{
    if index > usize::MAX - 2 {
        usize::MAX
    } else {
        index + 2
    }
}

/// `i` is the first position at which two lists of times differ.
pub open spec fn is_first_difference(a: Seq<Seq<char>>, b: Seq<Seq<char>>, i: int) -> bool {
    &&& 0 <= i < a.len()
    &&& i < b.len()
    &&& a[i] != b[i]
    &&& forall|j: int| 0 <= j < i ==> a[j] == b[j]
}

/// How the times `new_times` of the file `file2` differ from the times
/// `main_times` of the file `file1`, if they do.
pub open spec fn times_mismatch(
    main_times: Seq<Seq<char>>,
    new_times: Seq<Seq<char>>,
    file1: CitFile,
    file2: CitFile,
) -> Option<CitMetError> {
    if main_times.len() != new_times.len() {
        Some(CitMetError::TimeMismatch { file1, file2, cause: TimeMismatch::DifferentCounts })
    } else if main_times == new_times {
        None
    } else {
        Some(
            CitMetError::TimeMismatch {
                file1,
                file2,
                cause: TimeMismatch::DifferentOnLine(
                    line_number(choose|i: int| is_first_difference(main_times, new_times, i)),
                ),
            },
        )
    }
}

/// Checks that two files of a set hold the same times, line for line.
///
/// Fails if the files hold different numbers of times, and else at the first
/// line, counted from 1 with the header as line 1, on which the times
/// differ.
pub fn check_times(
    main_times: &[Vec<char>],
    new_times: &[Vec<char>],
    file1: CitFile,
    file2: CitFile,
) -> (r: Result<(), CitMetError>)
    ensures
        r is Ok <==> views(main_times@) == views(new_times@),
        r == match times_mismatch(views(main_times@), views(new_times@), file1, file2) {
            Some(e) => Err::<(), CitMetError>(e),
            None => Ok(()),
        },
{
    if main_times.len() != new_times.len() {
        assert(views(main_times@).len() != views(new_times@).len());
        return Err(
            CitMetError::TimeMismatch { file1, file2, cause: TimeMismatch::DifferentCounts },
        );
    }
    let ghost a = views(main_times@);
    let ghost b = views(new_times@);
    let mut i: usize = 0;
    while i < main_times.len()
        invariant
            i <= main_times.len(),
            main_times.len() == new_times.len(),
            a == views(main_times@),
            b == views(new_times@),
            forall|j: int| 0 <= j < i ==> a[j] == b[j],
        decreases main_times.len() - i,
    {
        if !chars_eq(main_times[i].as_slice(), new_times[i].as_slice()) {
            proof {
                assert(a[i as int] != b[i as int]);
                assert(is_first_difference(a, b, i as int));
                let k = choose|k: int| is_first_difference(a, b, k);
                if k < i {
                    assert(a[k] == b[k]);
                } else if i < k {
                    assert(a[i as int] == b[i as int]);
                }
            }
            return Err(
                CitMetError::TimeMismatch {
                    file1,
                    file2,
                    cause: TimeMismatch::DifferentOnLine(line_number_of(i)),
                },
            );
        }
        i += 1;
    }
    assert(a =~= b);
    Ok(())
}

/// The format of the times of a file.
pub open spec fn time_format() -> Seq<char> {
    "%Y-%m-%d %H:%M:%S"@
}

/// The value at position `i` of the values of an optional file; no value
/// where there is no such file.
pub open spec fn value_at(values: Option<Seq<Decimal>>, i: int) -> Option<Decimal> {
    match values {
        Some(v) => Some(v[i]),
        None => None,
    }
}

/// The observation that the data line at position `index` of the pressure
/// file gives, `None` for a line that is dropped because its local time is
/// before three in the morning, or what is wrong with the line.
pub open spec fn entry_of(
    site: TcconMetSite,
    time: Seq<char>,
    pressure: Decimal,
    temperature: Option<Decimal>,
    humidity: Option<Decimal>,
    index: int,
) -> Result<Option<MetEntry>, CitMetError> {
    match parsed_date_time(time, time_format()) {
        None => Err(
            CitMetError::ParsingError { file: CitFile::Pressure, line: line_number(index), col: 1 },
        ),
        Some(local) => if local.clock.spec_hour() < FIRST_HOUR_KEPT {
            Ok(None)
        } else {
            match site.local_instant(local) {
                None => Err(CitMetError::TimezoneError { line: line_number(index) }),
                Some(datetime) => Ok(
                    Some(
                        MetEntry { datetime, temperature, pressure, humidity },
                    ),
                ),
            }
        },
    }
}

/// The observations that the first `n` lines of data give, in order, or
/// what is wrong with the first line that gives none and is not dropped.
pub open spec fn entries_of(
    site: TcconMetSite,
    times: Seq<Seq<char>>,
    pressures: Seq<Decimal>,
    temperatures: Option<Seq<Decimal>>,
    humidities: Option<Seq<Decimal>>,
    n: int,
) -> Result<Seq<MetEntry>, CitMetError>
    decreases n,
{
    if n <= 0 {
        Ok(Seq::empty())
    } else {
        match entries_of(site, times, pressures, temperatures, humidities, n - 1) {
            Err(e) => Err(e),
            Ok(entries) => match entry_of(
                site,
                times[n - 1],
                pressures[n - 1],
                value_at(temperatures, n - 1),
                value_at(humidities, n - 1),
                n - 1,
            ) {
                Err(e) => Err(e),
                Ok(None) => Ok(entries),
                Ok(Some(entry)) => Ok(entries.push(entry)),
            },
        }
    }
}

/// A failure at a line is the failure of every longer list of lines.
pub proof fn lemma_entries_failure_propagates(
    site: TcconMetSite,
    times: Seq<Seq<char>>,
    pressures: Seq<Decimal>,
    temperatures: Option<Seq<Decimal>>,
    humidities: Option<Seq<Decimal>>,
    n: int,
    m: int,
)
    requires
        0 <= n <= m,
        entries_of(site, times, pressures, temperatures, humidities, n) is Err,
    ensures
        entries_of(site, times, pressures, temperatures, humidities, m) == entries_of(
            site,
            times,
            pressures,
            temperatures,
            humidities,
            n,
        ),
    decreases m - n,
{
    if n < m {
        lemma_entries_failure_propagates(site, times, pressures, temperatures, humidities, n, m - 1);
    }
}

/// The values of an optional file of a set: those it holds, which must stand
/// beside the same times as the pressures, or none where there is no such
/// file.
pub open spec fn optional_values(
    contents: Option<Seq<char>>,
    file: CitFile,
    times: Seq<Seq<char>>,
) -> Result<Option<Seq<Decimal>>, CitMetError> {
    match contents {
        None => Ok(None),
        Some(text) => match table_of(text, file) {
            Err(e) => Err(e),
            Ok((other_times, values)) => match times_mismatch(
                times,
                other_times,
                CitFile::Pressure,
                file,
            ) {
                Some(e) => Err(e),
                None => Ok(Some(values)),
            },
        },
    }
}

/// The observations that a set of files gives, or why it cannot be read.
///
/// The site must be known. The pressure file is read, then the temperature
/// file and the humidity file, each of which must hold the same times as the
/// pressure file, line for line. Lines whose local time is before three in
/// the morning are dropped; every other line gives one observation, at the
/// offset from UTC that the clocks at the site had on its date. A quantity
/// whose file is not given has no value in any observation.
pub open spec fn cit_met_of(
    pressure: Seq<char>,
    site: Seq<char>,
    temperature: Option<Seq<char>>,
    humidity: Option<Seq<char>>,
) -> Result<Seq<MetEntry>, CitMetError> {
    match TcconMetSite::named(site) {
        None => Err(CitMetError::UnknownSite),
        Some(site) => match table_of(pressure, CitFile::Pressure) {
            Err(e) => Err(e),
            Ok((times, pressures)) => match optional_values(
                temperature,
                CitFile::Temperature,
                times,
            ) {
                Err(e) => Err(e),
                Ok(temperatures) => match optional_values(humidity, CitFile::Humidity, times) {
                    Err(e) => Err(e),
                    Ok(humidities) => entries_of(
                        site,
                        times,
                        pressures,
                        temperatures,
                        humidities,
                        times.len() as int,
                    ),
                },
            },
        },
    }
}

/// The result of reading observations, as a sequence.
pub open spec fn entries_view<E>(r: Result<Vec<MetEntry>, E>) -> Result<Seq<MetEntry>, E> {
    match r {
        Ok(entries) => Ok(entries@),
        Err(e) => Err(e),
    }
}

/// The values of an optional file as a sequence.
pub open spec fn values_view(values: Option<Vec<Decimal>>) -> Option<Seq<Decimal>> {
    match values {
        Some(v) => Some(v@),
        None => None,
    }
}

/// Reads the values of an optional file of a set.
fn read_optional(contents: Option<&str>, file: CitFile, times: &Vec<Vec<char>>) -> (r: Result<
    Option<Vec<Decimal>>,
    CitMetError,
>)
    ensures
        r matches Ok(Some(values)) ==> values.len() == times.len(),
        match r {
            Ok(values) => optional_values(
                match contents {
                    Some(c) => Some(c@),
                    None => None,
                },
                file,
                views(times@),
            ) == Ok::<Option<Seq<Decimal>>, CitMetError>(values_view(values)),
            Err(e) => optional_values(
                match contents {
                    Some(c) => Some(c@),
                    None => None,
                },
                file,
                views(times@),
            ) == Err::<Option<Seq<Decimal>>, CitMetError>(e),
        },
{
    match contents {
        None => Ok(None),
        Some(text) => {
            let table = match read_cit_csv(text, file) {
                Err(e) => {
                    return Err(e);
                },
                Ok(table) => table,
            };
            match check_times(times.as_slice(), table.times.as_slice(), CitFile::Pressure, file) {
                Err(e) => Err(e),
                Ok(()) => Ok(Some(table.values)),
            }
        },
    }
}

/// Reads the observations of a set of files from the contents of the files;
/// see `cit_met_of`.
pub fn read_cit_csv_met(
    pres_file: &str,
    site_code: &str,
    temp_file: Option<&str>,
    humid_file: Option<&str>,
) -> (r: Result<Vec<MetEntry>, CitMetError>)
    ensures
        entries_view(r) == cit_met_of(
            pres_file@,
            site_code@,
            match temp_file {
                Some(c) => Some(c@),
                None => None,
            },
            match humid_file {
                Some(c) => Some(c@),
                None => None,
            },
        ),
{
    let site = match TcconMetSite::from_str(site_code) {
        Err(e) => {
            return Err(e);
        },
        Ok(site) => site,
    };
    let table = match read_cit_csv(pres_file, CitFile::Pressure) {
        Err(e) => {
            return Err(e);
        },
        Ok(table) => table,
    };
    let times = table.times;
    let pressure = table.values;
    let temperature = match read_optional(temp_file, CitFile::Temperature, &times) {
        Err(e) => {
            return Err(e);
        },
        Ok(values) => values,
    };
    let humidity = match read_optional(humid_file, CitFile::Humidity, &times) {
        Err(e) => {
            return Err(e);
        },
        Ok(values) => values,
    };
    let n = times.len();
    let mut met_entries: Vec<MetEntry> = Vec::new();
    let mut i: usize = 0;
    proof {
        reveal_strlit("%Y-%m-%d %H:%M:%S");
    }
    let ghost goal = cit_met_of(
        pres_file@,
        site_code@,
        match temp_file {
            Some(c) => Some(c@),
            None => None,
        },
        match humid_file {
            Some(c) => Some(c@),
            None => None,
        },
    );
    assert(goal == entries_of(
        site,
        views(times@),
        pressure@,
        values_view(temperature),
        values_view(humidity),
        n as int,
    ));
    while i < n
        invariant
            i <= n,
            n == times.len(),
            n == pressure.len(),
            temperature matches Some(v) ==> v.len() == n,
            humidity matches Some(v) ==> v.len() == n,
            goal == entries_of(site, views(times@), pressure@, values_view(temperature), values_view(humidity), n as int),
            goal == cit_met_of(
                pres_file@,
                site_code@,
                match temp_file {
                    Some(c) => Some(c@),
                    None => None,
                },
                match humid_file {
                    Some(c) => Some(c@),
                    None => None,
                },
            ),
            entries_of(
                site,
                views(times@),
                pressure@,
                values_view(temperature),
                values_view(humidity),
                i as int,
            ) == Ok::<Seq<MetEntry>, CitMetError>(met_entries@),
        decreases n - i,
    {
        let text = string_of(times[i].as_slice());
        assert(views(times@)[i as int] == text@);
        let outcome: Result<Option<MetEntry>, CitMetError> = match parse_date_time(
            text.as_str(),
            "%Y-%m-%d %H:%M:%S",
        ) {
            None => Err(
                CitMetError::ParsingError {
                    file: CitFile::Pressure,
                    line: line_number_of(i),
                    col: 1,
                },
            ),
            Some(local) => if local.clock.hour() < FIRST_HOUR_KEPT {
                Ok(None)
            } else {
                match site.add_timezone(&local) {
                    None => Err(CitMetError::TimezoneError { line: line_number_of(i) }),
                    Some(datetime) => Ok(
                        Some(
                            MetEntry {
                                datetime,
                                temperature: match &temperature {
                                    Some(v) => Some(v[i]),
                                    None => None,
                                },
                                pressure: pressure[i],
                                humidity: match &humidity {
                                    Some(v) => Some(v[i]),
                                    None => None,
                                },
                            },
                        ),
                    ),
                }
            },
        };
        match outcome {
            Err(e) => {
                proof {
                    lemma_entries_failure_propagates(
                        site,
                        views(times@),
                        pressure@,
                        values_view(temperature),
                        values_view(humidity),
                        i + 1,
                        n as int,
                    );
                }
                return Err(e);
            },
            Ok(None) => {},
            Ok(Some(entry)) => {
                met_entries.push(entry);
            },
        }
        i += 1;
    }
    Ok(met_entries)
}

/// Where the site is known and both files can be read, a temperature file
/// whose times differ from those of the pressure file, in number or on any
/// line, makes the set fail with a mismatch that names both files.
pub proof fn law_temperature_times_must_match(
    pressure: Seq<char>,
    site: Seq<char>,
    temperature: Seq<char>,
    humidity: Option<Seq<char>>,
)
    requires
        TcconMetSite::named(site) is Some,
        table_of(pressure, CitFile::Pressure) is Ok,
        table_of(temperature, CitFile::Temperature) is Ok,
        table_of(pressure, CitFile::Pressure)->Ok_0.0 != table_of(
            temperature,
            CitFile::Temperature,
        )->Ok_0.0,
    ensures
        cit_met_of(pressure, site, Some(temperature), humidity) matches Err(
            CitMetError::TimeMismatch { file1, file2, .. },
        ) && file1 == CitFile::Pressure && file2 == CitFile::Temperature,
{
}

/// The same holds of the humidity file, once the temperature file, if there
/// is one, has matched.
pub proof fn law_humidity_times_must_match(
    pressure: Seq<char>,
    site: Seq<char>,
    temperature: Option<Seq<char>>,
    humidity: Seq<char>,
)
    requires
        TcconMetSite::named(site) is Some,
        table_of(pressure, CitFile::Pressure) is Ok,
        optional_values(
            temperature,
            CitFile::Temperature,
            table_of(pressure, CitFile::Pressure)->Ok_0.0,
        ) is Ok,
        table_of(humidity, CitFile::Humidity) is Ok,
        table_of(pressure, CitFile::Pressure)->Ok_0.0 != table_of(
            humidity,
            CitFile::Humidity,
        )->Ok_0.0,
    ensures
        cit_met_of(pressure, site, temperature, Some(humidity)) matches Err(
            CitMetError::TimeMismatch { file1, file2, .. },
        ) && file1 == CitFile::Pressure && file2 == CitFile::Humidity,
{
}

/// No observation of a set lies before three in the morning, local time:
/// a line whose time does is dropped, whatever else it holds.
pub proof fn law_early_lines_are_dropped(
    site: TcconMetSite,
    time: Seq<char>,
    pressure: Decimal,
    temperature: Option<Decimal>,
    humidity: Option<Decimal>,
    index: int,
)
    requires
        parsed_date_time(time, time_format()) matches Some(local) && local.clock.spec_hour()
            < FIRST_HOUR_KEPT,
    ensures
        entry_of(site, time, pressure, temperature, humidity, index) == Ok::<
            Option<MetEntry>,
            CitMetError,
        >(None),
{
}

/// A quantity whose file is not given has no value in any observation of
/// the set: a missing temperature or humidity is never made up.
pub proof fn law_absent_file_gives_no_value(
    site: TcconMetSite,
    times: Seq<Seq<char>>,
    pressures: Seq<Decimal>,
    temperatures: Option<Seq<Decimal>>,
    humidities: Option<Seq<Decimal>>,
    n: int,
)
    ensures
        entries_of(site, times, pressures, temperatures, humidities, n) matches Ok(entries)
            ==> forall|k: int|
            0 <= k < entries.len() ==> (temperatures is None ==> (#[trigger] entries[k]).temperature
                is None) && (humidities is None ==> entries[k].humidity is None),
    decreases n,
{
    if n > 0 {
        law_absent_file_gives_no_value(site, times, pressures, temperatures, humidities, n - 1);
    }
}

} // verus!
