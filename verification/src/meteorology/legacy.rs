//! Reader of the comma-separated files of the first version of the format:
//! a header that names the columns, then one observation per line. The time
//! of an observation is given in exactly one of three ways: as a serial day
//! number, as a date and a time on the clock of the scans, or as a date and
//! a time in UTC.

use vstd::prelude::*;
use vstd::string::*;
use crate::decimal::{decimal_spec, Decimal, SCALE};
use crate::meteorology::cit_csv::entries_view;
use crate::meteorology::jpl_vaisala::{is_position, position_of};
use crate::meteorology::MetEntry;
use crate::text::{chars_eq_str, string_of, views};
use crate::timestamp::{
    instant_of_local, instant_of_local_seconds, local_seconds_to_instant, local_to_instant,
    parse_date_time, parsed_date_time, Timestamp,
};

verus! {

/// The serial day number of 1970-01-01: serial day numbers count days, and
/// fractions of days, from a day 719 529 days before.
pub const MATLAB_UNIX_EPOCH: i64 = 719_529;

/// The number of seconds of a day.
pub const SECONDS_PER_DAY: i64 = 86_400;

/// The byte that starts a comment line.
pub const COMMENT_BYTE: u8 = 0x23;

/// What is wrong with a line of data.
#[derive(Clone, Copy, Debug, PartialEq, Eq, Structural)]
pub enum RowProblem {
    /// The line cannot be read as a record of the file: it is not text, has
    /// another number of fields than the header, holds something else than a
    /// number where a number is due, has no pressure, or stands under a
    /// header that names a column twice.
    Malformed,
    /// The line gives no complete time, or one that is not written as a
    /// date `YYYY/MM/DD` and a time `HH:MM:SS`.
    InvalidTimeFormat,
    /// The time of the line does not exist under the offset.
    InvalidTime,
}

/// Why a file could not be read.
#[derive(Clone, Copy, Debug, PartialEq, Eq, Structural)]
pub enum LegacyMetError {
    /// The line of data with this number, counted from 1 after the header
    /// and without comment lines, cannot be used.
    CsvError(usize, RowProblem),
}

/// The records that the `csv` crate reads from `input`, with every field
/// trimmed, lines that start with the byte `comment` left out and no line
/// taken for a header; `None` stands for a record that it reports an error
/// for.
pub uninterp spec fn csv_records(input: Seq<u8>, comment: u8) -> Seq<Option<Seq<Seq<char>>>>;

/// The fields of a record as sequences of characters.
pub open spec fn record_view(record: Option<Vec<Vec<char>>>) -> Option<Seq<Seq<char>>> {
    match record {
        Some(fields) => Some(views(fields@)),
        None => None,
    }
}

/// The records of a file as sequences of characters.
pub open spec fn records_view(records: Seq<Option<Vec<Vec<char>>>>) -> Seq<Option<Seq<Seq<char>>>> {
    records.map_values(|r: Option<Vec<Vec<char>>>| record_view(r))
}

/// Calls `csv::Reader::records` on a reader built by `csv::ReaderBuilder`
/// with the given comment byte, trimming of all fields and no header row.
/// Each record comes out as its fields, or as `None` where `csv` reports an
/// error for it.
#[verifier::external_body]
pub(crate) fn read_csv_records(input: &[u8], comment: u8) -> (r: Vec<Option<Vec<Vec<char>>>>)
    ensures
        records_view(r@) == csv_records(input@, comment),
{
    let mut rdr = csv::ReaderBuilder::new()
        .comment(Some(comment))
        .trim(csv::Trim::All)
        .has_headers(false)
        .from_reader(input);
    rdr.records()
        .map(|r| r.ok().map(|rec| rec.iter().map(|f| f.chars().collect()).collect()))
        .collect()
}

/// Where the columns that are read stand in the lines of a file, and
/// whether the header can be used at all.
#[derive(Clone, Copy, Debug, PartialEq, Eq, Structural)]
pub struct LegacyColumns {
    pub comp_srl_date: Option<usize>,
    pub comp_date: Option<usize>,
    pub comp_time: Option<usize>,
    pub utc_date: Option<usize>,
    pub utc_time: Option<usize>,
    pub pout: Option<usize>,
    pub tout: Option<usize>,
    pub rh: Option<usize>,
    pub wspd: Option<usize>,
    pub wdir: Option<usize>,
    /// The header could not be read or names one of these columns twice.
    pub unusable: bool,
}

/// The name `name` stands in more than one field of `header`.
pub open spec fn is_repeated(header: Seq<Seq<char>>, name: Seq<char>) -> bool {
    exists|i: int, j: int| 0 <= i < j < header.len() && header[i] == name && header[j] == name
}

/// One of the columns that are read is named twice in `header`.
pub open spec fn names_repeated(header: Seq<Seq<char>>) -> bool {
    ||| is_repeated(header, "CompSrlDate"@)
    ||| is_repeated(header, "CompDate"@)
    ||| is_repeated(header, "CompTime"@)
    ||| is_repeated(header, "UTCDate"@)
    ||| is_repeated(header, "UTCTime"@)
    ||| is_repeated(header, "Pout"@)
    ||| is_repeated(header, "Tout"@)
    ||| is_repeated(header, "RH"@)
    ||| is_repeated(header, "WSPD"@)
    ||| is_repeated(header, "WDIR"@)
}

/// Where the columns that are read stand, by the header of the file.
pub open spec fn columns_of(header: Option<Seq<Seq<char>>>) -> LegacyColumns {
    match header {
        None => LegacyColumns {
            comp_srl_date: None,
            comp_date: None,
            comp_time: None,
            utc_date: None,
            utc_time: None,
            pout: None,
            tout: None,
            rh: None,
            wspd: None,
            wdir: None,
            unusable: true,
        },
        Some(h) => LegacyColumns {
            comp_srl_date: position_of(h, "CompSrlDate"@),
            comp_date: position_of(h, "CompDate"@),
            comp_time: position_of(h, "CompTime"@),
            utc_date: position_of(h, "UTCDate"@),
            utc_time: position_of(h, "UTCTime"@),
            pout: position_of(h, "Pout"@),
            tout: position_of(h, "Tout"@),
            rh: position_of(h, "RH"@),
            wspd: position_of(h, "WSPD"@),
            wdir: position_of(h, "WDIR"@),
            unusable: names_repeated(h),
        },
    }
}

/// Finds the first field of a header that is `name`, and whether a later
/// field is `name` too.
fn find_column(header: &[Vec<char>], name: &str) -> (r: (Option<usize>, bool))
    ensures
        r.0 == position_of(views(header@), name@),
        r.1 == is_repeated(views(header@), name@),
{
    let ghost h = views(header@);
    let mut first: Option<usize> = None;
    let mut repeated = false;
    let mut i: usize = 0;
    while i < header.len()
        invariant
            i <= header.len(),
            h == views(header@),
            first is None ==> forall|j: int| 0 <= j < i ==> h[j] != name@,
            first matches Some(p) ==> p < i && is_position(h, name@, p as int),
            first is None ==> !repeated,
            repeated <==> exists|a: int, b: int| 0 <= a < b < i && h[a] == name@ && h[b] == name@,
        decreases header.len() - i,
    {
        assert(h[i as int] == header@[i as int]@);
        if chars_eq_str(header[i].as_slice(), name) {
            match first {
                None => {
                    first = Some(i);
                    assert(is_position(h, name@, i as int));
                },
                Some(p) => {
                    repeated = true;
                    assert(h[p as int] == name@ && h[i as int] == name@);
                },
            }
        }
        i += 1;
    }
    proof {
        match first {
            None => {
                assert forall|k: int| !is_position(h, name@, k) by {
                    if 0 <= k < h.len() {
                        assert(h[k] != name@);
                    }
                }
            },
            Some(p) => {
                let k = choose|k: int| is_position(h, name@, k);
                if k < p {
                    assert(h[k] != name@);
                } else if p < k {
                    assert(h[p as int] != name@);
                }
            },
        }
    }
    (first, repeated)
}

/// Finds the columns that are read in the header of a file.
pub fn find_columns(header: &Option<Vec<Vec<char>>>) -> (r: LegacyColumns)
    ensures
        r == columns_of(record_view(*header)),
{
    match header {
        None => LegacyColumns {
            comp_srl_date: None,
            comp_date: None,
            comp_time: None,
            utc_date: None,
            utc_time: None,
            pout: None,
            tout: None,
            rh: None,
            wspd: None,
            wdir: None,
            unusable: true,
        },
        Some(fields) => {
            let h = fields.as_slice();
            let srl = find_column(h, "CompSrlDate");
            let comp_date = find_column(h, "CompDate");
            let comp_time = find_column(h, "CompTime");
            let utc_date = find_column(h, "UTCDate");
            let utc_time = find_column(h, "UTCTime");
            let pout = find_column(h, "Pout");
            let tout = find_column(h, "Tout");
            let rh = find_column(h, "RH");
            let wspd = find_column(h, "WSPD");
            let wdir = find_column(h, "WDIR");
            LegacyColumns {
                comp_srl_date: srl.0,
                comp_date: comp_date.0,
                comp_time: comp_time.0,
                utc_date: utc_date.0,
                utc_time: utc_time.0,
                pout: pout.0,
                tout: tout.0,
                rh: rh.0,
                wspd: wspd.0,
                wdir: wdir.0,
                unusable: srl.1 || comp_date.1 || comp_time.1 || utc_date.1 || utc_time.1
                    || pout.1 || tout.1 || rh.1 || wspd.1 || wdir.1,
            }
        },
    }
}

/// What a line holds in a column: the field, unless the file has no such
/// column or the field is empty.
pub open spec fn field_of(row: Seq<Seq<char>>, column: Option<usize>) -> Option<Seq<char>> {
    match column {
        Some(i) => if i < row.len() && row[i as int].len() > 0 {
            Some(row[i as int])
        } else {
            None
        },
        None => None,
    }
}

/// The number that a line holds in a column, `None` where it holds nothing
/// there; an error where it holds something that is no number.
pub open spec fn number_of(row: Seq<Seq<char>>, column: Option<usize>) -> Result<
    Option<Decimal>,
    RowProblem,
> {
    match field_of(row, column) {
        None => Ok(None),
        Some(text) => match decimal_spec(text) {
            Some(v) => Ok(Some(v)),
            None => Err(RowProblem::Malformed),
        },
    }
}

/// The whole seconds from 1970-01-01T00:00:00 to a serial day number, given
/// in billionths of a day; a fraction of a second is cut off.
pub open spec fn serial_day_seconds(day_billionths: int) -> int {
    let scaled = (day_billionths - MATLAB_UNIX_EPOCH * SCALE) * SECONDS_PER_DAY;
    if scaled >= 0 {
        scaled / (SCALE as int)
    } else {
        -((-scaled) / (SCALE as int))
    }
}

/// Turns a serial day number into seconds from 1970-01-01T00:00:00.
pub fn matlab_to_seconds(mdatenum: Decimal) -> (secs: i64)
    ensures
        secs == serial_day_seconds(mdatenum.value()),
{
    let scaled: i128 = (mdatenum.billionths as i128 - 719_529_000_000_000i128) * 86_400i128;
    if scaled >= 0 {
        (scaled / 1_000_000_000i128) as i64
    } else {
        (-((-scaled) / 1_000_000_000i128)) as i64
    }
}

/// The format of a date and a time of a line, joined by a space.
pub open spec fn date_time_format() -> Seq<char> {
    "%Y/%m/%d %H:%M:%S"@
}

/// The instant at which a clock `offset` seconds east of UTC shows a date and
/// a time, written as in the file.
pub open spec fn written_instant(date: Seq<char>, time: Seq<char>, offset: i32) -> Result<
    Timestamp,
    RowProblem,
> {
    match parsed_date_time(date + seq![' '] + time, date_time_format()) {
        None => Err(RowProblem::InvalidTimeFormat),
        Some(local) => match instant_of_local(
            local.date.year as int,
            local.date.month as int,
            local.date.day as int,
            local.clock.seconds as int,
            local.clock.nanos as int,
            offset as int,
        ) {
            None => Err(RowProblem::InvalidTime),
            Some(utc_millis) => Ok(Timestamp { utc_millis, offset_secs: offset }),
        },
    }
}

/// How many of the three ways of giving its time a line uses: a serial day
/// number, a date or a time on the clock of the scans, a date or a time in
/// UTC. A pair counts as soon as the line holds one of its two columns.
pub open spec fn groups_present(
    row: Seq<Seq<char>>,
    columns: LegacyColumns,
    serial_day: Option<Decimal>,
) -> int {
    let local = field_of(row, columns.comp_date) is Some || field_of(row, columns.comp_time)
        is Some;
    let utc = field_of(row, columns.utc_date) is Some || field_of(row, columns.utc_time) is Some;
    (if serial_day is Some {
        1int
    } else {
        0int
    }) + (if local {
        1int
    } else {
        0int
    }) + (if utc {
        1int
    } else {
        0int
    })
}

/// The time of a line.
///
/// A line must give its time in exactly one of three ways: as a serial day
/// number, read on the clock of the scans; as a date and a time on the clock
/// of the scans; or as a date and a time in UTC. A line that uses none of
/// them, or more than one, is refused, and so is a line that holds one
/// column of a pair without the other: one way is never made up for by
/// another.
pub open spec fn time_of(
    row: Seq<Seq<char>>,
    columns: LegacyColumns,
    serial_day: Option<Decimal>,
    em27_tz: i32,
) -> Result<Timestamp, RowProblem> {
    let comp_date = field_of(row, columns.comp_date);
    let comp_time = field_of(row, columns.comp_time);
    let utc_date = field_of(row, columns.utc_date);
    let utc_time = field_of(row, columns.utc_time);
    if groups_present(row, columns, serial_day) != 1 {
        Err(RowProblem::InvalidTimeFormat)
    } else {
        match serial_day {
            Some(day) => match instant_of_local_seconds(
                serial_day_seconds(day.value()),
                em27_tz as int,
            ) {
                None => Err(RowProblem::InvalidTime),
                Some(utc_millis) => Ok(Timestamp { utc_millis, offset_secs: em27_tz }),
            },
            None => if comp_date is Some && comp_time is Some {
                written_instant(comp_date->0, comp_time->0, em27_tz)
            } else if utc_date is Some && utc_time is Some {
                written_instant(utc_date->0, utc_time->0, 0)
            } else {
                Err(RowProblem::InvalidTimeFormat)
            },
        }
    }
}

/// A line that gives its time in more than one way is refused, whatever the
/// times are.
pub proof fn law_one_time_group_only(
    row: Seq<Seq<char>>,
    columns: LegacyColumns,
    serial_day: Option<Decimal>,
    em27_tz: i32,
)
    requires
        groups_present(row, columns, serial_day) != 1,
    ensures
        time_of(row, columns, serial_day, em27_tz) == Err::<Timestamp, RowProblem>(
            RowProblem::InvalidTimeFormat,
        ),
{
}

/// The observation that a line gives, or what is wrong with the line.
///
/// Every column that is read must hold a number or nothing, the pressure
/// must be there, and the line must give its time.
pub open spec fn entry_of(row: Option<Seq<Seq<char>>>, columns: LegacyColumns, em27_tz: i32) -> Result<
    MetEntry,
    RowProblem,
> {
    match row {
        None => Err(RowProblem::Malformed),
        Some(row) => {
            let serial_day = number_of(row, columns.comp_srl_date);
            let pout = number_of(row, columns.pout);
            let tout = number_of(row, columns.tout);
            let rh = number_of(row, columns.rh);
            let wspd = number_of(row, columns.wspd);
            let wdir = number_of(row, columns.wdir);
            if columns.unusable || serial_day is Err || pout is Err || tout is Err || rh is Err
                || wspd is Err || wdir is Err || pout->Ok_0 is None {
                Err(RowProblem::Malformed)
            } else {
                match time_of(row, columns, serial_day->Ok_0, em27_tz) {
                    Err(problem) => Err(problem),
                    Ok(datetime) => Ok(
                        MetEntry {
                            datetime,
                            temperature: tout->Ok_0,
                            pressure: pout->Ok_0->0,
                            humidity: rh->Ok_0,
                        },
                    ),
                }
            }
        },
    }
}

/// The observations that the lines of data `rows` give, in order, or the
/// first line that cannot be used, by its number.
pub open spec fn entries_of(
    rows: Seq<Option<Seq<Seq<char>>>>,
    columns: LegacyColumns,
    em27_tz: i32,
) -> Result<Seq<MetEntry>, LegacyMetError>
    decreases rows.len(),
{
    if rows.len() == 0 {
        Ok(Seq::empty())
    } else {
        match entries_of(rows.drop_last(), columns, em27_tz) {
            Err(e) => Err(e),
            Ok(entries) => match entry_of(rows.last(), columns, em27_tz) {
                Err(problem) => Err(LegacyMetError::CsvError(rows.len() as usize, problem)),
                Ok(entry) => Ok(entries.push(entry)),
            },
        }
    }
}

/// A failure at a line is the failure of every longer list of lines.
pub proof fn lemma_entries_failure_propagates(
    rows: Seq<Option<Seq<Seq<char>>>>,
    columns: LegacyColumns,
    em27_tz: i32,
    n: int,
)
    requires
        0 <= n <= rows.len(),
        entries_of(rows.take(n), columns, em27_tz) is Err,
    ensures
        entries_of(rows, columns, em27_tz) == entries_of(rows.take(n), columns, em27_tz),
    decreases rows.len() - n,
{
    if n < rows.len() {
        assert(rows.take(n + 1).drop_last() == rows.take(n));
        lemma_entries_failure_propagates(rows, columns, em27_tz, n + 1);
    } else {
        assert(rows.take(n) == rows);
    }
}

/// The observations that the records of a file give: the first record is
/// the header, every other record a line of data.
pub open spec fn legacy_met_of(records: Seq<Option<Seq<Seq<char>>>>, em27_tz: i32) -> Result<
    Seq<MetEntry>,
    LegacyMetError,
> {
    if records.len() == 0 {
        Ok(Seq::empty())
    } else {
        entries_of(records.skip(1), columns_of(records[0]), em27_tz)
    }
}

/// The field of a line in a column, unless there is none or it is empty.
fn get_field<'a>(row: &'a Vec<Vec<char>>, column: Option<usize>) -> (r: Option<&'a Vec<char>>)
    ensures
        match r {
            Some(text) => field_of(views(row@), column) == Some(text@),
            None => field_of(views(row@), column) is None,
        },
{
    match column {
        Some(i) => {
            if i < row.len() {
                assert(views(row@)[i as int] == row@[i as int]@);
                if row[i].len() > 0 {
                    Some(&row[i])
                } else {
                    None
                }
            } else {
                None
            }
        },
        None => None,
    }
}

/// The number of a line in a column.
fn get_number(row: &Vec<Vec<char>>, column: Option<usize>) -> (r: Result<Option<Decimal>, RowProblem>)
    ensures
        r == number_of(views(row@), column),
{
    match get_field(row, column) {
        None => Ok(None),
        Some(text) => match Decimal::parse_chars(text.as_slice()) {
            Some(v) => Ok(Some(v)),
            None => Err(RowProblem::Malformed),
        },
    }
}

/// The instant at which a clock shows a date and a time, written as in the
/// file.
fn read_written_instant(date: &Vec<char>, time: &Vec<char>, offset: i32) -> (r: Result<
    Timestamp,
    RowProblem,
>)
    ensures
        r == written_instant(date@, time@, offset),
{
    let mut text = string_of(date.as_slice());
    let time_text = string_of(time.as_slice());
    proof {
        reveal_strlit(" ");
        reveal_strlit("%Y/%m/%d %H:%M:%S");
    }
    text.append(" ");
    text.append(time_text.as_str());
    assert(text@ == date@ + seq![' '] + time@);
    let local = match parse_date_time(text.as_str(), "%Y/%m/%d %H:%M:%S") {
        None => {
            return Err(RowProblem::InvalidTimeFormat);
        },
        Some(local) => local,
    };
    match local_to_instant(&local.date, &local.clock, offset) {
        None => Err(RowProblem::InvalidTime),
        Some(utc_millis) => Ok(Timestamp { utc_millis, offset_secs: offset }),
    }
}

/// Makes the observation of a line of data; see `entry_of`.
pub fn to_met_entry(row: &Option<Vec<Vec<char>>>, columns: &LegacyColumns, em27_tz: i32) -> (r:
    Result<MetEntry, RowProblem>)
    ensures
        r == entry_of(record_view(*row), *columns, em27_tz),
{
    let row = match row {
        None => {
            return Err(RowProblem::Malformed);
        },
        Some(row) => row,
    };
    let serial_day = get_number(row, columns.comp_srl_date);
    let pout = get_number(row, columns.pout);
    let tout = get_number(row, columns.tout);
    let rh = get_number(row, columns.rh);
    let wspd = get_number(row, columns.wspd);
    let wdir = get_number(row, columns.wdir);
    if columns.unusable {
        return Err(RowProblem::Malformed);
    }
    let (serial_day, pressure, temperature, humidity) = match (serial_day, pout, tout, rh, wspd, wdir) {
        (Ok(serial_day), Ok(Some(pressure)), Ok(temperature), Ok(humidity), Ok(_), Ok(_)) => (
            serial_day,
            pressure,
            temperature,
            humidity,
        ),
        _ => {
            return Err(RowProblem::Malformed);
        },
    };
    let comp_date = get_field(row, columns.comp_date);
    let comp_time = get_field(row, columns.comp_time);
    let utc_date = get_field(row, columns.utc_date);
    let utc_time = get_field(row, columns.utc_time);
    let datetime = match (serial_day, comp_date, comp_time, utc_date, utc_time) {
        (Some(day), None, None, None, None) => match local_seconds_to_instant(
            matlab_to_seconds(day),
            em27_tz,
        ) {
            None => Err(RowProblem::InvalidTime),
            Some(utc_millis) => Ok(Timestamp { utc_millis, offset_secs: em27_tz }),
        },
        (None, Some(date), Some(time), None, None) => read_written_instant(date, time, em27_tz),
        (None, None, None, Some(date), Some(time)) => read_written_instant(date, time, 0),
        _ => Err(RowProblem::InvalidTimeFormat),
    };
    match datetime {
        Err(problem) => Err(problem),
        Ok(datetime) => Ok(MetEntry { datetime, temperature, pressure, humidity }),
    }
}

/// Reads the observations of a file from its records; see `legacy_met_of`.
pub fn read_legacy_records(records: &Vec<Option<Vec<Vec<char>>>>, em27_tz: i32) -> (r: Result<
    Vec<MetEntry>,
    LegacyMetError,
>)
    ensures
        entries_view(r) == legacy_met_of(records_view(records@), em27_tz),
{
    if records.len() == 0 {
        return Ok(Vec::new());
    }
    let ghost all = records_view(records@);
    let ghost rows = all.skip(1);
    assert(all[0] == record_view(records@[0]));
    let columns = find_columns(&records[0]);
    let mut entries: Vec<MetEntry> = Vec::new();
    let mut i: usize = 1;
    assert(rows.take(0) == Seq::<Option<Seq<Seq<char>>>>::empty());
    while i < records.len()
        invariant
            1 <= i <= records.len(),
            all == records_view(records@),
            rows == all.skip(1),
            legacy_met_of(all, em27_tz) == entries_of(rows, columns, em27_tz),
            entries_of(rows.take(i - 1), columns, em27_tz) == Ok::<Seq<MetEntry>, LegacyMetError>(
                entries@,
            ),
        decreases records.len() - i,
    {
        assert(rows.take(i as int).drop_last() == rows.take(i - 1));
        assert(rows.take(i as int).last() == record_view(records@[i as int]));
        match to_met_entry(&records[i], &columns, em27_tz) {
            Err(problem) => {
                proof {
                    lemma_entries_failure_propagates(rows, columns, em27_tz, i as int);
                }
                return Err(LegacyMetError::CsvError(i, problem));
            },
            Ok(entry) => {
                entries.push(entry);
            },
        }
        i += 1;
    }
    assert(rows.take(records.len() - 1) == rows);
    Ok(entries)
}

/// Reads the observations of a file from its bytes.
///
/// Lines that start with `#` are comments. The first other line is the
/// header; the columns may stand in any order, and columns that are not read
/// are passed over. Times that carry no offset are taken to be on the clock
/// of the scans, `em27_tz` seconds east of UTC.
pub fn read_legacy_inner(input: &[u8], em27_tz: i32) -> (r: Result<Vec<MetEntry>, LegacyMetError>)
    ensures
        entries_view(r) == legacy_met_of(csv_records(input@, COMMENT_BYTE), em27_tz),
{
    let records = read_csv_records(input, COMMENT_BYTE);
    read_legacy_records(&records, em27_tz)
}

} // verus!
