//! Surface meteorology: the observations, where they come from, and the
//! readers of the supported sources.

use vstd::prelude::*;
use crate::decimal::{Decimal, SCALE};
use crate::meteorology::cit_csv::{cit_met_of, read_cit_csv_met, CitMetError};
use crate::meteorology::external_script::{
    are_entries_of, collect_script_entries, reports_first_undecoded, ScriptMetError, ScriptRecord,
};
use crate::meteorology::jpl_vaisala::{jpl_met_of, read_jpl_vaisala_met, JplMetError};
use crate::meteorology::legacy::{
    csv_records, legacy_met_of, read_legacy_inner, LegacyMetError, COMMENT_BYTE,
};
use crate::timestamp::{is_valid_offset, Timestamp};

pub mod cit_csv;
pub mod external_script;
pub mod jpl_vaisala;
pub mod legacy;

verus! {

/// One set of surface measurements, taken to be instantaneous.
#[derive(Clone, Copy, Debug, PartialEq, Eq, Structural)]
pub struct MetEntry {
    /// When the measurements were made.
    pub datetime: Timestamp,
    /// Temperature in degrees Celsius.
    pub temperature: Option<Decimal>,
    /// Pressure in hPa.
    pub pressure: Decimal,
    /// Relative humidity in percent.
    pub humidity: Option<Decimal>,
}

/// How far two values may lie apart and still count as close: a hundredth.
pub const CLOSE_BILLIONTHS: i64 = 10_000_000;

/// Two values lie within a hundredth of each other.
pub open spec fn values_close(a: Decimal, b: Decimal) -> bool {
    -CLOSE_BILLIONTHS <= a.value() - b.value() <= CLOSE_BILLIONTHS
}

/// Two optional values are both missing, or both there and close.
pub open spec fn options_close(a: Option<Decimal>, b: Option<Decimal>) -> bool {
    match (a, b) {
        (Some(x), Some(y)) => values_close(x, y),
        (None, None) => true,
        _ => false,
    }
}

/// Tests two values for lying within a hundredth of each other.
pub fn close(a: Decimal, b: Decimal) -> (r: bool)
    ensures
        r == values_close(a, b),
{
    let difference: i128 = a.billionths as i128 - b.billionths as i128;
    -10_000_000i128 <= difference && difference <= 10_000_000i128
}

impl MetEntry {
    /// The observations are of the same instant and agree, within a
    /// hundredth, in every value.
    pub open spec fn close_to(&self, other: &MetEntry) -> bool {
        &&& self.datetime.instant() == other.datetime.instant()
        &&& values_close(self.pressure, other.pressure)
        &&& options_close(self.temperature, other.temperature)
        &&& options_close(self.humidity, other.humidity)
    }

    /// Tests two observations for being of the same instant and agreeing,
    /// within a hundredth, in every value. The offsets from UTC do not count.
    pub fn is_close(&self, other: &MetEntry) -> (r: bool)
        ensures
            r == self.close_to(other),
    {
        if self.datetime.utc_millis != other.datetime.utc_millis {
            return false;
        }
        if !close(self.pressure, other.pressure) {
            return false;
        }
        let temperatures = match (self.temperature, other.temperature) {
            (Some(a), Some(b)) => close(a, b),
            (None, None) => true,
            _ => false,
        };
        let humidities = match (self.humidity, other.humidity) {
            (Some(a), Some(b)) => close(a, b),
            (None, None) => true,
            _ => false,
        };
        temperatures && humidities
    }
}

/// How the offsets from UTC are distributed over a collection of instants.
#[derive(Clone, Debug, PartialEq, Eq)]
pub enum Timezones {
    /// There are no instants.
    NoTimezone,
    /// All instants carry this offset, in seconds east of UTC.
    One(i32),
    /// The instants carry two or more offsets: these, in seconds east of
    /// UTC, each where it first occurs.
    Multiple(Vec<i32>),
}

/// A `Timezones` with its offsets as a sequence.
pub enum TimezonesView {
    NoTimezone,
    One(i32),
    Multiple(Seq<i32>),
}

impl View for Timezones {
    type V = TimezonesView;

    open spec fn view(&self) -> TimezonesView {
        match self {
            Timezones::NoTimezone => TimezonesView::NoTimezone,
            Timezones::One(offset) => TimezonesView::One(*offset),
            Timezones::Multiple(offsets) => TimezonesView::Multiple(offsets@),
        }
    }
}

/// Every instant of `datetimes` carries the offset `offset`.
pub open spec fn all_offsets_are(datetimes: Seq<Timestamp>, offset: int) -> bool {
    forall|i: int| 0 <= i < datetimes.len() ==> (#[trigger] datetimes[i]).offset_secs == offset
}

/// What `check_consistent_timezones` finds for `datetimes`.
pub open spec fn timezones_of(datetimes: Seq<Timestamp>) -> TimezonesView {
    if datetimes.len() == 0 {
        TimezonesView::NoTimezone
    } else if all_offsets_are(datetimes, datetimes[0].offset_secs as int) {
        TimezonesView::One(datetimes[0].offset_secs)
    } else {
        TimezonesView::Multiple(distinct(offsets_of(datetimes)))
    }
}

impl Timezones {
    /// Finds out whether a collection of instants shares one offset from
    /// UTC, and which offsets it carries if it does not.
    pub fn check_consistent_timezones(datetimes: &[Timestamp]) -> (r: Timezones)
        ensures
            r@ == timezones_of(datetimes@),
            r is NoTimezone <==> datetimes.len() == 0,
            r matches Timezones::One(o) ==> all_offsets_are(datetimes@, o as int),
            r is Multiple <==> exists|i: int, j: int|
                0 <= i < datetimes.len() && 0 <= j < datetimes.len() && datetimes[i].offset_secs
                    != datetimes[j].offset_secs,
    {
        if datetimes.len() == 0 {
            return Timezones::NoTimezone;
        }
        let first = datetimes[0].offset_secs;
        let mut i: usize = 1;
        while i < datetimes.len()
            invariant
                1 <= i <= datetimes.len(),
                first == datetimes@[0].offset_secs,
                forall|j: int| 0 <= j < i ==> (#[trigger] datetimes@[j]).offset_secs == first,
            decreases datetimes.len() - i,
        {
            if datetimes[i].offset_secs != first {
                assert(!all_offsets_are(datetimes@, first as int));
                return Timezones::Multiple(distinct_offsets(datetimes));
            }
            i += 1;
        }
        Timezones::One(first)
    }

    /// The one offset, or `None` unless there is exactly one.
    pub fn try_unwrap_one(self) -> (r: Option<i32>)
        ensures
            r == match self {
                Timezones::One(o) => Some(o),
                _ => None,
            },
    {
        match self {
            Timezones::One(o) => Some(o),
            _ => None,
        }
    }
}

/// The distinct values of a sequence, each at the place of its first
/// occurrence.
pub open spec fn distinct(values: Seq<i32>) -> Seq<i32>
    decreases values.len(),
{
    if values.len() == 0 {
        Seq::empty()
    } else {
        let before = distinct(values.drop_last());
        if before.contains(values.last()) {
            before
        } else {
            before.push(values.last())
        }
    }
}

/// `distinct` holds every value of the sequence, holds nothing else, and
/// holds nothing twice.
pub proof fn law_distinct_holds_each_value_once(values: Seq<i32>)
    ensures
        distinct(values).no_duplicates(),
        forall|x: i32| distinct(values).contains(x) <==> values.contains(x),
    decreases values.len(),
{
    if values.len() > 0 {
        let head = values.drop_last();
        let before = distinct(head);
        law_distinct_holds_each_value_once(head);
        assert forall|x: i32| distinct(values).contains(x) <==> values.contains(x) by {
            if values.contains(x) {
                let i = choose|i: int| 0 <= i < values.len() && values[i] == x;
                if i < values.len() - 1 {
                    assert(head[i] == x);
                    assert(head.contains(x));
                    assert(before.contains(x));
                    let k = choose|k: int| 0 <= k < before.len() && before[k] == x;
                    assert(distinct(values)[k] == x);
                } else {
                    if !before.contains(x) {
                        assert(distinct(values)[before.len() as int] == x);
                    } else {
                        let k = choose|k: int| 0 <= k < before.len() && before[k] == x;
                        assert(distinct(values)[k] == x);
                    }
                }
            }
            if distinct(values).contains(x) {
                let k = choose|k: int| 0 <= k < distinct(values).len() && distinct(values)[k] == x;
                if k < before.len() {
                    assert(before[k] == x);
                    assert(before.contains(x));
                    assert(head.contains(x));
                    let i = choose|i: int| 0 <= i < head.len() && head[i] == x;
                    assert(values[i] == x);
                } else {
                    assert(values[values.len() - 1] == x);
                }
            }
        }
    }
}

/// The offsets of a sequence of instants, one for one.
pub open spec fn offsets_of(times: Seq<Timestamp>) -> Seq<i32> {
    Seq::new(times.len(), |i: int| times[i].offset_secs)
}

/// The distinct offsets from UTC of a collection of instants, each at the
/// place of its first occurrence.
pub fn distinct_offsets(times: &[Timestamp]) -> (r: Vec<i32>)
    ensures
        r@ == distinct(offsets_of(times@)),
{
    let mut found: Vec<i32> = Vec::new();
    let mut i: usize = 0;
    while i < times.len()
        invariant
            i <= times.len(),
            found@ == distinct(offsets_of(times@.take(i as int))),
        decreases times.len() - i,
    {
        let offset = times[i].offset_secs;
        let ghost prev = offsets_of(times@.take(i as int));
        let ghost next = offsets_of(times@.take(i + 1));
        assert(next.drop_last() == prev);
        assert(next.last() == offset);
        let mut seen = false;
        let mut k: usize = 0;
        while k < found.len()
            invariant
                k <= found.len(),
                seen <==> exists|j: int| 0 <= j < k && found@[j] == offset,
            decreases found.len() - k,
        {
            if found[k] == offset {
                seen = true;
            }
            k += 1;
        }
        assert(seen == found@.contains(offset));
        if !seen {
            found.push(offset);
        }
        i += 1;
    }
    assert(times@.take(times.len() as int) == times@);
    found
}

/// `i` is the first of the earliest instants of `times`.
pub open spec fn is_first_earliest(times: Seq<Timestamp>, i: int) -> bool {
    &&& 0 <= i < times.len()
    &&& forall|j: int| 0 <= j < times.len() ==> times[i].instant() <= (#[trigger] times[j]).instant()
    &&& forall|j: int| 0 <= j < i ==> times[i].instant() < (#[trigger] times[j]).instant()
}

/// `i` is the last of the latest instants of `times`.
pub open spec fn is_last_latest(times: Seq<Timestamp>, i: int) -> bool {
    &&& 0 <= i < times.len()
    &&& forall|j: int| 0 <= j < times.len() ==> (#[trigger] times[j]).instant() <= times[i].instant()
    &&& forall|j: int| i < j < times.len() ==> (#[trigger] times[j]).instant() < times[i].instant()
}

/// The earliest and the latest of a collection of instants, or `None` for an
/// empty collection. Of several equally early instants the first is
/// returned, of several equally late ones the last.
pub fn get_igram_time_span(zpd_times: &[Timestamp]) -> (r: Option<(Timestamp, Timestamp)>)
    ensures
        r is None <==> zpd_times.len() == 0,
        r matches Some((first, last)) ==> exists|i: int, j: int|
            is_first_earliest(zpd_times@, i) && is_last_latest(zpd_times@, j) && first
                == zpd_times@[i] && last == zpd_times@[j],
{
    if zpd_times.len() == 0 {
        return None;
    }
    let mut lo: usize = 0;
    let mut hi: usize = 0;
    let mut k: usize = 1;
    while k < zpd_times.len()
        invariant
            1 <= k <= zpd_times.len(),
            is_first_earliest(zpd_times@.take(k as int), lo as int),
            is_last_latest(zpd_times@.take(k as int), hi as int),
        decreases zpd_times.len() - k,
    {
        let ghost prev = zpd_times@.take(k as int);
        let ghost next = zpd_times@.take(k + 1);
        assert(forall|j: int| 0 <= j < k ==> next[j] == prev[j]);
        if zpd_times[k].utc_millis < zpd_times[lo].utc_millis {
            lo = k;
        }
        if zpd_times[k].utc_millis >= zpd_times[hi].utc_millis {
            hi = k;
        }
        k += 1;
    }
    assert(zpd_times@.take(zpd_times.len() as int) == zpd_times@);
    Some((zpd_times[lo], zpd_times[hi]))
}

/// Where the meteorology of a batch comes from.
#[derive(Clone, Debug, PartialEq, Eq)]
pub enum MetSource {
    /// A comma-separated file of the first version of the format.
    LegacyFileV1 { file: String },
    /// A file written by a weather logger. The times are on the clock of the
    /// scans unless `utc_offset` gives the offset from UTC, in hours.
    JplVaisalaV1 { file: String, utc_offset: Option<Decimal> },
    /// A set of CSV files downloaded from the weather station of `site`.
    CitCsvV1 { pres_file: String, site: String, temp_file: Option<String>, humid_file: Option<String> },
    /// An external program that prints one observation per line.
    ExtScriptV1 { script: String, args: Vec<String>, working_dir: String },
}

/// The kinds of sources of meteorology.
#[derive(Clone, Copy, Debug, PartialEq, Eq, Structural)]
pub enum MetSourceKind {
    LegacyFileV1,
    JplVaisalaV1,
    CitCsvV1,
    ExtScriptV1,
}

impl MetSource {
    /// The kind of the source.
    pub open spec fn spec_kind(&self) -> MetSourceKind {
        match self {
            MetSource::LegacyFileV1 { .. } => MetSourceKind::LegacyFileV1,
            MetSource::JplVaisalaV1 { .. } => MetSourceKind::JplVaisalaV1,
            MetSource::CitCsvV1 { .. } => MetSourceKind::CitCsvV1,
            MetSource::ExtScriptV1 { .. } => MetSourceKind::ExtScriptV1,
        }
    }

    /// The kind of the source.
    pub fn kind(&self) -> (r: MetSourceKind)
        ensures
            r == self.spec_kind(),
    {
        match self {
            MetSource::LegacyFileV1 { .. } => MetSourceKind::LegacyFileV1,
            MetSource::JplVaisalaV1 { .. } => MetSourceKind::JplVaisalaV1,
            MetSource::CitCsvV1 { .. } => MetSourceKind::CitCsvV1,
            MetSource::ExtScriptV1 { .. } => MetSourceKind::ExtScriptV1,
        }
    }
}

impl MetSourceKind {
    /// The name of the kind, as it is written in a description of a source.
    pub open spec fn spec_name(self) -> Seq<char> {
        match self {
            MetSourceKind::LegacyFileV1 => "LegacyFileV1"@,
            MetSourceKind::JplVaisalaV1 => "JplVaisalaV1"@,
            MetSourceKind::CitCsvV1 => "CitCsvV1"@,
            MetSourceKind::ExtScriptV1 => "ExtScriptV1"@,
        }
    }

    /// The name of the kind, as it is written in a description of a source.
    pub fn name(&self) -> (r: &'static str)
        ensures
            r@ == self.spec_name(),
    {
        match self {
            MetSourceKind::LegacyFileV1 => "LegacyFileV1",
            MetSourceKind::JplVaisalaV1 => "JplVaisalaV1",
            MetSourceKind::CitCsvV1 => "CitCsvV1",
            MetSourceKind::ExtScriptV1 => "ExtScriptV1",
        }
    }
}

/// What was read for a source of meteorology: the contents of its files, or
/// the records that its program printed.
#[derive(Debug, PartialEq, Eq)]
pub enum MetInput {
    /// The bytes of the file of a `LegacyFileV1` source.
    LegacyFile(Vec<u8>),
    /// The text of the file of a `JplVaisalaV1` source.
    JplVaisalaFile(String),
    /// The texts of the files of a `CitCsvV1` source.
    CitCsvFiles { pressure: String, temperature: Option<String>, humidity: Option<String> },
    /// The records that the program of an `ExtScriptV1` source printed.
    ScriptOutput(Vec<ScriptRecord>),
}

/// What is wrong with the description of a source.
#[derive(Clone, Copy, Debug, PartialEq, Eq, Structural)]
pub enum ConfigProblem {
    /// The offset from UTC is a day or more.
    UtcOffsetOutOfRange,
    /// The site is not one whose offsets from UTC are known.
    UnknownSite,
    /// What was read is not what the source describes.
    InputMismatch,
}

/// What is wrong with the contents of a file.
#[derive(Clone, Copy, Debug, PartialEq, Eq, Structural)]
pub enum ParsingProblem {
    Jpl(JplMetError),
    Cit(CitMetError),
}

/// A failure of a reader that reports in layers.
#[derive(Clone, Debug, PartialEq, Eq)]
pub enum StackedProblem {
    Legacy(LegacyMetError),
    Script(ScriptMetError),
}

/// Why reading meteorology failed.
#[derive(Clone, Debug, PartialEq, Eq)]
pub enum MetErrorType {
    /// A file could not be opened or read.
    IoError(String),
    /// The description of the source could not be read.
    DeserializationError(String),
    /// The description of the source is wrong.
    ConfigError(ConfigProblem),
    /// The contents of a file are wrong.
    ParsingError(ParsingProblem),
    /// The times of the source carry no offset from UTC and the scans do not
    /// share one, so that none can be taken from them. All offsets that the
    /// scans carry are listed, in seconds east of UTC, each where it first
    /// occurs; the list is empty for a batch without scans.
    BadTimezoneError(Vec<i32>),
    /// The failure of a reader that reports in layers.
    Stack(StackedProblem),
}

/// A failure to read meteorology: the kind of source and the reason.
#[derive(Clone, Debug, PartialEq, Eq)]
pub struct MetError {
    pub met_source_type: MetSourceKind,
    pub reason: MetErrorType,
}

/// The failure that a failure of the logger reader is reported as.
pub open spec fn jpl_reason(e: JplMetError) -> MetErrorType {
    MetErrorType::ParsingError(ParsingProblem::Jpl(e))
}

/// The failure that a failure of the reader of CSV sets is reported as: an
/// unknown site is a wrong description, anything else wrong contents.
pub open spec fn cit_reason(e: CitMetError) -> MetErrorType {
    match e {
        CitMetError::UnknownSite => MetErrorType::ConfigError(ConfigProblem::UnknownSite),
        _ => MetErrorType::ParsingError(ParsingProblem::Cit(e)),
    }
}

impl MetErrorType {
    /// The failure that a failure of the logger reader is reported as.
    pub fn from_jpl(e: JplMetError) -> (r: MetErrorType)
        ensures
            r == jpl_reason(e),
    {
        MetErrorType::ParsingError(ParsingProblem::Jpl(e))
    }

    /// The failure that a failure of the reader of CSV sets is reported as.
    pub fn from_cit(e: CitMetError) -> (r: MetErrorType)
        ensures
            r == cit_reason(e),
    {
        match e {
            CitMetError::UnknownSite => MetErrorType::ConfigError(ConfigProblem::UnknownSite),
            _ => MetErrorType::ParsingError(ParsingProblem::Cit(e)),
        }
    }

    /// The failure that a failure of the reader of the first format is
    /// reported as.
    pub fn from_legacy(e: LegacyMetError) -> (r: MetErrorType)
        ensures
            r == MetErrorType::Stack(StackedProblem::Legacy(e)),
    {
        MetErrorType::Stack(StackedProblem::Legacy(e))
    }

    /// The failure that a failure of an external program is reported as.
    pub fn from_script(e: ScriptMetError) -> (r: MetErrorType)
        ensures
            r == MetErrorType::Stack(StackedProblem::Script(e)),
    {
        MetErrorType::Stack(StackedProblem::Script(e))
    }
}

/// The number of seconds that an offset given in hours amounts to, rounded
/// to the nearest second, halves away from zero.
pub open spec fn offset_seconds(hours: Decimal) -> int {
    let scaled = hours.value() * 3600;
    if scaled >= 0 {
        (scaled + SCALE / 2) / (SCALE as int)
    } else {
        -((-scaled + SCALE / 2) / (SCALE as int))
    }
}

/// Turns an offset given in hours into seconds, or `None` where it is a day
/// or more.
pub fn utc_offset_seconds(hours: Decimal) -> (r: Option<i32>)
    ensures
        r == if is_valid_offset(offset_seconds(hours)) {
            Some(offset_seconds(hours) as i32)
        } else {
            None
        },
{
    let scaled: i128 = hours.billionths as i128 * 3600i128;
    let secs: i128 = if scaled >= 0 {
        (scaled + 500_000_000i128) / 1_000_000_000i128
    } else {
        -((-scaled + 500_000_000i128) / 1_000_000_000i128)
    };
    if -86_400 < secs && secs < 86_400 {
        Some(secs as i32)
    } else {
        None
    }
}

/// Why no offset from UTC could be found for a source.
pub enum OffsetProblem {
    /// The offset that the description gives is a day or more.
    OutOfRange,
    /// The scans do not share one offset; these are the offsets they carry.
    NotShared(Seq<i32>),
}

/// The offset from UTC under which the times of a source are read: the one
/// that the description gives, and else the one that the scans share.
pub open spec fn source_offset(utc_offset: Option<Decimal>, zpd_times: Seq<Timestamp>) -> Result<
    i32,
    OffsetProblem,
> {
    match utc_offset {
        Some(hours) => if is_valid_offset(offset_seconds(hours)) {
            Ok(offset_seconds(hours) as i32)
        } else {
            Err(OffsetProblem::OutOfRange)
        },
        None => match timezones_of(zpd_times) {
            TimezonesView::One(offset) => Ok(offset),
            TimezonesView::Multiple(offsets) => Err(OffsetProblem::NotShared(offsets)),
            TimezonesView::NoTimezone => Err(OffsetProblem::NotShared(Seq::empty())),
        },
    }
}

/// `e` reports the problem `problem`.
pub open spec fn reports_offset_problem(e: MetErrorType, problem: OffsetProblem) -> bool {
    match problem {
        OffsetProblem::OutOfRange => e == MetErrorType::ConfigError(
            ConfigProblem::UtcOffsetOutOfRange,
        ),
        OffsetProblem::NotShared(offsets) => e matches MetErrorType::BadTimezoneError(listed)
            && listed@ == offsets,
    }
}

/// Finds the offset from UTC under which the times of a source are read.
pub fn get_em27_tz(utc_offset: Option<Decimal>, em27_zpd_times: &[Timestamp]) -> (r: Result<
    i32,
    MetErrorType,
>)
    ensures
        match r {
            Ok(offset) => source_offset(utc_offset, em27_zpd_times@) == Ok::<i32, OffsetProblem>(
                offset,
            ),
            Err(e) => source_offset(utc_offset, em27_zpd_times@) matches Err(problem)
                && reports_offset_problem(e, problem),
        },
{
    match utc_offset {
        Some(hours) => match utc_offset_seconds(hours) {
            Some(secs) => Ok(secs),
            None => Err(MetErrorType::ConfigError(ConfigProblem::UtcOffsetOutOfRange)),
        },
        None => match Timezones::check_consistent_timezones(em27_zpd_times) {
            Timezones::One(offset) => Ok(offset),
            Timezones::Multiple(offsets) => Err(MetErrorType::BadTimezoneError(offsets)),
            Timezones::NoTimezone => Err(MetErrorType::BadTimezoneError(Vec::new())),
        },
    }
}

/// The text of an optional text.
pub open spec fn option_view(text: Option<String>) -> Option<Seq<char>> {
    match text {
        Some(t) => Some(t@),
        None => None,
    }
}

/// What reading the meteorology of a source yields, given what was read for
/// it and the times of the scans of the batch.
///
/// Files whose times carry no offset from UTC are read under the offset
/// that all scans share; scans without a common offset fail the reading.
/// What was read must be what the source describes.
pub open spec fn read_met_ensures(
    met_type: MetSource,
    input: MetInput,
    zpd_times: Seq<Timestamp>,
    r: Result<Vec<MetEntry>, MetError>,
) -> bool {
    &&& r matches Err(e) ==> e.met_source_type == met_type.spec_kind()
    &&& match (met_type, input) {
        (MetSource::LegacyFileV1 { .. }, MetInput::LegacyFile(bytes)) => match source_offset(
            None,
            zpd_times,
        ) {
            Err(problem) => r matches Err(e) && reports_offset_problem(e.reason, problem),
            Ok(offset) => match legacy_met_of(csv_records(bytes@, COMMENT_BYTE), offset) {
                Ok(entries) => r matches Ok(v) && v@ == entries,
                Err(x) => r matches Err(e) && e.reason == MetErrorType::Stack(
                    StackedProblem::Legacy(x),
                ),
            },
        },
        (
            MetSource::JplVaisalaV1 { utc_offset, .. },
            MetInput::JplVaisalaFile(text),
        ) => match source_offset(utc_offset, zpd_times) {
            Err(problem) => r matches Err(e) && reports_offset_problem(e.reason, problem),
            Ok(offset) => match jpl_met_of(text@, offset) {
                Ok(entries) => r matches Ok(v) && v@ == entries,
                Err(x) => r matches Err(e) && e.reason == jpl_reason(x),
            },
        },
        (
            MetSource::CitCsvV1 { site, .. },
            MetInput::CitCsvFiles { pressure, temperature, humidity },
        ) => match cit_met_of(pressure@, site@, option_view(temperature), option_view(humidity)) {
            Ok(entries) => r matches Ok(v) && v@ == entries,
            Err(x) => r matches Err(e) && e.reason == cit_reason(x),
        },
        (MetSource::ExtScriptV1 { .. }, MetInput::ScriptOutput(records)) => match r {
            Ok(v) => are_entries_of(v@, records@),
            Err(e) => e.reason matches MetErrorType::Stack(StackedProblem::Script(x))
                && reports_first_undecoded(x, records@),
        },
        _ => r matches Err(e) && e.reason == MetErrorType::ConfigError(
            ConfigProblem::InputMismatch,
        ),
    }
}

/// Reads the meteorology of a source from what was read for it; see
/// `read_met_ensures`.
pub fn read_met_file(met_type: &MetSource, input: &MetInput, em27_zpd_times: &[Timestamp]) -> (r:
    Result<Vec<MetEntry>, MetError>)
    ensures
        read_met_ensures(*met_type, *input, em27_zpd_times@, r),
{
    let kind = met_type.kind();
    match (met_type, input) {
        (MetSource::LegacyFileV1 { .. }, MetInput::LegacyFile(bytes)) => {
            let tz = match get_em27_tz(None, em27_zpd_times) {
                Err(reason) => {
                    return Err(MetError { met_source_type: kind, reason });
                },
                Ok(tz) => tz,
            };
            match read_legacy_inner(bytes.as_slice(), tz) {
                Ok(entries) => Ok(entries),
                Err(e) => Err(
                    MetError { met_source_type: kind, reason: MetErrorType::from_legacy(e) },
                ),
            }
        },
        (MetSource::JplVaisalaV1 { utc_offset, .. }, MetInput::JplVaisalaFile(text)) => {
            let tz = match get_em27_tz(*utc_offset, em27_zpd_times) {
                Err(reason) => {
                    return Err(MetError { met_source_type: kind, reason });
                },
                Ok(tz) => tz,
            };
            match read_jpl_vaisala_met(text.as_str(), tz) {
                Ok(entries) => Ok(entries),
                Err(e) => Err(MetError { met_source_type: kind, reason: MetErrorType::from_jpl(e) }),
            }
        },
        (
            MetSource::CitCsvV1 { site, .. },
            MetInput::CitCsvFiles { pressure, temperature, humidity },
        ) => {
            let temp: Option<&str> = match temperature {
                Some(t) => Some(t.as_str()),
                None => None,
            };
            let humid: Option<&str> = match humidity {
                Some(h) => Some(h.as_str()),
                None => None,
            };
            match read_cit_csv_met(pressure.as_str(), site.as_str(), temp, humid) {
                Ok(entries) => Ok(entries),
                Err(e) => Err(MetError { met_source_type: kind, reason: MetErrorType::from_cit(e) }),
            }
        },
        (MetSource::ExtScriptV1 { .. }, MetInput::ScriptOutput(records)) => {
            match collect_script_entries(records.as_slice()) {
                Ok(entries) => Ok(entries),
                Err(e) => Err(
                    MetError { met_source_type: kind, reason: MetErrorType::from_script(e) },
                ),
            }
        },
        _ => Err(
            MetError {
                met_source_type: kind,
                reason: MetErrorType::ConfigError(ConfigProblem::InputMismatch),
            },
        ),
    }
}

/// What is known of the offset from UTC of a source before its file is
/// opened: the offset under which the file will be read or the reason why
/// there is none, for the sources whose files carry no offset of their own;
/// `None` for the others.
pub open spec fn offset_before_reading(met_type: MetSource, zpd_times: Seq<Timestamp>) -> Option<
    Result<i32, OffsetProblem>,
> {
    match met_type {
        MetSource::LegacyFileV1 { .. } => Some(source_offset(None, zpd_times)),
        MetSource::JplVaisalaV1 { utc_offset, .. } => Some(source_offset(utc_offset, zpd_times)),
        _ => None,
    }
}

/// Tells whether the scans allow the source to be read at all: a caller asks
/// before it opens the file, so that scans without a common offset are
/// reported whether or not the file is there.
pub fn check_source_offset(met_type: &MetSource, em27_zpd_times: &[Timestamp]) -> (r: Result<
    (),
    MetError,
>)
    ensures
        match offset_before_reading(*met_type, em27_zpd_times@) {
            Some(Err(problem)) => r matches Err(e) && e.met_source_type == met_type.spec_kind()
                && reports_offset_problem(e.reason, problem),
            _ => r is Ok,
        },
{
    let found = match met_type {
        MetSource::LegacyFileV1 { .. } => get_em27_tz(None, em27_zpd_times),
        MetSource::JplVaisalaV1 { utc_offset, .. } => get_em27_tz(*utc_offset, em27_zpd_times),
        _ => {
            return Ok(());
        },
    };
    match found {
        Ok(_) => Ok(()),
        Err(reason) => Err(MetError { met_source_type: met_type.kind(), reason }),
    }
}

/// `input` is what is read for a source like `met_type`.
pub open spec fn input_fits(met_type: MetSource, input: MetInput) -> bool {
    match (met_type, input) {
        (MetSource::LegacyFileV1 { .. }, MetInput::LegacyFile(_)) => true,
        (MetSource::JplVaisalaV1 { .. }, MetInput::JplVaisalaFile(_)) => true,
        (MetSource::CitCsvV1 { .. }, MetInput::CitCsvFiles { .. }) => true,
        (MetSource::ExtScriptV1 { .. }, MetInput::ScriptOutput(_)) => true,
        _ => false,
    }
}

/// Where the scans do not allow a source to be read, reading it fails for
/// that reason whatever its file holds.
pub proof fn law_offset_problem_comes_first(
    met_type: MetSource,
    input: MetInput,
    zpd_times: Seq<Timestamp>,
    r: Result<Vec<MetEntry>, MetError>,
    problem: OffsetProblem,
)
    requires
        read_met_ensures(met_type, input, zpd_times, r),
        offset_before_reading(met_type, zpd_times) == Some(
            Err::<i32, OffsetProblem>(problem),
        ),
        input_fits(met_type, input),
    ensures
        r matches Err(e) && e.met_source_type == met_type.spec_kind() && reports_offset_problem(
            e.reason,
            problem,
        ),
{
}

} // verus!
