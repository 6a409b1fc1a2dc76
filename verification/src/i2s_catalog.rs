//! Assembly of the catalog: one row per scan, built from the scan's header,
//! the position of the instrument and the surface meteorology of the batch.

use std::collections::HashSet;
use vstd::prelude::*;
use vstd::std_specs::hash::*;
use vstd::string::*;
use crate::coordinates::{CoordinateSource, Coordinates};
use crate::decimal::{Decimal, FILL_BILLIONTHS, SCALE};
use crate::header::{HeaderBlock, HeaderParam, HeaderValue, IgramHeader, Scan, ScanFileName};
use crate::header_time::{resolve_header_time, resolve_spec, FormatCause, ZpdTime};
use crate::interpolation::{
    interp1d_spec, law_permutation_invariant, samples, ConstantValueInterp, InterpolationError,
};
use crate::coordinates::CoordinateError;
use crate::meteorology::{
    all_offsets_are, offsets_of, read_met_ensures, read_met_file, MetEntry, MetError, MetInput,
    MetSource,
};
use crate::timestamp::{CivilDate, Timestamp};

verus! {

/// Why a scan was left out of the catalog without failing the batch.
#[derive(Clone, Copy, Debug, PartialEq, Eq, Structural)]
pub enum IgramSkipReason {
    /// Surface pressure could not be interpolated to the time of the scan.
    MetUnavailable,
}

/// Why no row could be made for a scan. Each of these fails the batch.
#[derive(Clone, Copy, Debug, PartialEq, Eq, Structural)]
pub enum EntryProblem {
    /// The header of the scan could not be read.
    HeaderUnreadable,
    /// The header lacks a parameter.
    MissingHeaderParameter(HeaderBlock, HeaderParam),
    /// A header parameter has a value of another type than expected.
    UnexpectedParameterType(HeaderBlock, HeaderParam),
    /// A header parameter is not written as expected.
    UnexpectedParameterFormat { block: HeaderBlock, param: HeaderParam, cause: FormatCause },
    /// The path of the scan has no file name component.
    PathMissingFileName,
    /// The file name of the scan is not valid Unicode.
    PathInvalidUnicode,
    /// Interpolating the pressure failed for another reason than the time of
    /// the scan lying outside the meteorology.
    Interpolation(InterpolationError),
    /// The date or the run number of the row is not valid.
    InvalidDate,
    /// The latitude or the longitude is off the globe.
    InvalidCoordinates,
}

/// A failure that ends the assembly of a catalog: the scan at which it
/// happened, by its path, and what went wrong.
#[derive(Clone, Debug, PartialEq, Eq)]
pub struct CatalogError {
    pub igram: String,
    pub problem: EntryProblem,
}

/// One row of the catalog. Values that are not available hold the fill value.
#[derive(Clone, Debug, PartialEq, Eq)]
pub struct CatalogEntry {
    /// The file name of the scan.
    pub spectrum_name: String,
    pub year: i32,
    pub month: u32,
    pub day: u32,
    /// The run number of the row.
    pub run: u32,
    pub latitude: Decimal,
    pub longitude: Decimal,
    pub altitude: Decimal,
    /// Temperature inside the instrument, from the header.
    pub instrument_temperature: Decimal,
    /// Pressure inside the instrument: taken to be the outside pressure.
    pub instrument_pressure: Decimal,
    /// Humidity inside the instrument: taken to be the outside humidity.
    pub instrument_humidity: Decimal,
    pub outside_temperature: Decimal,
    pub outside_pressure: Decimal,
    pub outside_humidity: Decimal,
}

/// What became of one scan.
#[derive(Clone, Debug, PartialEq, Eq)]
pub enum EntryOutcome {
    /// A row was made.
    Kept(CatalogEntry),
    /// The scan is left out; the batch goes on.
    Skipped(IgramSkipReason),
    /// The batch fails.
    Fatal(EntryProblem),
}

/// A scan that was left out of the catalog.
#[derive(Clone, Debug, PartialEq, Eq)]
pub struct SkippedIgram {
    pub igram: String,
    pub reason: IgramSkipReason,
}

/// An assembled catalog: the rows, in the order of the scans, and the scans
/// that were left out.
#[derive(Clone, Debug, PartialEq, Eq)]
pub struct Catalog {
    pub entries: Vec<CatalogEntry>,
    pub skipped: Vec<SkippedIgram>,
}

/// The moment of zero path difference that a header states.
pub open spec fn zpd_time_spec(header: IgramHeader) -> Result<ZpdTime, EntryProblem> {
    match header.dat {
        None => Err(
            EntryProblem::MissingHeaderParameter(HeaderBlock::IgramPrimaryStatus, HeaderParam::Dat),
        ),
        Some(HeaderValue::Text(dat)) => match header.tim {
            None => Err(
                EntryProblem::MissingHeaderParameter(
                    HeaderBlock::IgramPrimaryStatus,
                    HeaderParam::Tim,
                ),
            ),
            Some(HeaderValue::Text(tim)) => match resolve_spec(dat@, tim@) {
                Ok(zpd) => Ok(zpd),
                Err((param, cause)) => Err(
                    EntryProblem::UnexpectedParameterFormat {
                        block: HeaderBlock::IgramPrimaryStatus,
                        param,
                        cause,
                    },
                ),
            },
            Some(_) => Err(
                EntryProblem::UnexpectedParameterType(
                    HeaderBlock::IgramPrimaryStatus,
                    HeaderParam::Tim,
                ),
            ),
        },
        Some(_) => Err(
            EntryProblem::UnexpectedParameterType(HeaderBlock::IgramPrimaryStatus, HeaderParam::Dat),
        ),
    }
}

/// Resolves the moment of zero path difference of a scan from its header.
///
/// The date is read from `DAT`, the time and the offset from `TIM`; both must
/// be present and hold text.
pub fn get_zpd_time(header: &IgramHeader) -> (r: Result<ZpdTime, EntryProblem>)
    ensures
        r == zpd_time_spec(*header),
{
    let dat = match &header.dat {
        None => {
            return Err(
                EntryProblem::MissingHeaderParameter(
                    HeaderBlock::IgramPrimaryStatus,
                    HeaderParam::Dat,
                ),
            );
        },
        Some(HeaderValue::Text(dat)) => dat,
        Some(_) => {
            return Err(
                EntryProblem::UnexpectedParameterType(
                    HeaderBlock::IgramPrimaryStatus,
                    HeaderParam::Dat,
                ),
            );
        },
    };
    let tim = match &header.tim {
        None => {
            return Err(
                EntryProblem::MissingHeaderParameter(
                    HeaderBlock::IgramPrimaryStatus,
                    HeaderParam::Tim,
                ),
            );
        },
        Some(HeaderValue::Text(tim)) => tim,
        Some(_) => {
            return Err(
                EntryProblem::UnexpectedParameterType(
                    HeaderBlock::IgramPrimaryStatus,
                    HeaderParam::Tim,
                ),
            );
        },
    };
    match resolve_header_time(dat.as_str(), tim.as_str()) {
        Ok(zpd) => Ok(zpd),
        Err((param, cause)) => Err(
            EntryProblem::UnexpectedParameterFormat {
                block: HeaderBlock::IgramPrimaryStatus,
                param,
                cause,
            },
        ),
    }
}

/// The largest whole number that a `Decimal` can hold, either way.
pub const MAX_WHOLE: i64 = 9_223_372_036;

/// The temperature inside the instrument that a header states.
pub open spec fn instrument_temperature_spec(header: IgramHeader) -> Result<Decimal, EntryProblem> {
    match header.tsc {
        None => Err(
            EntryProblem::MissingHeaderParameter(HeaderBlock::InstrumentStatus, HeaderParam::Tsc),
        ),
        Some(HeaderValue::Real(t)) => Ok(t),
        Some(HeaderValue::Integer(n)) => if -MAX_WHOLE <= n <= MAX_WHOLE {
            Ok(Decimal { billionths: (n * SCALE) as i64 })
        } else {
            Err(
                EntryProblem::UnexpectedParameterType(
                    HeaderBlock::InstrumentStatus,
                    HeaderParam::Tsc,
                ),
            )
        },
        Some(HeaderValue::Text(_)) => Err(
            EntryProblem::UnexpectedParameterType(HeaderBlock::InstrumentStatus, HeaderParam::Tsc),
        ),
    }
}

/// Reads the temperature inside the instrument from `TSC`, which must be
/// present and hold a number.
pub fn get_instrument_temperature(header: &IgramHeader) -> (r: Result<Decimal, EntryProblem>)
    ensures
        r == instrument_temperature_spec(*header),
{
    match &header.tsc {
        None => Err(
            EntryProblem::MissingHeaderParameter(HeaderBlock::InstrumentStatus, HeaderParam::Tsc),
        ),
        Some(HeaderValue::Real(t)) => Ok(*t),
        Some(HeaderValue::Integer(n)) => {
            if -MAX_WHOLE <= *n && *n <= MAX_WHOLE {
                assert(-MAX_WHOLE * SCALE <= *n * SCALE <= MAX_WHOLE * SCALE) by (nonlinear_arith)
                    requires
                        -MAX_WHOLE <= *n <= MAX_WHOLE,
                ;
                Ok(Decimal { billionths: *n * SCALE })
            } else {
                Err(
                    EntryProblem::UnexpectedParameterType(
                        HeaderBlock::InstrumentStatus,
                        HeaderParam::Tsc,
                    ),
                )
            }
        },
        Some(HeaderValue::Text(_)) => Err(
            EntryProblem::UnexpectedParameterType(HeaderBlock::InstrumentStatus, HeaderParam::Tsc),
        ),
    }
}

/// A year with a 29th of February.
pub open spec fn is_leap_year(year: int) -> bool {
    year % 4 == 0 && (year % 100 != 0 || year % 400 == 0)
}

/// The number of days of a month.
pub open spec fn days_in_month(year: int, month: int) -> int {
    if month == 2 {
        if is_leap_year(year) {
            29
        } else {
            28
        }
    } else if month == 4 || month == 6 || month == 9 || month == 11 {
        30
    } else {
        31
    }
}

/// The date exists in the calendar.
pub open spec fn is_valid_date(date: CivilDate) -> bool {
    1 <= date.month <= 12 && 1 <= date.day <= days_in_month(date.year as int, date.month as int)
}

/// Tests a year for having a 29th of February.
pub fn year_is_leap(year: i32) -> (r: bool)
    ensures
        r == is_leap_year(year as int),
{
    // The calendar repeats every 400 years: a year that is not negative and
    // as many cycles later has the same remainders.
    let later: i64 = year as i64 + 2_147_484_000;
    assert(later % 400 == year as int % 400);
    assert(later % 100 == year as int % 100);
    assert(later % 4 == year as int % 4);
    later % 4 == 0 && (later % 100 != 0 || later % 400 == 0)
}

/// Tests a date for existing in the calendar.
pub fn date_is_valid(date: &CivilDate) -> (r: bool)
    ensures
        r == is_valid_date(*date),
{
    if date.month < 1 || date.month > 12 || date.day < 1 {
        return false;
    }
    let leap = year_is_leap(date.year);
    let days: u32 = if date.month == 2 {
        if leap {
            29
        } else {
            28
        }
    } else if date.month == 4 || date.month == 6 || date.month == 9 || date.month == 11 {
        30
    } else {
        31
    };
    date.day <= days
}

/// The value, or the fill value where there is none.
pub open spec fn or_fill(value: Option<Decimal>) -> Decimal {
    match value {
        Some(v) => v,
        None => Decimal { billionths: FILL_BILLIONTHS },
    }
}

/// The interpolated value, or the fill value where interpolation failed.
pub open spec fn value_or_fill(value: Result<Decimal, InterpolationError>) -> Decimal {
    match value {
        Ok(v) => v,
        Err(_) => Decimal { billionths: FILL_BILLIONTHS },
    }
}

/// The instants of a series of observations.
pub open spec fn met_times(met: Seq<MetEntry>) -> Seq<Timestamp> {
    Seq::new(met.len(), |i: int| met[i].datetime)
}

/// The pressures of a series of observations.
pub open spec fn met_pressures(met: Seq<MetEntry>) -> Seq<Decimal> {
    Seq::new(met.len(), |i: int| met[i].pressure)
}

/// The temperatures of a series of observations, the fill value where an
/// observation has none.
pub open spec fn met_temperatures(met: Seq<MetEntry>) -> Seq<Decimal> {
    Seq::new(met.len(), |i: int| or_fill(met[i].temperature))
}

/// The humidities of a series of observations, the fill value where an
/// observation has none.
pub open spec fn met_humidities(met: Seq<MetEntry>) -> Seq<Decimal> {
    Seq::new(met.len(), |i: int| or_fill(met[i].humidity))
}

/// The row for a scan whose header, name and pressure are settled, or the
/// reason why its date, run number or coordinates do not allow one.
pub open spec fn finalized_entry(
    name: String,
    zpd: ZpdTime,
    run: u32,
    position: Coordinates,
    instrument_temperature: Decimal,
    pressure: Decimal,
    met: Seq<MetEntry>,
) -> EntryOutcome {
    let temperature = value_or_fill(
        interp1d_spec(met_times(met), met_temperatures(met), zpd.instant),
    );
    let humidity = value_or_fill(interp1d_spec(met_times(met), met_humidities(met), zpd.instant));
    if !is_valid_date(zpd.date) || run == 0 {
        EntryOutcome::Fatal(EntryProblem::InvalidDate)
    } else if !position.in_range() {
        EntryOutcome::Fatal(EntryProblem::InvalidCoordinates)
    } else {
        EntryOutcome::Kept(
            CatalogEntry {
                spectrum_name: name,
                year: zpd.date.year,
                month: zpd.date.month,
                day: zpd.date.day,
                run,
                latitude: position.latitude,
                longitude: position.longitude,
                altitude: position.altitude,
                instrument_temperature,
                instrument_pressure: pressure,
                instrument_humidity: humidity,
                outside_temperature: temperature,
                outside_pressure: pressure,
                outside_humidity: humidity,
            },
        )
    }
}

/// What becomes of a scan, step by step; the first step that fails decides.
///
/// 1. The header must have been read, and must state the moment of zero
///    path difference.
/// 2. The position of the instrument at that moment is looked up.
/// 3. The header must state the temperature inside the instrument.
/// 4. The path must end in a file name that is valid Unicode.
/// 5. The pressure is interpolated to the moment. Outside the span of the
///    meteorology the row gets the fill value if `keep_if_missing_met` is
///    set, and else the scan is skipped. Any other failure is fatal.
/// 6. Temperature and humidity are interpolated; any failure gives the fill
///    value.
/// 7. The date, the run number and the coordinates must be valid.
pub open spec fn entry_outcome_spec(
    scan: Scan,
    run: u32,
    coords: CoordinateSource,
    met: Seq<MetEntry>,
    keep_if_missing_met: bool,
) -> EntryOutcome {
    match scan.header {
        None => EntryOutcome::Fatal(EntryProblem::HeaderUnreadable),
        Some(header) => match zpd_time_spec(header) {
            Err(problem) => EntryOutcome::Fatal(problem),
            Ok(zpd) => match instrument_temperature_spec(header) {
                Err(problem) => EntryOutcome::Fatal(problem),
                Ok(instrument_temperature) => match scan.file_name {
                    ScanFileName::Missing => EntryOutcome::Fatal(EntryProblem::PathMissingFileName),
                    ScanFileName::NotUnicode => EntryOutcome::Fatal(
                        EntryProblem::PathInvalidUnicode,
                    ),
                    ScanFileName::Name(name) => match interp1d_spec(
                        met_times(met),
                        met_pressures(met),
                        zpd.instant,
                    ) {
                        Ok(pressure) => finalized_entry(
                            name,
                            zpd,
                            run,
                            coords.coords_at(zpd.instant),
                            instrument_temperature,
                            pressure,
                            met,
                        ),
                        Err(InterpolationError::OutOfDomain { .. }) => if keep_if_missing_met {
                            finalized_entry(
                                name,
                                zpd,
                                run,
                                coords.coords_at(zpd.instant),
                                instrument_temperature,
                                Decimal { billionths: FILL_BILLIONTHS },
                                met,
                            )
                        } else {
                            EntryOutcome::Skipped(IgramSkipReason::MetUnavailable)
                        },
                        Err(e) => EntryOutcome::Fatal(EntryProblem::Interpolation(e)),
                    },
                },
            },
        },
    }
}

/// Two sequences with the same items, each as often in the one as in the
/// other, still have the same items after a function is applied to each.
proof fn lemma_map_keeps_items<A, B>(s1: Seq<A>, s2: Seq<A>, f: spec_fn(A) -> B)
    requires
        s1.to_multiset() == s2.to_multiset(),
    ensures
        s1.map_values(f).to_multiset() == s2.map_values(f).to_multiset(),
    decreases s1.len(),
{
    s1.to_multiset_ensures();
    s2.to_multiset_ensures();
    let m1 = s1.map_values(f);
    let m2 = s2.map_values(f);
    if s1.len() == 0 {
        assert(m1 =~= m2);
    } else {
        let x = s1.last();
        assert(s1[s1.len() - 1] == x);
        assert(s1.contains(x));
        assert(s1.to_multiset().count(x) > 0);
        assert(s2.to_multiset().count(x) > 0);
        assert(s2.contains(x));
        let k = choose|k: int| 0 <= k < s2.len() && s2[k] == x;
        let h1 = s1.drop_last();
        let h2 = s2.remove(k);
        assert(h1 =~= s1.remove(s1.len() - 1));
        assert(h1.to_multiset() =~= h2.to_multiset());
        lemma_map_keeps_items(h1, h2, f);
        let n1 = h1.map_values(f);
        let n2 = h2.map_values(f);
        n1.to_multiset_ensures();
        m2.to_multiset_ensures();
        assert(m1 =~= n1.push(f(x)));
        assert(m2.remove(k) =~= n2);
        assert(m2[k] == f(x));
        assert(m2.to_multiset().count(f(x)) > 0);
        assert(m2.to_multiset() =~= n2.to_multiset().insert(f(x)));
        assert(m1.to_multiset() =~= m2.to_multiset());
    }
}

/// Shuffling the observations never changes what becomes of a scan: the
/// same row field for field, the same skip or the same failure.
pub proof fn law_order_of_observations_is_immaterial(
    scan: Scan,
    run: u32,
    coords: CoordinateSource,
    met1: Seq<MetEntry>,
    met2: Seq<MetEntry>,
    keep_if_missing_met: bool,
)
    requires
        met1.to_multiset() == met2.to_multiset(),
    ensures
        entry_outcome_spec(scan, run, coords, met1, keep_if_missing_met) == entry_outcome_spec(
            scan,
            run,
            coords,
            met2,
            keep_if_missing_met,
        ),
{
    let pressure = |e: MetEntry| (e.datetime, e.pressure);
    let temperature = |e: MetEntry| (e.datetime, or_fill(e.temperature));
    let humidity = |e: MetEntry| (e.datetime, or_fill(e.humidity));
    lemma_map_keeps_items(met1, met2, pressure);
    lemma_map_keeps_items(met1, met2, temperature);
    lemma_map_keeps_items(met1, met2, humidity);
    assert(samples(met_times(met1), met_pressures(met1)) =~= met1.map_values(pressure));
    assert(samples(met_times(met2), met_pressures(met2)) =~= met2.map_values(pressure));
    assert(samples(met_times(met1), met_temperatures(met1)) =~= met1.map_values(temperature));
    assert(samples(met_times(met2), met_temperatures(met2)) =~= met2.map_values(temperature));
    assert(samples(met_times(met1), met_humidities(met1)) =~= met1.map_values(humidity));
    assert(samples(met_times(met2), met_humidities(met2)) =~= met2.map_values(humidity));
    assert forall|at: Timestamp|
        interp1d_spec(met_times(met1), met_pressures(met1), at) == interp1d_spec(
            met_times(met2),
            met_pressures(met2),
            at,
        ) && interp1d_spec(met_times(met1), met_temperatures(met1), at) == interp1d_spec(
            met_times(met2),
            met_temperatures(met2),
            at,
        ) && interp1d_spec(met_times(met1), met_humidities(met1), at) == interp1d_spec(
            met_times(met2),
            met_humidities(met2),
            at,
        ) by {
        law_permutation_invariant(
            met_times(met1),
            met_pressures(met1),
            met_times(met2),
            met_pressures(met2),
            at,
        );
        law_permutation_invariant(
            met_times(met1),
            met_temperatures(met1),
            met_times(met2),
            met_temperatures(met2),
            at,
        );
        law_permutation_invariant(
            met_times(met1),
            met_humidities(met1),
            met_times(met2),
            met_humidities(met2),
            at,
        );
    }
}

/// The row of a scan holds the fill value for the pressure only where the
/// moment of the scan lies outside the meteorology and rows without pressure
/// were asked to be kept; any other row holds the interpolated pressure.
pub proof fn law_pressure_is_filled_only_on_request(
    scan: Scan,
    run: u32,
    coords: CoordinateSource,
    met: Seq<MetEntry>,
    keep_if_missing_met: bool,
)
    requires
        entry_outcome_spec(scan, run, coords, met, keep_if_missing_met) is Kept,
    ensures
        scan.header matches Some(header) && zpd_time_spec(header) matches Ok(zpd) && match interp1d_spec(
            met_times(met),
            met_pressures(met),
            zpd.instant,
        ) {
            Ok(pressure) => entry_outcome_spec(
                scan,
                run,
                coords,
                met,
                keep_if_missing_met,
            )->Kept_0.outside_pressure == pressure,
            Err(e) => keep_if_missing_met && e is OutOfDomain && entry_outcome_spec(
                scan,
                run,
                coords,
                met,
                keep_if_missing_met,
            )->Kept_0.outside_pressure.billionths == FILL_BILLIONTHS,
        },
{
}

/// A scan is skipped for one reason only: its moment lies outside the
/// meteorology, so that there is no pressure for it, and rows without
/// pressure were not asked to be kept. Missing temperature or humidity never
/// skips a scan.
pub proof fn law_only_missing_pressure_skips(
    scan: Scan,
    run: u32,
    coords: CoordinateSource,
    met: Seq<MetEntry>,
    keep_if_missing_met: bool,
)
    requires
        entry_outcome_spec(scan, run, coords, met, keep_if_missing_met) is Skipped,
    ensures
        !keep_if_missing_met,
        scan.header matches Some(header) && zpd_time_spec(header) matches Ok(zpd) && interp1d_spec(
            met_times(met),
            met_pressures(met),
            zpd.instant,
        ) matches Err(InterpolationError::OutOfDomain { .. }),
{
}

/// The instants, pressures, temperatures and humidities of a series of
/// observations, as parallel arrays.
pub struct MetSeries {
    pub times: Vec<Timestamp>,
    pub pressures: Vec<Decimal>,
    pub temperatures: Vec<Decimal>,
    pub humidities: Vec<Decimal>,
}

/// Lays a series of observations out as parallel arrays, with the fill value
/// in place of a missing temperature or humidity.
pub fn met_series(met: &[MetEntry]) -> (r: MetSeries)
    ensures
        r.times@ == met_times(met@),
        r.pressures@ == met_pressures(met@),
        r.temperatures@ == met_temperatures(met@),
        r.humidities@ == met_humidities(met@),
{
    let mut times: Vec<Timestamp> = Vec::new();
    let mut pressures: Vec<Decimal> = Vec::new();
    let mut temperatures: Vec<Decimal> = Vec::new();
    let mut humidities: Vec<Decimal> = Vec::new();
    let mut i: usize = 0;
    while i < met.len()
        invariant
            i <= met.len(),
            times@ == met_times(met@.take(i as int)),
            pressures@ == met_pressures(met@.take(i as int)),
            temperatures@ == met_temperatures(met@.take(i as int)),
            humidities@ == met_humidities(met@.take(i as int)),
        decreases met.len() - i,
    {
        let m = met[i];
        let ghost prev = met@.take(i as int);
        let ghost next = met@.take(i + 1);
        assert(next == prev.push(m));
        times.push(m.datetime);
        pressures.push(m.pressure);
        temperatures.push(
            match m.temperature {
                Some(t) => t,
                None => Decimal::fill(),
            },
        );
        humidities.push(
            match m.humidity {
                Some(h) => h,
                None => Decimal::fill(),
            },
        );
        assert(times@ == met_times(next));
        assert(pressures@ == met_pressures(next));
        assert(temperatures@ == met_temperatures(next));
        assert(humidities@ == met_humidities(next));
        i += 1;
    }
    assert(met@.take(met.len() as int) == met@);
    MetSeries { times, pressures, temperatures, humidities }
}

/// Makes the catalog row for one scan, or says why there is none; see
/// `entry_outcome_spec` for the steps.
pub fn create_catalog_entry_for_igram(
    igram: &Scan,
    run: u32,
    coords: &CoordinateSource,
    met: &[MetEntry],
    keep_if_missing_met: bool,
) -> (r: EntryOutcome)
    ensures
        r == entry_outcome_spec(*igram, run, *coords, met@, keep_if_missing_met),
{
    let header = match &igram.header {
        None => {
            return EntryOutcome::Fatal(EntryProblem::HeaderUnreadable);
        },
        Some(header) => header,
    };
    let zpd = match get_zpd_time(header) {
        Err(problem) => {
            return EntryOutcome::Fatal(problem);
        },
        Ok(zpd) => zpd,
    };
    let position = coords.get_coords_for_datetime(zpd.instant);
    let instrument_temperature = match get_instrument_temperature(header) {
        Err(problem) => {
            return EntryOutcome::Fatal(problem);
        },
        Ok(t) => t,
    };
    let name = match &igram.file_name {
        ScanFileName::Missing => {
            return EntryOutcome::Fatal(EntryProblem::PathMissingFileName);
        },
        ScanFileName::NotUnicode => {
            return EntryOutcome::Fatal(EntryProblem::PathInvalidUnicode);
        },
        ScanFileName::Name(name) => name.clone(),
    };
    let series = met_series(met);
    let interpolator = ConstantValueInterp::new();
    let pressure = match interpolator.interp1d_to_time(
        series.times.as_slice(),
        series.pressures.as_slice(),
        zpd.instant,
    ) {
        Ok(p) => p,
        Err(InterpolationError::OutOfDomain { left, right, out }) => {
            if keep_if_missing_met {
                Decimal::fill()
            } else {
                return EntryOutcome::Skipped(IgramSkipReason::MetUnavailable);
            }
        },
        Err(e) => {
            return EntryOutcome::Fatal(EntryProblem::Interpolation(e));
        },
    };
    let temperature = match interpolator.interp1d_to_time(
        series.times.as_slice(),
        series.temperatures.as_slice(),
        zpd.instant,
    ) {
        Ok(t) => t,
        Err(_) => Decimal::fill(),
    };
    let humidity = match interpolator.interp1d_to_time(
        series.times.as_slice(),
        series.humidities.as_slice(),
        zpd.instant,
    ) {
        Ok(h) => h,
        Err(_) => Decimal::fill(),
    };
    if !date_is_valid(&zpd.date) || run == 0 {
        return EntryOutcome::Fatal(EntryProblem::InvalidDate);
    }
    if !position.is_in_range() {
        return EntryOutcome::Fatal(EntryProblem::InvalidCoordinates);
    }
    EntryOutcome::Kept(
        CatalogEntry {
            spectrum_name: name,
            year: zpd.date.year,
            month: zpd.date.month,
            day: zpd.date.day,
            run,
            latitude: position.latitude,
            longitude: position.longitude,
            altitude: position.altitude,
            instrument_temperature,
            instrument_pressure: pressure,
            instrument_humidity: humidity,
            outside_temperature: temperature,
            outside_pressure: pressure,
            outside_humidity: humidity,
        },
    )
}

/// The most scans that one catalog can hold: run numbers go up by two per
/// row and must fit 32 bits.
pub const MAX_SCANS: usize = 0x7fff_ffff;

/// What assembling the catalog for `scans` yields: the rows and the skipped
/// scans, both in the order of the scans, or the first fatal failure.
///
/// The scans are taken in order. The run number offered to a scan is one
/// more than twice the number of rows made before it, so that it goes up
/// only where a row is kept.
pub open spec fn assembled(
    coords: CoordinateSource,
    met: Seq<MetEntry>,
    scans: Seq<Scan>,
    keep_if_missing_met: bool,
) -> Result<(Seq<CatalogEntry>, Seq<SkippedIgram>), CatalogError>
    decreases scans.len(),
{
    if scans.len() == 0 {
        Ok((Seq::empty(), Seq::empty()))
    } else {
        match assembled(coords, met, scans.drop_last(), keep_if_missing_met) {
            Err(e) => Err(e),
            Ok((entries, skipped)) => match entry_outcome_spec(
                scans.last(),
                (2 * entries.len() + 1) as u32,
                coords,
                met,
                keep_if_missing_met,
            ) {
                EntryOutcome::Kept(entry) => Ok((entries.push(entry), skipped)),
                EntryOutcome::Skipped(reason) => Ok(
                    (entries, skipped.push(SkippedIgram { igram: scans.last().path, reason })),
                ),
                EntryOutcome::Fatal(problem) => Err(
                    CatalogError { igram: scans.last().path, problem },
                ),
            },
        }
    }
}

/// Row `k` of an assembled catalog has the run number `2k + 1`, however many
/// scans were skipped before it, and every scan is either kept or skipped.
pub proof fn law_run_numbers(
    coords: CoordinateSource,
    met: Seq<MetEntry>,
    scans: Seq<Scan>,
    keep_if_missing_met: bool,
)
    requires
        scans.len() <= MAX_SCANS,
    ensures
        assembled(coords, met, scans, keep_if_missing_met) matches Ok((entries, skipped)) ==> {
            &&& entries.len() + skipped.len() == scans.len()
            &&& forall|k: int| 0 <= k < entries.len() ==> (#[trigger] entries[k]).run == 2 * k + 1
        },
    decreases scans.len(),
{
    if scans.len() > 0 {
        law_run_numbers(coords, met, scans.drop_last(), keep_if_missing_met);
    }
}

/// A fatal failure at any scan leaves no catalog at all; without one, every
/// scan before the end was kept or skipped.
pub proof fn law_fatal_failure_propagates(
    coords: CoordinateSource,
    met: Seq<MetEntry>,
    scans: Seq<Scan>,
    keep_if_missing_met: bool,
    n: int,
)
    requires
        0 <= n <= scans.len(),
        assembled(coords, met, scans.take(n), keep_if_missing_met) is Err,
    ensures
        assembled(coords, met, scans, keep_if_missing_met) == assembled(
            coords,
            met,
            scans.take(n),
            keep_if_missing_met,
        ),
    decreases scans.len() - n,
{
    if n < scans.len() {
        assert(scans.take(n + 1).drop_last() == scans.take(n));
        law_fatal_failure_propagates(coords, met, scans, keep_if_missing_met, n + 1);
    } else {
        assert(scans.take(n) == scans);
    }
}

/// Assembles the catalog for a batch of scans.
///
/// The scans are taken in order; each is kept, skipped or fails the batch as
/// `entry_outcome_spec` says. Run numbers start at 1 and go up by 2 for each
/// row kept. On a fatal failure nothing of the catalog is returned.
pub fn make_catalog_entries(
    coords: &CoordinateSource,
    met: &[MetEntry],
    interferograms: &[Scan],
    keep_if_missing_met: bool,
) -> (r: Result<Catalog, CatalogError>)
    requires
        interferograms.len() <= MAX_SCANS,
    ensures
        match r {
            Ok(catalog) => assembled(*coords, met@, interferograms@, keep_if_missing_met) == Ok::<
                (Seq<CatalogEntry>, Seq<SkippedIgram>),
                CatalogError,
            >((catalog.entries@, catalog.skipped@)),
            Err(e) => assembled(*coords, met@, interferograms@, keep_if_missing_met) == Err::<
                (Seq<CatalogEntry>, Seq<SkippedIgram>),
                CatalogError,
            >(e),
        },
{
    let mut entries: Vec<CatalogEntry> = Vec::new();
    let mut skipped: Vec<SkippedIgram> = Vec::new();
    let mut run_num: u32 = 1;
    let mut i: usize = 0;
    while i < interferograms.len()
        invariant
            i <= interferograms.len() <= MAX_SCANS,
            entries.len() <= i,
            run_num == 2 * entries.len() + 1,
            assembled(*coords, met@, interferograms@.take(i as int), keep_if_missing_met) == Ok::<
                (Seq<CatalogEntry>, Seq<SkippedIgram>),
                CatalogError,
            >((entries@, skipped@)),
        decreases interferograms.len() - i,
    {
        let igm = &interferograms[i];
        assert(interferograms@.take(i + 1).drop_last() == interferograms@.take(i as int));
        assert(interferograms@.take(i + 1).last() == *igm);
        match create_catalog_entry_for_igram(igm, run_num, coords, met, keep_if_missing_met) {
            EntryOutcome::Kept(entry) => {
                entries.push(entry);
                run_num += 2;
            },
            EntryOutcome::Skipped(reason) => {
                skipped.push(SkippedIgram { igram: igm.path.clone(), reason });
            },
            EntryOutcome::Fatal(problem) => {
                let e = CatalogError { igram: igm.path.clone(), problem };
                proof {
                    law_fatal_failure_propagates(
                        *coords,
                        met@,
                        interferograms@,
                        keep_if_missing_met,
                        i + 1,
                    );
                }
                return Err(e);
            },
        }
        i += 1;
    }
    assert(interferograms@.take(interferograms.len() as int) == interferograms@);
    Ok(Catalog { entries, skipped })
}

/// The instant that a scan's header states.
pub open spec fn scan_instant_spec(scan: Scan) -> Result<Timestamp, EntryProblem> {
    match scan.header {
        None => Err(EntryProblem::HeaderUnreadable),
        Some(header) => match zpd_time_spec(header) {
            Ok(zpd) => Ok(zpd.instant),
            Err(problem) => Err(problem),
        },
    }
}

/// `i` is the first scan whose instant cannot be resolved.
pub open spec fn is_first_unresolved(scans: Seq<Scan>, i: int) -> bool {
    &&& 0 <= i < scans.len()
    &&& scan_instant_spec(scans[i]) is Err
    &&& forall|j: int| 0 <= j < i ==> scan_instant_spec(#[trigger] scans[j]) is Ok
}

/// `times` are the instants of `scans`, one for one.
pub open spec fn are_instants_of(times: Seq<Timestamp>, scans: Seq<Scan>) -> bool {
    &&& times.len() == scans.len()
    &&& forall|i: int| 0 <= i < scans.len() ==> scan_instant_spec(#[trigger] scans[i]) == Ok::<
        Timestamp,
        EntryProblem,
    >(times[i])
}

/// Resolves the moment of zero path difference of every scan of a batch, in
/// order. The first scan whose header was not read or does not state the
/// moment fails the batch.
pub fn resolve_zpd_times(igrams: &[Scan]) -> (r: Result<Vec<Timestamp>, CatalogError>)
    ensures
        match r {
            Ok(times) => are_instants_of(times@, igrams@),
            Err(e) => exists|i: int|
                is_first_unresolved(igrams@, i) && e.igram == igrams@[i].path
                    && scan_instant_spec(igrams@[i]) == Err::<Timestamp, EntryProblem>(e.problem),
        },
{
    let mut times: Vec<Timestamp> = Vec::new();
    let mut i: usize = 0;
    while i < igrams.len()
        invariant
            i <= igrams.len(),
            are_instants_of(times@, igrams@.take(i as int)),
        decreases igrams.len() - i,
    {
        let igm = &igrams[i];
        let ghost before = igrams@.take(i as int);
        let ghost after = igrams@.take(i + 1);
        assert(forall|j: int| 0 <= j < i ==> after[j] == before[j]);
        assert(forall|j: int| 0 <= j < i ==> before[j] == igrams@[j]);
        let resolved = match &igm.header {
            None => Err(EntryProblem::HeaderUnreadable),
            Some(header) => match get_zpd_time(header) {
                Ok(zpd) => Ok(zpd.instant),
                Err(problem) => Err(problem),
            },
        };
        match resolved {
            Ok(t) => {
                times.push(t);
            },
            Err(problem) => {
                assert forall|j: int| 0 <= j < i implies scan_instant_spec(
                    #[trigger] igrams@[j],
                ) is Ok by {
                    assert(scan_instant_spec(before[j]) is Ok);
                }
                assert(is_first_unresolved(igrams@, i as int));
                return Err(CatalogError { igram: igm.path.clone(), problem });
            },
        }
        i += 1;
    }
    assert(igrams@.take(igrams.len() as int) == igrams@);
    Ok(times)
}

/// Why a batch of scans has no common offset from UTC.
#[derive(Debug, PartialEq, Eq)]
pub enum IgramTimezoneError {
    /// The batch is empty.
    NoIgrams,
    /// The scans carry more than one offset; the set holds all of them, in
    /// seconds east of UTC.
    Multiple(HashSet<i32>),
    /// The moment of a scan could not be resolved.
    Error(CatalogError),
}

/// The offsets from UTC that the instants of `times` carry.
pub open spec fn offset_set(times: Seq<Timestamp>) -> Set<i32> {
    offsets_of(times).to_set()
}

/// The offset from UTC that all scans of a batch share, in seconds east of
/// UTC.
///
/// Fails with `Error` at the first scan whose moment cannot be resolved,
/// with `NoIgrams` for an empty batch and with `Multiple` where the scans do
/// not all carry the same offset.
pub fn get_common_igram_timezone(igrams: &[Scan]) -> (r: Result<i32, IgramTimezoneError>)
    ensures
        match r {
            Ok(offset) => exists|times: Seq<Timestamp>|
                #![trigger are_instants_of(times, igrams@)]
                are_instants_of(times, igrams@) && times.len() > 0 && all_offsets_are(
                    times,
                    offset as int,
                ),
            Err(IgramTimezoneError::NoIgrams) => igrams.len() == 0,
            Err(IgramTimezoneError::Multiple(offsets)) => exists|times: Seq<Timestamp>|
                #![trigger are_instants_of(times, igrams@)]
                are_instants_of(times, igrams@) && offsets@ == offset_set(times) && offsets@.finite()
                    && offsets@.len() > 1,
            Err(IgramTimezoneError::Error(e)) => exists|i: int|
                is_first_unresolved(igrams@, i) && e.igram == igrams@[i].path
                    && scan_instant_spec(igrams@[i]) == Err::<Timestamp, EntryProblem>(e.problem),
        },
{
    broadcast use group_hash_axioms;

    let times = match resolve_zpd_times(igrams) {
        Err(e) => {
            return Err(IgramTimezoneError::Error(e));
        },
        Ok(times) => times,
    };
    let mut timezones: HashSet<i32> = HashSet::new();
    let mut i: usize = 0;
    while i < times.len()
        invariant
            i <= times.len(),
            timezones@.finite(),
            timezones@ == offset_set(times@.take(i as int)),
        decreases times.len() - i,
    {
        let ghost before = times@.take(i as int);
        let ghost after = times@.take(i + 1);
        timezones.insert(times[i].offset_secs);
        proof {
            assert(after == before.push(times@[i as int]));
            assert(offsets_of(after) == offsets_of(before).push(times@[i as int].offset_secs));
            lemma_push_to_set(offsets_of(before), times@[i as int].offset_secs);
        }
        i += 1;
    }
    assert(times@.take(times.len() as int) == times@);
    if timezones.is_empty() {
        proof {
            if times.len() > 0 {
                assert(offsets_of(times@)[0] == times@[0].offset_secs);
                assert(offsets_of(times@).contains(times@[0].offset_secs));
                assert(timezones@.contains(times@[0].offset_secs));
            }
        }
        Err(IgramTimezoneError::NoIgrams)
    } else if timezones.len() > 1 {
        Err(IgramTimezoneError::Multiple(timezones))
    } else {
        proof {
            assert(times.len() > 0) by {
                if times.len() == 0 {
                    assert(offsets_of(times@) =~= Seq::<i32>::empty());
                    assert(timezones@ =~= Set::<i32>::empty());
                }
            }
            assert(timezones@.len() == 1);
            let first = times@[0].offset_secs;
            assert(offsets_of(times@)[0] == first);
            assert(timezones@.contains(first));
            assert forall|k: int| 0 <= k < times@.len() implies (#[trigger] times@[k]).offset_secs
                == first by {
                let other = times@[k].offset_secs;
                assert(offsets_of(times@)[k] == other);
                assert(timezones@.contains(other));
                if other != first {
                    assert(timezones@.remove(first).contains(other));
                    assert(timezones@.remove(first).len() == 0);
                }
            }
            assert(all_offsets_are(times@, first as int));
        }
        Ok(times[0].offset_secs)
    }
}

/// The values of a sequence with one more value are the values of the
/// sequence and that value.
proof fn lemma_push_to_set(values: Seq<i32>, x: i32)
    ensures
        values.push(x).to_set() == values.to_set().insert(x),
{
    let longer = values.push(x);
    assert forall|y: i32| longer.to_set().contains(y) <==> values.to_set().insert(x).contains(
        y,
    ) by {
        if longer.contains(y) {
            let k = choose|k: int| 0 <= k < longer.len() && longer[k] == y;
            if k < values.len() {
                assert(values[k] == y);
            }
        }
        if values.contains(y) {
            let k = choose|k: int| 0 <= k < values.len() && values[k] == y;
            assert(longer[k] == y);
        }
        if y == x {
            assert(longer[values.len() as int] == x);
        }
    }
    assert(longer.to_set() =~= values.to_set().insert(x));
}

/// Why the meteorology of a batch could not be loaded.
#[derive(Clone, Debug, PartialEq, Eq)]
pub enum LoadMetError {
    /// The moment of a scan could not be resolved.
    Igram(CatalogError),
    /// The source of meteorology could not be read.
    Met(MetError),
}

/// Why no catalog could be made.
#[derive(Clone, Debug, PartialEq, Eq)]
pub enum MainCatalogError {
    /// The coordinates could not be loaded.
    Coordinates(CoordinateError),
    /// The meteorology could not be loaded; the first field is the path of
    /// the description of its source.
    Met(String, LoadMetError),
    /// A row could not be made.
    Catalog(CatalogError),
}

/// `r` is what loading the meteorology of a batch yields: the moments of
/// all scans are resolved first, and the source is read with them.
pub open spec fn load_met_ensures(
    igrams: Seq<Scan>,
    met_source: MetSource,
    input: MetInput,
    r: Result<Vec<MetEntry>, LoadMetError>,
) -> bool {
    match r {
        Ok(met) => exists|times: Seq<Timestamp>|
            #![trigger are_instants_of(times, igrams)]
            are_instants_of(times, igrams) && read_met_ensures(
                met_source,
                input,
                times,
                Ok::<Vec<MetEntry>, MetError>(met),
            ),
        Err(LoadMetError::Met(e)) => exists|times: Seq<Timestamp>|
            #![trigger are_instants_of(times, igrams)]
            are_instants_of(times, igrams) && read_met_ensures(
                met_source,
                input,
                times,
                Err::<Vec<MetEntry>, MetError>(e),
            ),
        Err(LoadMetError::Igram(e)) => exists|i: int|
            is_first_unresolved(igrams, i) && e.igram == igrams[i].path && scan_instant_spec(
                igrams[i],
            ) == Err::<Timestamp, EntryProblem>(e.problem),
    }
}

/// Loads the meteorology of a batch from what was read for its source.
///
/// The moment of every scan is resolved first, to find the offset from UTC
/// that sources without one are read under; a scan whose moment cannot be
/// resolved fails the batch. Nothing is assumed of the order of the
/// observations that come out.
pub fn load_met(igrams: &[Scan], met_source: &MetSource, input: &MetInput) -> (r: Result<
    Vec<MetEntry>,
    LoadMetError,
>)
    ensures
        load_met_ensures(igrams@, *met_source, *input, r),
{
    let zpd_times = match resolve_zpd_times(igrams) {
        Err(e) => {
            return Err(LoadMetError::Igram(e));
        },
        Ok(times) => times,
    };
    match read_met_file(met_source, input, zpd_times.as_slice()) {
        Ok(met) => Ok(met),
        Err(e) => Err(LoadMetError::Met(e)),
    }
}

/// `r` is what making the catalog of a batch yields: the meteorology is
/// loaded, once, and the rows are assembled with it.
pub open spec fn make_catalog_ensures(
    coords: CoordinateSource,
    met_source_file: Seq<char>,
    met_source: MetSource,
    input: MetInput,
    interferograms: Seq<Scan>,
    keep_if_missing_met: bool,
    r: Result<Catalog, MainCatalogError>,
) -> bool {
    match r {
        Ok(catalog) => exists|met: Vec<MetEntry>|
            #![trigger load_met_ensures(interferograms, met_source, input, Ok(met))]
            load_met_ensures(interferograms, met_source, input, Ok(met)) && assembled(
                coords,
                met@,
                interferograms,
                keep_if_missing_met,
            ) == Ok::<(Seq<CatalogEntry>, Seq<SkippedIgram>), CatalogError>(
                (catalog.entries@, catalog.skipped@),
            ),
        Err(MainCatalogError::Catalog(e)) => exists|met: Vec<MetEntry>|
            #![trigger load_met_ensures(interferograms, met_source, input, Ok(met))]
            load_met_ensures(interferograms, met_source, input, Ok(met)) && assembled(
                coords,
                met@,
                interferograms,
                keep_if_missing_met,
            ) == Err::<(Seq<CatalogEntry>, Seq<SkippedIgram>), CatalogError>(e),
        Err(MainCatalogError::Met(file, e)) => file@ == met_source_file && load_met_ensures(
            interferograms,
            met_source,
            input,
            Err(e),
        ),
        Err(MainCatalogError::Coordinates(_)) => false,
    }
}

/// Makes the catalog of a batch of scans from the position of the
/// instrument and from what was read for the source of meteorology, whose
/// description lies at `met_source_file`.
pub fn make_catalog(
    coords: &CoordinateSource,
    met_source_file: &str,
    met_source: &MetSource,
    input: &MetInput,
    interferograms: &[Scan],
    keep_if_missing_met: bool,
) -> (r: Result<Catalog, MainCatalogError>)
    requires
        interferograms.len() <= MAX_SCANS,
    ensures
        make_catalog_ensures(
            *coords,
            met_source_file@,
            *met_source,
            *input,
            interferograms@,
            keep_if_missing_met,
            r,
        ),
{
    let met = match load_met(interferograms, met_source, input) {
        Err(e) => {
            return Err(MainCatalogError::Met(met_source_file.to_owned(), e));
        },
        Ok(met) => met,
    };
    match make_catalog_entries(coords, met.as_slice(), interferograms, keep_if_missing_met) {
        Ok(catalog) => Ok(catalog),
        Err(e) => Err(MainCatalogError::Catalog(e)),
    }
}

} // verus!
