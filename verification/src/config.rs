//! Configuration shared by the programs: accounts, the per-day arguments and
//! the detector sets of the instrument.

use vstd::prelude::*;
use vstd::string::*;
use crate::header::{HeaderValue, IgramHeader, Scan};
use crate::i2s::I2SInputModifications;
use crate::text::{chars_eq_str, chars_of};

verus! {

/// The accounts that the priors are requested with.
#[derive(Clone, Debug, PartialEq, Eq)]
pub struct CoreConfig {
    /// The email address used to access the FTP server.
    pub ftp_email: String,
    /// The email address at which messages from the priors automation are to
    /// arrive. It need not be the FTP address.
    pub priors_request_email: String,
}

/// Why a configuration could not be used.
#[derive(Clone, Debug, PartialEq, Eq)]
pub enum CommonConfigError {
    /// A value could not be converted.
    CannotConvert(String),
    /// Something could not be read.
    IoError(String),
    /// The configuration must say more.
    UserInputReq(String),
}

/// The arguments that describe how one day of data is laid out.
///
/// The patterns use curly braces for placeholders: `{DATE}` for the date,
/// `{DATE:format}` for the date under a format, `{SITE_ID}` for the site.
#[derive(Clone, Debug, PartialEq, Eq)]
pub struct DailyCommonArgs {
    /// Pattern of the directory where the scans are stored.
    pub igram_pattern: String,
    /// Pattern of the directory where the conversion is set up to run.
    pub run_dir_pattern: String,
    /// Pattern of the path of the coordinates file.
    pub coord_file_pattern: String,
    /// Pattern of the path of the meteorology source file.
    pub met_file_pattern: String,
    /// Glob pattern, appended to `igram_pattern`, that finds the scans of a
    /// day.
    pub igram_glob_pattern: String,
    /// The detectors of the instrument, if known.
    pub detectors: Option<DetectorSet>,
    /// A template for the head of the input file, if not the bundled one.
    pub top_file: Option<String>,
    /// The offset from UTC to write into the head of the input file, if it
    /// is not to be taken from the scans.
    pub utc_offset: Option<String>,
}

/// The detectors that an instrument carries.
#[derive(Clone, Copy, Debug, PartialEq, Eq, Structural)]
pub enum DetectorSet {
    /// The standard InGaAs detector alone.
    Single,
    /// The standard and the extended InGaAs detector.
    Dual,
    /// A mid-infrared detector.
    MidIR,
}

/// Why the detectors of a scan could not be told.
#[derive(Clone, Copy, Debug, PartialEq, Eq, Structural)]
pub enum DetectorProblem {
    /// The header of the scan was not read.
    HeaderUnreadable,
    /// The header does not name the instrument.
    NoInstrument,
    /// The number of points of the second channel is not an integer.
    BadPointCount,
}

/// The name by which the mid-infrared instrument is known in headers.
pub open spec fn mid_ir_name() -> Seq<char> {
    "EM27/SUN MIR"@
}

/// The detectors that a header tells of.
///
/// An instrument named as the mid-infrared one has the mid-infrared detector.
/// Any other has two detectors if its second channel recorded points, and
/// one if it recorded none or the header does not say.
pub open spec fn detectors_of_header(header: IgramHeader) -> Result<DetectorSet, DetectorProblem> {
    match header.ins {
        None => Err(DetectorProblem::NoInstrument),
        Some(ins) => if ins matches HeaderValue::Text(name) && name@ == mid_ir_name() {
            Ok(DetectorSet::MidIR)
        } else {
            match header.npt {
                None => Ok(DetectorSet::Single),
                Some(HeaderValue::Integer(points)) => if points == 0 {
                    Ok(DetectorSet::Single)
                } else {
                    Ok(DetectorSet::Dual)
                },
                Some(_) => Err(DetectorProblem::BadPointCount),
            }
        },
    }
}

/// The detectors that a scan tells of.
pub open spec fn detectors_of(scan: Scan) -> Result<DetectorSet, DetectorProblem> {
    match scan.header {
        None => Err(DetectorProblem::HeaderUnreadable),
        Some(header) => detectors_of_header(header),
    }
}

/// The message that reports a `DetectorProblem` for the scan at `path`.
pub open spec fn detector_message(problem: DetectorProblem, path: Seq<char>) -> Seq<char> {
    match problem {
        DetectorProblem::HeaderUnreadable => "Error reading interferogram "@ + path,
        DetectorProblem::NoInstrument => "Could not find instrument name in header of "@ + path,
        DetectorProblem::BadPointCount => "Unexpected type for NPT2 parameter in "@ + path
            + ", expected integer"@,
    }
}

/// `e` reports, as an I/O error, the problem `problem` for the scan at `path`.
pub open spec fn reports_detector_problem(
    e: CommonConfigError,
    problem: DetectorProblem,
    path: Seq<char>,
) -> bool {
    e matches CommonConfigError::IoError(message) && message@ == detector_message(problem, path)
}

/// The message that reports that a scan has other detectors than the first
/// scan of its batch.
pub open spec fn mismatch_message(
    first_path: Seq<char>,
    first_set: DetectorSet,
    path: Seq<char>,
    set: DetectorSet,
) -> Seq<char> {
    "different detector sets found in the given list of interferograms:\n"@ + first_path + " = "@
        + first_set.spec_name() + "\n"@ + path + " = "@ + set.spec_name()
        + "\nEither specify the correct detector set to use, or ensure each interferogram group has the same detector set."@
}

/// The message that reports an empty batch.
pub open spec fn empty_batch_message() -> Seq<char> {
    "No interferograms given, so no detectors to infer"@
}

/// `i` is the first scan that decides the outcome for a batch: the first
/// whose detectors cannot be told or differ from those of the first scan.
pub open spec fn is_first_deviation(scans: Seq<Scan>, i: int) -> bool {
    &&& 0 <= i < scans.len()
    &&& detectors_of(scans[i]) != detectors_of(scans[0]) || detectors_of(scans[i]) is Err
    &&& forall|j: int|
        0 <= j < i ==> detectors_of(#[trigger] scans[j]) == detectors_of(scans[0]) && detectors_of(
            scans[j],
        ) is Ok
}

impl DetectorSet {
    /// The name of the detector set as it is shown to users.
    pub open spec fn spec_name(self) -> Seq<char> {
        match self {
            DetectorSet::Single => "InGaAs"@,
            DetectorSet::Dual => "extended InGaAs"@,
            DetectorSet::MidIR => "mid-IR"@,
        }
    }

    /// The name of the detector set as it is shown to users.
    pub fn name(&self) -> (r: &'static str)
        ensures
            r@ == self.spec_name(),
    {
        match self {
            DetectorSet::Single => "InGaAs",
            DetectorSet::Dual => "extended InGaAs",
            DetectorSet::MidIR => "mid-IR",
        }
    }

    /// Tells the detectors of a batch of scans, which must all have the same.
    ///
    /// Fails with an I/O error for an empty batch and at the first scan whose
    /// detectors cannot be told, and asks for user input at the first scan
    /// whose detectors differ from those of the first.
    pub fn infer_from_multi_headers(interferograms: &[Scan]) -> (r: Result<
        DetectorSet,
        CommonConfigError,
    >)
        ensures
            interferograms.len() == 0 ==> (r matches Err(CommonConfigError::IoError(message))
                && message@ == empty_batch_message()),
            r matches Ok(d) ==> interferograms.len() > 0 && forall|i: int|
                0 <= i < interferograms.len() ==> detectors_of(#[trigger] interferograms@[i])
                    == Ok::<DetectorSet, DetectorProblem>(d),
            interferograms.len() > 0 && r is Err ==> exists|i: int|
                is_first_deviation(interferograms@, i) && match detectors_of(interferograms@[i]) {
                    Err(problem) => reports_detector_problem(
                        r->Err_0,
                        problem,
                        interferograms@[i].path@,
                    ),
                    Ok(set) => (r->Err_0 matches CommonConfigError::UserInputReq(message) && (
                    detectors_of(interferograms@[0]) matches Ok(first_set) && message@
                        == mismatch_message(
                        interferograms@[0].path@,
                        first_set,
                        interferograms@[i].path@,
                        set,
                    ))),
                },
    {
        if interferograms.len() == 0 {
            return Err(
                CommonConfigError::IoError(
                    "No interferograms given, so no detectors to infer".to_owned(),
                ),
            );
        }
        let detectors = match DetectorSet::infer_from_header(&interferograms[0]) {
            Err(e) => {
                assert(is_first_deviation(interferograms@, 0));
                return Err(e);
            },
            Ok(d) => d,
        };
        let mut i: usize = 1;
        while i < interferograms.len()
            invariant
                1 <= i <= interferograms.len(),
                detectors_of(interferograms@[0]) == Ok::<DetectorSet, DetectorProblem>(detectors),
                forall|j: int|
                    0 <= j < i ==> detectors_of(#[trigger] interferograms@[j]) == Ok::<
                        DetectorSet,
                        DetectorProblem,
                    >(detectors),
            decreases interferograms.len() - i,
        {
            let igm = &interferograms[i];
            let this_det = match DetectorSet::infer_from_header(igm) {
                Err(e) => {
                    assert(is_first_deviation(interferograms@, i as int));
                    return Err(e);
                },
                Ok(d) => d,
            };
            if this_det != detectors {
                assert(is_first_deviation(interferograms@, i as int));
                let mut message =
                    "different detector sets found in the given list of interferograms:\n".to_owned();
                message.append(interferograms[0].path.as_str());
                message.append(" = ");
                message.append(detectors.name());
                message.append("\n");
                message.append(igm.path.as_str());
                message.append(" = ");
                message.append(this_det.name());
                message.append(
                    "\nEither specify the correct detector set to use, or ensure each interferogram group has the same detector set.",
                );
                return Err(CommonConfigError::UserInputReq(message));
            }
            i += 1;
        }
        Ok(detectors)
    }

    /// Tells the detectors of one scan from its header; see
    /// `detectors_of_header`.
    pub fn infer_from_header(interferogram: &Scan) -> (r: Result<DetectorSet, CommonConfigError>)
        ensures
            match r {
                Ok(d) => detectors_of(*interferogram) == Ok::<DetectorSet, DetectorProblem>(d),
                Err(e) => (detectors_of(*interferogram) matches Err(problem)
                    && reports_detector_problem(e, problem, interferogram.path@)),
            },
    {
        let header = match &interferogram.header {
            None => {
                let mut message = "Error reading interferogram ".to_owned();
                message.append(interferogram.path.as_str());
                return Err(CommonConfigError::IoError(message));
            },
            Some(header) => header,
        };
        let instrument = match &header.ins {
            None => {
                let mut message = "Could not find instrument name in header of ".to_owned();
                message.append(interferogram.path.as_str());
                return Err(CommonConfigError::IoError(message));
            },
            Some(value) => value,
        };
        let is_mid_ir = match instrument {
            HeaderValue::Text(name) => {
                let cs = chars_of(name.as_str());
                chars_eq_str(cs.as_slice(), "EM27/SUN MIR")
            },
            _ => false,
        };
        if is_mid_ir {
            return Ok(DetectorSet::MidIR);
        }
        let points: i64 = match &header.npt {
            None => 0,
            Some(HeaderValue::Integer(v)) => *v,
            Some(_) => {
                let mut message = "Unexpected type for NPT2 parameter in ".to_owned();
                message.append(interferogram.path.as_str());
                message.append(", expected integer");
                return Err(CommonConfigError::IoError(message));
            },
        };
        if points == 0 {
            Ok(DetectorSet::Single)
        } else {
            Ok(DetectorSet::Dual)
        }
    }

    /// The values of the head parameters 7, 11 and 12 for this detector set:
    /// the channels to process and the detector letters of scans and spectra.
    pub open spec fn changes(self) -> Map<int, Seq<char>> {
        match self {
            DetectorSet::Single => Map::empty().insert(7int, "2 2"@).insert(11int, "AA"@).insert(
                12int,
                "aa"@,
            ),
            DetectorSet::Dual => Map::empty().insert(7int, "1 2"@).insert(11int, "DA"@).insert(
                12int,
                "da"@,
            ),
            DetectorSet::MidIR => Map::empty().insert(7int, "2 2"@).insert(11int, "CC"@).insert(
                12int,
                "cc"@,
            ),
        }
    }

    /// The overrides of the head of the input file that make the conversion
    /// process this detector set. The parameter that names the file of
    /// frequency limits is not among them.
    pub fn get_changes(&self) -> (r: I2SInputModifications)
        ensures
            r@ == self.changes(),
    {
        let (channels, igram_letters, spectrum_letters) = match self {
            DetectorSet::Single => ("2 2", "AA", "aa"),
            DetectorSet::Dual => ("1 2", "DA", "da"),
            DetectorSet::MidIR => ("2 2", "CC", "cc"),
        };
        let mut changes = I2SInputModifications::new();
        changes.set_parameter_change(7, channels.to_owned());
        changes.set_parameter_change(11, igram_letters.to_owned());
        changes.set_parameter_change(12, spectrum_letters.to_owned());
        changes
    }

    /// The bundled file of frequency limits for this detector set, by name.
    pub open spec fn flimit(self) -> Seq<char> {
        match self {
            DetectorSet::Single => "flimit-dual.i2s"@,
            DetectorSet::Dual => "flimit-dual.i2s"@,
            DetectorSet::MidIR => "flimit-mid-ir.i2s"@,
        }
    }

    /// The bundled file of frequency limits to use for this detector set, by
    /// its name. One and two InGaAs detectors share a file.
    pub fn get_flimit(&self) -> (r: &'static str)
        ensures
            r@ == self.flimit(),
    {
        match self {
            DetectorSet::Single => "flimit-dual.i2s",
            DetectorSet::Dual => "flimit-dual.i2s",
            DetectorSet::MidIR => "flimit-mid-ir.i2s",
        }
    }

    /// The detector set that a lower-case word names.
    pub open spec fn named(word: Seq<char>) -> Option<DetectorSet> {
        if word == "s"@ || word == "single"@ {
            Some(DetectorSet::Single)
        } else if word == "d"@ || word == "dual"@ {
            Some(DetectorSet::Dual)
        } else if word == "m"@ || word == "midir"@ {
            Some(DetectorSet::MidIR)
        } else {
            None
        }
    }

    /// Reads a detector set from its name: `s` or `single`, `d` or `dual`,
    /// `m` or `midir`, in any mix of upper and lower case.
    pub fn from_str(s: &str) -> (r: Result<DetectorSet, CommonConfigError>)
        ensures
            match r {
                Ok(d) => DetectorSet::named(ascii_lowercase(s@)) == Some(d),
                Err(e) => DetectorSet::named(ascii_lowercase(s@)) is None && (
                e matches CommonConfigError::CannotConvert(message) && message@ == "'"@ + s@
                    + "' is not a valid detector set"@),
            },
    {
        let cs = chars_of(s);
        let lower = to_ascii_lowercase(cs.as_slice());
        let word = lower.as_slice();
        if chars_eq_str(word, "s") || chars_eq_str(word, "single") {
            Ok(DetectorSet::Single)
        } else if chars_eq_str(word, "d") || chars_eq_str(word, "dual") {
            Ok(DetectorSet::Dual)
        } else if chars_eq_str(word, "m") || chars_eq_str(word, "midir") {
            Ok(DetectorSet::MidIR)
        } else {
            let mut message = "'".to_owned();
            message.append(s);
            message.append("' is not a valid detector set");
            Err(CommonConfigError::CannotConvert(message))
        }
    }
}

/// A character with an ASCII capital letter turned into its small letter.
pub open spec fn lower_char(c: char) -> char {
    if 'A' <= c <= 'Z' {
        ((c as u32) + 32) as char
    } else {
        c
    }
}

/// A text with its ASCII capital letters turned into small letters.
pub open spec fn ascii_lowercase(s: Seq<char>) -> Seq<char> {
    Seq::new(s.len(), |i: int| lower_char(s[i]))
}

/// Turns the ASCII capital letters of a text into small letters.
pub fn to_ascii_lowercase(cs: &[char]) -> (r: Vec<char>)
    ensures
        r@ == ascii_lowercase(cs@),
{
    let mut r: Vec<char> = Vec::new();
    let mut i: usize = 0;
    while i < cs.len()
        invariant
            i <= cs.len(),
            r.len() == i,
            forall|j: int| 0 <= j < i ==> r@[j] == lower_char(cs@[j]),
        decreases cs.len() - i,
    {
        let c = cs[i];
        let lowered = if 'A' <= c && c <= 'Z' {
            match c {
                'A' => 'a',
                'B' => 'b',
                'C' => 'c',
                'D' => 'd',
                'E' => 'e',
                'F' => 'f',
                'G' => 'g',
                'H' => 'h',
                'I' => 'i',
                'J' => 'j',
                'K' => 'k',
                'L' => 'l',
                'M' => 'm',
                'N' => 'n',
                'O' => 'o',
                'P' => 'p',
                'Q' => 'q',
                'R' => 'r',
                'S' => 's',
                'T' => 't',
                'U' => 'u',
                'V' => 'v',
                'W' => 'w',
                'X' => 'x',
                'Y' => 'y',
                _ => 'z',
            }
        } else {
            c
        };
        assert(lowered == lower_char(c));
        r.push(lowered);
        i += 1;
    }
    assert(r@ =~= ascii_lowercase(cs@));
    r
}

} // verus!
