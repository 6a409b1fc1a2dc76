//! What the command-line programs decide and compute between their reads and
//! writes.

use vstd::prelude::*;
use vstd::string::*;
use crate::config::DetectorSet;
use crate::i2s::I2SInputModifications;
use crate::text::{
    chars_of, contains_chars, contains_seq, digit_char, digit_to_char, digits_of, string_of,
    trim_start, trim_start_spec, write_number, CharClass,
};
use crate::utils::pattern_replacement::append_chars;

verus! {

/// Why a command failed.
#[derive(Clone, Debug, PartialEq, Eq)]
pub enum CliError {
    /// An argument or an input file is wrong.
    BadInput(String),
    /// Something that the command needs is not there.
    MissingInput(String),
    /// A program that the command runs failed.
    ProgramError(String),
    /// Anything else.
    Other(String),
}

impl CliError {
    /// The message that the error carries.
    pub open spec fn message(&self) -> Seq<char> {
        match self {
            CliError::BadInput(m) => m@,
            CliError::MissingInput(m) => m@,
            CliError::ProgramError(m) => m@,
            CliError::Other(m) => m@,
        }
    }

    /// A `BadInput` error with the message `s`.
    pub fn bad_input(s: &str) -> (r: Self)
        ensures
            r is BadInput,
            r.message() == s@,
    {
        CliError::BadInput(s.to_owned())
    }

    /// A `MissingInput` error with the message `s`.
    pub fn missing_input(s: &str) -> (r: Self)
        ensures
            r is MissingInput,
            r.message() == s@,
    {
        CliError::MissingInput(s.to_owned())
    }

    /// A `ProgramError` error with the message `s`.
    pub fn program_error(s: &str) -> (r: Self)
        ensures
            r is ProgramError,
            r.message() == s@,
    {
        CliError::ProgramError(s.to_owned())
    }

    /// An `Other` error with the message `s`.
    pub fn other(s: &str) -> (r: Self)
        ensures
            r is Other,
            r.message() == s@,
    {
        CliError::Other(s.to_owned())
    }
}

/// A line of a list of data directories is commented out and names `dir`: it
/// starts with a colon and holds `dir` somewhere.
pub open spec fn is_commented_dir(line: Seq<char>, dir: Seq<char>) -> bool {
    line.len() > 0 && line[0] == ':' && contains_seq(line, dir)
}

/// The first line of `data_part` that is commented out and names `dir_str`,
/// by its position.
pub fn dir_in_commented_line(data_part: &[String], dir_str: &str) -> (r: Option<usize>)
    ensures
        match r {
            Some(i) => i < data_part.len() && is_commented_dir(data_part@[i as int]@, dir_str@)
                && forall|j: int| 0 <= j < i ==> !is_commented_dir(data_part@[j]@, dir_str@),
            None => forall|j: int|
                0 <= j < data_part.len() ==> !is_commented_dir(data_part@[j]@, dir_str@),
        },
{
    let dir = chars_of(dir_str);
    let mut i: usize = 0;
    while i < data_part.len()
        invariant
            i <= data_part.len(),
            dir@ == dir_str@,
            forall|j: int| 0 <= j < i ==> !is_commented_dir(data_part@[j]@, dir_str@),
        decreases data_part.len() - i,
    {
        let line = chars_of(data_part[i].as_str());
        if line.len() > 0 && line[0] == ':' && contains_chars(line.as_slice(), dir.as_slice()) {
            return Some(i);
        }
        i += 1;
    }
    None
}

/// A commented line brought back: without its leading colons and the white
/// space after them.
pub open spec fn uncommented(line: Seq<char>) -> Seq<char> {
    trim_start_spec(trim_start_spec(line, CharClass::Only(':')), CharClass::Whitespace)
}

/// `i` is the first line of `lines` that is commented out and names `dir`.
pub open spec fn is_first_commented(lines: Seq<Seq<char>>, dir: Seq<char>, i: int) -> bool {
    &&& 0 <= i < lines.len()
    &&& is_commented_dir(lines[i], dir)
    &&& forall|j: int| 0 <= j < i ==> !is_commented_dir(lines[j], dir)
}

/// The texts of a list of lines.
pub open spec fn line_views(lines: Seq<String>) -> Seq<Seq<char>> {
    lines.map_values(|l: String| l@)
}

/// Makes sure that a list of data directories names `spec_dir_str`.
///
/// A list that holds the directory is left as it is. Else the first line
/// that is commented out and names the directory is brought back. Else the
/// directory is added at the end.
pub fn add_spectrum_dir_to_list(data_partition: Vec<String>, spec_dir_str: &str) -> (r: Vec<String>)
    ensures
        line_views(data_partition@).contains(spec_dir_str@) ==> line_views(r@) == line_views(
            data_partition@,
        ),
        !line_views(data_partition@).contains(spec_dir_str@) ==> {
            ||| exists|i: int|
                is_first_commented(line_views(data_partition@), spec_dir_str@, i) && line_views(r@)
                    == line_views(data_partition@).update(
                    i,
                    uncommented(data_partition@[i]@),
                )
            ||| (forall|j: int|
                0 <= j < data_partition.len() ==> !is_commented_dir(
                    data_partition@[j]@,
                    spec_dir_str@,
                )) && line_views(r@) == line_views(data_partition@).push(spec_dir_str@)
        },
{
    let mut list = data_partition;
    let ghost before = line_views(list@);
    let mut present = false;
    let mut k: usize = 0;
    while k < list.len()
        invariant
            k <= list.len(),
            list@ == data_partition@,
            present == exists|j: int| 0 <= j < k && (#[trigger] list@[j])@ == spec_dir_str@,
        decreases list.len() - k,
    {
        let same = {
            let a = list[k].as_str().to_owned();
            let b = spec_dir_str.to_owned();
            a == b
        };
        if same {
            present = true;
        }
        k += 1;
    }
    assert(present == before.contains(spec_dir_str@)) by {
        if present {
            let j = choose|j: int| 0 <= j < list.len() && (#[trigger] list@[j])@ == spec_dir_str@;
            assert(before[j] == spec_dir_str@);
        }
        if before.contains(spec_dir_str@) {
            let j = choose|j: int| 0 <= j < before.len() && before[j] == spec_dir_str@;
            assert(list@[j]@ == spec_dir_str@);
        }
    }
    if present {
        return list;
    }
    match dir_in_commented_line(list.as_slice(), spec_dir_str) {
        Some(idx) => {
            let line = chars_of(list[idx].as_str());
            let without_colons = trim_start(line.as_slice(), CharClass::Only(':'));
            let restored = trim_start(without_colons.as_slice(), CharClass::Whitespace);
            let text = string_of(restored.as_slice());
            list.set(idx, text);
            assert(is_first_commented(before, spec_dir_str@, idx as int));
            assert(line_views(list@) =~= before.update(idx as int, uncommented(before[idx as int])));
        },
        None => {
            list.push(spec_dir_str.to_owned());
            assert(line_views(list@) =~= before.push(spec_dir_str@));
        },
    }
    list
}

/// The line that runs the conversion for one day: it changes into the run
/// directory, runs the converter under the installation at `gggpath` on the
/// input file and sends what it prints to a log.
pub open spec fn parallel_line_spec(run_dir: Seq<char>, gggpath: Seq<char>, input_file: Seq<char>) -> Seq<
    char,
> {
    "cd "@ + run_dir + " && "@ + gggpath + "/bin/i2s "@ + input_file + " > i2s.log"@
}

/// Writes the line that runs the conversion for one day.
pub fn parallel_line(run_dir: &str, gggpath: &str, input_file: &str) -> (r: String)
    ensures
        r@ == parallel_line_spec(run_dir@, gggpath@, input_file@),
{
    let mut line = "cd ".to_owned();
    line.append(run_dir);
    line.append(" && ");
    line.append(gggpath);
    line.append("/bin/i2s ");
    line.append(input_file);
    line.append(" > i2s.log");
    line
}

/// The overrides of the head of the input file for one day: those of the
/// detector set, and on top of them the directories of the scans and of the
/// spectra, the file of frequency limits, the pattern of spectrum names and
/// the offset from UTC.
pub open spec fn daily_changes(
    detectors: DetectorSet,
    igram_dir: Seq<char>,
    spec_dir: Seq<char>,
    site_id: Seq<char>,
    utc_offset: Seq<char>,
) -> Map<int, Seq<char>> {
    detectors.changes().insert(1, igram_dir).insert(2, spec_dir).insert(8, "./flimit.i2s"@).insert(
        9,
        site_id + "YYYYMMDDS0e00C.RRRR"@,
    ).insert(19, utc_offset)
}

/// Puts together the overrides of the head of the input file for one day.
pub fn i2s_changes_for_day(
    detectors: DetectorSet,
    igram_dir: &str,
    spec_dir: &str,
    site_id: &str,
    utc_offset: &str,
) -> (r: I2SInputModifications)
    ensures
        r@ == daily_changes(detectors, igram_dir@, spec_dir@, site_id@, utc_offset@),
{
    let mut changes = detectors.get_changes();
    changes.set_parameter_change(1, igram_dir.to_owned());
    changes.set_parameter_change(2, spec_dir.to_owned());
    changes.set_parameter_change(8, "./flimit.i2s".to_owned());
    let mut names = site_id.to_owned();
    names.append("YYYYMMDDS0e00C.RRRR");
    changes.set_parameter_change(9, names);
    changes.set_parameter_change(19, utc_offset.to_owned());
    changes
}

/// What is typed into the set-up program of the retrieval: ground-based
/// data, the run log by its number in the menu, the fifth kind of windows,
/// the window file by its number in the menu, and a yes.
pub open spec fn gsetup_input_spec(runlog_index: usize, window_index: usize) -> Seq<char> {
    "g\n"@ + digits_of(runlog_index as nat) + "\n5\n"@ + digits_of(window_index as nat) + "\ny\n"@
}

/// Writes what is typed into the set-up program of the retrieval.
pub fn gsetup_input(runlog_index: usize, window_index: usize) -> (r: String)
    ensures
        r@ == gsetup_input_spec(runlog_index, window_index),
{
    let mut text = "g\n".to_owned();
    let runlog = write_number(runlog_index as u64);
    text.append(string_of(runlog.as_slice()).as_str());
    text.append("\n5\n");
    let window = write_number(window_index as u64);
    text.append(string_of(window.as_slice()).as_str());
    text.append("\ny\n");
    text
}

/// The hundredths of an hour that a number of seconds amounts to, rounded
/// to the nearest, halves up.
pub open spec fn hundredths_of_hours(seconds: nat) -> nat {
    (seconds * 100 + 1800) / 3600
}

/// The offset that brings times on a clock `offset_secs` east of UTC to
/// UTC, in hours with two decimals: `7.00` for a clock seven hours west.
pub open spec fn utc_offset_text_spec(offset_secs: i32) -> Seq<char> {
    let magnitude = if offset_secs >= 0 {
        offset_secs as nat
    } else {
        (-offset_secs) as nat
    };
    let hundredths = hundredths_of_hours(magnitude);
    let sign = if offset_secs > 0 {
        seq!['-']
    } else {
        Seq::empty()
    };
    sign + digits_of(hundredths / 100) + seq![
        '.',
        digit_char(((hundredths / 10) % 10) as int),
        digit_char((hundredths % 10) as int),
    ]
}

/// Writes the offset that brings the times of a clock to UTC, as it stands
/// in the head of the input file.
pub fn utc_offset_text(offset_secs: i32) -> (r: String)
    ensures
        r@ == utc_offset_text_spec(offset_secs),
{
    let magnitude: u64 = if offset_secs >= 0 {
        offset_secs as u64
    } else {
        (-(offset_secs as i64)) as u64
    };
    let hundredths: u64 = (magnitude * 100 + 1800) / 3600;
    let mut out: Vec<char> = Vec::new();
    if offset_secs > 0 {
        out.push('-');
    }
    let whole = write_number(hundredths / 100);
    append_chars(&mut out, whole.as_slice());
    out.push('.');
    out.push(digit_to_char(((hundredths / 10) % 10) as u8));
    out.push(digit_to_char((hundredths % 10) as u8));
    string_of(out.as_slice())
}

} // verus!
