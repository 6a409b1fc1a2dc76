//! The parameters of a scan's header that the catalog reads.

use vstd::prelude::*;
use crate::decimal::Decimal;

verus! {

/// The blocks of a scan header that hold the parameters read here.
#[derive(Clone, Copy, Debug, PartialEq, Eq, Structural)]
pub enum HeaderBlock {
    IgramPrimaryStatus,
    IgramSecondaryStatus,
    InstrumentStatus,
}

/// The header parameters read here, by their three-letter names.
#[derive(Clone, Copy, Debug, PartialEq, Eq, Structural)]
pub enum HeaderParam {
    /// `DAT`: the date of the scan, as `DD/MM/YYYY`.
    Dat,
    /// `TIM`: the time of the scan, as `HH:MM:SS.fff (GMT±N)`.
    Tim,
    /// `TSC`: the temperature inside the instrument.
    Tsc,
    /// `INS`: the name of the instrument.
    Ins,
    /// `NPT`: the number of points of the second channel.
    Npt,
}

/// A typed header value.
#[derive(Clone, Debug, PartialEq, Eq)]
pub enum HeaderValue {
    Text(String),
    Integer(i64),
    Real(Decimal),
}

/// What a scan's header holds of the parameters read here. `None` stands for
/// a parameter that the header lacks.
#[derive(Clone, Debug, PartialEq, Eq)]
pub struct IgramHeader {
    /// `DAT` of the primary status block.
    pub dat: Option<HeaderValue>,
    /// `TIM` of the primary status block.
    pub tim: Option<HeaderValue>,
    /// `TSC` of the instrument status block.
    pub tsc: Option<HeaderValue>,
    /// `INS` of the instrument status block.
    pub ins: Option<HeaderValue>,
    /// `NPT` of the secondary status block.
    pub npt: Option<HeaderValue>,
}

/// How the file name of a scan's path came out.
#[derive(Clone, Debug, PartialEq, Eq)]
pub enum ScanFileName {
    /// The last component of the path.
    Name(String),
    /// The path has no file name component.
    Missing,
    /// The file name is not valid Unicode.
    NotUnicode,
}

/// One scan: where it lies and what its header holds.
#[derive(Clone, Debug, PartialEq, Eq)]
pub struct Scan {
    /// The path of the scan, as given.
    pub path: String,
    /// The file name component of `path`.
    pub file_name: ScanFileName,
    /// The header, or `None` where it could not be read.
    pub header: Option<IgramHeader>,
}

} // verus!
