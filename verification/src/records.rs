//! The data model of the container: raw framed records, typed decoded
//! records, the enumerated single-byte fields, and the decode errors.
//!
//! Floating-point cell contents are carried as the 64 bits of their
//! IEEE-754 representation (`val_bits`), so that contracts can speak of
//! them exactly; a host turns the bits into its native double. Label text
//! is copied out of the input buffer into owned storage at decode time, so
//! no decoded record borrows from the source buffer.

use vstd::prelude::*;

verus! {

/// One framed but not yet decoded record: a `tag`, the payload byte count
/// `len`, and the payload itself. Well-formed when `payload` holds exactly
/// `len` bytes.
#[derive(Debug, PartialEq)]
pub struct RawRecord {
    pub tag: u16,
    pub len: u16,
    pub payload: Vec<u8>,
}

/// The mathematical value of a [`RawRecord`].
pub ghost struct RawRecordV {
    pub tag: u16,
    pub len: u16,
    pub payload: Seq<u8>,
}

impl View for RawRecord {
    type V = RawRecordV;

    open spec fn view(&self) -> RawRecordV {
        RawRecordV { tag: self.tag, len: self.len, payload: self.payload@ }
    }
}

impl RawRecord {
    /// The payload holds exactly the advertised number of bytes.
    pub open spec fn wf(self) -> bool {
        self.payload@.len() == self.len
    }
}

/// Recalculation mode of the sheet (tag 0x02). Byte 0x00 is manual; 0x01
/// and 0xFF are both automatic.
#[derive(Debug, Clone, Copy, PartialEq, Eq, Structural)]
pub enum CalcMode {
    Manual,
    Automatic,
}

/// Recalculation order of the sheet (tag 0x03).
#[derive(Debug, Clone, Copy, PartialEq, Eq, Structural)]
pub enum CalcOrder {
    Natural,
    ByColumn,
    ByRow,
}

/// Window split of the sheet (tag 0x04).
#[derive(Debug, Clone, Copy, PartialEq, Eq, Structural)]
pub enum SplitType {
    NotSplit,
    VerticalSplit,
    HorizontalSplit,
}

/// Why a decode failed. Decoding is fail-fast: the first error aborts the
/// whole decode.
#[derive(Debug, Clone, Copy, PartialEq, Eq, Structural)]
pub enum DecodeError {
    /// Fewer than 4 bytes remained where a record header was expected, or
    /// fewer than `len` bytes remained for a payload.
    UnexpectedEof,
    /// The payload is shorter than the minimum the tag's field layout needs.
    MalformedRecord { tag: u16, expected_min: u16, actual: u16 },
    /// An enumerated single-byte field holds a value outside its documented
    /// set.
    InvalidEnumValue { tag: u16, byte: u8 },
    /// A label payload is not valid UTF-8 text.
    Utf8DecodeError { tag: u16 },
}

/// One decoded, typed record. Each recognized tag has one variant; any
/// other 16-bit tag decodes to `Unknown(tag)`. Variants past the decoded
/// subset are structural markers: the format defines them, and they carry
/// no decoded fields.
#[derive(Debug, PartialEq)]
pub enum Record {
    BeginningOfFile { version: u16 },
    EndOfFile,
    CalcMode(CalcMode),
    CalcOrder(CalcOrder),
    SplitType(SplitType),
    SplitSync(bool),
    ActiveRange { start_col: u16, start_row: u16, end_col: u16, end_row: u16 },
    Window1,
    Window1ColWidth,
    Window2,
    Window2ColWidth,
    NamedRange,
    BlankCell { format: u8, col: u16, row: u16 },
    IntegerCell { format: u8, col: u16, row: u16, val: u16 },
    FloatCell { format: u8, col: u16, row: u16, val_bits: u64 },
    LabelCell { format: u8, col: u16, row: u16, val: String },
    FormulaCell,
    DataRange,
    QueryRange,
    PrintRange,
    SortRange,
    FillRange,
    SortKeyRange1,
    DistRange,
    SortKeyRange2,
    GlobalProtect,
    PrintFooter,
    PrintHeader,
    PrintSetup,
    PrintMargins,
    LabelAlignment,
    PrintBorders,
    CurrentGraph,
    NamedGraph,
    CalcCount,
    FormattedPrint,
    CursorLocation,
    SymphonyWindow,
    FormulaValue,
    Password,
    Locked,
    SymphonyQuery,
    SymphonyQueryName,
    SymphonyPrint,
    SymphonyPrintName,
    SymphonyGraph,
    SymphonyGraphName,
    Zoom,
    NumSplitWindows,
    NumScreenRows,
    NumScreenCols,
    NamedRulerRange,
    NamedSheetRange,
    AutoloadCode,
    AutoexecuteMacro,
    QueryParse,
    Unknown(u16),
}

/// The mathematical value of a [`Record`]: the same variants, with label
/// text as its character sequence.
pub ghost enum RecordV {
    BeginningOfFile { version: u16 },
    EndOfFile,
    CalcMode(CalcMode),
    CalcOrder(CalcOrder),
    SplitType(SplitType),
    SplitSync(bool),
    ActiveRange { start_col: u16, start_row: u16, end_col: u16, end_row: u16 },
    Window1,
    Window1ColWidth,
    Window2,
    Window2ColWidth,
    NamedRange,
    BlankCell { format: u8, col: u16, row: u16 },
    IntegerCell { format: u8, col: u16, row: u16, val: u16 },
    FloatCell { format: u8, col: u16, row: u16, val_bits: u64 },
    LabelCell { format: u8, col: u16, row: u16, val: Seq<char> },
    FormulaCell,
    DataRange,
    QueryRange,
    PrintRange,
    SortRange,
    FillRange,
    SortKeyRange1,
    DistRange,
    SortKeyRange2,
    GlobalProtect,
    PrintFooter,
    PrintHeader,
    PrintSetup,
    PrintMargins,
    LabelAlignment,
    PrintBorders,
    CurrentGraph,
    NamedGraph,
    CalcCount,
    FormattedPrint,
    CursorLocation,
    SymphonyWindow,
    FormulaValue,
    Password,
    Locked,
    SymphonyQuery,
    SymphonyQueryName,
    SymphonyPrint,
    SymphonyPrintName,
    SymphonyGraph,
    SymphonyGraphName,
    Zoom,
    NumSplitWindows,
    NumScreenRows,
    NumScreenCols,
    NamedRulerRange,
    NamedSheetRange,
    AutoloadCode,
    AutoexecuteMacro,
    QueryParse,
    Unknown(u16),
}

impl View for Record {
    type V = RecordV;

    open spec fn view(&self) -> RecordV {
        match self {
            Record::BeginningOfFile { version } => RecordV::BeginningOfFile { version: *version },
            Record::EndOfFile => RecordV::EndOfFile,
            Record::CalcMode(m) => RecordV::CalcMode(*m),
            Record::CalcOrder(o) => RecordV::CalcOrder(*o),
            Record::SplitType(t) => RecordV::SplitType(*t),
            Record::SplitSync(b) => RecordV::SplitSync(*b),
            Record::ActiveRange { start_col, start_row, end_col, end_row } => RecordV::ActiveRange {
                start_col: *start_col,
                start_row: *start_row,
                end_col: *end_col,
                end_row: *end_row,
            },
            Record::Window1 => RecordV::Window1,
            Record::Window1ColWidth => RecordV::Window1ColWidth,
            Record::Window2 => RecordV::Window2,
            Record::Window2ColWidth => RecordV::Window2ColWidth,
            Record::NamedRange => RecordV::NamedRange,
            Record::BlankCell { format, col, row } => RecordV::BlankCell {
                format: *format,
                col: *col,
                row: *row,
            },
            Record::IntegerCell { format, col, row, val } => RecordV::IntegerCell {
                format: *format,
                col: *col,
                row: *row,
                val: *val,
            },
            Record::FloatCell { format, col, row, val_bits } => RecordV::FloatCell {
                format: *format,
                col: *col,
                row: *row,
                val_bits: *val_bits,
            },
            Record::LabelCell { format, col, row, val } => RecordV::LabelCell {
                format: *format,
                col: *col,
                row: *row,
                val: val@,
            },
            Record::FormulaCell => RecordV::FormulaCell,
            Record::DataRange => RecordV::DataRange,
            Record::QueryRange => RecordV::QueryRange,
            Record::PrintRange => RecordV::PrintRange,
            Record::SortRange => RecordV::SortRange,
            Record::FillRange => RecordV::FillRange,
            Record::SortKeyRange1 => RecordV::SortKeyRange1,
            Record::DistRange => RecordV::DistRange,
            Record::SortKeyRange2 => RecordV::SortKeyRange2,
            Record::GlobalProtect => RecordV::GlobalProtect,
            Record::PrintFooter => RecordV::PrintFooter,
            Record::PrintHeader => RecordV::PrintHeader,
            Record::PrintSetup => RecordV::PrintSetup,
            Record::PrintMargins => RecordV::PrintMargins,
            Record::LabelAlignment => RecordV::LabelAlignment,
            Record::PrintBorders => RecordV::PrintBorders,
            Record::CurrentGraph => RecordV::CurrentGraph,
            Record::NamedGraph => RecordV::NamedGraph,
            Record::CalcCount => RecordV::CalcCount,
            Record::FormattedPrint => RecordV::FormattedPrint,
            Record::CursorLocation => RecordV::CursorLocation,
            Record::SymphonyWindow => RecordV::SymphonyWindow,
            Record::FormulaValue => RecordV::FormulaValue,
            Record::Password => RecordV::Password,
            Record::Locked => RecordV::Locked,
            Record::SymphonyQuery => RecordV::SymphonyQuery,
            Record::SymphonyQueryName => RecordV::SymphonyQueryName,
            Record::SymphonyPrint => RecordV::SymphonyPrint,
            Record::SymphonyPrintName => RecordV::SymphonyPrintName,
            Record::SymphonyGraph => RecordV::SymphonyGraph,
            Record::SymphonyGraphName => RecordV::SymphonyGraphName,
            Record::Zoom => RecordV::Zoom,
            Record::NumSplitWindows => RecordV::NumSplitWindows,
            Record::NumScreenRows => RecordV::NumScreenRows,
            Record::NumScreenCols => RecordV::NumScreenCols,
            Record::NamedRulerRange => RecordV::NamedRulerRange,
            Record::NamedSheetRange => RecordV::NamedSheetRange,
            Record::AutoloadCode => RecordV::AutoloadCode,
            Record::AutoexecuteMacro => RecordV::AutoexecuteMacro,
            Record::QueryParse => RecordV::QueryParse,
            Record::Unknown(tag) => RecordV::Unknown(*tag),
        }
    }
}

} // verus!
