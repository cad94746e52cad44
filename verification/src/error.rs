//! Error taxonomy of the engine.
//!
//! Query-time data errors abort a stream, cancellation is distinguished from
//! failure, and logic-invariant violations are reported as a dedicated value
//! instead of panicking.

use vstd::prelude::*;

verus! {

/// Everything that can go wrong inside the engine.
#[derive(Clone, Copy, Debug, PartialEq, Eq, Structural)]
pub enum Error {
    /// A band selection was constructed with the same band index twice.
    DuplicateBandInQueryBandSelection,
    /// A band selection was constructed without any band.
    QueryBandSelectionMustNotBeEmpty,
    /// A time interval would end before it starts.
    TimeIntervalStartAfterEnd,
    /// A bounding box corner pair is not ordered.
    InvalidBoundingBox,
    /// A spatial resolution must be strictly positive in both axes.
    InvalidSpatialResolution,
    /// A coordinate lies outside the supported global grid.
    CoordinateOutOfRange,
    /// A column of this name already exists in the feature collection.
    ColumnAlreadyExists,
    /// A column does not match the feature count of the collection.
    ColumnLengthMismatch,
    /// A filter mask does not match the feature count of the collection.
    FilterLengthMismatch,
    /// A replacement time column does not match the feature count.
    ReplaceTimeLengthMismatch,
    /// Collection construction saw columns of unequal length.
    UnequalColumnLengths,
    /// A geometry must consist of at least one coordinate.
    EmptyGeometry,
    /// A grid's data does not match its shape.
    InvalidGridShape,
    /// A pixel lookup fell outside the tile.
    GridIndexOutOfBounds,
    /// Two collections with different schemas cannot be merged.
    SchemaMismatch,
    /// An integral accumulation left the representable range.
    NumericOverflow,
    /// The join engine reached its flush with no initialized state; the
    /// input should have been handled as empty before any raster query.
    EmptyInput,
    /// The single-use abort trigger of a query context was taken twice.
    AbortTriggerAlreadyUsed,
    /// The query was cancelled through its abort trigger; this is
    /// "stopped", not "failed".
    Cancelled,
    /// An operation supports only single-band queries so far.
    OperationDoesNotSupportMultiBandQueriesYet,
    /// Two rasters live on different global grids and cannot be combined.
    GeoTransformMismatch,
}

impl Error {
    /// A short, stable text for logging; the engine itself never formats.
    pub fn message(&self) -> (r: &'static str) {
        match self {
            Error::DuplicateBandInQueryBandSelection => "duplicate band in query band selection",
            Error::QueryBandSelectionMustNotBeEmpty => "query band selection must not be empty",
            Error::TimeIntervalStartAfterEnd => "time interval start must not be after end",
            Error::InvalidBoundingBox => "invalid bounding box",
            Error::InvalidSpatialResolution => "spatial resolution must be positive",
            Error::CoordinateOutOfRange => "coordinate out of range",
            Error::ColumnAlreadyExists => "column already exists",
            Error::ColumnLengthMismatch => "column length mismatch",
            Error::FilterLengthMismatch => "filter mask length mismatch",
            Error::ReplaceTimeLengthMismatch => "replacement time column length mismatch",
            Error::UnequalColumnLengths => "columns have unequal lengths",
            Error::EmptyGeometry => "geometry must not be empty",
            Error::InvalidGridShape => "grid data does not match its shape",
            Error::GridIndexOutOfBounds => "grid index out of bounds",
            Error::SchemaMismatch => "collection schemas do not match",
            Error::NumericOverflow => "numeric overflow during accumulation",
            Error::EmptyInput => "join engine flushed without initialized state",
            Error::AbortTriggerAlreadyUsed => "abort trigger already used",
            Error::Cancelled => "query cancelled",
            Error::OperationDoesNotSupportMultiBandQueriesYet => {
                "operation does not support multi-band queries yet"
            },
            Error::GeoTransformMismatch => "rasters live on different global grids",
        }
    }
}

} // verus!
