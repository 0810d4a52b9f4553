use vstd::prelude::*;

verus! {

/// Every failure this library reports. Construction-time failures are fully
/// recoverable: the caller receives one of these and no partial state escapes.
#[derive(Debug)]
pub enum PartitionError {
    /// `Range::new` was given bounds with `lower >= upper`.
    InvalidRange { lower: usize, upper: usize },
    /// `Partition::new` was asked to split the columns into zero groups.
    EmptyGroupCount,
    /// The header row has zero columns.
    EmptySchema,
    /// `Partition::with_custom_ranges` was given an empty range list.
    EmptyRanges,
    /// The range at position `index` reaches outside `[0, total_columns)`.
    RangeOutOfBounds { index: usize },
    /// The ranges at positions `first` and `second` intersect.
    RangeOverlap { first: usize, second: usize },
    /// No header row is cached, so no header view can be built.
    MissingHeaders,
    /// The underlying stream failed while producing a record.
    StreamError(csv::Error),
    /// A row producer pulled from a stream that a newer producer has claimed.
    StreamBusy,
}

} // verus!
