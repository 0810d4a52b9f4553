//! Lazy, forward-only row producers. Each pull advances the shared stream by
//! at most one record, slices it to the group's range, and yields an owned
//! row view. Once a producer is finished — by end of stream, by a read
//! failure, or because a newer producer claimed the stream — it stays
//! finished and yields nothing, permanently.

use vstd::prelude::*;
use crate::error::PartitionError;
use crate::partition::Partition;
use crate::range::Range;
use crate::rowview::{clamped_slice, slice_to_shared, RowView};
use crate::stream::read_one_record;

verus! {

/// The row index after one more data row; the count stops growing at the top
/// of `usize`, which no real stream reaches.
pub open spec fn next_index(i: usize) -> usize {
    if i < usize::MAX {
        (i + 1) as usize
    } else {
        i
    }
}

/// A data-row producer: pulls one record per call, yields data rows only.
pub struct RowIterator {
    pub range: Range,
    pub group_index: usize,
    /// Index the next yielded row will carry; counts from 0.
    pub current_row_index: usize,
    /// Once set, every further pull yields nothing.
    pub finished: bool,
    /// The stream claim this producer was issued with.
    pub ticket: u64,
}

impl RowIterator {
    /// Pulls the next data row from the partition's stream.
    ///
    /// A finished producer yields nothing and changes nothing. A producer
    /// whose claim a newer producer has superseded yields one `StreamBusy`
    /// error and finishes without touching the stream. Otherwise one record
    /// is read: end of stream finishes the producer silently, a read failure
    /// finishes it after one final `StreamError` item, and a record yields a
    /// row view sliced to the group's range.
    pub fn next<R: std::io::Read>(&mut self, source: &mut Partition<R>) -> (r: Option<
        Result<RowView, PartitionError>,
    >)
        requires
            old(self).range.wf(),
        ensures
            final(self).range == old(self).range,
            final(self).group_index == old(self).group_index,
            final(self).ticket == old(self).ticket,
            final(source).ranges == old(source).ranges,
            final(source).headers_cached == old(source).headers_cached,
            final(source).active_ticket == old(source).active_ticket,
            old(self).finished ==> r is None && *final(self) == *old(self) && *final(source) == *old(source),
            (!old(self).finished && old(self).ticket != old(source).active_ticket) ==> (r matches
                Some(Err(e)) && e is StreamBusy) && final(self).finished && final(self).current_row_index == old(self).current_row_index && *final(source) == *old(source),
            (!old(self).finished && old(self).ticket == old(source).active_ticket) ==> match r {
                None => final(self).finished && final(self).current_row_index == old(self).current_row_index,
                Some(Err(e)) => e is StreamError && final(self).finished && final(self).current_row_index == old(self).current_row_index,
                Some(Ok(row)) => !final(self).finished && final(self).current_row_index
                    == next_index(old(self).current_row_index) && row.row_index == old(self).current_row_index && row.group_index == old(self).group_index
                    && row.fields@.len() <= old(self).range.spec_len() && (exists|rec: Seq<Seq<char>>| row.fields_view() == clamped_slice(rec, old(self).range)),
            },
    {
        if self.finished {
            return None;
        }
        if self.ticket != source.active_ticket {
            self.finished = true;
            return Some(Err(PartitionError::StreamBusy));
        }
        match read_one_record(&mut source.reader) {
            Ok(Some(rec)) => {
                let fields = slice_to_shared(&rec, &self.range);
                let row = RowView {
                    fields,
                    row_index: self.current_row_index,
                    group_index: self.group_index,
                };
                proof {
                    assert(row.fields_view() == clamped_slice(rec.deep_view(), self.range));
                }
                if self.current_row_index < usize::MAX {
                    self.current_row_index = self.current_row_index + 1;
                }
                Some(Ok(row))
            },
            Ok(None) => {
                self.finished = true;
                None
            },
            Err(e) => {
                self.finished = true;
                Some(Err(PartitionError::StreamError(e)))
            },
        }
    }
}

/// The three states of the header-then-data producer.
#[derive(Clone, Copy, Debug, PartialEq, Eq, Structural)]
pub enum AllRowIteratorState {
    /// The header row is still to be yielded.
    Header,
    /// Data rows are being yielded; the next one carries `row_index`.
    Records { row_index: usize },
    /// Nothing more will ever be yielded.
    Finished,
}

/// A header-then-data producer: yields the header view first (when one is
/// cached; a missing header is skipped silently), then data rows, as an
/// explicit three-state machine.
pub struct AllRowIterator {
    pub range: Range,
    pub group_index: usize,
    /// This producer's own snapshot of the cached header.
    pub headers_cached: Option<Vec<String>>,
    pub state: AllRowIteratorState,
    /// The stream claim this producer was issued with.
    pub ticket: u64,
}

impl AllRowIterator {
    /// Whether the next pull would read from the stream: the header state
    /// serves from the snapshot unless there is none to serve.
    pub open spec fn pulls_stream(self) -> bool {
        match self.state {
            AllRowIteratorState::Header => self.headers_cached is None,
            AllRowIteratorState::Records { .. } => true,
            AllRowIteratorState::Finished => false,
        }
    }

    /// The row index the next stream record would be tagged with.
    pub open spec fn emit_index(self) -> usize {
        match self.state {
            AllRowIteratorState::Records { row_index } => row_index,
            _ => 1,
        }
    }

    /// Pulls the next row: the header first when one is cached, then data
    /// rows numbered from 1; end of stream, a read failure (after one final
    /// `StreamError` item) and a superseded claim (after one `StreamBusy`
    /// item) all finish the producer permanently.
    pub fn next<R: std::io::Read>(&mut self, source: &mut Partition<R>) -> (r: Option<
        Result<RowView, PartitionError>,
    >)
        requires
            old(self).range.wf(),
        ensures
            final(self).range == old(self).range,
            final(self).group_index == old(self).group_index,
            final(self).ticket == old(self).ticket,
            final(self).headers_cached == old(self).headers_cached,
            final(source).ranges == old(source).ranges,
            final(source).headers_cached == old(source).headers_cached,
            final(source).active_ticket == old(source).active_ticket,
            old(self).state is Finished ==> r is None && *final(self) == *old(self) && *final(source)
                == *old(source),
            old(self).state is Header ==> (old(self).headers_cached matches Some(h) ==> (r
                matches Some(Ok(row)) && row.row_index == 0 && row.group_index == old(self).group_index && row.fields_view() == clamped_slice(h.deep_view(), old(self).range)
                && final(self).state == (AllRowIteratorState::Records { row_index: 1 }) && *final(source) == *old(source))),
            (old(self).pulls_stream() && old(self).ticket != old(source).active_ticket) ==> (r
                matches Some(Err(e)) && e is StreamBusy) && final(self).state is Finished && *final(source) == *old(source),
            (old(self).pulls_stream() && old(self).ticket == old(source).active_ticket) ==> match r {
                None => final(self).state is Finished,
                Some(Err(e)) => e is StreamError && final(self).state is Finished,
                Some(Ok(row)) => row.row_index == old(self).emit_index() && row.group_index == old(self).group_index && row.fields@.len() <= old(self).range.spec_len() && (exists|rec: Seq<Seq<char>>| row.fields_view() == clamped_slice(rec, old(self).range)) && final(self).state
                    == (AllRowIteratorState::Records {
                    row_index: next_index(old(self).emit_index()),
                }),
            },
    {
        match self.state {
            AllRowIteratorState::Header => {
                let sliced: Option<Vec<std::sync::Arc<String>>> = match &self.headers_cached {
                    Some(h) => Some(slice_to_shared(h, &self.range)),
                    None => None,
                };
                match sliced {
                    Some(fields) => {
                        let row = RowView { fields, row_index: 0, group_index: self.group_index };
                        self.state = AllRowIteratorState::Records { row_index: 1 };
                        Some(Ok(row))
                    },
                    None => {
                        // No header to show: move straight to the data rows.
                        self.state = AllRowIteratorState::Records { row_index: 1 };
                        self.pull_record(source, 1)
                    },
                }
            },
            AllRowIteratorState::Records { row_index } => self.pull_record(source, row_index),
            AllRowIteratorState::Finished => None,
        }
    }

    /// Reads one record for the data-row states of the machine.
    fn pull_record<R: std::io::Read>(&mut self, source: &mut Partition<R>, emit: usize) -> (r:
        Option<Result<RowView, PartitionError>>)
        requires
            old(self).range.wf(),
        ensures
            final(self).range == old(self).range,
            final(self).group_index == old(self).group_index,
            final(self).ticket == old(self).ticket,
            final(self).headers_cached == old(self).headers_cached,
            final(source).ranges == old(source).ranges,
            final(source).headers_cached == old(source).headers_cached,
            final(source).active_ticket == old(source).active_ticket,
            old(self).ticket != old(source).active_ticket ==> (r matches Some(Err(e))
                && e is StreamBusy) && final(self).state is Finished && *final(source) == *old(source),
            old(self).ticket == old(source).active_ticket ==> match r {
                None => final(self).state is Finished,
                Some(Err(e)) => e is StreamError && final(self).state is Finished,
                Some(Ok(row)) => row.row_index == emit && row.group_index == old(self).group_index
                    && row.fields@.len() <= old(self).range.spec_len() && (exists|rec: Seq<Seq<char>>| row.fields_view() == clamped_slice(rec, old(self).range)) && final(self).state
                    == (AllRowIteratorState::Records { row_index: next_index(emit) }),
            },
    {
        if self.ticket != source.active_ticket {
            self.state = AllRowIteratorState::Finished;
            return Some(Err(PartitionError::StreamBusy));
        }
        match read_one_record(&mut source.reader) {
            Ok(Some(rec)) => {
                let fields = slice_to_shared(&rec, &self.range);
                let row = RowView { fields, row_index: emit, group_index: self.group_index };
                proof {
                    assert(row.fields_view() == clamped_slice(rec.deep_view(), self.range));
                }
                let bumped: usize = if emit < usize::MAX {
                    emit + 1
                } else {
                    emit
                };
                self.state = AllRowIteratorState::Records { row_index: bumped };
                Some(Ok(row))
            },
            Ok(None) => {
                self.state = AllRowIteratorState::Finished;
                None
            },
            Err(e) => {
                self.state = AllRowIteratorState::Finished;
                Some(Err(PartitionError::StreamError(e)))
            },
        }
    }
}

} // verus!
