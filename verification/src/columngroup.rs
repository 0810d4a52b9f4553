//! One named slice of the table: a range of columns, exposed as header and
//! row views.

use vstd::prelude::*;
use crate::error::PartitionError;
use crate::partition::{cached_view, clone_header, next_ticket, Partition};
use crate::range::Range;
use crate::rowiterator::{AllRowIterator, AllRowIteratorState, RowIterator};
use crate::rowview::{clamped_slice, slice_to_shared, HeaderRowView};

verus! {

/// A handle to one column group: its range, its index, and its own snapshot
/// of the cached header. Row production pulls through the owning
/// `Partition`, which holds the stream.
pub struct ColumnGroup {
    pub range: Range,
    pub group_index: usize,
    pub headers_cached: Option<Vec<String>>,
}

impl ColumnGroup {
    /// The group's invariant: a well-formed range that its header snapshot,
    /// when present, fully covers.
    pub open spec fn wf(self) -> bool {
        &&& self.range.wf()
        &&& self.headers_cached matches Some(h) ==> self.range.upper <= h@.len()
    }

    /// Only `Partition` builds groups.
    pub(crate) fn new(range: Range, group_index: usize, headers_cached: Option<Vec<String>>) -> (r:
        ColumnGroup)
        ensures
            r == (ColumnGroup { range, group_index, headers_cached }),
    {
        ColumnGroup { range, group_index, headers_cached }
    }

    /// The group's column range.
    pub fn range(&self) -> (r: &Range)
        ensures
            *r == self.range,
    {
        &self.range
    }

    /// The group's position among its siblings.
    pub fn group_index(&self) -> (r: usize)
        ensures
            r == self.group_index,
    {
        self.group_index
    }

    /// Number of columns in this group.
    pub fn column_count(&self) -> (r: usize)
        requires
            self.range.wf(),
        ensures
            r == self.range.spec_len(),
    {
        self.range.len()
    }

    /// The header view for this group: the cached header sliced to the
    /// group's range, each name in its own shared buffer. Fails exactly when
    /// no header was cached.
    pub fn header_row(&self) -> (r: Result<HeaderRowView, PartitionError>)
        requires
            self.range.wf(),
        ensures
            self.headers_cached is Some <==> r is Ok,
            self.headers_cached matches Some(h) ==> (r matches Ok(hv) && hv.group_index
                == self.group_index && hv.names_view() == clamped_slice(h.deep_view(), self.range)),
            r matches Err(e) ==> e is MissingHeaders,
    {
        match &self.headers_cached {
            Some(h) => Ok(
                HeaderRowView {
                    column_names: slice_to_shared(h, &self.range),
                    group_index: self.group_index,
                },
            ),
            None => Err(PartitionError::MissingHeaders),
        }
    }

    /// A fresh data-row producer for this group. The call itself reads
    /// nothing from the stream; it only claims it: the ticket the producer
    /// receives supersedes every producer issued before it.
    pub fn rows<R>(&self, source: &mut Partition<R>) -> (r: RowIterator)
        ensures
            final(source).reader == old(source).reader,
            final(source).ranges == old(source).ranges,
            final(source).headers_cached == old(source).headers_cached,
            final(source).active_ticket == next_ticket(old(source).active_ticket),
            r == (RowIterator {
                range: self.range,
                group_index: self.group_index,
                current_row_index: 0,
                finished: false,
                ticket: final(source).active_ticket,
            }),
    {
        let ticket = source.claim_stream();
        RowIterator {
            range: self.range,
            group_index: self.group_index,
            current_row_index: 0,
            finished: false,
            ticket,
        }
    }

    /// A fresh header-then-data producer for this group, starting in its
    /// header state with this group's header snapshot. The call itself reads
    /// nothing from the stream; it claims it exactly as `rows` does.
    pub fn all_rows<R>(&self, source: &mut Partition<R>) -> (r: AllRowIterator)
        ensures
            final(source).reader == old(source).reader,
            final(source).ranges == old(source).ranges,
            final(source).headers_cached == old(source).headers_cached,
            final(source).active_ticket == next_ticket(old(source).active_ticket),
            r.range == self.range,
            r.group_index == self.group_index,
            cached_view(r.headers_cached) == cached_view(self.headers_cached),
            r.state == AllRowIteratorState::Header,
            r.ticket == final(source).active_ticket,
    {
        let ticket = source.claim_stream();
        AllRowIterator {
            range: self.range,
            group_index: self.group_index,
            headers_cached: clone_header(&self.headers_cached),
            state: AllRowIteratorState::Header,
            ticket,
        }
    }
}

} // verus!
