//! Owned, cheaply-cloneable snapshots of one row of a column group.

use vstd::prelude::*;
use std::sync::Arc;
use crate::range::Range;
use crate::stream::{arc_clone, arc_str};

verus! {

/// `i` clamped from above to `n`.
pub open spec fn clamp_to(i: int, n: int) -> int {
    if i <= n {
        i
    } else {
        n
    }
}

/// The fields of a record restricted to a range, as character sequences.
/// Columns the record does not reach are simply absent, so a short record
/// yields a short (possibly empty) slice.
pub open spec fn clamped_slice(record: Seq<Seq<char>>, rg: Range) -> Seq<Seq<char>>
    recommends
        rg.lower <= rg.upper,
{
    record.subrange(
        clamp_to(rg.lower as int, record.len() as int),
        clamp_to(rg.upper as int, record.len() as int),
    )
}

/// Restricts one record to a range, converting every kept field into a
/// shared immutable buffer.
pub fn slice_to_shared(record: &Vec<String>, rg: &Range) -> (r: Vec<Arc<String>>)
    requires
        rg.wf(),
    ensures
        r.deep_view() == clamped_slice(record.deep_view(), *rg),
{
    let n = record.len();
    let start: usize = if rg.lower <= n {
        rg.lower
    } else {
        n
    };
    let end: usize = if rg.upper <= n {
        rg.upper
    } else {
        n
    };
    let mut out: Vec<Arc<String>> = Vec::new();
    let mut i: usize = start;
    while i < end
        invariant
            start <= i <= end <= record@.len(),
            start == clamp_to(rg.lower as int, record@.len() as int),
            end == clamp_to(rg.upper as int, record@.len() as int),
            out@.len() == i - start,
            forall|j: int| 0 <= j < out@.len() ==> (#[trigger] out@[j])@ == record@[start + j]@,
        decreases end - i,
    {
        let s = record[i].clone();
        let a = Arc::new(s);
        out.push(a);
        proof {
            assert(out@[i - start]@ == record@[i as int]@);
        }
        i = i + 1;
    }
    proof {
        assert(out.deep_view() =~= clamped_slice(record.deep_view(), *rg));
    }
    out
}

/// One row of one column group, restricted to the group's range. The field
/// data is held in shared immutable buffers, so a clone costs one reference
/// count per field and the snapshot outlives the stream that produced it.
pub struct RowView {
    /// Owned, shareable field data.
    pub fields: Vec<Arc<String>>,
    /// 0 marks the header row; data rows count from the producer's start.
    pub row_index: usize,
    /// Index of the column group this row was sliced for.
    pub group_index: usize,
}

impl RowView {
    /// The character sequences of the fields, in order.
    pub open spec fn fields_view(self) -> Seq<Seq<char>> {
        self.fields.deep_view()
    }

    pub fn new(fields: Vec<Arc<String>>, row_index: usize, group_index: usize) -> (r: RowView)
        ensures
            r == (RowView { fields, row_index, group_index }),
    {
        RowView { fields, row_index, group_index }
    }

    pub fn row_index(&self) -> (r: usize)
        ensures
            r == self.row_index,
    {
        self.row_index
    }

    pub fn group_index(&self) -> (r: usize)
        ensures
            r == self.group_index,
    {
        self.group_index
    }

    /// Whether this snapshot is the header row.
    pub fn is_header(&self) -> (r: bool)
        ensures
            r == (self.row_index == 0),
    {
        self.row_index == 0
    }

    pub fn field_count(&self) -> (r: usize)
        ensures
            r == self.fields@.len(),
    {
        self.fields.len()
    }

    /// The field at a group-local column index; no value out of range.
    pub fn get_field(&self, local_index: usize) -> (r: Option<&str>)
        ensures
            local_index < self.fields@.len() <==> (r matches Some(s) && s@
                == self.fields_view()[local_index as int]),
            local_index >= self.fields@.len() <==> r is None,
    {
        if local_index < self.fields.len() {
            Some(arc_str(&self.fields[local_index]))
        } else {
            None
        }
    }

    /// Fresh handles to all field buffers, in order.
    pub fn fields(&self) -> (r: Vec<Arc<String>>)
        ensures
            r@ =~= self.fields@,
    {
        let mut out: Vec<Arc<String>> = Vec::new();
        let mut i: usize = 0;
        while i < self.fields.len()
            invariant
                i <= self.fields@.len(),
                out@.len() == i,
                forall|j: int| 0 <= j < i ==> out@[j] == self.fields@[j],
            decreases self.fields@.len() - i,
        {
            out.push(arc_clone(&self.fields[i]));
            i = i + 1;
        }
        out
    }

    /// Each field paired with its group-local index.
    pub fn fields_with_indices(&self) -> (r: Vec<(usize, Arc<String>)>)
        ensures
            r@.len() == self.fields@.len(),
            forall|j: int| #![trigger r@[j]]
                0 <= j < r@.len() ==> r@[j].0 == j && r@[j].1 == self.fields@[j],
    {
        let mut out: Vec<(usize, Arc<String>)> = Vec::new();
        let mut i: usize = 0;
        while i < self.fields.len()
            invariant
                i <= self.fields@.len(),
                out@.len() == i,
                forall|j: int| #![trigger out@[j]]
                    0 <= j < i ==> out@[j].0 == j && out@[j].1 == self.fields@[j],
            decreases self.fields@.len() - i,
        {
            let a = arc_clone(&self.fields[i]);
            out.push((i, a));
            proof {
                assert(out@[i as int].0 == i && out@[i as int].1 == self.fields@[i as int]);
            }
            i = i + 1;
        }
        out
    }

    /// Each field paired with `group_index * field_count + local_index`, the
    /// cross-group ordinal. This coincides with the true global column index
    /// only when every group has the same width.
    pub fn fields_with_global_indices(&self) -> (r: Vec<(usize, Arc<String>)>)
        requires
            self.group_index * self.fields@.len() + self.fields@.len() <= usize::MAX,
        ensures
            r@.len() == self.fields@.len(),
            forall|j: int| #![trigger r@[j]]
                0 <= j < r@.len() ==> r@[j].0 == self.group_index * self.fields@.len() + j
                    && r@[j].1 == self.fields@[j],
    {
        let base: usize = self.group_index * self.fields.len();
        let mut out: Vec<(usize, Arc<String>)> = Vec::new();
        let mut i: usize = 0;
        while i < self.fields.len()
            invariant
                i <= self.fields@.len(),
                base == self.group_index * self.fields@.len(),
                base + self.fields@.len() <= usize::MAX,
                out@.len() == i,
                forall|j: int| #![trigger out@[j]]
                    0 <= j < i ==> out@[j].0 == base + j && out@[j].1 == self.fields@[j],
            decreases self.fields@.len() - i,
        {
            let a = arc_clone(&self.fields[i]);
            out.push((base + i, a));
            proof {
                assert(out@[i as int].0 == base + i && out@[i as int].1 == self.fields@[i as int]);
            }
            i = i + 1;
        }
        out
    }
}

impl Clone for RowView {
    /// Cloning copies only reference counts and the two indices; it reads
    /// nothing but this snapshot, so it can never touch the stream, and the
    /// clone is equal to the original.
    fn clone(&self) -> (r: Self)
        ensures
            r.fields@ == self.fields@,
            r.row_index == self.row_index,
            r.group_index == self.group_index,
    {
        RowView { fields: self.fields(), row_index: self.row_index, group_index: self.group_index }
    }
}

/// The column names of one group: an owned, cheaply-cloneable snapshot of the
/// header row restricted to the group's range.
pub struct HeaderRowView {
    /// Owned, shareable column-name data.
    pub column_names: Vec<Arc<String>>,
    /// Index of the column group this header was sliced for.
    pub group_index: usize,
}

impl HeaderRowView {
    /// The character sequences of the column names, in order.
    pub open spec fn names_view(self) -> Seq<Seq<char>> {
        self.column_names.deep_view()
    }

    pub fn new(column_names: Vec<Arc<String>>, group_index: usize) -> (r: HeaderRowView)
        ensures
            r == (HeaderRowView { column_names, group_index }),
    {
        HeaderRowView { column_names, group_index }
    }

    pub fn group_index(&self) -> (r: usize)
        ensures
            r == self.group_index,
    {
        self.group_index
    }

    pub fn column_count(&self) -> (r: usize)
        ensures
            r == self.column_names@.len(),
    {
        self.column_names.len()
    }

    /// The column name at a group-local index; no value out of range.
    pub fn get_column_name(&self, local_index: usize) -> (r: Option<&str>)
        ensures
            local_index < self.column_names@.len() <==> (r matches Some(s) && s@
                == self.names_view()[local_index as int]),
            local_index >= self.column_names@.len() <==> r is None,
    {
        if local_index < self.column_names.len() {
            Some(arc_str(&self.column_names[local_index]))
        } else {
            None
        }
    }

    /// Fresh handles to all column-name buffers, in order.
    pub fn column_names(&self) -> (r: Vec<Arc<String>>)
        ensures
            r@ =~= self.column_names@,
    {
        let mut out: Vec<Arc<String>> = Vec::new();
        let mut i: usize = 0;
        while i < self.column_names.len()
            invariant
                i <= self.column_names@.len(),
                out@.len() == i,
                forall|j: int| 0 <= j < i ==> out@[j] == self.column_names@[j],
            decreases self.column_names@.len() - i,
        {
            out.push(arc_clone(&self.column_names[i]));
            i = i + 1;
        }
        out
    }

    /// Each column name paired with its group-local index.
    pub fn column_names_with_indicies(&self) -> (r: Vec<(usize, Arc<String>)>)
        ensures
            r@.len() == self.column_names@.len(),
            forall|j: int| #![trigger r@[j]]
                0 <= j < r@.len() ==> r@[j].0 == j && r@[j].1 == self.column_names@[j],
    {
        let mut out: Vec<(usize, Arc<String>)> = Vec::new();
        let mut i: usize = 0;
        while i < self.column_names.len()
            invariant
                i <= self.column_names@.len(),
                out@.len() == i,
                forall|j: int| #![trigger out@[j]]
                    0 <= j < i ==> out@[j].0 == j && out@[j].1 == self.column_names@[j],
            decreases self.column_names@.len() - i,
        {
            let a = arc_clone(&self.column_names[i]);
            out.push((i, a));
            proof {
                assert(out@[i as int].0 == i && out@[i as int].1 == self.column_names@[i as int]);
            }
            i = i + 1;
        }
        out
    }

    /// Each column name paired with `group_index * column_count + local_index`,
    /// the cross-group ordinal. This coincides with the true global column
    /// index only when every group has the same width.
    pub fn column_names_with_global_indicies(&self) -> (r: Vec<(usize, Arc<String>)>)
        requires
            self.group_index * self.column_names@.len() + self.column_names@.len() <= usize::MAX,
        ensures
            r@.len() == self.column_names@.len(),
            forall|j: int| #![trigger r@[j]]
                0 <= j < r@.len() ==> r@[j].0 == self.group_index * self.column_names@.len() + j
                    && r@[j].1 == self.column_names@[j],
    {
        let base: usize = self.group_index * self.column_names.len();
        let mut out: Vec<(usize, Arc<String>)> = Vec::new();
        let mut i: usize = 0;
        while i < self.column_names.len()
            invariant
                i <= self.column_names@.len(),
                base == self.group_index * self.column_names@.len(),
                base + self.column_names@.len() <= usize::MAX,
                out@.len() == i,
                forall|j: int| #![trigger out@[j]]
                    0 <= j < i ==> out@[j].0 == base + j && out@[j].1 == self.column_names@[j],
            decreases self.column_names@.len() - i,
        {
            let a = arc_clone(&self.column_names[i]);
            out.push((base + i, a));
            proof {
                assert(out@[i as int].0 == base + i && out@[i as int].1 == self.column_names@[i as int]);
            }
            i = i + 1;
        }
        out
    }
}

impl Clone for HeaderRowView {
    /// Cloning copies only reference counts and the group index; it reads
    /// nothing but this snapshot, so it can never touch the stream, and the
    /// clone is equal to the original.
    fn clone(&self) -> (r: Self)
        ensures
            r.column_names@ == self.column_names@,
            r.group_index == self.group_index,
    {
        HeaderRowView { column_names: self.column_names(), group_index: self.group_index }
    }
}

} // verus!
