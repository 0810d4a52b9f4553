//! Header-driven partitioning of a record stream: named column ranges
//! detected from blank runs in the header, and a single-pass row walker that
//! hands every record to a caller-supplied function, group by group.

use vstd::prelude::*;
use crate::error::PartitionError;
use crate::range::Range;
use crate::rowview::{clamp_to, clamped_slice};
use crate::stream::{read_headers, read_one_record, trim_of, trim_str};

verus! {

/// A cell counts as blank when nothing but whitespace is in it.
pub open spec fn is_blank(s: Seq<char>) -> bool {
    trim_of(s).len() == 0
}

/// The named ranges detected in the first `i` header cells: a non-blank cell
/// starts a new named range, and each following blank cell extends it by one
/// column; blank cells with no range directly before them belong to nothing.
pub open spec fn detect_upto(h: Seq<Seq<char>>, i: int) -> Seq<(Seq<char>, Range)>
    decreases i,
{
    if i <= 0 {
        Seq::empty()
    } else {
        let p = detect_upto(h, i - 1);
        if !is_blank(h[i - 1]) {
            p.push(
                (trim_of(h[i - 1]), Range { lower: (i - 1) as usize, upper: i as usize }),
            )
        } else if p.len() > 0 && p.last().1.upper == i - 1 {
            p.update(
                p.len() - 1,
                (p.last().0, Range { lower: p.last().1.lower, upper: i as usize }),
            )
        } else {
            p
        }
    }
}

/// The named ranges detected in a whole header row.
pub open spec fn detect_spec(h: Seq<Seq<char>>) -> Seq<(Seq<char>, Range)> {
    detect_upto(h, h.len() as int)
}

/// A list of named partitions agrees with a detection result, name for name
/// and range for range.
pub open spec fn partitions_match(ps: Seq<Partition>, d: Seq<(Seq<char>, Range)>) -> bool {
    &&& ps.len() == d.len()
    &&& forall|j: int|
        0 <= j < ps.len() ==> (#[trigger] ps[j]).name@ == d[j].0 && ps[j].range == d[j].1
}

proof fn lemma_detect_upto_valid(h: Seq<Seq<char>>, i: int)
    requires
        0 <= i <= usize::MAX,
    ensures
        forall|j: int| 0 <= j < detect_upto(h, i).len() ==> (#[trigger] detect_upto(h, i)[j]).1.wf(),
        forall|j: int| 0 <= j < detect_upto(h, i).len() ==> (#[trigger] detect_upto(h, i)[j]).1.upper <= i,
        forall|j1: int, j2: int|
            0 <= j1 < j2 < detect_upto(h, i).len() ==> (#[trigger] detect_upto(h, i)[j1]).1.upper
                <= (#[trigger] detect_upto(h, i)[j2]).1.lower,
    decreases i,
{
    if i > 0 {
        lemma_detect_upto_valid(h, i - 1);
        let p = detect_upto(h, i - 1);
        let d = detect_upto(h, i);
        if !is_blank(h[i - 1]) {
            assert(d == p.push(
                (trim_of(h[i - 1]), Range { lower: (i - 1) as usize, upper: i as usize }),
            ));
            assert forall|j: int| 0 <= j < d.len() implies (#[trigger] d[j]).1.wf() && d[j].1.upper
                <= i by {
                if j < p.len() {
                    assert(d[j] == p[j]);
                }
            }
            assert forall|j1: int, j2: int| 0 <= j1 < j2 < d.len() implies (#[trigger] d[j1]).1.upper
                <= (#[trigger] d[j2]).1.lower by {
                if j2 < p.len() {
                    assert(d[j1] == p[j1] && d[j2] == p[j2]);
                } else {
                    assert(d[j1] == p[j1]);
                    assert(p[j1].1.upper <= i - 1);
                    assert(d[j2].1.lower == i - 1);
                }
            }
        } else if p.len() > 0 && p.last().1.upper == i - 1 {
            let k = p.len() - 1;
            let e = (p.last().0, Range { lower: p.last().1.lower, upper: i as usize });
            assert(d == p.update(k, e));
            assert(p[k as int].1.wf());
            assert forall|j: int| 0 <= j < d.len() implies (#[trigger] d[j]).1.wf() && d[j].1.upper
                <= i by {
                if j < k {
                    assert(d[j] == p[j]);
                }
            }
            assert forall|j1: int, j2: int| 0 <= j1 < j2 < d.len() implies (#[trigger] d[j1]).1.upper
                <= (#[trigger] d[j2]).1.lower by {
                assert(d[j1] == p[j1]);
                if j2 < k {
                    assert(d[j2] == p[j2]);
                } else {
                    assert(p[j1].1.upper <= p[k as int].1.lower);
                    assert(d[j2].1.lower == p[k as int].1.lower);
                }
            }
        } else {
            assert(d == p);
        }
    }
}

/// Every detected range is well-formed and stays inside the header, and the
/// ranges come in strictly left-to-right order, so no two of them overlap.
pub proof fn lemma_detect_valid(h: Seq<Seq<char>>)
    requires
        h.len() <= usize::MAX,
    ensures
        forall|j: int| 0 <= j < detect_spec(h).len() ==> (#[trigger] detect_spec(h)[j]).1.wf(),
        forall|j: int|
            0 <= j < detect_spec(h).len() ==> (#[trigger] detect_spec(h)[j]).1.upper <= h.len(),
        forall|j1: int, j2: int|
            0 <= j1 < j2 < detect_spec(h).len() ==> (#[trigger] detect_spec(h)[j1]).1.upper
                <= (#[trigger] detect_spec(h)[j2]).1.lower,
{
    lemma_detect_upto_valid(h, h.len() as int);
}

/// One topic of the table: a named, contiguous range of columns.
#[derive(Debug)]
pub struct Partition {
    pub name: String,
    pub range: Range,
}

impl Clone for Partition {
    /// The copy carries the same name and the same range.
    fn clone(&self) -> (r: Self)
        ensures
            r == *self,
    {
        Partition { name: self.name.clone(), range: self.range }
    }
}

/// Detects the named partitions that a header row lays out: a non-blank cell
/// opens a partition named by its trimmed text, and the following run of
/// blank cells extends that partition until the next non-blank cell.
pub fn detect_partitions_from_header(header: &Vec<String>) -> (r: Vec<Partition>)
    ensures
        partitions_match(r@, detect_spec(header.deep_view())),
{
    let ghost hdv = header.deep_view();
    let mut parts: Vec<Partition> = Vec::new();
    let mut i: usize = 0;
    while i < header.len()
        invariant
            i <= header@.len(),
            hdv == header.deep_view(),
            partitions_match(parts@, detect_upto(hdv, i as int)),
        decreases header@.len() - i,
    {
        let cell = trim_str(&header[i]);
        proof {
            assert(hdv[i as int] == header@[i as int]@);
            assert(cell@ == trim_of(hdv[i as int]));
        }
        if !cell.as_str().is_empty() {
            let p = Partition { name: cell, range: Range { lower: i, upper: i + 1 } };
            parts.push(p);
            proof {
                let d = detect_upto(hdv, i + 1);
                assert(d == detect_upto(hdv, i as int).push(
                    (trim_of(hdv[i as int]), Range { lower: i, upper: (i + 1) as usize }),
                ));
                assert(partitions_match(parts@, d));
            }
        } else {
            let len = parts.len();
            if len > 0 && parts[len - 1].range.upper == i {
                parts[len - 1].range.upper = i + 1;
                proof {
                    let prev = detect_upto(hdv, i as int);
                    let d = detect_upto(hdv, i + 1);
                    assert(d == prev.update(
                        prev.len() - 1,
                        (
                            prev.last().0,
                            Range { lower: prev.last().1.lower, upper: (i + 1) as usize },
                        ),
                    ));
                    assert(partitions_match(parts@, d));
                }
            } else {
                proof {
                    assert(detect_upto(hdv, i + 1) == detect_upto(hdv, i as int));
                }
            }
        }
        i = i + 1;
    }
    parts
}

/// The fields of a record restricted to a range and trimmed of surrounding
/// whitespace, as character sequences.
pub open spec fn trimmed_slice(row: Seq<Seq<char>>, rg: Range) -> Seq<Seq<char>> {
    clamped_slice(row, rg).map_values(|s: Seq<char>| trim_of(s))
}

/// The trimmed fields of one partition of one row.
fn trimmed_fields(row: &Vec<String>, rg: &Range) -> (r: Vec<String>)
    requires
        rg.wf(),
    ensures
        r.deep_view() == trimmed_slice(row.deep_view(), *rg),
{
    let n = row.len();
    let start: usize = if rg.lower <= n {
        rg.lower
    } else {
        n
    };
    let end: usize = if rg.upper <= n {
        rg.upper
    } else {
        n
    };
    let mut out: Vec<String> = Vec::new();
    let mut i: usize = start;
    while i < end
        invariant
            start <= i <= end <= row@.len(),
            start == clamp_to(rg.lower as int, row@.len() as int),
            end == clamp_to(rg.upper as int, row@.len() as int),
            out@.len() == i - start,
            forall|j: int| 0 <= j < out@.len() ==> (#[trigger] out@[j])@ == trim_of(row@[start + j]@),
        decreases end - i,
    {
        let s = trim_str(&row[i]);
        out.push(s);
        proof {
            assert(out@[i - start]@ == trim_of(row@[i as int]@));
        }
        i = i + 1;
    }
    proof {
        assert(out.deep_view() =~= trimmed_slice(row.deep_view(), *rg));
    }
    out
}

/// The view of one partition of one row: the trimmed fields it covers.
pub struct GroupView {
    pub fields: Vec<String>,
}

impl GroupView {
    /// The character sequences of the fields, in order.
    pub open spec fn fields_view(self) -> Seq<Seq<char>> {
        self.fields.deep_view()
    }

    /// The field at a group-local index; no value out of range.
    pub fn get(&self, idx: usize) -> (r: Option<&str>)
        ensures
            idx < self.fields@.len() <==> (r matches Some(s) && s@ == self.fields_view()[
                idx as int
            ]),
            idx >= self.fields@.len() <==> r is None,
    {
        if idx < self.fields.len() {
            Some(self.fields[idx].as_str())
        } else {
            None
        }
    }
}

/// Splits one row into group views, one per partition, each holding the
/// trimmed fields its range covers.
pub fn row_to_groups(row: &Vec<String>, partitions: &Vec<Partition>) -> (r: Vec<GroupView>)
    requires
        forall|g: int| 0 <= g < partitions@.len() ==> (#[trigger] partitions@[g]).range.wf(),
    ensures
        r@.len() == partitions@.len(),
        forall|g: int|
            0 <= g < r@.len() ==> (#[trigger] r@[g]).fields_view() == trimmed_slice(
                row.deep_view(),
                partitions@[g].range,
            ),
{
    let mut out: Vec<GroupView> = Vec::new();
    let mut g: usize = 0;
    while g < partitions.len()
        invariant
            forall|k: int| 0 <= k < partitions@.len() ==> (#[trigger] partitions@[k]).range.wf(),
            g <= partitions@.len(),
            out@.len() == g,
            forall|k: int|
                0 <= k < g ==> (#[trigger] out@[k]).fields_view() == trimmed_slice(
                    row.deep_view(),
                    partitions@[k].range,
                ),
        decreases partitions@.len() - g,
    {
        let fields = trimmed_fields(row, &partitions[g].range);
        out.push(GroupView { fields });
        g = g + 1;
    }
    out
}

/// Applies a caller-supplied mapping to one group view and hands back
/// whatever it produces.
pub fn deserialise_group<T, F: Fn(&GroupView) -> T>(group: &GroupView, f: F) -> (r: T)
    requires
        call_requires(f, (group,)),
    ensures
        call_ensures(f, (group,), r),
{
    f(group)
}

/// A single-pass walker over a partitioned record stream: it owns the reader
/// and the named partitions, and hands each row to a caller-supplied
/// function.
#[verifier::reject_recursive_types(R)]
pub struct CsvPartitioner<R> {
    /// The underlying stream; exclusively owned and advanced once per row.
    pub reader: csv::Reader<R>,
    /// The named column partitions, in left-to-right order.
    pub partitions: Vec<Partition>,
}

impl<R: std::io::Read> CsvPartitioner<R> {
    /// Pairs a reader with caller-chosen partitions.
    pub fn new(reader: csv::Reader<R>, partitions: Vec<Partition>) -> (r: CsvPartitioner<R>)
        ensures
            r == (CsvPartitioner { reader, partitions }),
    {
        CsvPartitioner { reader, partitions }
    }

    /// Reads the header row and detects the partitions it lays out. Fails
    /// exactly when the header cannot be read.
    pub fn new_from_header(reader: csv::Reader<R>) -> (r: Result<CsvPartitioner<R>, PartitionError>)
        ensures
            r matches Err(e) ==> e is StreamError,
            r matches Ok(cp) ==> exists|h: Seq<Seq<char>>|
                partitions_match(cp.partitions@, detect_spec(h)),
    {
        let mut reader = reader;
        match read_headers(&mut reader) {
            Ok(header) => {
                let partitions = detect_partitions_from_header(&header);
                proof {
                    let h = header.deep_view();
                    assert(partitions_match(partitions@, detect_spec(h)));
                }
                Ok(CsvPartitioner { reader, partitions })
            },
            Err(e) => Err(PartitionError::StreamError(e)),
        }
    }

    /// Walks the remaining records of the stream in one pass, handing each
    /// record with the partition list to `f`. Stops cleanly at end of stream
    /// and reports the first read failure.
    pub fn for_each_row<F: Fn(&Vec<String>, &Vec<Partition>)>(&mut self, f: F) -> (r: Result<
        (),
        PartitionError,
    >)
        requires
            forall|rec: &Vec<String>, ps: &Vec<Partition>| call_requires(f, (rec, ps)),
        ensures
            final(self).partitions == old(self).partitions,
            r matches Err(e) ==> e is StreamError,
    {
        // The pull count bounds the loop so that it provably terminates; no
        // real stream comes near the bound.
        let mut pulls: usize = 0;
        while pulls < usize::MAX
            invariant
                forall|rec: &Vec<String>, ps: &Vec<Partition>| call_requires(f, (rec, ps)),
                self.partitions == old(self).partitions,
            decreases usize::MAX - pulls,
        {
            match read_one_record(&mut self.reader) {
                Ok(Some(rec)) => {
                    f(&rec, &self.partitions);
                },
                Ok(None) => {
                    return Ok(());
                },
                Err(e) => {
                    return Err(PartitionError::StreamError(e));
                },
            }
            pulls = pulls + 1;
        }
        Ok(())
    }

    /// A copy of the partition list.
    pub fn get_partitions(&self) -> (r: Vec<Partition>)
        ensures
            r@ == self.partitions@,
    {
        let r = self.partitions.clone();
        proof {
            assert(r@ =~= self.partitions@);
        }
        r
    }
}

} // verus!
