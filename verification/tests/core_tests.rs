use std::sync::Arc;

use csv_partitioner::columngroup::ColumnGroup;
use csv_partitioner::error::PartitionError;
use csv_partitioner::partition::Partition;
use csv_partitioner::range::Range;
use csv_partitioner::rowview::{HeaderRowView, RowView};

fn reader_over(data: &str) -> csv::Reader<&[u8]> {
    csv::Reader::from_reader(data.as_bytes())
}

const SIX_COLS: &str = "\
c0,c1,c2,c3,c4,c5
a0,a1,a2,a3,a4,a5
b0,b1,b2,b3,b4,b5
";

#[test]
fn range_new_succeeds_on_valid_bounds() {
    let rg = Range::new(2, 5).unwrap();
    assert_eq!(rg.lower, 2);
    assert_eq!(rg.upper, 5);
    assert_eq!(rg.len(), 3);
}

#[test]
fn range_new_rejects_malformed_bounds() {
    assert!(matches!(
        Range::new(5, 5),
        Err(PartitionError::InvalidRange { lower: 5, upper: 5 })
    ));
    assert!(matches!(
        Range::new(7, 3),
        Err(PartitionError::InvalidRange { lower: 7, upper: 3 })
    ));
}

#[test]
fn range_contains_and_conversions() {
    let rg = Range::new(3, 6).unwrap();
    assert!(!rg.contains(2));
    assert!(rg.contains(3));
    assert!(rg.contains(5));
    assert!(!rg.contains(6));
    assert_eq!(rg.local_to_global(0), Some(3));
    assert_eq!(rg.local_to_global(2), Some(5));
    assert_eq!(rg.local_to_global(3), None);
    assert_eq!(rg.global_to_local(3), Some(0));
    assert_eq!(rg.global_to_local(5), Some(2));
    assert_eq!(rg.global_to_local(6), None);
}

#[test]
fn range_round_trip_local_global() {
    let rg = Range::new(4, 9).unwrap();
    for i in 0..rg.len() {
        let g = rg.local_to_global(i).unwrap();
        assert_eq!(rg.global_to_local(g), Some(i));
    }
}

#[test]
fn partition_new_splits_evenly() {
    let p = Partition::new(reader_over(SIX_COLS), 2).unwrap();
    assert_eq!(p.group_count(), 2);
    assert_eq!(p.total_columns(), 6);
    assert_eq!(p.ranges()[0], Range { lower: 0, upper: 3 });
    assert_eq!(p.ranges()[1], Range { lower: 3, upper: 6 });
}

#[test]
fn partition_new_last_range_may_be_shorter() {
    // ceil(6 / 4) = 2, so the chunks are [0,2) [2,4) [4,6): exactly 3 groups.
    let p = Partition::new(reader_over(SIX_COLS), 4).unwrap();
    assert_eq!(p.group_count(), 3);
    assert_eq!(p.ranges()[0], Range { lower: 0, upper: 2 });
    assert_eq!(p.ranges()[1], Range { lower: 2, upper: 4 });
    assert_eq!(p.ranges()[2], Range { lower: 4, upper: 6 });
}

#[test]
fn partition_new_stops_early_when_groups_exceed_columns() {
    // 5 requested groups over 3 columns: exactly 3 groups, not an error.
    let p = Partition::new(reader_over("x,y,z\n1,2,3\n"), 5).unwrap();
    assert_eq!(p.group_count(), 3);
    assert_eq!(p.ranges()[0], Range { lower: 0, upper: 1 });
    assert_eq!(p.ranges()[1], Range { lower: 1, upper: 2 });
    assert_eq!(p.ranges()[2], Range { lower: 2, upper: 3 });
}

#[test]
fn partition_new_rejects_zero_groups() {
    assert!(matches!(
        Partition::new(reader_over(SIX_COLS), 0),
        Err(PartitionError::EmptyGroupCount)
    ));
}

#[test]
fn partition_new_rejects_empty_schema() {
    assert!(matches!(
        Partition::new(reader_over(""), 2),
        Err(PartitionError::EmptySchema)
    ));
}

#[test]
fn custom_ranges_reject_overlap() {
    let ranges = vec![Range::new(0, 3).unwrap(), Range::new(2, 5).unwrap()];
    assert!(matches!(
        Partition::with_custom_ranges(reader_over(SIX_COLS), ranges),
        Err(PartitionError::RangeOverlap { first: 0, second: 1 })
    ));
}

#[test]
fn custom_ranges_accept_adjacent() {
    let ranges = vec![Range::new(0, 3).unwrap(), Range::new(3, 6).unwrap()];
    let p = Partition::with_custom_ranges(reader_over(SIX_COLS), ranges).unwrap();
    assert_eq!(p.group_count(), 2);
}

#[test]
fn custom_ranges_reject_out_of_bounds() {
    let ranges = vec![Range::new(0, 3).unwrap(), Range::new(3, 10).unwrap()];
    assert!(matches!(
        Partition::with_custom_ranges(reader_over(SIX_COLS), ranges),
        Err(PartitionError::RangeOutOfBounds { index: 1 })
    ));
}

#[test]
fn custom_ranges_reject_empty_list() {
    assert!(matches!(
        Partition::with_custom_ranges(reader_over(SIX_COLS), Vec::new()),
        Err(PartitionError::EmptyRanges)
    ));
}

#[test]
fn partition_getters_and_groups() {
    let mut p = Partition::new(reader_over(SIX_COLS), 3).unwrap();
    assert_eq!(p.total_columns(), 6);
    let shared = p.ranges_arc();
    assert_eq!(shared.len(), 3);
    assert_eq!(shared[0], Range { lower: 0, upper: 2 });
    let header = p.headers().unwrap();
    assert_eq!(header, vec!["c0", "c1", "c2", "c3", "c4", "c5"]);
    assert!(p.create_group(3).is_none());
    let g = p.create_group(1).unwrap();
    assert_eq!(g.group_index(), 1);
    assert_eq!(*g.range(), Range { lower: 2, upper: 4 });
    assert_eq!(g.column_count(), 2);
    let all = p.groups();
    assert_eq!(all.len(), 3);
    assert_eq!(all[2].group_index(), 2);
    let indexed = p.groups_with_indicies();
    assert_eq!(indexed.len(), 3);
    assert_eq!(indexed[1].0, 1);
    assert_eq!(indexed[1].1.group_index(), 1);
}

#[test]
fn header_view_slices_cached_header() {
    let p = Partition::new(reader_over(SIX_COLS), 2).unwrap();
    let g = p.create_group(1).unwrap();
    let hv = g.header_row().unwrap();
    assert_eq!(hv.group_index(), 1);
    assert_eq!(hv.column_count(), 3);
    assert_eq!(hv.get_column_name(0), Some("c3"));
    assert_eq!(hv.get_column_name(2), Some("c5"));
    assert_eq!(hv.get_column_name(3), None);
}

#[test]
fn header_view_missing_headers() {
    let g = ColumnGroup {
        range: Range { lower: 0, upper: 2 },
        group_index: 0,
        headers_cached: None,
    };
    assert!(matches!(g.header_row(), Err(PartitionError::MissingHeaders)));
}

#[test]
fn rows_yield_sliced_views_in_order() {
    let mut p = Partition::new(reader_over(SIX_COLS), 2).unwrap();
    let g = p.create_group(0).unwrap();
    let mut it = g.rows(&mut p);
    let r0 = it.next(&mut p).unwrap().unwrap();
    assert_eq!(r0.row_index(), 0);
    assert_eq!(r0.group_index(), 0);
    assert!(r0.is_header());
    assert_eq!(r0.field_count(), 3);
    assert_eq!(r0.get_field(0).map(|s| s.to_string()), Some("a0".to_string()));
    assert_eq!(r0.get_field(2).map(|s| s.to_string()), Some("a2".to_string()));
    assert_eq!(r0.get_field(3), None);
    let r1 = it.next(&mut p).unwrap().unwrap();
    assert_eq!(r1.row_index(), 1);
    assert_eq!(r1.get_field(0).map(|s| s.to_string()), Some("b0".to_string()));
    assert!(it.next(&mut p).is_none());
    // No resurrection: once ended, the producer stays silent.
    assert!(it.next(&mut p).is_none());
    assert!(it.next(&mut p).is_none());
}

#[test]
fn all_rows_yield_header_then_data() {
    let mut p = Partition::new(reader_over(SIX_COLS), 2).unwrap();
    let g = p.create_group(1).unwrap();
    let mut it = g.all_rows(&mut p);
    let h = it.next(&mut p).unwrap().unwrap();
    assert_eq!(h.row_index(), 0);
    assert!(h.is_header());
    assert_eq!(h.get_field(0).map(|s| s.to_string()), Some("c3".to_string()));
    let r1 = it.next(&mut p).unwrap().unwrap();
    assert_eq!(r1.row_index(), 1);
    assert_eq!(r1.get_field(0).map(|s| s.to_string()), Some("a3".to_string()));
    let r2 = it.next(&mut p).unwrap().unwrap();
    assert_eq!(r2.row_index(), 2);
    assert_eq!(r2.get_field(2).map(|s| s.to_string()), Some("b5".to_string()));
    assert!(it.next(&mut p).is_none());
    assert!(it.next(&mut p).is_none());
}

#[test]
fn stale_producer_fails_fast_with_stream_busy() {
    let mut p = Partition::new(reader_over(SIX_COLS), 2).unwrap();
    let g0 = p.create_group(0).unwrap();
    let g1 = p.create_group(1).unwrap();
    let mut it0 = g0.rows(&mut p);
    let mut it1 = g1.rows(&mut p);
    // it1 claimed the stream after it0, so it0 may not pull any more.
    assert!(matches!(
        it0.next(&mut p),
        Some(Err(PartitionError::StreamBusy))
    ));
    // The failure is terminal for that producer.
    assert!(it0.next(&mut p).is_none());
    // The active producer still works.
    let r = it1.next(&mut p).unwrap().unwrap();
    assert_eq!(r.get_field(0).map(|s| s.to_string()), Some("a3".to_string()));
}

#[test]
fn read_failure_yields_one_error_then_silence() {
    let mut data: Vec<u8> = Vec::new();
    data.extend_from_slice(b"h0,h1\n");
    data.extend_from_slice(b"a,b\n");
    data.extend_from_slice(b"\xff\xfe,d\n");
    data.extend_from_slice(b"e,f\n");
    let mut p = Partition::new(csv::Reader::from_reader(&data[..]), 1).unwrap();
    let g = p.create_group(0).unwrap();
    let mut it = g.rows(&mut p);
    assert!(it.next(&mut p).unwrap().is_ok());
    assert!(matches!(
        it.next(&mut p),
        Some(Err(PartitionError::StreamError(_)))
    ));
    assert!(it.next(&mut p).is_none());
    assert!(it.next(&mut p).is_none());
}

#[test]
fn all_rows_without_header_goes_straight_to_data() {
    let mut p = Partition::new(reader_over(SIX_COLS), 2).unwrap();
    let mut g = p.create_group(0).unwrap();
    g.headers_cached = None;
    let mut it = g.all_rows(&mut p);
    let r = it.next(&mut p).unwrap().unwrap();
    // The header row is skipped silently; the first data row carries index 1.
    assert_eq!(r.row_index(), 1);
    assert_eq!(r.get_field(0).map(|s| s.to_string()), Some("a0".to_string()));
}

#[test]
fn row_views_survive_stream_advance_and_clone_cheaply() {
    let mut p = Partition::new(reader_over(SIX_COLS), 2).unwrap();
    let g = p.create_group(0).unwrap();
    let mut it = g.rows(&mut p);
    let first = it.next(&mut p).unwrap().unwrap();
    let copy = first.clone();
    // Advance the stream past the row the views were sliced from.
    let _second = it.next(&mut p).unwrap().unwrap();
    assert!(it.next(&mut p).is_none());
    // Data read earlier remains intact after the stream advanced further.
    assert_eq!(first.get_field(0).map(|s| s.to_string()), Some("a0".to_string()));
    assert_eq!(copy.get_field(0).map(|s| s.to_string()), Some("a0".to_string()));
    assert_eq!(copy.get_field(1).map(|s| s.to_string()), Some("a1".to_string()));
    assert_eq!(copy.row_index(), first.row_index());
    assert_eq!(copy.group_index(), first.group_index());
}

#[test]
fn header_view_clone_is_independent() {
    let p = Partition::new(reader_over(SIX_COLS), 2).unwrap();
    let g = p.create_group(0).unwrap();
    let hv = g.header_row().unwrap();
    let copy = hv.clone();
    drop(hv);
    assert_eq!(copy.column_count(), 3);
    assert_eq!(copy.get_column_name(1), Some("c1"));
}

#[test]
fn row_view_accessors_and_ordinals() {
    let fields: Vec<Arc<String>> = vec![
        Arc::new("x".to_string()),
        Arc::new("y".to_string()),
        Arc::new("z".to_string()),
    ];
    let rv = RowView::new(fields, 2, 1);
    assert_eq!(rv.row_index(), 2);
    assert_eq!(rv.group_index(), 1);
    assert!(!rv.is_header());
    assert_eq!(rv.field_count(), 3);
    let all = rv.fields();
    assert_eq!(all.len(), 3);
    assert_eq!(*all[2], "z".to_string());
    let with_idx = rv.fields_with_indices();
    assert_eq!(with_idx[1].0, 1);
    assert_eq!(*with_idx[1].1, "y".to_string());
    // Cross-group ordinal: group_index * field_count + local index.
    let global = rv.fields_with_global_indices();
    assert_eq!(global[0].0, 3);
    assert_eq!(global[2].0, 5);
    assert_eq!(*global[2].1, "z".to_string());
}

#[test]
fn header_row_view_accessors_and_ordinals() {
    let names: Vec<Arc<String>> = vec![Arc::new("n0".to_string()), Arc::new("n1".to_string())];
    let hv = HeaderRowView::new(names, 2);
    assert_eq!(hv.group_index(), 2);
    assert_eq!(hv.column_count(), 2);
    let all = hv.column_names();
    assert_eq!(*all[0], "n0".to_string());
    let with_idx = hv.column_names_with_indicies();
    assert_eq!(with_idx[1].0, 1);
    let global = hv.column_names_with_global_indicies();
    assert_eq!(global[0].0, 4);
    assert_eq!(global[1].0, 5);
}

#[test]
fn end_to_end_header_detection_to_row_views() {
    // Header-detected partitioning of a vocabulary table: "verbs" spans
    // [0,3), "adjectives" spans [3,6).
    let data = "verbs,,,adjectives,,\nおどろく,to be surprised,驚く,はやい,fast/quick,早い\n";
    let header: Vec<String> =
        vec!["verbs".into(), "".into(), "".into(), "adjectives".into(), "".into(), "".into()];
    let detected = csv_partitioner::partitioner::detect_partitions_from_header(&header);
    assert_eq!(detected.len(), 2);
    assert_eq!(detected[0].name, "verbs");
    assert_eq!(detected[0].range, Range { lower: 0, upper: 3 });
    assert_eq!(detected[1].name, "adjectives");
    assert_eq!(detected[1].range, Range { lower: 3, upper: 6 });

    let ranges: Vec<Range> = detected.iter().map(|p| p.range).collect();
    let mut p = Partition::with_custom_ranges(reader_over(data), ranges).unwrap();

    // Group 0's header view is the raw slice of the header row.
    let g0 = p.create_group(0).unwrap();
    let hv = g0.header_row().unwrap();
    assert_eq!(hv.column_count(), 3);
    assert_eq!(hv.get_column_name(0), Some("verbs"));
    assert_eq!(hv.get_column_name(1), Some(""));
    assert_eq!(hv.get_column_name(2), Some(""));

    // Group 0's first data row.
    let mut it0 = g0.rows(&mut p);
    let r0 = it0.next(&mut p).unwrap().unwrap();
    assert_eq!(r0.get_field(0), Some("おどろく"));
    assert_eq!(r0.get_field(1), Some("to be surprised"));
    assert_eq!(r0.get_field(2), Some("驚く"));
    assert!(it0.next(&mut p).is_none());

    // A fresh stream for group 1: the first pass consumed the only data row.
    let mut p2 = Partition::with_custom_ranges(
        reader_over(data),
        vec![Range::new(0, 3).unwrap(), Range::new(3, 6).unwrap()],
    )
    .unwrap();
    let g1 = p2.create_group(1).unwrap();
    let mut it1 = g1.rows(&mut p2);
    let r1 = it1.next(&mut p2).unwrap().unwrap();
    assert_eq!(r1.get_field(0), Some("はやい"));
    assert_eq!(r1.get_field(1), Some("fast/quick"));
    assert_eq!(r1.get_field(2), Some("早い"));
}

#[test]
fn headers_is_idempotent_and_matches_total_columns() {
    let mut p = Partition::new(reader_over(SIX_COLS), 2).unwrap();
    let h1 = p.headers().unwrap();
    let h2 = p.headers().unwrap();
    assert_eq!(h1, h2);
    assert_eq!(h1.len(), p.total_columns());
}

#[test]
fn assemble_equal_split_pins_every_outcome() {
    // A good header yields exactly the equal split of its columns.
    let headers: Vec<String> = vec!["a".into(), "b".into(), "c".into()];
    let p =
        Partition::assemble_equal_split(reader_over(""), Ok(headers), 2).unwrap();
    assert_eq!(p.total_columns(), 3);
    assert_eq!(p.group_count(), 2);
    assert_eq!(p.ranges()[0], Range { lower: 0, upper: 2 });
    assert_eq!(p.ranges()[1], Range { lower: 2, upper: 3 });
    assert_eq!(p.headers_cached, Some(vec!["a".to_string(), "b".to_string(), "c".to_string()]));

    // An empty header yields exactly EmptySchema.
    let empty: Vec<String> = Vec::new();
    assert!(matches!(
        Partition::assemble_equal_split(reader_over(""), Ok(empty), 2),
        Err(PartitionError::EmptySchema)
    ));

    // A failed read comes back exactly as StreamError.
    let read_failure = csv::Error::from(std::io::Error::new(
        std::io::ErrorKind::Other,
        "stream closed",
    ));
    assert!(matches!(
        Partition::<&[u8]>::assemble_equal_split(reader_over(""), Err(read_failure), 2),
        Err(PartitionError::StreamError(_))
    ));
}

#[test]
fn assemble_with_ranges_pins_every_outcome() {
    let headers: Vec<String> = vec!["a".into(), "b".into(), "c".into(), "d".into()];
    let ranges = vec![Range::new(0, 2).unwrap(), Range::new(2, 4).unwrap()];
    let p = Partition::assemble_with_ranges(reader_over(""), Ok(headers), ranges).unwrap();
    assert_eq!(p.total_columns(), 4);
    assert_eq!(p.group_count(), 2);
    assert_eq!(p.ranges()[1], Range { lower: 2, upper: 4 });

    // Validation decides: a range past the header's end is the violation.
    let headers: Vec<String> = vec!["a".into(), "b".into()];
    let ranges = vec![Range::new(0, 2).unwrap(), Range::new(2, 4).unwrap()];
    assert!(matches!(
        Partition::assemble_with_ranges(reader_over(""), Ok(headers), ranges),
        Err(PartitionError::RangeOutOfBounds { index: 1 })
    ));

    // An empty header yields exactly EmptySchema.
    let empty: Vec<String> = Vec::new();
    assert!(matches!(
        Partition::assemble_with_ranges(reader_over(""), Ok(empty), vec![
            Range::new(0, 1).unwrap()
        ]),
        Err(PartitionError::EmptySchema)
    ));

    // A failed read comes back exactly as StreamError.
    let read_failure = csv::Error::from(std::io::Error::new(
        std::io::ErrorKind::Other,
        "stream closed",
    ));
    assert!(matches!(
        Partition::<&[u8]>::assemble_with_ranges(reader_over(""), Err(read_failure), vec![
            Range::new(0, 1).unwrap()
        ]),
        Err(PartitionError::StreamError(_))
    ));
}
