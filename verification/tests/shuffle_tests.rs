use shuffle_writer::batch::{Batch, CellValue};
use shuffle_writer::error::EngineError;
use shuffle_writer::expr::ColumnExpr;
use shuffle_writer::fmtnum::u64_to_string;
use shuffle_writer::hashing::{batch_row_hashes, combine_hashes};
use shuffle_writer::repartition::{partition_indices, partition_of, split_batch};
use shuffle_writer::schema::{result_schema, DataType};
use shuffle_writer::stats::{PartitionStats, ShuffleSink, ShuffleWritePartition};
use shuffle_writer::writer::{
    hash_file_path, metadata_batch, partition_dir, passthrough_file_path, ExecutorMeta,
    OutputLocation, Partitioning, ShuffleWriteMetrics, ShuffleWriterExec,
};

fn test_batch() -> Batch {
    // two columns: a = [1, 2], b = ["hello", "world"]
    Batch::try_new(vec![
        vec![CellValue::UInt64(1), CellValue::UInt64(2)],
        vec![
            CellValue::Utf8("hello".to_string()),
            CellValue::Utf8("world".to_string()),
        ],
    ])
    .unwrap()
}

fn key_a() -> Vec<ColumnExpr> {
    vec![ColumnExpr::new("a".to_string(), 0)]
}

fn writer_to_dir(partitioning: Option<Partitioning>) -> ShuffleWriterExec {
    ShuffleWriterExec::try_new_pull_shuffle(
        "jobOne".to_string(),
        1,
        "/work".to_string(),
        partitioning,
    )
    .unwrap()
}

#[test]
fn test() {
    // coalesced input: one input partition of four batches of two rows
    let batches = vec![test_batch(), test_batch(), test_batch(), test_batch()];
    let query_stage = writer_to_dir(Some(Partitioning::Hash(key_a(), 2)));
    let out = query_stage
        .execute_shuffle_write(0, &batches, None)
        .unwrap();

    // rows 1 and 2 land in the partitions their hashes name
    let hashes = batch_row_hashes(&batches[0], &key_a()).unwrap();
    let p1 = partition_of(hashes[0], 2);
    let p2 = partition_of(hashes[1], 2);
    let expected_parts: usize = if p1 == p2 { 1 } else { 2 };
    assert_eq!(out.records.len(), expected_parts);

    let total: u64 = out.records.iter().map(|r| r.num_rows).sum();
    assert_eq!(total, 8);
    for rec in &out.records {
        let suffix = format!("/jobOne/1/{}/data-0.arrow", rec.partition_id);
        assert!(rec.path.ends_with(&suffix));
        assert!(rec.path.starts_with("/work"));
        assert_eq!(rec.num_batches, 4);
        // keys 1 and 2 appear twice per batch over four batches
        let expected_rows: u64 = if expected_parts == 2 { 4 } else { 8 };
        assert_eq!(rec.num_rows, expected_rows);
    }
    assert_eq!(out.metrics.input_rows, 8);
    assert_eq!(out.metrics.output_rows, 8);

    let batch = query_stage.execute(0, &batches).unwrap();
    assert_eq!(batch.num_columns(), 5);
    assert_eq!(batch.num_rows(), expected_parts);
}

#[test]
fn test_partitioned() {
    // one unit input partition of two batches of two rows
    let batches = vec![test_batch(), test_batch()];
    let query_stage = writer_to_dir(Some(Partitioning::Hash(key_a(), 2)));
    let out = query_stage
        .execute_shuffle_write(0, &batches, None)
        .unwrap();

    let hashes = batch_row_hashes(&batches[0], &key_a()).unwrap();
    let expected_parts: usize = if partition_of(hashes[0], 2) == partition_of(hashes[1], 2) {
        1
    } else {
        2
    };
    assert_eq!(out.records.len(), expected_parts);
    let total: u64 = out.records.iter().map(|r| r.num_rows).sum();
    assert_eq!(total, 4);
    for rec in &out.records {
        assert_eq!(rec.num_batches, 2);
        let expected_rows: u64 = if expected_parts == 2 { 2 } else { 4 };
        assert_eq!(rec.num_rows, expected_rows);
    }
}

#[test]
fn passthrough_writes_one_file_record() {
    // two input partitions of two batches each, coalesced to one
    let batches = vec![test_batch(), test_batch(), test_batch(), test_batch()];
    let writer = writer_to_dir(None);
    let out = writer.execute_shuffle_write(0, &batches, None).unwrap();
    assert_eq!(out.records.len(), 1);
    let rec = &out.records[0];
    assert_eq!(rec.partition_id, 0);
    assert_eq!(rec.path.as_str(), "/work/jobOne/1/0/data.arrow");
    assert_eq!(rec.num_rows, 8);
    assert_eq!(rec.num_batches, 4);
    assert!(rec.num_bytes > 0);
    assert!(out.partition_batches.is_empty());

    let batch = writer.execute(0, &batches).unwrap();
    assert_eq!(batch.num_rows(), 1);
    assert_eq!(batch.num_columns(), 5);
    assert_eq!(*batch.cell(0, 0), CellValue::UInt64(0));
    assert_eq!(
        *batch.cell(0, 1),
        CellValue::Utf8("/work/jobOne/1/0/data.arrow".to_string())
    );
    assert_eq!(*batch.cell(0, 2), CellValue::UInt64(8));
    assert_eq!(*batch.cell(0, 3), CellValue::UInt64(4));
}

#[test]
fn passthrough_to_executor_has_empty_path() {
    let execs = vec![ExecutorMeta {
        id: "e1".to_string(),
        host: "localhost".to_string(),
        port: 50051,
    }];
    let writer =
        ShuffleWriterExec::try_new_push_shuffle("jobOne".to_string(), 1, execs, None).unwrap();
    let out = writer
        .execute_shuffle_write(0, &vec![test_batch()], Some(1))
        .unwrap();
    assert_eq!(out.records[0].path.as_str(), "");
    assert_eq!(out.records[0].num_rows, 2);
}

#[test]
fn invalid_partitioning_scheme_is_rejected() {
    let writer = writer_to_dir(Some(Partitioning::RoundRobinBatch(4)));
    let err = writer
        .execute_shuffle_write(0, &vec![test_batch()], None)
        .unwrap_err();
    assert!(err.is_plan());
    assert_eq!(err.message().as_str(), "Invalid shuffle partitioning scheme");
}

#[test]
fn hash_key_out_of_range_is_rejected() {
    let writer = writer_to_dir(Some(Partitioning::Hash(
        vec![ColumnExpr::new("missing".to_string(), 9)],
        2,
    )));
    let err = writer
        .execute_shuffle_write(0, &vec![test_batch()], None)
        .unwrap_err();
    assert!(err.is_execution());
}

#[test]
fn split_batch_preserves_rows() {
    // the union of rows across output partitions is the input rows
    let batch = Batch::try_new(vec![vec![
        CellValue::UInt64(3),
        CellValue::UInt64(1),
        CellValue::UInt64(4),
        CellValue::UInt64(1),
        CellValue::UInt64(5),
    ]])
    .unwrap();
    let parts = split_batch(&batch, &key_a(), 3).unwrap();
    assert_eq!(parts.len(), 3);
    let mut gathered: Vec<u64> = Vec::new();
    for part in &parts {
        for i in 0..part.num_rows() {
            match part.cell(i, 0) {
                CellValue::UInt64(v) => gathered.push(*v),
                _ => panic!("unexpected cell"),
            }
        }
    }
    gathered.sort();
    assert_eq!(gathered, vec![1, 1, 3, 4, 5]);
}

#[test]
fn equal_rows_land_in_equal_partitions() {
    let batch = Batch::try_new(vec![vec![
        CellValue::UInt64(7),
        CellValue::UInt64(8),
        CellValue::UInt64(7),
    ]])
    .unwrap();
    let hashes = batch_row_hashes(&batch, &key_a()).unwrap();
    assert_eq!(hashes[0], hashes[2]);
    let again = batch_row_hashes(&batch, &key_a()).unwrap();
    assert_eq!(hashes, again);
}

#[test]
fn hashes_spread_across_partitions() {
    // a constant hash would put every row in one partition
    let cells: Vec<CellValue> = (0u64..64).map(CellValue::UInt64).collect();
    let batch = Batch::try_new(vec![cells]).unwrap();
    let hashes = batch_row_hashes(&batch, &key_a()).unwrap();
    let lists = partition_indices(&hashes, 2);
    assert_eq!(lists.len(), 2);
    assert!(!lists[0].is_empty());
    assert!(!lists[1].is_empty());
    assert_eq!(lists[0].len() + lists[1].len(), 64);
}

#[test]
fn string_keys_hash_apart() {
    let batch = Batch::try_new(vec![vec![
        CellValue::Utf8("hello".to_string()),
        CellValue::Utf8("world".to_string()),
        CellValue::Utf8("hello".to_string()),
    ]])
    .unwrap();
    let hashes = batch_row_hashes(&batch, &key_a()).unwrap();
    assert_eq!(hashes[0], hashes[2]);
    assert_ne!(hashes[0], hashes[1]);
}

#[test]
fn null_keys_share_a_partition() {
    let batch = Batch::try_new(vec![vec![CellValue::Null, CellValue::Null]]).unwrap();
    let hashes = batch_row_hashes(&batch, &key_a()).unwrap();
    assert_eq!(hashes[0], hashes[1]);
}

#[test]
fn partition_indices_routes_by_remainder() {
    let hashes = vec![0_u64, 1, 2, 3, 4];
    let lists = partition_indices(&hashes, 2);
    assert_eq!(lists[0], vec![0, 2, 4]);
    assert_eq!(lists[1], vec![1, 3]);
    assert_eq!(partition_of(5, 2), 1);
}

#[test]
fn take_gathers_rows_in_list_order() {
    let batch = Batch::try_new(vec![vec![
        CellValue::UInt64(10),
        CellValue::UInt64(20),
        CellValue::UInt64(30),
    ]])
    .unwrap();
    let taken = batch.take(&vec![2, 0]).unwrap();
    assert_eq!(taken.num_rows(), 2);
    assert_eq!(*taken.cell(0, 0), CellValue::UInt64(30));
    assert_eq!(*taken.cell(1, 0), CellValue::UInt64(10));

    assert!(batch.take(&vec![3]).is_err());
}

#[test]
fn batch_construction_is_checked() {
    assert!(Batch::try_new(vec![]).is_err());
    assert!(Batch::try_new(vec![
        vec![CellValue::UInt64(1)],
        vec![CellValue::UInt64(1), CellValue::UInt64(2)],
    ])
    .is_err());
    let b = Batch::try_new(vec![vec![CellValue::UInt64(1)]]).unwrap();
    assert_eq!(b.num_rows(), 1);
    assert_eq!(b.num_columns(), 1);
}

#[test]
fn sink_counts_written_batches() {
    // num_rows is the sum of written rows; num_batches counts the writes
    let mut sink = ShuffleSink::new("/work/p0".to_string());
    sink.write(2, 100);
    sink.write(3, 50);
    sink.write(0, 0);
    assert_eq!(sink.num_rows(), 5);
    assert_eq!(sink.num_batches(), 3);
    assert_eq!(sink.num_bytes(), 150);
    assert_eq!(sink.path().as_str(), "/work/p0");
    sink.finish();
    assert_eq!(sink.num_rows(), 5);
}

#[test]
fn sink_counters_saturate() {
    let mut sink = ShuffleSink::new(String::new());
    sink.write(u64::MAX, 1);
    sink.write(1, 1);
    assert_eq!(sink.num_rows(), u64::MAX);
    assert_eq!(sink.num_bytes(), 2);
}

#[test]
fn partition_stats_carries_options() {
    let stats = PartitionStats::new(Some(8), Some(4), None);
    assert_eq!(stats.num_rows, Some(8));
    assert_eq!(stats.num_batches, Some(4));
    assert_eq!(stats.num_bytes, None);
}

#[test]
fn metadata_batch_flattens_records() {
    let records = vec![ShuffleWritePartition {
        partition_id: 3,
        path: "/p/3".to_string(),
        num_batches: 2,
        num_rows: 7,
        num_bytes: 99,
    }];
    let batch = metadata_batch(&records);
    assert_eq!(batch.num_rows(), 1);
    assert_eq!(*batch.cell(0, 0), CellValue::UInt64(3));
    assert_eq!(*batch.cell(0, 1), CellValue::Utf8("/p/3".to_string()));
    assert_eq!(*batch.cell(0, 2), CellValue::UInt64(7));
    assert_eq!(*batch.cell(0, 3), CellValue::UInt64(2));
    assert_eq!(*batch.cell(0, 4), CellValue::UInt64(99));
}

#[test]
fn result_schema_matches_metadata_layout() {
    let schema = result_schema();
    assert_eq!(schema.fields.len(), 3);
    assert_eq!(schema.fields[0].name, "partition");
    assert_eq!(schema.fields[0].data_type, DataType::UInt32);
    assert_eq!(schema.fields[1].name, "path");
    assert_eq!(schema.fields[1].data_type, DataType::Utf8);
    assert_eq!(schema.fields[2].name, "stats");
    match &schema.fields[2].data_type {
        DataType::Struct(inner) => {
            assert_eq!(inner.len(), 3);
            assert_eq!(inner[0].name, "num_rows");
            assert_eq!(inner[1].name, "num_batches");
            assert_eq!(inner[2].name, "num_bytes");
        }
        other => panic!("stats column should be a struct, got {:?}", other),
    }
}

#[test]
fn paths_follow_the_layout() {
    assert_eq!(partition_dir("/w", "job", 1, 0).as_str(), "/w/job/1/0");
    assert_eq!(
        passthrough_file_path("/w", "jobOne", 1, 0).as_str(),
        "/w/jobOne/1/0/data.arrow"
    );
    assert_eq!(
        hash_file_path("/w", "jobOne", 12, 3, 10).as_str(),
        "/w/jobOne/12/3/data-10.arrow"
    );
    assert_eq!(u64_to_string(0).as_str(), "0");
    assert_eq!(u64_to_string(1234567890).as_str(), "1234567890");
}

#[test]
fn writer_accessors_report_configuration() {
    let writer = writer_to_dir(Some(Partitioning::Hash(key_a(), 2)));
    assert_eq!(writer.job_id(), "jobOne");
    assert_eq!(writer.stage_id(), 1);
    assert!(!writer.is_push_shuffle());
    assert!(!writer.is_local_shuffle("e1"));
    assert!(matches!(
        writer.shuffle_output_partitioning(),
        Some(Partitioning::Hash(_, 2))
    ));

    let execs = vec![
        ExecutorMeta {
            id: "e1".to_string(),
            host: "h1".to_string(),
            port: 1,
        },
        ExecutorMeta {
            id: "e1".to_string(),
            host: "h2".to_string(),
            port: 2,
        },
    ];
    let push =
        ShuffleWriterExec::try_new_push_shuffle("j".to_string(), 2, execs, Some(
            Partitioning::Hash(key_a(), 2),
        ))
        .unwrap();
    assert!(push.is_push_shuffle());
    assert!(push.is_local_shuffle("e1"));
    assert!(!push.is_local_shuffle("e2"));
}

#[test]
fn display_names_the_partitioning() {
    let writer = writer_to_dir(Some(Partitioning::Hash(key_a(), 2)));
    assert_eq!(
        writer.display_string().as_str(),
        "ShuffleWriterExec: Hash(1 keys, 2)"
    );
    let none = writer_to_dir(None);
    assert_eq!(none.display_string().as_str(), "ShuffleWriterExec: None");
}

#[test]
fn try_new_keeps_the_location() {
    let writer = ShuffleWriterExec::try_new(
        "j".to_string(),
        7,
        OutputLocation::LocalDir("/data".to_string()),
        None,
    )
    .unwrap();
    assert_eq!(writer.stage_id(), 7);
    match &writer.output_loc {
        OutputLocation::LocalDir(d) => assert_eq!(d.as_str(), "/data"),
        _ => panic!("expected a local directory"),
    }
}

#[test]
fn metrics_count_rows() {
    let mut metrics = ShuffleWriteMetrics::new();
    metrics.add_input_rows(4);
    metrics.add_input_rows(4);
    metrics.add_output_rows(8);
    assert_eq!(metrics.input_rows, 8);
    assert_eq!(metrics.output_rows, 8);
}

#[test]
fn hashing_mixes_the_input() {
    // an identity "hash" would make consecutive keys hash consecutively
    let batch = Batch::try_new(vec![vec![CellValue::UInt64(0), CellValue::UInt64(1)]]).unwrap();
    let hashes = batch_row_hashes(&batch, &key_a()).unwrap();
    assert_ne!(hashes[1].wrapping_sub(hashes[0]), 1);
}

#[test]
fn combine_hashes_mixes_both_inputs() {
    assert_ne!(combine_hashes(1, 2), combine_hashes(2, 1));
    assert_eq!(combine_hashes(1, 2), combine_hashes(1, 2));
}

#[test]
fn empty_input_yields_no_records() {
    let writer = writer_to_dir(Some(Partitioning::Hash(key_a(), 2)));
    let out = writer
        .execute_shuffle_write(0, &Vec::<Batch>::new(), None)
        .unwrap();
    assert!(out.records.is_empty());
    assert!(out.partition_batches.is_empty());
    assert_eq!(out.metrics.input_rows, 0);
}

#[test]
fn single_partition_hash_still_routes() {
    let writer = writer_to_dir(Some(Partitioning::Hash(key_a(), 1)));
    let out = writer
        .execute_shuffle_write(0, &vec![test_batch()], None)
        .unwrap();
    assert_eq!(out.records.len(), 1);
    assert_eq!(out.records[0].partition_id, 0);
    assert_eq!(out.records[0].num_rows, 2);
    assert!(out.records[0].path.ends_with("/jobOne/1/0/data-0.arrow"));
}

#[test]
fn errors_carry_their_kind() {
    let e = EngineError::Execution("boom".to_string());
    assert!(e.is_execution());
    assert!(!e.is_plan());
    assert!(!e.is_internal());
    assert_eq!(e.message().as_str(), "boom");
}
