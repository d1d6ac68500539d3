use dbbenches::{
    Batch, ColumnConfig, ColumnType, EqlOperation, Identifier, IndexType, IngestConfigError,
    IngestOptions, IngestOptionsBuilder, IngestStep, Plaintext, DEFAULT_BATCH_SIZE, DEFAULT_NUM_RECORDS,
};

fn options(num_records: i32, batch_size: usize) -> IngestOptions {
    match IngestOptionsBuilder::new("encrypt_int")
        .num_records(num_records)
        .batch_size(batch_size)
        .identifier(Identifier::new("integer_encrypted", "value"))
        .column_config(ColumnConfig::build("value").casts_as(ColumnType::Int).add_index(IndexType::Ore))
        .build()
    {
        Ok(o) => o,
        Err(e) => panic!("valid configuration refused: {:?}", e),
    }
}

#[test]
fn build_fills_in_defaults() {
    let o = match IngestOptionsBuilder::new("b")
        .identifier(Identifier::new("t", "value"))
        .column_config(ColumnConfig::build("value"))
        .build()
    {
        Ok(o) => o,
        Err(e) => panic!("refused: {:?}", e),
    };
    assert_eq!(o.num_records, DEFAULT_NUM_RECORDS);
    assert_eq!(o.batch_size, DEFAULT_BATCH_SIZE);
    assert_eq!(o.num_records, 100000);
    assert_eq!(o.batch_size, 1000);
    assert_eq!(o.bench_name, "b");
    assert_eq!(o.identifier.table(), "t");
}

#[test]
fn build_reports_missing_and_invalid_fields() {
    let missing_id = IngestOptionsBuilder::new("b").column_config(ColumnConfig::build("v")).build();
    assert!(matches!(missing_id, Err(IngestConfigError::MissingIdentifier)));
    let missing_cc = IngestOptionsBuilder::new("b").identifier(Identifier::new("t", "v")).build();
    assert!(matches!(missing_cc, Err(IngestConfigError::MissingColumnConfig)));
    let negative = IngestOptionsBuilder::new("b")
        .num_records(-1)
        .identifier(Identifier::new("t", "v"))
        .column_config(ColumnConfig::build("v"))
        .build();
    assert!(matches!(negative, Err(IngestConfigError::NegativeNumRecords)));
    let zero = IngestOptionsBuilder::new("b")
        .batch_size(0)
        .identifier(Identifier::new("t", "v"))
        .column_config(ColumnConfig::build("v"))
        .build();
    assert!(matches!(zero, Err(IngestConfigError::ZeroBatchSize)));
}

#[test]
fn batches_cover_the_workload() {
    let b = options(2500, 1000).batches();
    assert_eq!(
        b,
        vec![
            Batch { start: 0, end: 1000 },
            Batch { start: 1000, end: 2000 },
            Batch { start: 2000, end: 2500 }
        ]
    );
    let rows: i32 = b.iter().map(|x| x.end - x.start).sum();
    assert_eq!(rows, 2500);
}

#[test]
fn batch_count_is_rounded_up() {
    for (n, size, count) in [(0, 1, 0), (1, 1, 1), (10, 3, 4), (9, 3, 3), (1000, 1000, 1), (7, 100, 1)] {
        let b = options(n, size).batches();
        assert_eq!(b.len(), count);
        assert!(b.iter().all(|x| x.end - x.start >= 1 && (x.end - x.start) as usize <= size));
        let rows: i32 = b.iter().map(|x| x.end - x.start).sum();
        assert_eq!(rows, n);
    }
}

#[test]
fn huge_batch_size_gives_one_batch() {
    let b = options(i32::MAX, usize::MAX).batches();
    assert_eq!(b, vec![Batch { start: 0, end: i32::MAX }]);
}

#[test]
fn artifact_records_the_full_count() {
    let o = options(1000, 300);
    assert_eq!(o.artifact_path(2), "target/encrypt_int-1000_2.json");
}

#[test]
fn batch_values_are_prepared_for_storage() {
    let o = options(3, 3);
    let prepared = o.prepare_batch(vec![Plaintext::Int(1), Plaintext::Int(2), Plaintext::Int(3)]);
    assert_eq!(prepared.len(), 3);
    for (i, p) in prepared.iter().enumerate() {
        assert!(matches!(p.operation, EqlOperation::Store));
        assert!(matches!(p.plaintext, Plaintext::Int(v) if v == i as i32 + 1));
        assert_eq!(p.identifier.table(), "integer_encrypted");
        assert_eq!(p.column_config.name, "value");
    }
}

#[test]
fn run_inserts_batches_in_order_then_records_the_count() {
    let o = options(1000, 300);
    let mut run = o.ingest();
    let mut inserted = Vec::new();
    loop {
        match run.next_step() {
            IngestStep::Insert(batch) => {
                inserted.push(batch);
                run.batch_inserted();
            }
            IngestStep::WriteArtifact { inserted: count } => {
                assert_eq!(count, 1000);
                break;
            }
        }
    }
    assert_eq!(inserted.len(), 4);
    assert_eq!(inserted[0], Batch { start: 0, end: 300 });
    assert_eq!(inserted[3], Batch { start: 900, end: 1000 });
    let rows: i32 = inserted.iter().map(|b| b.end - b.start).sum();
    assert_eq!(rows, 1000);
}

#[test]
fn empty_run_only_records_zero() {
    let o = options(0, 10);
    let run = o.ingest();
    assert_eq!(run.next_step(), IngestStep::WriteArtifact { inserted: 0 });
}

#[test]
fn fully_given_builder_builds() {
    let o = match IngestOptionsBuilder::new("b")
        .num_records(5)
        .batch_size(2)
        .identifier(Identifier::new("t", "value"))
        .column_config(ColumnConfig::build("value"))
        .build()
    {
        Ok(o) => o,
        Err(e) => panic!("refused: {:?}", e),
    };
    assert_eq!(o.bench_name, "b");
    assert_eq!(o.num_records, 5);
    assert_eq!(o.batch_size, 2);
    assert_eq!(o.identifier.table(), "t");
    assert_eq!(o.column_config.name, "value");
}
