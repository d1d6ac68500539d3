use dbbenches::{
    aggregate, artifact_path, average_memory, combine, find_parameter, load_records,
    validate_artifacts, ArtifactStatus, BenchmarkResult, CombineError,
};

fn entry(num_records: &str, runs: usize, memory: Vec<u64>) -> BenchmarkResult {
    BenchmarkResult {
        num_runs: runs,
        memory_usage_byte: memory,
        parameters: vec![("num_records".to_string(), num_records.to_string())],
    }
}

fn valid_artifacts(sizes: &[u64], runs: usize) -> Vec<Vec<ArtifactStatus>> {
    sizes
        .iter()
        .map(|n| vec![ArtifactStatus::Inserted(*n); runs])
        .collect()
}

#[test]
fn artifact_path_names_bench_size_and_run() {
    assert_eq!(artifact_path("bench", 1000, 2), "target/bench-1000_2.json");
    assert_eq!(artifact_path("encrypt_int", 0, 10), "target/encrypt_int-0_10.json");
}

#[test]
fn missing_artifact_fails_aggregation() {
    let results = vec![entry("1000", 3, vec![1, 2, 3])];
    let artifacts = vec![vec![
        ArtifactStatus::Inserted(1000),
        ArtifactStatus::Inserted(1000),
        ArtifactStatus::Missing,
    ]];
    match combine("bench", &results, &artifacts) {
        Err(CombineError::MissingArtifact { path }) => {
            assert_eq!(path, "target/bench-1000_2.json")
        }
        _ => panic!("expected a missing artifact"),
    }
}

#[test]
fn unreported_artifact_counts_as_missing() {
    let results = vec![entry("1000", 3, vec![])];
    let artifacts = vec![vec![ArtifactStatus::Inserted(1000), ArtifactStatus::Inserted(1000)]];
    match combine("bench", &results, &artifacts) {
        Err(CombineError::MissingArtifact { path }) => {
            assert_eq!(path, "target/bench-1000_2.json")
        }
        _ => panic!("expected a missing artifact"),
    }
}

#[test]
fn mismatched_artifact_names_both_counts() {
    let results = vec![entry("1000", 1, vec![])];
    let artifacts = vec![vec![ArtifactStatus::Inserted(999)]];
    match combine("bench", &results, &artifacts) {
        Err(CombineError::Mismatch { path, expected, found }) => {
            assert_eq!(path, "target/bench-1000_0.json");
            assert_eq!(expected, 1000);
            assert_eq!(found, 999);
        }
        _ => panic!("expected a mismatch"),
    }
}

#[test]
fn unreadable_and_malformed_artifacts_fail() {
    let results = vec![entry("5", 2, vec![])];
    let unreadable = vec![vec![ArtifactStatus::Inserted(5), ArtifactStatus::Unreadable]];
    assert!(matches!(
        validate_artifacts("b", &results, &vec![5], &unreadable),
        Err(CombineError::UnreadableArtifact { .. })
    ));
    let malformed = vec![vec![ArtifactStatus::Malformed, ArtifactStatus::Missing]];
    match validate_artifacts("b", &results, &vec![5], &malformed) {
        Err(CombineError::MalformedArtifact { path }) => assert_eq!(path, "target/b-5_0.json"),
        _ => panic!("expected a malformed artifact"),
    }
}

#[test]
fn aggregation_sorts_by_workload_size() {
    let results = vec![entry("100", 3, vec![10, 20, 30]), entry("10", 3, vec![5])];
    let artifacts = valid_artifacts(&[100, 10], 3);
    let lines = match combine("bench", &results, &artifacts) {
        Ok(lines) => lines,
        Err(_) => panic!("aggregation should succeed"),
    };
    assert_eq!(lines.len(), 2);
    assert_eq!(lines[0].num_records, 10);
    assert_eq!(lines[1].num_records, 100);
    assert_eq!(lines[0].source, 1);
    assert_eq!(lines[1].source, 0);
    assert_eq!(lines[0].total_records, 10);
    assert_eq!(lines[0].num_runs, 3);
    assert_eq!(lines[0].average_memory_usage_bytes, 5);
    assert_eq!(lines[1].average_memory_usage_bytes, 20);
    // Throughput is the workload size over the mean time of the entry.
    let means = [0.5_f64, 0.1_f64];
    let throughput: Vec<f64> = lines
        .iter()
        .map(|l| l.num_records as f64 / means[l.source])
        .collect();
    assert_eq!(throughput, vec![100.0, 200.0]);
}

#[test]
fn equal_sizes_keep_file_order() {
    let results = vec![entry("7", 0, vec![]), entry("3", 0, vec![]), entry("7", 0, vec![])];
    let lines = aggregate(&results, &vec![7, 3, 7]);
    let order: Vec<usize> = lines.iter().map(|l| l.source).collect();
    assert_eq!(order, vec![1, 0, 2]);
}

#[test]
fn average_memory_of_samples() {
    let avg = average_memory(&vec![1024, 2048, 3072]);
    assert_eq!(avg, 2048);
    assert_eq!(avg as f64 / (1024.0 * 1024.0), 0.001953125);
    assert_eq!(average_memory(&vec![]), 0);
    assert_eq!(average_memory(&vec![u64::MAX, u64::MAX]), u64::MAX);
    assert_eq!(average_memory(&vec![1, 2]), 1);
}

#[test]
fn missing_num_records_fails_before_artifacts() {
    let mut no_size = entry("1", 1, vec![]);
    no_size.parameters = vec![("other".to_string(), "1".to_string())];
    let results = vec![entry("100", 1, vec![]), no_size];
    // The artifacts of the first entry are missing too, yet the workload sizes
    // are read before any artifact is looked at.
    let artifacts: Vec<Vec<ArtifactStatus>> = vec![];
    assert!(matches!(
        combine("bench", &results, &artifacts),
        Err(CombineError::MissingNumRecords { index: 1 })
    ));
}

#[test]
fn unparsable_num_records_fails() {
    let results = vec![entry("12a", 1, vec![])];
    match load_records(&results) {
        Err(CombineError::InvalidNumRecords { index, value }) => {
            assert_eq!(index, 0);
            assert_eq!(value, "12a");
        }
        _ => panic!("expected an invalid workload size"),
    }
    assert!(matches!(load_records(&vec![entry("-3", 1, vec![])]), Err(CombineError::InvalidNumRecords { .. })));
    assert!(matches!(load_records(&vec![entry("", 1, vec![])]), Err(CombineError::InvalidNumRecords { .. })));
    assert!(matches!(
        load_records(&vec![entry("18446744073709551616", 1, vec![])]),
        Err(CombineError::InvalidNumRecords { .. })
    ));
}

#[test]
fn num_records_are_read_in_order() {
    let results = vec![entry("+42", 1, vec![]), entry("007", 1, vec![]), entry("18446744073709551615", 1, vec![])];
    match load_records(&results) {
        Ok(sizes) => assert_eq!(sizes, vec![42, 7, u64::MAX]),
        Err(_) => panic!("all sizes are readable"),
    }
}

#[test]
fn first_parameter_of_a_name_wins() {
    let params = vec![
        ("a".to_string(), "1".to_string()),
        ("num_records".to_string(), "2".to_string()),
        ("num_records".to_string(), "3".to_string()),
    ];
    assert_eq!(find_parameter(&params, "num_records").map(|s| s.as_str()), Some("2"));
    assert_eq!(find_parameter(&params, "b"), None);
}

#[test]
fn empty_timing_file_gives_empty_report() {
    match combine("bench", &vec![], &vec![]) {
        Ok(lines) => assert!(lines.is_empty()),
        Err(_) => panic!("nothing to refuse"),
    }
}
