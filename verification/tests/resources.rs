use vdb_benchmarks::distribution::ingestion::ingestion_batch_bounds;
use vdb_benchmarks::error::PathError;
use vdb_benchmarks::resources::{
    next_dir_name, with_different_file_ending, ResolvedPaths, ResourceWriter,
};

#[test]
fn resolve_derives_the_payload_paths() {
    let paths = ResolvedPaths::resolve("resources/gist-960-euclidean.hdf5".to_string());
    assert_eq!(paths.vectors_file, "resources/gist-960-euclidean.hdf5");
    assert_eq!(
        paths.document_payload_file,
        "resources/gist-960-euclidean.document.payload.bincode"
    );
    assert_eq!(
        paths.query_payload_file,
        "resources/gist-960-euclidean.query.payload.bincode"
    );
    assert_eq!(paths.dataset_name().unwrap(), "gist-960-euclidean");
}

#[test]
fn file_endings_replace_only_the_last_ending() {
    assert_eq!(with_different_file_ending("a/b/c.hdf5", "bin"), "a/b/c.bin");
    assert_eq!(with_different_file_ending("c", "bin"), "c.bin");
    assert_eq!(with_different_file_ending("a.b/c", "bin"), "a.b/c.bin");
    assert_eq!(with_different_file_ending(".hidden", "bin"), ".hidden.bin");
    assert_eq!(with_different_file_ending("x.tar.gz", "zip"), "x.tar.zip");
}

#[test]
fn dataset_name_needs_a_file_name() {
    let paths = ResolvedPaths::resolve("somedir/".to_string());
    assert_eq!(paths.dataset_name().unwrap_err(), PathError::InvalidFileName);
}

#[test]
fn existence_checks_name_the_offending_file() {
    let paths = ResolvedPaths::resolve("v.hdf5".to_string());
    assert!(paths.check_files_exists(true, true, true).is_ok());
    assert_eq!(
        paths.check_files_exists(false, true, true).unwrap_err(),
        PathError::MissingVectorsFile
    );
    assert_eq!(
        paths.check_files_exists(true, false, true).unwrap_err(),
        PathError::MissingDocumentPayloadFile
    );
    assert_eq!(
        paths.check_files_exists(true, true, false).unwrap_err(),
        PathError::MissingQueryPayloadFile
    );
    assert!(paths.check_only_vectors_file_exists(true, false, false).is_ok());
    assert_eq!(
        paths
            .check_only_vectors_file_exists(false, false, false)
            .unwrap_err(),
        PathError::MissingVectorsFile
    );
    assert_eq!(
        paths
            .check_only_vectors_file_exists(true, true, false)
            .unwrap_err(),
        PathError::DocumentPayloadFileExists
    );
    assert_eq!(
        paths
            .check_only_vectors_file_exists(true, false, true)
            .unwrap_err(),
        PathError::QueryPayloadFileExists
    );
}

#[test]
fn report_dirs_count_up_in_padded_hex() {
    assert_eq!(next_dir_name(&Vec::new()).unwrap(), "0000");
    let existing = vec!["0".to_string(), "3".to_string(), "12".to_string()];
    assert_eq!(next_dir_name(&existing).unwrap(), "000d");
    let existing = vec!["65535".to_string()];
    assert_eq!(next_dir_name(&existing).unwrap(), "10000");
    let bad = vec!["0".to_string(), "abc".to_string()];
    assert_eq!(next_dir_name(&bad).unwrap_err(), PathError::InvalidReportDirName);
    let empty = vec![String::new()];
    assert_eq!(next_dir_name(&empty).unwrap_err(), PathError::InvalidReportDirName);
}

#[test]
fn sub_writers_nest_under_their_parent() {
    let writer = ResourceWriter::from_dir("reports/additional_data".to_string());
    let sub = writer.sub_writer("query_throughput");
    assert_eq!(sub.out_dir, "reports/additional_data/query_throughput");
    let deeper = sub.sub_writer("16-100_10-22Pf-5-10");
    assert_eq!(
        deeper.out_dir,
        "reports/additional_data/query_throughput/16-100_10-22Pf-5-10"
    );
}

#[test]
fn ingestion_batches_cover_every_document_once() {
    assert_eq!(
        ingestion_batch_bounds(250, 100),
        vec![(0, 100), (100, 200), (200, 250)]
    );
    assert_eq!(ingestion_batch_bounds(0, 100), Vec::new());
    assert_eq!(ingestion_batch_bounds(100, 100), vec![(0, 100)]);
}
