//! Encrypted data pipeline for database benchmarks: batch ingest planning,
//! encrypted query preparation, and validation and aggregation of timing results.

pub mod combine;
pub mod host;
pub mod ingest;
pub mod query;
pub mod schema;
pub mod text;
mod vecs;

pub use combine::{
    aggregate, average_memory, combine, find_parameter, load_records, num_records_of,
    validate_artifacts, ArtifactStatus, BenchmarkResult, CombineError, CombineFailure,
    CombinedResult,
};
pub use host::{
    cpu_model_from, get_postgres_version, get_rust_version, is_white_space_char, mem_size_bytes,
    mem_total_kib, parse_core_count, trim_text,
};
pub use ingest::{
    Batch, IngestConfigError, IngestOptions, IngestOptionsBuilder, IngestRun, IngestStep,
    DEFAULT_BATCH_SIZE, DEFAULT_NUM_RECORDS,
};
pub use query::{
    convert_decrypted, ConversionError, EncryptedQuery, EncryptedQueryBuilder, FromPlaintext,
    QueryBuildError, QueryRequest,
};
pub use schema::{
    ColumnConfig, ColumnType, EqlOperation, Identifier, IndexType, Plaintext, PreparedPlaintext,
    WrappedJson,
};
pub use text::artifact_path;
