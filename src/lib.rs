//! Local observability backend: the telemetry model, the conversion of OTLP
//! export messages into it, and the decisions of ingestion, storage and query.
pub mod text;
pub mod attributes;
pub mod span;
pub mod trace;
pub mod log;
pub mod metric;
pub mod resource;
pub mod otlp;
pub mod convert;
pub mod storage;
pub mod ingest;
pub mod query;
pub mod db_path;
pub mod assets;
pub mod cli;
