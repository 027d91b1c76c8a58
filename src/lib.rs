//! Ingestion and dispatch of newline-delimited order requests.
//!
//! The library holds the decisions of the pipeline: which source and sink a
//! run uses, how one line of text becomes a request, what the reader does with
//! each line it reads, and how the dispatch loop counts what the processor
//! reports. The threads, the channel and the I/O around them live with the
//! program that drives these machines.

mod decode;
mod dispatch;
mod endpoint;
mod ingest;
mod run;

pub use decode::{decodable, decode_line, is_json_text, LineOutcome};
pub use dispatch::{lemma_all_succeeded, successes, Dispatcher, Processor, RunMetrics};
pub use endpoint::{report, Input, Output, ReportError};
pub use ingest::{
    accepted, accepted_positions, lemma_accepted_positions, malformed_line_isolated, OrderRequest,
    ReadStep, Reader,
};
pub use run::{
    empty_input_processes_nothing, ingestion_failure_submits_nothing, order_preserved, Fatal, Phase,
    Run,
};
