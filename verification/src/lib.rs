//! An export pipeline for a Label Studio instance: it resolves configured
//! project names against the remote catalog, reads each project's task
//! export, attaches the predictions fetched per task, and filters each
//! task's annotation results down to the manually created ones, producing
//! one normalized record tree per project.
//!
//! The remote payloads are duck typed: the same logical time offset
//! arrives as a JSON number in annotations and as a digit string in
//! predictions, and per-row problems in the catalog are tolerated while
//! top-level shape problems abort the run. Those rules are what this
//! library pins down: every parser, the filter, the resolver and the
//! assembly carry contracts over a model of the JSON documents, and the
//! laws the pipeline promises (only manual results survive, filtering is
//! idempotent, both offset encodings normalize alike, unmatched names are
//! absent without error) are proved.
//!
//! Network transport and the process entry point live outside the
//! library; they hand parsed documents in and take records back.

pub mod assemble;
pub mod config;
pub mod error;
pub mod filter;
pub mod json;
pub mod model;
pub mod parse;
pub mod resolve;
