//! Bibliographic renaming: batches document samples for metadata inference,
//! pairs the answers back to their documents by position, and renders the
//! destination file name of each document from a format template.

#![allow(unused_imports)]

pub mod biblio;
pub mod config;
pub mod constants;
pub mod inference;
pub mod pipeline;
pub mod render;
pub mod sampler;
pub mod text;

pub use crate::biblio::{BiblioError, BiblioResponse};
pub use crate::config::{load_config, Config};
pub use crate::inference::{build_api_request, connection_failure, response_text, ApiRequest};
pub use crate::pipeline::{
    batch_all, rename_outcome, Accumulator, Batch, Collected, Outcome, Reason, Resolution, Retry,
    Step,
};
pub use crate::render::{
    format_authors, format_filename, process_format_string, sanitize_filename, RenderContext,
};
pub use crate::sampler::{document_or_failure, text_or_failure};
