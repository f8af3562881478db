//! Extraction of structured invoice data from a scanned image or PDF.
//!
//! The pipeline is linear: classify the input file by its extension,
//! normalize it to JPEG image buffers, base64-encode them into a request
//! for a vision-language inference endpoint, reassemble the streamed
//! answer chunk by chunk, strip markdown fences, and decode the result
//! into the typed [`record::InvoiceInfo`] record.
//!
//! Network and file I/O stay with the caller; every decision the pipeline
//! makes (dispatch on extension, chunk accumulation, fence stripping,
//! schema checking) lives here, with its contract.

pub mod chars;
pub mod encode;
pub mod errors;
pub mod fileinfo;
pub mod images;
pub mod json;
pub mod parse;
pub mod record;
pub mod stream;
