//! Verified core of a PDF-translation pipeline.
//!
//! The pipeline extracts text from a PDF through an external conversion
//! program, sends each line to a remote translation service, and writes the
//! translated lines to an output file.  This crate holds the parts of that
//! pipeline that are pure computation, each with a verified contract:
//! splitting extracted text into numbered lines, merging credential sets,
//! building translation requests, extracting the translated field from a
//! service response, and rendering the output file.  The surrounding I/O
//! (process spawning, HTTP, the on-disk configuration format) lives outside
//! the library and hands it plain values.

pub mod config;
pub mod extract;
pub mod install;
pub mod json;
pub mod output;
pub mod text;
pub mod translate;
