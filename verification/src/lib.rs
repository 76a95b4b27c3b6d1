//! Verified core of a PDF toolkit: document metadata and writer
//! configuration, text wrapping, font width arrays, streaming-table rows,
//! CMS signer verification, separation-plate ink bookkeeping and the
//! value-level logic behind the C interface.
pub mod error;
pub mod ffi;
pub mod object;
pub mod regression;
pub mod rendering;
pub mod signatures;
pub mod text;
pub mod writer;
