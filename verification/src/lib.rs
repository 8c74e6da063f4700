//! Extraction of typed supplier records from rows of spreadsheet cells:
//! a header resolver, a per-row validator and coercer, a deduplicating
//! aggregator with run counters, and an output builder, together with a
//! few small standalone sequence utilities.

pub mod cells;
pub mod difference;
pub mod extract;
pub mod header;
pub mod liquids;
pub mod numfmt;
pub mod pipeline;
pub mod store;
pub mod strutil;
pub mod words;
