//! Verified core of a source-line inspection tool.
//!
//! The library classifies the lines of a source file as blank, comment or
//! code according to a per-language comment grammar (including block
//! comments that continue across lines), searches files for a literal
//! pattern or for TODO markers, folds per-file statistics into aggregate
//! totals, and models the interactive result navigator as a pure state
//! machine.  File reading, directory traversal, parallel fan-out over
//! files, terminal handling and table rendering are left to the
//! surrounding application.

pub mod entry_point;
pub mod file_handler;
pub mod file_supplier;
pub mod languages_mapping;
pub mod search;
pub mod search_print;
pub mod text;
