//! Host facts gathered into one formatted report.
//!
//! The library holds the parsing of raw kernel and command text into typed
//! facts, the per-platform memory accounting, the ordering of the selected
//! facts and the rendering of the final report. Reading files and running
//! commands is left to the caller, which hands the raw text in.

pub mod error;
pub mod text;
pub mod memory;
pub mod output;
pub mod cpu;
pub mod env;
pub mod music;
pub mod report;
pub mod facts;
