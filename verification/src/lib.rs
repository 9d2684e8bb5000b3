//! Converts a Mixxx DJ library (tracks, playlists, crates, cue points and
//! beat-grid analysis read from the Mixxx database) into the Rekordbox XML
//! collection schema.
//!
//! The crate is organized as a pipeline: raw database rows (`mixxx::schema`)
//! are aggregated into a normalized domain model (`mixxx::library`), the
//! beat-grid blob is decoded (`mixxx::beats`), and the domain model is
//! projected into the Rekordbox tree schema (`rekordbox`).  Reading the
//! database and serializing the final tree are left to the surrounding
//! application; every value handed across those edges is a plain value.

/// Commandline argument values.
pub mod cli;
/// Configuration values and their sanity checks.
pub mod config;
/// The error taxonomy of the pipeline.
pub mod error;
/// All mixxx facing logic.
pub mod mixxx;
/// Rekordbox related logic.
pub mod rekordbox;
/// Exact time offsets and the text forms of numbers and dates.
pub mod text;
