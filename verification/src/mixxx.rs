//! All mixxx facing logic.

/// The logic that cleans the raw rows and brings them into the normalized
/// domain model.
pub mod aggregator;
/// The beat-grid blob codec and the first-beat position correction.
pub mod beats;
/// Some helper methods to work with mixxx's data structures.
pub mod helper;
/// The full representation of a Mixxx library in a clean and organized
/// structure.
pub mod library;
/// The raw schema structs mirroring the database tables.
pub mod schema;
