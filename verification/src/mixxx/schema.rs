//! The raw row shapes read from the Mixxx database.
//!
//! These mirror the relational tables column by column, with two
//! systematic translations applied at the database edge before the rows
//! reach this crate: every REAL column that the pipeline computes with is
//! carried as an exact integer (durations in milliseconds, tempos in
//! thousandths of a beat per minute), every REAL column that is only
//! carried through is kept as its IEEE-754 bit pattern, and every
//! timestamp column already delivered parsed is carried as plain calendar
//! fields.

use vstd::prelude::*;

use crate::text::Timestamp;

verus! {

/// A raw row of the `library` table.
#[derive(Clone, Debug, PartialEq, Eq)]
pub struct Track {
    pub id: i64,
    pub artist: Option<String>,
    pub composer: String,
    pub title: Option<String>,
    pub album: Option<String>,
    pub year: Option<String>,
    pub genre: Option<String>,
    pub tracknumber: Option<String>,
    pub location: Option<i64>,
    pub comment: Option<String>,
    pub url: Option<String>,
    /// Duration in whole milliseconds.
    pub duration_ms: u64,
    pub bitrate: i64,
    pub samplerate: i64,
    pub cuepoint: Option<i64>,
    /// Tempo in thousandths of a beat per minute.
    pub bpm_milli: u64,
    pub channels: Option<i64>,
    /// Stored as text in the database; parsed during aggregation.
    pub datetime_added: String,
    pub mixxx_deleted: Option<i64>,
    pub played: Option<i64>,
    pub filetype: String,
    /// IEEE-754 bit pattern of the replay-gain column, carried through.
    pub replaygain_bits: u64,
    pub timesplayed: i64,
    pub rating: i64,
    pub key: String,
    pub beats: Option<Vec<u8>>,
    pub beats_version: Option<String>,
    /// IEEE-754 bit pattern of the replay-gain peak column.
    pub replaygain_peak_bits: u64,
    pub last_played_at: Option<Timestamp>,
    pub source_synchronized_ms: Option<i64>,
}

/// A raw row of the `track_locations` table.
#[derive(Clone, Debug, PartialEq, Eq)]
pub struct TrackLocation {
    pub id: i64,
    pub location: Option<String>,
    pub filename: Option<String>,
    pub directory: Option<String>,
}

/// A raw row of the `cues` table.
#[derive(Clone, Debug, PartialEq, Eq)]
pub struct Cue {
    pub id: i64,
    pub track_id: i64,
    pub cue_type: i64,
    /// Position in audio frames at the fixed export rate.
    pub position: i64,
    pub length: i64,
    /// Hot-cue slot; negative means unassigned.
    pub hotcue: i64,
    pub label: String,
    pub color: i64,
}

/// A raw row of the `Playlists` table.
#[derive(Clone, Debug, PartialEq, Eq)]
pub struct Playlist {
    pub id: i64,
    pub name: Option<String>,
    pub position: Option<i64>,
    pub hidden: i64,
    pub date_created: Option<Timestamp>,
    pub date_modified: Option<Timestamp>,
}

/// A raw row of the `crates` table.
#[derive(Clone, Debug, PartialEq, Eq)]
pub struct Crate {
    pub id: i64,
    pub name: String,
    pub count: Option<i64>,
    pub show: Option<i64>,
}

} // verus!
