//! The full representation of a Mixxx library in a clean and organized
//! structure: the normalized, vendor-neutral domain model that the
//! aggregator builds once per run and the projector consumes.

use vstd::prelude::*;

use crate::mixxx::beats::BeatGrid;
use crate::mixxx::beats::DecodeError;
use crate::mixxx::beats::MAX_MILLI_BPM;
use crate::mixxx::beats::beatgrid_start;
use crate::mixxx::beats::corrected_num;
use crate::mixxx::beats::decode_beat_grid;
use crate::mixxx::beats::spec_decode_beat_grid;
use crate::mixxx::schema::Cue;
use crate::text::Seconds;
use crate::text::Timestamp;

verus! {

/// The whole normalized library: tracks keyed by identifier, playlists and
/// crates as ordered lists of track references.
#[derive(Clone, Debug, PartialEq, Eq)]
pub struct Library {
    /// The track map: sorted strictly by identifier, which makes the
    /// identifier order the canonical iteration order.
    pub tracks: Vec<Track>,
    pub playlists: Vec<Playlist>,
    pub crates: Vec<Crate>,
}

/// Strictly increasing track identifiers: each identifier appears at most
/// once and iteration order is identifier order.
pub open spec fn tracks_sorted(ts: Seq<Track>) -> bool {
    forall|i: int, j: int| 0 <= i < j < ts.len() ==> ts[i].id < ts[j].id
}

impl Library {
    /// The track list is a map: sorted strictly by identifier.
    pub open spec fn wf(self) -> bool {
        tracks_sorted(self.tracks@)
    }
}

/// A normalized track.
#[derive(Clone, Debug, PartialEq, Eq)]
pub struct Track {
    pub id: usize,
    pub artist: String,
    pub composer: String,
    pub title: String,
    pub album: Option<String>,
    pub year: String,
    pub genre: Option<String>,
    pub tracknumber: Option<String>,
    pub filetype: String,
    pub comment: Option<String>,
    pub url: Option<String>,
    pub location: TrackLocation,
    pub technical_info: TrackTechnicalInfo,
    pub metadata: TrackMetadata,
    pub cues: Vec<Cue>,
}

/// Where a track's audio file lives.  The filename and directory are kept
/// as independent source-of-truth fields: the source system stores them
/// separately and they can disagree in malformed data.
#[derive(Clone, Debug, PartialEq, Eq)]
pub struct TrackLocation {
    pub location: String,
    pub filename: String,
    pub directory: String,
}

/// Technical audio properties of a track.
#[derive(Clone, Debug, PartialEq, Eq)]
pub struct TrackTechnicalInfo {
    /// Duration in whole milliseconds.
    pub duration_ms: u64,
    pub bitrate: i64,
    pub samplerate: i64,
    /// Tempo in thousandths of a beat per minute; must be positive for any
    /// beat-length computation.
    pub bpm_milli: u64,
    /// The raw beat-grid blob, if the track was analyzed.
    pub beats: Option<Vec<u8>>,
    pub beats_version: Option<String>,
    pub key: String,
    /// IEEE-754 bit pattern of the stored replay gain.
    pub replaygain_bits: u64,
    /// IEEE-754 bit pattern of the stored replay-gain peak.
    pub replaygain_peak_bits: u64,
    pub source_synchronized_ms: Option<i64>,
}

/// Whether the track's own sample rate can serve as the frame-to-seconds
/// divisor of the beat-grid correction.
pub open spec fn valid_divisor(sr: int) -> bool {
    1 <= sr <= 0xFFFF_FFFF
}

/// Whether a tempo in thousandths of a beat per minute admits a beat
/// length.
pub open spec fn valid_milli_bpm(m: int) -> bool {
    1 <= m <= MAX_MILLI_BPM
}

/// The first frame position carried by a decoded beat-grid, if any.
pub open spec fn spec_first_frame(g: BeatGrid) -> Option<i32> {
    match g.first_beat {
        None => None,
        Some(b) => b.frame_position,
    }
}

/// The corrected first-beat offset as a [`Seconds`] value.
pub open spec fn spec_beatgrid_seconds(f: int, sr: int, m: int) -> Seconds {
    Seconds { num: corrected_num(f, sr, m) as i64, den: (sr * m) as u64 }
}

impl TrackTechnicalInfo {
    /// What [`TrackTechnicalInfo::get_start_of_beatgrid`] returns, short of
    /// the decode error: `None` without a blob, without a first-beat
    /// record, without a frame position, or when the sample rate or tempo
    /// makes the beat arithmetic undefined.
    pub open spec fn spec_start_of_beatgrid(self, g: BeatGrid) -> Option<Seconds> {
        match spec_first_frame(g) {
            None => None,
            Some(f) => if valid_divisor(self.samplerate as int) && valid_milli_bpm(
                self.bpm_milli as int,
            ) {
                Some(
                    spec_beatgrid_seconds(f as int, self.samplerate as int, self.bpm_milli as int),
                )
            } else {
                None
            },
        }
    }

    /// Decodes the beat-grid blob and corrects the stored first-beat frame
    /// position into a vendor-neutral time offset in seconds.
    ///
    /// An absent blob, an absent first-beat record and an absent frame
    /// position all yield `None`.  A malformed blob is an error.  A tempo
    /// or sample rate on which the beat arithmetic is undefined falls back
    /// to `None` rather than propagating an unusable offset into the
    /// target schema.
    ///
    /// The divisor of the frame-to-seconds conversion is the track's own
    /// stored sample rate here, matching the later revisions of the stored
    /// format; the older revisions fixed it at the cue rate instead.  The
    /// divisor is a plain parameter of the underlying [`beatgrid_start`],
    /// so a caller following the legacy variant passes
    /// `crate::mixxx::helper::CUE_POSITION_RATE` there; cue positions
    /// always use that fixed rate.
    pub fn get_start_of_beatgrid(&self) -> (r: Result<Option<Seconds>, DecodeError>)
        ensures
            (match r {
                Ok(Some(s)) => s.wf(),
                _ => true,
            }),
            match self.beats {
                None => r == Ok::<Option<Seconds>, DecodeError>(None),
                Some(ref bytes) => match spec_decode_beat_grid(bytes@) {
                    None => r is Err,
                    Some(g) => r == Ok::<Option<Seconds>, DecodeError>(
                        self.spec_start_of_beatgrid(g),
                    ),
                },
            },
    {
        match &self.beats {
            None => Ok(None),
            Some(bytes) => {
                let grid = match decode_beat_grid(bytes.as_slice()) {
                    Ok(g) => g,
                    Err(e) => {
                        return Err(e);
                    },
                };
                let frame = match grid.first_beat {
                    None => {
                        return Ok(None);
                    },
                    Some(beat) => match beat.frame_position {
                        None => {
                            return Ok(None);
                        },
                        Some(f) => f,
                    },
                };
                if self.samplerate >= 1 && self.samplerate <= 0xFFFF_FFFF && self.bpm_milli >= 1
                    && self.bpm_milli <= MAX_MILLI_BPM {
                    match beatgrid_start(frame, self.samplerate as u32, self.bpm_milli) {
                        Ok(s) => Ok(Some(s)),
                        Err(_) => Ok(None),
                    }
                } else {
                    Ok(None)
                }
            },
        }
    }
}

/// Usage metadata of a track.
#[derive(Clone, Debug, PartialEq, Eq)]
pub struct TrackMetadata {
    /// Star rating, nominally 0 to 5; out-of-range stored values are
    /// clamped at projection, not rejected.
    pub rating: i64,
    /// True exactly when the underlying play counter is positive.
    pub played: bool,
    pub timesplayed: i64,
    /// True exactly when the underlying delete counter is positive.
    pub deleted: bool,
    pub datetime_added: Timestamp,
    pub last_played_at: Option<Timestamp>,
}

/// A normalized playlist: an ordered list of track references.
#[derive(Clone, Debug, PartialEq, Eq)]
pub struct Playlist {
    pub id: usize,
    pub name: String,
    pub position: usize,
    /// Hidden playlists are excluded from the target projection.
    pub hidden: bool,
    pub date_created: Timestamp,
    pub date_modified: Timestamp,
    pub track_ids: Vec<usize>,
}

/// A normalized crate: a named grouping of tracks, in storage order.
#[derive(Clone, Debug, PartialEq, Eq)]
pub struct Crate {
    pub id: usize,
    pub name: String,
    pub count: i64,
    /// Hidden crates are excluded from the target projection.
    pub hidden: bool,
    pub track_ids: Vec<usize>,
}

} // verus!
