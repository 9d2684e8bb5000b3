//! The logic that cleans the raw rows and brings them into the normalized
//! domain model.
//!
//! The surrounding application reads the rows from the database and hands
//! them over here joined per parent: each track row together with its
//! location row and cue rows, each playlist and crate row together with
//! its ordered member identifiers.  Aggregation is fail-fast: the first
//! offending row aborts the run, because a partially populated library
//! would silently drop data in the eventual export.

use vstd::prelude::*;

use chrono::Datelike;
use chrono::Timelike;

use crate::error::ExportError;
use crate::mixxx::library::Crate;
use crate::mixxx::library::Library;
use crate::mixxx::library::Playlist;
use crate::mixxx::library::Track;
use crate::mixxx::library::TrackLocation;
use crate::mixxx::library::TrackMetadata;
use crate::mixxx::library::TrackTechnicalInfo;
use crate::mixxx::library::tracks_sorted;
use crate::mixxx::schema;
use crate::mixxx::beats::spec_decode_beat_grid;
use crate::text::Timestamp;

verus! {

/// The calendar fields (year, month, day, hour, minute, second) that
/// chrono reads out of an RFC 3339 timestamp, taken in the timestamp's own
/// offset; `None` exactly when chrono rejects the text.
pub uninterp spec fn rfc3339_local_of(s: Seq<char>) -> Option<(int, int, int, int, int, int)>;

/// Relies on chrono's `DateTime::parse_from_rfc3339`, whose result is a
/// function of the text alone; `naive_local` and the field accessors only
/// read the parsed value back out.  A parsed timestamp has a four-digit
/// year, a month in 1..=12, a day in 1..=31 checked against the calendar,
/// and a time of day with seconds at most 59.
#[verifier::external_body]
fn parse_rfc3339_local(s: &str) -> (r: Result<Timestamp, ()>)
    ensures
        r is Ok <==> rfc3339_local_of(s@) is Some,
        r matches Ok(t) ==> {
            let p = rfc3339_local_of(s@).unwrap();
            t.year as int == p.0 && t.month as int == p.1 && t.day as int == p.2 && t.hour as int
                == p.3 && t.minute as int == p.4 && t.second as int == p.5 && t.wf()
        },
{
    match chrono::DateTime::parse_from_rfc3339(s) {
        Ok(dt) => {
            let n = dt.naive_local();
            Ok(Timestamp {
                year: n.year() as u16,
                month: n.month() as u8,
                day: n.day() as u8,
                hour: n.hour() as u8,
                minute: n.minute() as u8,
                second: n.second() as u8,
            })
        },
        Err(_) => Err(()),
    }
}

/// A track row joined with its location row and its cue rows.
#[derive(Clone, Debug, PartialEq, Eq)]
pub struct RawTrackBundle {
    pub track: schema::Track,
    /// `None` when the track has no location row.
    pub location: Option<schema::TrackLocation>,
    pub cues: Vec<schema::Cue>,
}

/// A playlist row joined with its member track identifiers, ordered by
/// their stored position.
#[derive(Clone, Debug, PartialEq, Eq)]
pub struct RawPlaylistBundle {
    pub playlist: schema::Playlist,
    pub track_ids: Vec<i64>,
}

/// A crate row joined with its member track identifiers, in storage order.
#[derive(Clone, Debug, PartialEq, Eq)]
pub struct RawCrateBundle {
    pub mcrate: schema::Crate,
    pub track_ids: Vec<i64>,
}

/// The view of an optional text column defaulted to empty.
pub open spec fn opt_str_or_empty(o: Option<String>) -> Seq<char> {
    match o {
        Some(s) => s@,
        None => Seq::empty(),
    }
}

/// Whether a joined location row is present with all three columns.
pub open spec fn location_complete(l: Option<schema::TrackLocation>) -> bool {
    match l {
        Some(loc) => loc.location is Some && loc.filename is Some && loc.directory is Some,
        None => false,
    }
}

/// Whether an identifier column fits the target identifier width.
pub open spec fn id_fits(id: int) -> bool {
    0 <= id <= usize::MAX as int
}

/// The error a track bundle produces, if any, in the order the checks run:
/// the mandatory location, the added-at timestamp, the identifier width,
/// and the beat-grid blob.
#[verifier::opaque]
pub open spec fn spec_track_bundle_err(b: RawTrackBundle) -> Option<ExportError> {
    if !location_complete(b.location) {
        Some(ExportError::MissingLocation { track_id: b.track.id })
    } else if rfc3339_local_of(b.track.datetime_added@) is None {
        Some(ExportError::DatetimeParse { track_id: b.track.id, text: b.track.datetime_added })
    } else if !id_fits(b.track.id as int) {
        Some(ExportError::IdentifierOverflow { id: b.track.id })
    } else if match b.track.beats {
        Some(ref bytes) => spec_decode_beat_grid(bytes@) is None,
        None => false,
    } {
        Some(ExportError::BeatGridDecode { track_id: b.track.id })
    } else {
        None
    }
}

/// How a normalized track relates to the bundle it was built from: plain
/// columns carried over, optional text defaulted to empty, the played and
/// deleted flags derived from their counters, and the added-at timestamp
/// parsed from its text.
#[verifier::opaque]
pub open spec fn track_from_bundle(t: Track, b: RawTrackBundle) -> bool {
    &&& t.id as int == b.track.id as int
    &&& t.artist@ == opt_str_or_empty(b.track.artist)
    &&& t.composer == b.track.composer
    &&& (match b.track.title {
        Some(ti) => t.title == ti,
        None => false,
    })
    &&& t.album == b.track.album
    &&& t.year@ == opt_str_or_empty(b.track.year)
    &&& t.genre == b.track.genre
    &&& t.tracknumber == b.track.tracknumber
    &&& t.filetype == b.track.filetype
    &&& t.comment == b.track.comment
    &&& t.url == b.track.url
    &&& (match b.location {
        Some(loc) => {
            &&& (match loc.location {
                Some(x) => t.location.location == x,
                None => false,
            })
            &&& (match loc.filename {
                Some(x) => t.location.filename == x,
                None => false,
            })
            &&& (match loc.directory {
                Some(x) => t.location.directory == x,
                None => false,
            })
        },
        None => false,
    })
    &&& t.technical_info.duration_ms == b.track.duration_ms
    &&& t.technical_info.bitrate == b.track.bitrate
    &&& t.technical_info.samplerate == b.track.samplerate
    &&& t.technical_info.bpm_milli == b.track.bpm_milli
    &&& t.technical_info.beats == b.track.beats
    &&& t.technical_info.beats_version == b.track.beats_version
    &&& t.technical_info.key == b.track.key
    &&& t.technical_info.replaygain_bits == b.track.replaygain_bits
    &&& t.technical_info.replaygain_peak_bits == b.track.replaygain_peak_bits
    &&& t.technical_info.source_synchronized_ms == b.track.source_synchronized_ms
    &&& t.metadata.rating == b.track.rating
    &&& t.metadata.played == (match b.track.played {
        Some(p) => p > 0,
        None => false,
    })
    &&& t.metadata.timesplayed == b.track.timesplayed
    &&& t.metadata.deleted == (match b.track.mixxx_deleted {
        Some(d) => d > 0,
        None => false,
    })
    &&& (match rfc3339_local_of(b.track.datetime_added@) {
        Some(p) => t.metadata.datetime_added.year as int == p.0 && t.metadata.datetime_added.month
            as int == p.1 && t.metadata.datetime_added.day as int == p.2
            && t.metadata.datetime_added.hour as int == p.3 && t.metadata.datetime_added.minute
            as int == p.4 && t.metadata.datetime_added.second as int == p.5,
        None => false,
    })
    &&& t.metadata.datetime_added.wf()
    &&& t.metadata.last_played_at == b.track.last_played_at
    &&& t.cues@ == b.cues@
}

/// Whether some track in `ts` carries the identifier `id`.
pub open spec fn contains_id(ts: Seq<Track>, id: int) -> bool {
    exists|j: int| 0 <= j < ts.len() && ts[j].id as int == id
}

/// Whether the track identifiers of `bs` are pairwise distinct.
pub open spec fn bundle_ids_distinct(bs: Seq<RawTrackBundle>) -> bool {
    forall|i: int, j: int| 0 <= i < j < bs.len() ==> bs[i].track.id != bs[j].track.id
}

/// No track bundle produces an error.
pub open spec fn track_bundles_ok(bs: Seq<RawTrackBundle>) -> bool {
    forall|i: int| 0 <= i < bs.len() ==> spec_track_bundle_err(#[trigger] bs[i]) is None
}

/// How a built track map relates to its bundles: sorted strictly by
/// identifier, every entry built from some bundle, every bundle's
/// identifier present, and one entry per bundle when identifiers are
/// distinct.
pub open spec fn tracks_result_ok(ts: Seq<Track>, bs: Seq<RawTrackBundle>) -> bool {
    &&& tracks_sorted(ts)
    &&& forall|j: int|
        0 <= j < ts.len() ==> exists|i: int|
            0 <= i < bs.len() && track_from_bundle(#[trigger] ts[j], #[trigger] bs[i])
    &&& forall|i: int|
        0 <= i < bs.len() ==> contains_id(ts, #[trigger] bs[i].track.id as int)
    &&& (bundle_ids_distinct(bs) ==> ts.len() == bs.len())
}

/// `e` is the error of the first offending track bundle.
pub open spec fn tracks_first_err(bs: Seq<RawTrackBundle>, e: ExportError) -> bool {
    exists|i: int|
        0 <= i < bs.len() && spec_track_bundle_err(#[trigger] bs[i]) == Some(e) && (forall|j: int|
            0 <= j < i ==> spec_track_bundle_err(#[trigger] bs[j]) is None)
}

/// Inserts `t` into the identifier-sorted track map `ts`, replacing an
/// entry that already carries the same identifier.
fn insert_track(ts: &mut Vec<Track>, t: Track)
    requires
        tracks_sorted(old(ts)@),
    ensures
        tracks_sorted(final(ts)@),
        forall|j: int|
            0 <= j < final(ts)@.len() ==> final(ts)@[j] == t || exists|j0: int|
                0 <= j0 < old(ts)@.len() && final(ts)@[j] == old(ts)@[j0],
        exists|j: int| 0 <= j < final(ts)@.len() && final(ts)@[j] == t,
        forall|j0: int|
            0 <= j0 < old(ts)@.len() ==> contains_id(final(ts)@, #[trigger] old(ts)@[j0].id as int),
        !contains_id(old(ts)@, t.id as int) ==> final(ts)@.len() == old(ts)@.len() + 1,
        contains_id(old(ts)@, t.id as int) ==> final(ts)@.len() == old(ts)@.len(),
{
    let mut idx: usize = 0;
    let n = ts.len();
    while idx < n && ts[idx].id < t.id
        invariant
            idx <= n,
            n == ts@.len(),
            tracks_sorted(ts@),
            ts@ == old(ts)@,
            forall|j: int| 0 <= j < idx ==> ts@[j].id < t.id,
        decreases n - idx,
    {
        idx += 1;
    }
    if idx < ts.len() && ts[idx].id == t.id {
        ts[idx] = t;
        proof {
            assert(final(ts)@ =~= old(ts)@.update(idx as int, t));
            assert(forall|j0: int|
                0 <= j0 < old(ts)@.len() ==> contains_id(
                    final(ts)@,
                    #[trigger] old(ts)@[j0].id as int,
                )) by {
                assert forall|j0: int| 0 <= j0 < old(ts)@.len() implies contains_id(
                    final(ts)@,
                    #[trigger] old(ts)@[j0].id as int,
                ) by {
                    assert(final(ts)@[j0].id == old(ts)@[j0].id);
                }
            }
        }
    } else {
        ts.insert(idx, t);
        proof {
            assert(!contains_id(old(ts)@, t.id as int)) by {
                if contains_id(old(ts)@, t.id as int) {
                    let j = choose|j: int|
                        0 <= j < old(ts)@.len() && old(ts)@[j].id as int == t.id as int;
                    if j < idx {
                        assert(old(ts)@[j].id < t.id);
                    } else {
                        assert(old(ts)@[idx as int].id != t.id);
                        if j > idx {
                            assert(old(ts)@[idx as int].id < old(ts)@[j].id);
                        }
                    }
                }
            }
            assert forall|j0: int| 0 <= j0 < old(ts)@.len() implies contains_id(
                final(ts)@,
                #[trigger] old(ts)@[j0].id as int,
            ) by {
                if j0 < idx {
                    assert(final(ts)@[j0] == old(ts)@[j0]);
                } else {
                    assert(final(ts)@[j0 + 1] == old(ts)@[j0]);
                }
            }
            assert(exists|j: int| 0 <= j < final(ts)@.len() && final(ts)@[j] == t) by {
                assert(final(ts)@[idx as int] == t);
            }
        }
    }
}

/// Converts one joined bundle into a normalized track, or yields the
/// bundle's error.
fn convert_bundle(b: RawTrackBundle) -> (r: Result<Track, ExportError>)
    requires
        b.track.title is Some,
    ensures
        match r {
            Ok(t) => spec_track_bundle_err(b) is None && track_from_bundle(t, b),
            Err(e) => spec_track_bundle_err(b) == Some(e),
        },
{
    proof {
        reveal(spec_track_bundle_err);
        reveal(track_from_bundle);
    }
    let ghost b0 = b;
    let raw_id: i64 = b.track.id;
    let location = match b.location {
        None => {
            return Err(ExportError::MissingLocation { track_id: raw_id });
        },
        Some(loc) => {
            match (loc.location, loc.filename, loc.directory) {
                (Some(location), Some(filename), Some(directory)) => TrackLocation {
                    location,
                    filename,
                    directory,
                },
                _ => {
                    return Err(ExportError::MissingLocation { track_id: raw_id });
                },
            }
        },
    };
    let datetime_added = match parse_rfc3339_local(b.track.datetime_added.as_str()) {
        Ok(t) => t,
        Err(_) => {
            return Err(
                ExportError::DatetimeParse { track_id: raw_id, text: b.track.datetime_added },
            );
        },
    };
    if raw_id < 0 || (raw_id as u64) > (usize::MAX as u64) {
        return Err(ExportError::IdentifierOverflow { id: raw_id });
    }
    let technical_info = TrackTechnicalInfo {
        duration_ms: b.track.duration_ms,
        bitrate: b.track.bitrate,
        samplerate: b.track.samplerate,
        bpm_milli: b.track.bpm_milli,
        beats: b.track.beats,
        beats_version: b.track.beats_version,
        key: b.track.key,
        replaygain_bits: b.track.replaygain_bits,
        replaygain_peak_bits: b.track.replaygain_peak_bits,
        source_synchronized_ms: b.track.source_synchronized_ms,
    };
    match technical_info.get_start_of_beatgrid() {
        Ok(_) => {},
        Err(_) => {
            return Err(ExportError::BeatGridDecode { track_id: raw_id });
        },
    }
    let metadata = TrackMetadata {
        rating: b.track.rating,
        played: match b.track.played {
            Some(p) => p > 0,
            None => false,
        },
        timesplayed: b.track.timesplayed,
        deleted: match b.track.mixxx_deleted {
            Some(d) => d > 0,
            None => false,
        },
        datetime_added,
        last_played_at: b.track.last_played_at,
    };
    let title = match b.track.title {
        Some(t) => t,
        None => vstd::pervasive::unreached(),
    };
    let track = Track {
        id: raw_id as usize,
        artist: match b.track.artist {
            Some(a) => a,
            None => String::new(),
        },
        composer: b.track.composer,
        title,
        album: b.track.album,
        year: match b.track.year {
            Some(y) => y,
            None => String::new(),
        },
        genre: b.track.genre,
        tracknumber: b.track.tracknumber,
        filetype: b.track.filetype,
        comment: b.track.comment,
        url: b.track.url,
        location,
        technical_info,
        metadata,
        cues: b.cues,
    };
    proof {
        assert(track_from_bundle(track, b0));
    }
    Ok(track)
}

/// Builds the normalized track map from the joined track bundles, sorted
/// strictly by identifier; on duplicate identifiers the later row wins.
///
/// Bundles whose title column is empty are outside this function's domain:
/// the caller must reject them first, as a title is required.
#[verifier::rlimit(100)]
#[verifier::loop_isolation(false)]
pub fn get_tracks(bundles: Vec<RawTrackBundle>) -> (r: Result<Vec<Track>, ExportError>)
    requires
        forall|i: int| 0 <= i < bundles@.len() ==> (#[trigger] bundles@[i]).track.title is Some,
    ensures
        match r {
            Ok(ts) => track_bundles_ok(bundles@) && tracks_result_ok(ts@, bundles@),
            Err(e) => tracks_first_err(bundles@, e),
        },
{
    let ghost all = bundles@;
    let mut rest = bundles;
    let mut ts: Vec<Track> = Vec::new();
    loop
        invariant
            all.len() >= rest@.len(),
            rest@ == all.skip(all.len() - rest@.len()),
            forall|i: int| 0 <= i < all.len() ==> (#[trigger] all[i]).track.title is Some,
            forall|i: int|
                0 <= i < all.len() - rest@.len() ==> spec_track_bundle_err(
                    #[trigger] all[i],
                ) is None,
            tracks_sorted(ts@),
            forall|j: int|
                0 <= j < ts@.len() ==> exists|i: int|
                    0 <= i < all.len() - rest@.len() && track_from_bundle(
                        #[trigger] ts@[j],
                        #[trigger] all[i],
                    ),
            forall|i: int|
                0 <= i < all.len() - rest@.len() ==> contains_id(
                    ts@,
                    #[trigger] all[i].track.id as int,
                ),
            bundle_ids_distinct(all.take(all.len() - rest@.len())) ==> ts@.len() == all.len()
                - rest@.len(),
        decreases rest@.len(),
    {
        if rest.len() == 0 {
            break ;
        }
        let ghost k = all.len() - rest@.len();
        let b = rest.remove(0);
        proof {
            assert(b == all[k]);
            assert(rest@ =~= all.skip(k + 1));
        }
        let track = match convert_bundle(b) {
            Ok(t) => t,
            Err(e) => {
                proof {
                    assert(spec_track_bundle_err(all[k]) == Some(e));
                    assert(tracks_first_err(all, e));
                }
                return Err(e);
            },
        };
        let ghost old_ts = ts@;
        insert_track(&mut ts, track);
        proof {
            reveal(track_from_bundle);
            assert forall|j: int| 0 <= j < ts@.len() implies exists|i: int|
                0 <= i < k + 1 && track_from_bundle(#[trigger] ts@[j], #[trigger] all[i]) by {
                if ts@[j] == track {
                    assert(track_from_bundle(ts@[j], all[k]));
                } else {
                    let j0 = choose|j0: int| 0 <= j0 < old_ts.len() && ts@[j] == old_ts[j0];
                    let i = choose|i: int|
                        0 <= i < k && track_from_bundle(old_ts[j0], #[trigger] all[i]);
                    assert(track_from_bundle(ts@[j], all[i]));
                }
            }
            assert forall|i: int| 0 <= i < k + 1 implies contains_id(
                ts@,
                #[trigger] all[i].track.id as int,
            ) by {
                if i < k {
                    let j0 = choose|j0: int|
                        0 <= j0 < old_ts.len() && old_ts[j0].id as int == all[i].track.id as int;
                    assert(contains_id(ts@, old_ts[j0].id as int));
                } else {
                    let j = choose|j: int| 0 <= j < ts@.len() && ts@[j] == track;
                    assert(ts@[j].id as int == all[k].track.id as int);
                }
            }
            if bundle_ids_distinct(all.take(k + 1)) {
                assert(bundle_ids_distinct(all.take(k)));
                assert(old_ts.len() == k);
                assert(!contains_id(old_ts, track.id as int)) by {
                    if contains_id(old_ts, track.id as int) {
                        let j = choose|j: int|
                            0 <= j < old_ts.len() && old_ts[j].id as int == track.id as int;
                        let i = choose|i: int|
                            0 <= i < k && track_from_bundle(old_ts[j], #[trigger] all[i]);
                        reveal(track_from_bundle);
                        assert(all.take(k + 1)[i].track.id == all.take(k + 1)[k].track.id);
                    }
                }
            }
        }
    }
    proof {
        assert(all.skip(0) =~= all);
        assert(all.take(all.len() as int) =~= all);
    }
    Ok(ts)
}

/// The first member identifier that does not fit the target width.
pub open spec fn first_bad_id(ids: Seq<i64>) -> Option<i64>
    decreases ids.len(),
{
    if ids.len() == 0 {
        None
    } else if !id_fits(ids[0] as int) {
        Some(ids[0])
    } else {
        first_bad_id(ids.drop_first())
    }
}

/// Converts member identifiers to the target width, or yields the first
/// one that does not fit.
#[verifier::loop_isolation(false)]
fn convert_ids(ids: Vec<i64>) -> (r: Result<Vec<usize>, i64>)
    ensures
        match r {
            Ok(us) => first_bad_id(ids@) is None && us@.len() == ids@.len() && forall|k: int|
                0 <= k < ids@.len() ==> #[trigger] us@[k] as int == ids@[k] as int,
            Err(x) => first_bad_id(ids@) == Some(x),
        },
{
    let mut us: Vec<usize> = Vec::new();
    let mut i: usize = 0;
    proof {
        assert(ids@.skip(0) =~= ids@);
    }
    while i < ids.len()
        invariant
            i <= ids@.len(),
            us@.len() == i,
            forall|k: int| 0 <= k < i ==> #[trigger] us@[k] as int == ids@[k] as int,
            first_bad_id(ids@) == first_bad_id(ids@.skip(i as int)),
        decreases ids@.len() - i,
    {
        let x = ids[i];
        proof {
            assert(ids@.skip(i as int)[0] == x);
            assert(ids@.skip(i as int).drop_first() =~= ids@.skip(i + 1));
        }
        if x < 0 || (x as u64) > (usize::MAX as u64) {
            return Err(x);
        }
        us.push(x as usize);
        i += 1;
    }
    proof {
        assert(first_bad_id(ids@.skip(ids@.len() as int)) is None);
    }
    Ok(us)
}

/// The error a playlist bundle produces, if any: its own identifier first,
/// then the first member identifier that does not fit.
#[verifier::opaque]
pub open spec fn spec_playlist_bundle_err(b: RawPlaylistBundle) -> Option<ExportError> {
    if !id_fits(b.playlist.id as int) {
        Some(ExportError::IdentifierOverflow { id: b.playlist.id })
    } else {
        match first_bad_id(b.track_ids@) {
            Some(x) => Some(ExportError::IdentifierOverflow { id: x }),
            None => None,
        }
    }
}

/// How a normalized playlist relates to the bundle it was built from.
#[verifier::opaque]
pub open spec fn playlist_from_bundle(p: Playlist, b: RawPlaylistBundle) -> bool {
    &&& p.id as int == b.playlist.id as int
    &&& (match b.playlist.name {
        Some(n) => p.name == n,
        None => false,
    })
    &&& (match b.playlist.position {
        Some(x) => p.position as int == x as int,
        None => false,
    })
    &&& p.hidden == (b.playlist.hidden > 0)
    &&& (match b.playlist.date_created {
        Some(d) => p.date_created == d,
        None => false,
    })
    &&& (match b.playlist.date_modified {
        Some(d) => p.date_modified == d,
        None => false,
    })
    &&& p.track_ids@.len() == b.track_ids@.len()
    &&& forall|k: int|
        0 <= k < b.track_ids@.len() ==> #[trigger] p.track_ids@[k] as int == b.track_ids@[k] as int
}

/// No playlist bundle produces an error.
pub open spec fn playlist_bundles_ok(bs: Seq<RawPlaylistBundle>) -> bool {
    forall|i: int| 0 <= i < bs.len() ==> spec_playlist_bundle_err(#[trigger] bs[i]) is None
}

/// `e` is the error of the first offending playlist bundle.
pub open spec fn playlists_first_err(bs: Seq<RawPlaylistBundle>, e: ExportError) -> bool {
    exists|i: int|
        0 <= i < bs.len() && spec_playlist_bundle_err(#[trigger] bs[i]) == Some(e) && (forall|
            j: int,
        |
            0 <= j < i ==> spec_playlist_bundle_err(#[trigger] bs[j]) is None)
}

/// The required shape of the raw playlist rows: every column the domain
/// model keeps must be present, and the stored position non-negative and
/// in width; the original treats their absence as unrecoverable.
pub open spec fn playlist_bundle_complete(b: RawPlaylistBundle) -> bool {
    &&& b.playlist.name is Some
    &&& (match b.playlist.position {
        Some(x) => 0 <= x <= usize::MAX as int,
        None => false,
    })
    &&& b.playlist.date_created is Some
    &&& b.playlist.date_modified is Some
}

/// Builds the normalized playlists, one per bundle, in bundle order,
/// members ordered as handed over (by stored position).
#[verifier::rlimit(100)]
#[verifier::loop_isolation(false)]
pub fn read_playlists(bundles: Vec<RawPlaylistBundle>) -> (r: Result<Vec<Playlist>, ExportError>)
    requires
        forall|i: int| 0 <= i < bundles@.len() ==> playlist_bundle_complete(#[trigger] bundles@[i]),
    ensures
        match r {
            Ok(ps) => playlist_bundles_ok(bundles@) && ps@.len() == bundles@.len() && (forall|
                i: int,
            |
                0 <= i < bundles@.len() ==> playlist_from_bundle(
                    #[trigger] ps@[i],
                    #[trigger] bundles@[i],
                )),
            Err(e) => playlists_first_err(bundles@, e),
        },
{
    let ghost all = bundles@;
    let mut rest = bundles;
    let mut ps: Vec<Playlist> = Vec::new();
    loop
        invariant
            all.len() >= rest@.len(),
            rest@ == all.skip(all.len() - rest@.len()),
            ps@.len() == all.len() - rest@.len(),
            forall|i: int|
                0 <= i < ps@.len() ==> spec_playlist_bundle_err(#[trigger] all[i]) is None,
            forall|i: int|
                0 <= i < ps@.len() ==> playlist_from_bundle(#[trigger] ps@[i], #[trigger] all[i]),
        decreases rest@.len(),
    {
        if rest.len() == 0 {
            break ;
        }
        let ghost k = all.len() - rest@.len();
        let b = rest.remove(0);
        proof {
            assert(b == all[k]);
            assert(rest@ =~= all.skip(k + 1));
        }
        let raw_id: i64 = b.playlist.id;
        if raw_id < 0 || (raw_id as u64) > (usize::MAX as u64) {
            let e = ExportError::IdentifierOverflow { id: raw_id };
            proof {
                reveal(spec_playlist_bundle_err);
                assert(spec_playlist_bundle_err(all[k]) == Some(e));
                assert(playlists_first_err(all, e));
            }
            return Err(e);
        }
        let track_ids = match convert_ids(b.track_ids) {
            Ok(us) => us,
            Err(x) => {
                let e = ExportError::IdentifierOverflow { id: x };
                proof {
                    reveal(spec_playlist_bundle_err);
                    assert(spec_playlist_bundle_err(all[k]) == Some(e));
                    assert(playlists_first_err(all, e));
                }
                return Err(e);
            },
        };
        let name = match b.playlist.name {
            Some(n) => n,
            None => vstd::pervasive::unreached(),
        };
        let position: usize = match b.playlist.position {
            Some(x) => x as usize,
            None => vstd::pervasive::unreached(),
        };
        let date_created = match b.playlist.date_created {
            Some(d) => d,
            None => vstd::pervasive::unreached(),
        };
        let date_modified = match b.playlist.date_modified {
            Some(d) => d,
            None => vstd::pervasive::unreached(),
        };
        let playlist = Playlist {
            id: raw_id as usize,
            name,
            position,
            hidden: b.playlist.hidden > 0,
            date_created,
            date_modified,
            track_ids,
        };
        proof {
            reveal(spec_playlist_bundle_err);
            reveal(playlist_from_bundle);
            assert(spec_playlist_bundle_err(all[k]) is None);
            assert(playlist_from_bundle(playlist, all[k]));
        }
        ps.push(playlist);
    }
    Ok(ps)
}

/// The error a crate bundle produces, if any: its own identifier first,
/// then the first member identifier that does not fit.
#[verifier::opaque]
pub open spec fn spec_crate_bundle_err(b: RawCrateBundle) -> Option<ExportError> {
    if !id_fits(b.mcrate.id as int) {
        Some(ExportError::IdentifierOverflow { id: b.mcrate.id })
    } else {
        match first_bad_id(b.track_ids@) {
            Some(x) => Some(ExportError::IdentifierOverflow { id: x }),
            None => None,
        }
    }
}

/// How a normalized crate relates to the bundle it was built from; a crate
/// is hidden exactly when its show column is not positive.
#[verifier::opaque]
pub open spec fn crate_from_bundle(c: Crate, b: RawCrateBundle) -> bool {
    &&& c.id as int == b.mcrate.id as int
    &&& c.name == b.mcrate.name
    &&& (match b.mcrate.count {
        Some(x) => c.count == x,
        None => false,
    })
    &&& (match b.mcrate.show {
        Some(x) => c.hidden == !(x > 0),
        None => false,
    })
    &&& c.track_ids@.len() == b.track_ids@.len()
    &&& forall|k: int|
        0 <= k < b.track_ids@.len() ==> #[trigger] c.track_ids@[k] as int == b.track_ids@[k] as int
}

/// No crate bundle produces an error.
pub open spec fn crate_bundles_ok(bs: Seq<RawCrateBundle>) -> bool {
    forall|i: int| 0 <= i < bs.len() ==> spec_crate_bundle_err(#[trigger] bs[i]) is None
}

/// `e` is the error of the first offending crate bundle.
pub open spec fn crates_first_err(bs: Seq<RawCrateBundle>, e: ExportError) -> bool {
    exists|i: int|
        0 <= i < bs.len() && spec_crate_bundle_err(#[trigger] bs[i]) == Some(e) && (forall|j: int|
            0 <= j < i ==> spec_crate_bundle_err(#[trigger] bs[j]) is None)
}

/// The required shape of the raw crate rows.
pub open spec fn crate_bundle_complete(b: RawCrateBundle) -> bool {
    b.mcrate.count is Some && b.mcrate.show is Some
}

/// Builds the normalized crates, one per bundle, in bundle order, members
/// in storage order.
#[verifier::rlimit(100)]
#[verifier::loop_isolation(false)]
pub fn read_crates(bundles: Vec<RawCrateBundle>) -> (r: Result<Vec<Crate>, ExportError>)
    requires
        forall|i: int| 0 <= i < bundles@.len() ==> crate_bundle_complete(#[trigger] bundles@[i]),
    ensures
        match r {
            Ok(cs) => crate_bundles_ok(bundles@) && cs@.len() == bundles@.len() && (forall|i: int|
                0 <= i < bundles@.len() ==> crate_from_bundle(
                    #[trigger] cs@[i],
                    #[trigger] bundles@[i],
                )),
            Err(e) => crates_first_err(bundles@, e),
        },
{
    let ghost all = bundles@;
    let mut rest = bundles;
    let mut cs: Vec<Crate> = Vec::new();
    loop
        invariant
            all.len() >= rest@.len(),
            rest@ == all.skip(all.len() - rest@.len()),
            cs@.len() == all.len() - rest@.len(),
            forall|i: int| 0 <= i < cs@.len() ==> spec_crate_bundle_err(#[trigger] all[i]) is None,
            forall|i: int|
                0 <= i < cs@.len() ==> crate_from_bundle(#[trigger] cs@[i], #[trigger] all[i]),
        decreases rest@.len(),
    {
        if rest.len() == 0 {
            break ;
        }
        let ghost k = all.len() - rest@.len();
        let b = rest.remove(0);
        proof {
            assert(b == all[k]);
            assert(rest@ =~= all.skip(k + 1));
        }
        let raw_id: i64 = b.mcrate.id;
        if raw_id < 0 || (raw_id as u64) > (usize::MAX as u64) {
            let e = ExportError::IdentifierOverflow { id: raw_id };
            proof {
                reveal(spec_crate_bundle_err);
                assert(spec_crate_bundle_err(all[k]) == Some(e));
                assert(crates_first_err(all, e));
            }
            return Err(e);
        }
        let track_ids = match convert_ids(b.track_ids) {
            Ok(us) => us,
            Err(x) => {
                let e = ExportError::IdentifierOverflow { id: x };
                proof {
                    reveal(spec_crate_bundle_err);
                    assert(spec_crate_bundle_err(all[k]) == Some(e));
                    assert(crates_first_err(all, e));
                }
                return Err(e);
            },
        };
        let count: i64 = match b.mcrate.count {
            Some(x) => x,
            None => vstd::pervasive::unreached(),
        };
        let show: i64 = match b.mcrate.show {
            Some(x) => x,
            None => vstd::pervasive::unreached(),
        };
        let mcrate = Crate {
            id: raw_id as usize,
            name: b.mcrate.name,
            count,
            hidden: !(show > 0),
            track_ids,
        };
        proof {
            reveal(spec_crate_bundle_err);
            reveal(crate_from_bundle);
            assert(spec_crate_bundle_err(all[k]) is None);
            assert(crate_from_bundle(mcrate, all[k]));
        }
        cs.push(mcrate);
    }
    Ok(cs)
}

/// Reads the whole library out of the joined raw rows: the track map, the
/// playlists and the crates, failing fast on the first offending row, in
/// that order.
pub fn read_library(
    track_bundles: Vec<RawTrackBundle>,
    playlist_bundles: Vec<RawPlaylistBundle>,
    crate_bundles: Vec<RawCrateBundle>,
) -> (r: Result<Library, ExportError>)
    requires
        forall|i: int|
            0 <= i < track_bundles@.len() ==> (#[trigger] track_bundles@[i]).track.title is Some,
        forall|i: int|
            0 <= i < playlist_bundles@.len() ==> playlist_bundle_complete(
                #[trigger] playlist_bundles@[i],
            ),
        forall|i: int|
            0 <= i < crate_bundles@.len() ==> crate_bundle_complete(#[trigger] crate_bundles@[i]),
    ensures
        match r {
            Ok(lib) => {
                &&& lib.wf()
                &&& track_bundles_ok(track_bundles@)
                &&& tracks_result_ok(lib.tracks@, track_bundles@)
                &&& playlist_bundles_ok(playlist_bundles@)
                &&& lib.playlists@.len() == playlist_bundles@.len()
                &&& (forall|i: int|
                    0 <= i < playlist_bundles@.len() ==> playlist_from_bundle(
                        #[trigger] lib.playlists@[i],
                        #[trigger] playlist_bundles@[i],
                    ))
                &&& crate_bundles_ok(crate_bundles@)
                &&& lib.crates@.len() == crate_bundles@.len()
                &&& (forall|i: int|
                    0 <= i < crate_bundles@.len() ==> crate_from_bundle(
                        #[trigger] lib.crates@[i],
                        #[trigger] crate_bundles@[i],
                    ))
            },
            Err(e) => tracks_first_err(track_bundles@, e) || (track_bundles_ok(track_bundles@)
                && playlists_first_err(playlist_bundles@, e)) || (track_bundles_ok(track_bundles@)
                && playlist_bundles_ok(playlist_bundles@) && crates_first_err(crate_bundles@, e)),
        },
{
    let tracks = match get_tracks(track_bundles) {
        Ok(ts) => ts,
        Err(e) => {
            return Err(e);
        },
    };
    let playlists = match read_playlists(playlist_bundles) {
        Ok(ps) => ps,
        Err(e) => {
            return Err(e);
        },
    };
    let crates = match read_crates(crate_bundles) {
        Ok(cs) => cs,
        Err(e) => {
            return Err(e);
        },
    };
    Ok(Library { tracks, playlists, crates })
}

} // verus!
