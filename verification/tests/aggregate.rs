//! Aggregation of raw rows into the normalized domain model.

use mixxx_library_converter::error::ExportError;
use mixxx_library_converter::mixxx::aggregator::RawCrateBundle;
use mixxx_library_converter::mixxx::aggregator::RawPlaylistBundle;
use mixxx_library_converter::mixxx::aggregator::RawTrackBundle;
use mixxx_library_converter::mixxx::aggregator::get_tracks;
use mixxx_library_converter::mixxx::aggregator::read_crates;
use mixxx_library_converter::mixxx::aggregator::read_library;
use mixxx_library_converter::mixxx::aggregator::read_playlists;
use mixxx_library_converter::mixxx::schema;
use mixxx_library_converter::text::Timestamp;

fn raw_track(id: i64, title: &str) -> schema::Track {
    schema::Track {
        id,
        artist: Some(String::from("a")),
        composer: String::from("c"),
        title: Some(String::from(title)),
        album: None,
        year: Some(String::from("2021")),
        genre: None,
        tracknumber: None,
        location: Some(id),
        comment: None,
        url: None,
        duration_ms: 200_000,
        bitrate: 320,
        samplerate: 44_100,
        cuepoint: None,
        bpm_milli: 128_000,
        channels: Some(2),
        datetime_added: String::from("2021-05-01T12:30:00+02:00"),
        mixxx_deleted: Some(0),
        played: Some(3),
        filetype: String::from("mp3"),
        replaygain_bits: 0,
        timesplayed: 3,
        rating: 4,
        key: String::from("8A"),
        beats: None,
        beats_version: None,
        replaygain_peak_bits: 0,
        last_played_at: None,
        source_synchronized_ms: None,
    }
}

fn raw_location(id: i64) -> schema::TrackLocation {
    schema::TrackLocation {
        id,
        location: Some(format!("/home/u/Mixxx/t{id}.mp3")),
        filename: Some(format!("t{id}.mp3")),
        directory: Some(String::from("/home/u/Mixxx")),
    }
}

fn bundle(id: i64, title: &str) -> RawTrackBundle {
    RawTrackBundle { track: raw_track(id, title), location: Some(raw_location(id)), cues: vec![] }
}

#[test]
fn tracks_are_normalized() {
    let ts = get_tracks(vec![bundle(7, "A")]).unwrap();
    assert_eq!(ts.len(), 1);
    let t = &ts[0];
    assert_eq!(t.id, 7);
    assert_eq!(t.title, "A");
    assert_eq!(t.artist, "a");
    assert!(t.metadata.played);
    assert!(!t.metadata.deleted);
    // The timestamp keeps the written local calendar fields.
    assert_eq!(
        t.metadata.datetime_added,
        Timestamp { year: 2021, month: 5, day: 1, hour: 12, minute: 30, second: 0 }
    );
    assert_eq!(t.location.location, "/home/u/Mixxx/t7.mp3");
}

#[test]
fn tracks_are_sorted_by_identifier() {
    let ts = get_tracks(vec![bundle(9, "A"), bundle(2, "B"), bundle(5, "C")]).unwrap();
    let ids: Vec<usize> = ts.iter().map(|t| t.id).collect();
    assert_eq!(ids, vec![2, 5, 9]);
}

#[test]
fn duplicate_identifier_later_row_wins() {
    let ts = get_tracks(vec![bundle(4, "first"), bundle(4, "second")]).unwrap();
    assert_eq!(ts.len(), 1);
    assert_eq!(ts[0].title, "second");
}

#[test]
fn missing_location_row_aborts() {
    let mut b = bundle(3, "A");
    b.location = None;
    assert_eq!(get_tracks(vec![b]), Err(ExportError::MissingLocation { track_id: 3 }));
}

#[test]
fn empty_location_column_aborts() {
    let mut b = bundle(3, "A");
    b.location.as_mut().unwrap().filename = None;
    assert_eq!(get_tracks(vec![b]), Err(ExportError::MissingLocation { track_id: 3 }));
}

#[test]
fn bad_timestamp_aborts() {
    let mut b = bundle(3, "A");
    b.track.datetime_added = String::from("yesterday");
    assert_eq!(
        get_tracks(vec![b]),
        Err(ExportError::DatetimeParse { track_id: 3, text: String::from("yesterday") })
    );
}

#[test]
fn negative_identifier_aborts() {
    let b = bundle(-1, "A");
    assert_eq!(get_tracks(vec![b]), Err(ExportError::IdentifierOverflow { id: -1 }));
}

#[test]
fn malformed_beat_grid_aborts() {
    let mut b = bundle(3, "A");
    b.track.beats = Some(vec![0x12]);
    assert_eq!(get_tracks(vec![b]), Err(ExportError::BeatGridDecode { track_id: 3 }));
}

#[test]
fn first_offending_track_wins() {
    let mut b1 = bundle(1, "A");
    b1.track.datetime_added = String::from("bad");
    let mut b2 = bundle(2, "B");
    b2.location = None;
    assert_eq!(
        get_tracks(vec![b1, b2]),
        Err(ExportError::DatetimeParse { track_id: 1, text: String::from("bad") })
    );
}

fn raw_playlist(id: i64, name: &str, hidden: i64) -> schema::Playlist {
    schema::Playlist {
        id,
        name: Some(String::from(name)),
        position: Some(id),
        hidden,
        date_created: Some(Timestamp { year: 2020, month: 1, day: 2, hour: 3, minute: 4, second: 5 }),
        date_modified: Some(Timestamp { year: 2020, month: 2, day: 3, hour: 4, minute: 5, second: 6 }),
    }
}

#[test]
fn playlists_are_normalized() {
    let ps = read_playlists(vec![RawPlaylistBundle {
        playlist: raw_playlist(1, "warmup", 0),
        track_ids: vec![5, 2, 9],
    }])
    .unwrap();
    assert_eq!(ps.len(), 1);
    assert_eq!(ps[0].name, "warmup");
    assert!(!ps[0].hidden);
    assert_eq!(ps[0].track_ids, vec![5, 2, 9]);
}

#[test]
fn hidden_playlist_flag_is_kept() {
    let ps = read_playlists(vec![RawPlaylistBundle {
        playlist: raw_playlist(1, "history", 1),
        track_ids: vec![],
    }])
    .unwrap();
    assert!(ps[0].hidden);
}

#[test]
fn playlist_member_overflow_aborts() {
    let r = read_playlists(vec![RawPlaylistBundle {
        playlist: raw_playlist(1, "p", 0),
        track_ids: vec![4, -7],
    }]);
    assert_eq!(r, Err(ExportError::IdentifierOverflow { id: -7 }));
}

#[test]
fn crates_are_normalized() {
    let cs = read_crates(vec![RawCrateBundle {
        mcrate: schema::Crate { id: 2, name: String::from("techno"), count: Some(3), show: Some(0) },
        track_ids: vec![1, 2, 3],
    }])
    .unwrap();
    assert_eq!(cs.len(), 1);
    assert_eq!(cs[0].name, "techno");
    // A crate with a non-positive show column is hidden.
    assert!(cs[0].hidden);
    assert_eq!(cs[0].count, 3);
    assert_eq!(cs[0].track_ids, vec![1, 2, 3]);
}

#[test]
fn errors_name_the_offending_entity() {
    let e = ExportError::MissingLocation { track_id: 3 };
    assert_eq!(e.describe(), "no location row for track 3");
    let e = ExportError::IdentifierOverflow { id: -7 };
    assert_eq!(e.describe(), "identifier does not fit the target width: -7");
    let e = ExportError::DatetimeParse { track_id: 2, text: String::from("bad") };
    assert_eq!(e.describe(), "unparseable datetime_added on track 2: bad");
    let e = ExportError::UnsupportedFileType { track_id: 9, filetype: String::from("wav") };
    assert_eq!(e.describe(), "unsupported file type on track 9: wav");
    let e = ExportError::MalformedPath { location: String::from("/") };
    assert_eq!(e.describe(), "track path does not name a file: /");
}

#[test]
fn read_library_joins_everything() {
    let lib = read_library(
        vec![bundle(1, "A"), bundle(2, "B")],
        vec![RawPlaylistBundle { playlist: raw_playlist(1, "p", 0), track_ids: vec![2, 1] }],
        vec![RawCrateBundle {
            mcrate: schema::Crate { id: 9, name: String::from("c"), count: Some(0), show: Some(1) },
            track_ids: vec![],
        }],
    )
    .unwrap();
    assert_eq!(lib.tracks.len(), 2);
    assert_eq!(lib.playlists.len(), 1);
    assert_eq!(lib.crates.len(), 1);
    assert!(!lib.crates[0].hidden);
}
