//! Projection into the Rekordbox tree: value translation, path
//! translation, cue filtering and the whole library.

use mixxx_library_converter::config::Config;
use mixxx_library_converter::error::ExportError;
use mixxx_library_converter::mixxx::library::Crate;
use mixxx_library_converter::mixxx::library::Library;
use mixxx_library_converter::mixxx::library::Playlist;
use mixxx_library_converter::mixxx::library::Track;
use mixxx_library_converter::mixxx::library::TrackLocation;
use mixxx_library_converter::mixxx::library::TrackMetadata;
use mixxx_library_converter::mixxx::library::TrackTechnicalInfo;
use mixxx_library_converter::mixxx::schema::Cue as RawCue;
use mixxx_library_converter::rekordbox::convert_track;
use mixxx_library_converter::rekordbox::get_track_location;
use mixxx_library_converter::rekordbox::mixxx_to_rekordbox;
use mixxx_library_converter::rekordbox::schema::TrackContent;
use mixxx_library_converter::rekordbox::schema::TrackKind;
use mixxx_library_converter::rekordbox::schema::translate_key;
use mixxx_library_converter::rekordbox::schema::translate_rating;
use mixxx_library_converter::text::Timestamp;

fn unix_config() -> Config {
    Config {
        mixxx_db: String::from("/home/u/.mixxx/mixxxdb.sqlite"),
        target_directory: String::from("/tmp/export"),
        source_library_root: String::from("/home/u/Mixxx"),
        target_library_root: String::from("C:/Users/u/Music/Mixxx"),
        rebase_paths: false,
    }
}

fn rebase_config() -> Config {
    Config { rebase_paths: true, ..unix_config() }
}

fn cue(cue_type: i64, hotcue: i64, position: i64) -> RawCue {
    RawCue {
        id: 1,
        track_id: 1,
        cue_type,
        position,
        length: 0,
        hotcue,
        label: String::from("x"),
        color: 0,
    }
}

fn track(id: usize, title: &str) -> Track {
    Track {
        id,
        artist: String::from("artist"),
        composer: String::from(""),
        title: String::from(title),
        album: None,
        year: String::from("2021"),
        genre: Some(String::from("techno")),
        tracknumber: None,
        filetype: String::from("mp3"),
        comment: None,
        url: None,
        location: TrackLocation {
            location: format!("/home/u/Mixxx/{title}.mp3"),
            filename: format!("{title}.mp3"),
            directory: String::from("/home/u/Mixxx"),
        },
        technical_info: TrackTechnicalInfo {
            duration_ms: 200_500,
            bitrate: 320,
            samplerate: 44_100,
            bpm_milli: 128_000,
            beats: None,
            beats_version: None,
            key: String::from("8A"),
            replaygain_bits: 0,
            replaygain_peak_bits: 0,
            source_synchronized_ms: None,
        },
        metadata: TrackMetadata {
            rating: 3,
            played: true,
            timesplayed: 7,
            deleted: false,
            datetime_added: Timestamp {
                year: 2021,
                month: 5,
                day: 1,
                hour: 12,
                minute: 30,
                second: 0,
            },
            last_played_at: None,
        },
        cues: vec![],
    }
}

#[test]
fn rating_table() {
    assert_eq!(translate_rating(0), 0);
    assert_eq!(translate_rating(1), 51);
    assert_eq!(translate_rating(2), 102);
    assert_eq!(translate_rating(3), 153);
    assert_eq!(translate_rating(4), 204);
    assert_eq!(translate_rating(5), 255);
    // Clamping at the boundaries.
    assert_eq!(translate_rating(6), 255);
    assert_eq!(translate_rating(-1), 0);
}

#[test]
fn key_table() {
    assert_eq!(translate_key("8A"), "Am");
    assert_eq!(translate_key("11B"), "A");
    assert_eq!(translate_key("2B"), "Gb/F#");
    assert_eq!(translate_key("6A"), "Gm");
    // Unmapped input yields the empty string.
    assert_eq!(translate_key("zz"), "");
    assert_eq!(translate_key(""), "");
}

#[test]
fn file_kind_allow_list() {
    assert_eq!(TrackKind::try_from_string("mp3"), Some(TrackKind::Mp3));
    assert_eq!(TrackKind::try_from_string("flac"), Some(TrackKind::Flac));
    assert_eq!(TrackKind::try_from_string("wav"), None);
}

#[test]
fn location_is_percent_encoded_per_segment() {
    let loc = TrackLocation {
        location: String::from("/My Music/A track.mp3"),
        filename: String::from("A track.mp3"),
        directory: String::from("/My Music"),
    };
    let url = get_track_location(&unix_config(), loc).unwrap();
    assert_eq!(url, "file://localhost/My%20Music/A%20track.mp3");
}

#[test]
fn location_unreserved_segments_pass_unchanged() {
    let loc = TrackLocation {
        location: String::from("/home/u/Mixxx/song.mp3"),
        filename: String::from("song.mp3"),
        directory: String::from("/home/u/Mixxx"),
    };
    let url = get_track_location(&unix_config(), loc).unwrap();
    assert_eq!(url, "file://localhost/home/u/Mixxx/song.mp3");
}

#[test]
fn location_rebases_onto_target_root() {
    let loc = TrackLocation {
        location: String::from("/home/u/Mixxx/sub dir/a.mp3"),
        filename: String::from("a.mp3"),
        directory: String::from("/home/u/Mixxx/sub dir"),
    };
    let url = get_track_location(&rebase_config(), loc).unwrap();
    assert_eq!(url, "file://localhost/C:/Users/u/Music/Mixxx/sub%20dir/a.mp3");
}

#[test]
fn location_outside_source_root_is_rejected() {
    let loc = TrackLocation {
        location: String::from("/mnt/other/a.mp3"),
        filename: String::from("a.mp3"),
        directory: String::from("/mnt/other"),
    };
    assert_eq!(
        get_track_location(&rebase_config(), loc),
        Err(ExportError::PathNotUnderRoot { location: String::from("/mnt/other/a.mp3") })
    );
}

#[test]
fn location_without_filename_is_rejected() {
    let loc = TrackLocation {
        location: String::from("/"),
        filename: String::from(""),
        directory: String::from(""),
    };
    assert_eq!(
        get_track_location(&unix_config(), loc),
        Err(ExportError::MalformedPath { location: String::from("/") })
    );
}

#[test]
fn location_with_relative_step_is_rejected() {
    let loc = TrackLocation {
        location: String::from("/home/u/../a.mp3"),
        filename: String::from("a.mp3"),
        directory: String::from("/home/u/.."),
    };
    assert_eq!(
        get_track_location(&unix_config(), loc),
        Err(ExportError::MalformedPath { location: String::from("/home/u/../a.mp3") })
    );
}

#[test]
fn converted_track_fields() {
    let mut t = track(12, "A");
    t.cues.push(cue(1, 0, 176_400));
    let rb = convert_track(&unix_config(), t).unwrap();
    assert_eq!(rb.track_id, "12");
    assert_eq!(rb.name, "A");
    assert_eq!(rb.artist, "artist");
    assert_eq!(rb.album, "");
    assert_eq!(rb.genre, "techno");
    assert_eq!(rb.kind, TrackKind::Mp3);
    assert_eq!(rb.size, "0");
    assert_eq!(rb.total_time, 200);
    assert_eq!(rb.disc_number, 1);
    assert_eq!(rb.year, "2021");
    assert_eq!(rb.average_bpm, "128");
    assert_eq!(rb.date_added, "2021-05-01");
    assert_eq!(rb.bit_rate, 320);
    assert_eq!(rb.sample_rate, 44_100);
    assert_eq!(rb.play_count, 7);
    assert_eq!(rb.rating, 153);
    assert_eq!(rb.location, "file://localhost/home/u/Mixxx/A.mp3");
    assert_eq!(rb.tonality, "Am");
    assert_eq!(rb.remixer, "");
    assert_eq!(rb.label, "");
    assert_eq!(rb.mix, "");
}

#[test]
fn converted_track_content_block() {
    // One track, title A, 128 bpm, no beat-grid blob, one cue of type 1
    // with hot-cue 0 at raw position 176400: the tempo entry starts at 0.0
    // with bpm 128.00, and exactly one cue entry at 2.0 seconds follows.
    let mut t = track(1, "A");
    t.cues.push(cue(1, 0, 176_400));
    let rb = convert_track(&unix_config(), t).unwrap();
    assert_eq!(rb.values.len(), 2);
    match &rb.values[0] {
        TrackContent::Tempo(tempo) => {
            assert_eq!(tempo.inizio, "0.0");
            assert_eq!(tempo.bpm, "128.00");
            assert_eq!(tempo.metro, "4/4");
            assert_eq!(tempo.battito, "1");
        },
        other => panic!("expected a tempo entry, got {other:?}"),
    }
    match &rb.values[1] {
        TrackContent::Cue(c) => {
            assert_eq!(c.start, "2.0");
            assert_eq!(c.num, 0);
            assert_eq!(c.name, "");
            assert_eq!(c.cue_type, 0);
            assert_eq!((c.red, c.green, c.blue), (40, 226, 20));
        },
        other => panic!("expected a cue entry, got {other:?}"),
    }
}

#[test]
fn boundary_cues_never_appear() {
    let mut t = track(1, "A");
    for ct in [2, 6, 7, 8] {
        t.cues.push(cue(ct, 0, 1000));
    }
    // A type-1 cue with an unassigned slot is dropped as well.
    t.cues.push(cue(1, -1, 1000));
    let rb = convert_track(&unix_config(), t).unwrap();
    assert_eq!(rb.values.len(), 1);
}

#[test]
fn assigned_normal_cue_appears_exactly_once() {
    let mut t = track(1, "A");
    t.cues.push(cue(2, 0, 500));
    t.cues.push(cue(1, 3, 88_200));
    t.cues.push(cue(6, -1, 700));
    let rb = convert_track(&unix_config(), t).unwrap();
    let cues: Vec<_> = rb
        .values
        .iter()
        .filter_map(|v| match v {
            TrackContent::Cue(c) => Some(c),
            _ => None,
        })
        .collect();
    assert_eq!(cues.len(), 1);
    assert_eq!(cues[0].start, "1.0");
    assert_eq!(cues[0].num, 3);
}

#[test]
fn beat_grid_offset_reaches_tempo_entry() {
    let mut t = track(1, "A");
    t.technical_info.samplerate = 44_100;
    t.technical_info.bpm_milli = 120_000;
    // First beat at frame 11_025: 0.25 seconds.
    t.technical_info.beats = Some(vec![0x12, 0x03, 0x08, 0x91, 0x56]);
    let rb = convert_track(&unix_config(), t).unwrap();
    match &rb.values[0] {
        TrackContent::Tempo(tempo) => assert_eq!(tempo.inizio, "0.25"),
        other => panic!("expected a tempo entry, got {other:?}"),
    }
}

#[test]
fn unknown_file_type_is_fatal() {
    let mut t = track(1, "A");
    t.filetype = String::from("wav");
    assert_eq!(
        convert_track(&unix_config(), t),
        Err(ExportError::UnsupportedFileType { track_id: 1, filetype: String::from("wav") })
    );
}

#[test]
fn bad_year_is_emptied_not_fatal() {
    let mut t = track(1, "A");
    t.year = String::from("around 2001");
    let rb = convert_track(&unix_config(), t).unwrap();
    assert_eq!(rb.year, "");
}

fn playlist(id: usize, name: &str, hidden: bool, track_ids: Vec<usize>) -> Playlist {
    Playlist {
        id,
        name: String::from(name),
        position: id,
        hidden,
        date_created: Timestamp { year: 2020, month: 1, day: 1, hour: 0, minute: 0, second: 0 },
        date_modified: Timestamp { year: 2020, month: 1, day: 1, hour: 0, minute: 0, second: 0 },
        track_ids,
    }
}

fn small_library() -> Library {
    Library {
        tracks: vec![track(1, "A"), track(4, "B")],
        playlists: vec![
            playlist(1, "warmup", false, vec![4, 1]),
            playlist(2, "hidden gems", true, vec![1]),
        ],
        crates: vec![
            Crate { id: 1, name: String::from("techno"), count: 1, hidden: false, track_ids: vec![4] },
            Crate { id: 2, name: String::from("secret"), count: 1, hidden: true, track_ids: vec![1] },
        ],
    }
}

#[test]
fn library_projects_tracks_and_playlists() {
    let out = mixxx_to_rekordbox(&unix_config(), small_library()).unwrap();
    assert_eq!(out.version, "1.0.0");
    assert_eq!(out.product.name, "rekordbox");
    assert_eq!(out.product.version, "6.7.2");
    assert_eq!(out.product.company, "AlphaTheta");
    assert_eq!(out.tracks.entries, 2);
    assert_eq!(out.tracks.tracks.len(), 2);
    assert_eq!(out.tracks.tracks[0].name, "A");
    assert_eq!(out.tracks.tracks[1].name, "B");
    let root = &out.playlists.playlists_root;
    assert_eq!(root.node_type, 0);
    assert_eq!(root.name, "ROOT");
    // The visible playlist, the synthesized all playlist, the visible
    // crate; the hidden playlist and crate never appear.
    assert_eq!(root.count, 3);
    let names: Vec<&str> = root.playlists.iter().map(|p| p.name.as_str()).collect();
    assert_eq!(names, vec!["warmup", "all", "techno"]);
    assert!(root.playlists.iter().all(|p| p.name != "hidden gems" && p.name != "secret"));
}

#[test]
fn synthesized_all_reaches_every_track_in_order() {
    let out = mixxx_to_rekordbox(&unix_config(), small_library()).unwrap();
    let root = &out.playlists.playlists_root;
    let all = root.playlists.iter().find(|p| p.name == "all").unwrap();
    assert_eq!(all.entries, 2);
    let keys: Vec<usize> = all.tracks.iter().map(|t| t.key).collect();
    assert_eq!(keys, vec![1, 4]);
}

#[test]
fn no_synthesized_all_when_one_exists() {
    let mut lib = small_library();
    lib.playlists.push(playlist(3, "all", false, vec![1]));
    let out = mixxx_to_rekordbox(&unix_config(), lib).unwrap();
    let root = &out.playlists.playlists_root;
    let alls: Vec<_> = root.playlists.iter().filter(|p| p.name == "all").collect();
    assert_eq!(alls.len(), 1);
    // The surviving one is the input playlist, with its single member.
    assert_eq!(alls[0].entries, 1);
    assert_eq!(alls[0].tracks[0].key, 1);
}

#[test]
fn hidden_all_playlist_does_not_suppress_synthesis() {
    let mut lib = small_library();
    lib.playlists.push(playlist(3, "all", true, vec![1]));
    let out = mixxx_to_rekordbox(&unix_config(), lib).unwrap();
    let root = &out.playlists.playlists_root;
    let alls: Vec<_> = root.playlists.iter().filter(|p| p.name == "all").collect();
    assert_eq!(alls.len(), 1);
    assert_eq!(alls[0].entries, 2);
}

#[test]
fn first_failing_track_aborts_projection() {
    let mut lib = small_library();
    lib.tracks[1].filetype = String::from("ogg");
    assert_eq!(
        mixxx_to_rekordbox(&unix_config(), lib),
        Err(ExportError::UnsupportedFileType { track_id: 4, filetype: String::from("ogg") })
    );
}
