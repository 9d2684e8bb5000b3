//! The beat-grid blob codec: wire-format decoding and the first-beat
//! correction.

use mixxx_library_converter::mixxx::beats::Source;
use mixxx_library_converter::mixxx::beats::beatgrid_start;
use mixxx_library_converter::mixxx::beats::decode_beat_grid;
use mixxx_library_converter::mixxx::library::TrackTechnicalInfo;

fn plain_technical_info() -> TrackTechnicalInfo {
    TrackTechnicalInfo {
        duration_ms: 180_000,
        bitrate: 320,
        samplerate: 44_100,
        bpm_milli: 128_000,
        beats: None,
        beats_version: None,
        key: String::from("8A"),
        replaygain_bits: 0,
        replaygain_peak_bits: 0,
        source_synchronized_ms: None,
    }
}

#[test]
fn empty_blob_decodes_to_empty_message() {
    let g = decode_beat_grid(&[]).unwrap();
    assert_eq!(g.bpm, None);
    assert_eq!(g.first_beat, None);
}

#[test]
fn first_beat_frame_position_decodes() {
    // Field 2 (first beat), length 2: field 1 varint 3.
    let g = decode_beat_grid(&[0x12, 0x02, 0x08, 0x03]).unwrap();
    let beat = g.first_beat.unwrap();
    assert_eq!(beat.frame_position, Some(3));
    assert_eq!(beat.enabled, None);
    assert_eq!(g.bpm, None);
}

#[test]
fn negative_frame_position_decodes() {
    // int32 -1 is carried as a ten-byte varint.
    let blob = [
        0x12, 0x0B, 0x08, 0xFF, 0xFF, 0xFF, 0xFF, 0xFF, 0xFF, 0xFF, 0xFF, 0xFF, 0x01,
    ];
    let g = decode_beat_grid(&blob).unwrap();
    assert_eq!(g.first_beat.unwrap().frame_position, Some(-1));
}

#[test]
fn enabled_and_source_fields_decode() {
    // Field 2, length 4: enabled = true (field 2), source = 2 (field 3).
    let g = decode_beat_grid(&[0x12, 0x04, 0x10, 0x01, 0x18, 0x02]).unwrap();
    let beat = g.first_beat.unwrap();
    assert_eq!(beat.frame_position, None);
    assert_eq!(beat.enabled, Some(true));
    assert_eq!(beat.source, Some(2));
}

#[test]
fn bpm_bits_decode() {
    // Field 1 (tempo), length 9: field 1 is a little-endian double.
    let bits = 128.0f64.to_bits();
    let mut blob = vec![0x0A, 0x09, 0x09];
    blob.extend_from_slice(&bits.to_le_bytes());
    let g = decode_beat_grid(&blob).unwrap();
    assert_eq!(g.bpm.unwrap().bpm, Some(bits));
    assert_eq!(g.first_beat, None);
}

#[test]
fn unknown_fields_are_skipped() {
    // Field 3 varint, field 4 length-delimited, field 5 fixed32.
    let blob = [0x18, 0x05, 0x22, 0x01, 0xAA, 0x2D, 0x01, 0x02, 0x03, 0x04];
    let g = decode_beat_grid(&blob).unwrap();
    assert_eq!(g.bpm, None);
    assert_eq!(g.first_beat, None);
}

#[test]
fn truncated_blob_is_rejected() {
    assert!(decode_beat_grid(&[0x12]).is_err());
    assert!(decode_beat_grid(&[0x12, 0x05, 0x08]).is_err());
}

#[test]
fn wrong_wire_type_is_rejected() {
    // Field 1 of the outer message is a sub-message, not a varint.
    assert!(decode_beat_grid(&[0x08, 0x01]).is_err());
}

#[test]
fn overlong_varint_is_rejected() {
    let blob = [
        0x12, 0x0C, 0x08, 0xFF, 0xFF, 0xFF, 0xFF, 0xFF, 0xFF, 0xFF, 0xFF, 0xFF, 0xFF, 0x01,
    ];
    assert!(decode_beat_grid(&blob).is_err());
}

#[test]
fn correction_inside_first_beat() {
    // 0.25 s at 88_200 Hz, 120 bpm: within the first beat, unchanged.
    let s = beatgrid_start(22_050, 88_200, 120_000).unwrap();
    assert_eq!(s.num, 22_050i64 * 120_000);
    assert_eq!(s.den, 88_200u64 * 120_000);
}

#[test]
fn correction_shifts_negative_position_forward() {
    // -0.5 s at 88_200 Hz, 120 bpm (beat length 0.5 s): lands on zero.
    let s = beatgrid_start(-44_100, 88_200, 120_000).unwrap();
    assert_eq!(s.num, 0);
}

#[test]
fn correction_shifts_second_beat_back() {
    // 0.75 s at 88_200 Hz, 120 bpm: beyond one beat, one beat subtracted.
    let s = beatgrid_start(66_150, 88_200, 120_000).unwrap();
    // 0.25 s over the common denominator.
    assert_eq!(s.num, 22_050i64 * 120_000);
}

#[test]
fn correction_rejects_zero_bpm() {
    assert!(beatgrid_start(3, 88_200, 0).is_err());
    assert!(beatgrid_start(3, 88_200, 2_000_000_000).is_err());
}

#[test]
fn start_of_beatgrid_absent_blob() {
    let ti = plain_technical_info();
    assert_eq!(ti.get_start_of_beatgrid(), Ok(None));
}

#[test]
fn start_of_beatgrid_no_first_beat() {
    let mut ti = plain_technical_info();
    // A blob with only a tempo record carries no first beat.
    let bits = 128.0f64.to_bits();
    let mut blob = vec![0x0A, 0x09, 0x09];
    blob.extend_from_slice(&bits.to_le_bytes());
    ti.beats = Some(blob);
    assert_eq!(ti.get_start_of_beatgrid(), Ok(None));
}

#[test]
fn start_of_beatgrid_malformed_blob() {
    let mut ti = plain_technical_info();
    ti.beats = Some(vec![0x12]);
    assert!(ti.get_start_of_beatgrid().is_err());
}

#[test]
fn start_of_beatgrid_computes_offset() {
    let mut ti = plain_technical_info();
    ti.samplerate = 44_100;
    ti.bpm_milli = 120_000;
    // First beat at frame 11_025: 0.25 s.
    let g = vec![0x12, 0x03, 0x08, 0x91, 0x56];
    ti.beats = Some(g);
    let s = ti.get_start_of_beatgrid().unwrap().unwrap();
    assert_eq!(s.num, 11_025i64 * 120_000);
    assert_eq!(s.den, 44_100u64 * 120_000);
}

#[test]
fn start_of_beatgrid_undecidable_tempo_falls_back() {
    let mut ti = plain_technical_info();
    ti.bpm_milli = 0;
    ti.beats = Some(vec![0x12, 0x02, 0x08, 0x03]);
    assert_eq!(ti.get_start_of_beatgrid(), Ok(None));
}

#[test]
fn source_names_round_trip() {
    assert_eq!(Source::Analyzer.as_str_name(), "ANALYZER");
    assert_eq!(Source::FileMetadata.as_str_name(), "FILE_METADATA");
    assert_eq!(Source::User.as_str_name(), "USER");
    assert_eq!(Source::from_str_name("ANALYZER"), Some(Source::Analyzer));
    assert_eq!(Source::from_str_name("FILE_METADATA"), Some(Source::FileMetadata));
    assert_eq!(Source::from_str_name("USER"), Some(Source::User));
    assert_eq!(Source::from_str_name("OTHER"), None);
}
