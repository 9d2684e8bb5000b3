//! Rekordbox related logic: projection of the normalized library into the
//! Rekordbox tree schema.

/// Path splitting, rebasing and percent-encoding into `file://` URIs.
pub mod paths;
/// The target tree schema and the fixed value translation tables.
pub mod schema;

use vstd::prelude::*;

use crate::config::Config;
use crate::error::ExportError;
use crate::mixxx::beats::spec_decode_beat_grid;
use crate::mixxx::helper::CUE_POSITION_RATE;
use crate::mixxx::helper::convert_mixxx_position;
use crate::mixxx::library::Crate as MixxxCrate;
use crate::mixxx::library::Library as MixxxLibrary;
use crate::mixxx::library::Playlist as MixxxPlaylist;
use crate::mixxx::library::Track as MixxxTrack;
use crate::mixxx::library::TrackLocation;
use crate::mixxx::library::TrackTechnicalInfo;
use crate::mixxx::schema::Cue as RawCue;
use crate::rekordbox::paths::check_segments;
use crate::rekordbox::paths::encode_url;
use crate::rekordbox::paths::seq_starts_with;
use crate::rekordbox::paths::segs_start_with;
use crate::rekordbox::paths::segs_wf;
use crate::rekordbox::paths::spec_encoded_joined;
use crate::rekordbox::paths::spec_segments;
use crate::rekordbox::paths::split_slashes;
use crate::rekordbox::paths::str_views;
use crate::rekordbox::schema::Cue;
use crate::rekordbox::schema::Library;
use crate::rekordbox::schema::Playlist;
use crate::rekordbox::schema::PlaylistTrack;
use crate::rekordbox::schema::Playlists;
use crate::rekordbox::schema::Tempo;
use crate::rekordbox::schema::Track;
use crate::rekordbox::schema::TrackContent;
use crate::rekordbox::schema::TrackKind;
use crate::rekordbox::schema::Tracks;
use crate::rekordbox::schema::product_is_default;
use crate::rekordbox::schema::spec_track_kind;
use crate::rekordbox::schema::spec_translate_key;
use crate::rekordbox::schema::spec_translate_rating;
use crate::rekordbox::schema::translate_key;
use crate::rekordbox::schema::translate_rating;
use crate::text::Seconds;
use crate::text::dec_digits;
use crate::text::format_date;
use crate::text::format_milli;
use crate::text::format_milli_2;
use crate::text::format_seconds;
use crate::text::parse_u16;
use crate::text::spec_format_date;
use crate::text::spec_format_milli;
use crate::text::spec_format_milli_2;
use crate::text::spec_format_seconds;
use crate::text::spec_parse_u16;
use crate::text::str_eq;
use crate::text::u64_to_dec;
use crate::text::usize_to_dec;

verus! {

/// Whether a cue row reaches the export: a normal cue (type one) with an
/// assigned hot-cue slot.  Types 2, 6, 7 and 8 are track-boundary markers
/// and never exported; a negative hot-cue slot means unassigned.
pub open spec fn cue_included(c: RawCue) -> bool {
    c.cue_type == 1 && c.hotcue >= 0
}

/// What the export keeps of one included cue: the offset text (the stored
/// frame position over the fixed cue rate) and the hot-cue slot.
pub open spec fn cue_model(c: RawCue) -> (Seq<char>, i64) {
    (spec_format_seconds(c.position as int, 88200), c.hotcue)
}

/// The projected cue entries of a cue list, in order.
pub open spec fn spec_projected_cues(cues: Seq<RawCue>) -> Seq<(Seq<char>, i64)>
    decreases cues.len(),
{
    if cues.len() == 0 {
        Seq::empty()
    } else {
        (if cue_included(cues[0]) {
            seq![cue_model(cues[0])]
        } else {
            Seq::empty()
        }) + spec_projected_cues(cues.drop_first())
    }
}

/// Appending one more cue extends the projection by its image, or not at
/// all when it is excluded.
proof fn lemma_projected_cues_push(cues: Seq<RawCue>, c: RawCue)
    ensures
        spec_projected_cues(cues.push(c)) == spec_projected_cues(cues) + (if cue_included(c) {
            seq![cue_model(c)]
        } else {
            Seq::<(Seq<char>, i64)>::empty()
        }),
    decreases cues.len(),
{
    if cues.len() == 0 {
        assert(cues =~= Seq::<RawCue>::empty());
        assert(spec_projected_cues(Seq::<RawCue>::empty()) =~= Seq::<(Seq<char>, i64)>::empty());
        assert(cues.push(c)[0] == c);
        assert(cues.push(c).drop_first() =~= Seq::<RawCue>::empty());
        assert(spec_projected_cues(cues.push(c)) =~= spec_projected_cues(cues) + (if cue_included(
            c,
        ) {
            seq![cue_model(c)]
        } else {
            Seq::<(Seq<char>, i64)>::empty()
        }));
    } else {
        lemma_projected_cues_push(cues.drop_first(), c);
        assert(cues.push(c).drop_first() =~= cues.drop_first().push(c));
        assert(cues.push(c)[0] == cues[0]);
        assert(spec_projected_cues(cues.push(c)) =~= spec_projected_cues(cues) + (if cue_included(
            c,
        ) {
            seq![cue_model(c)]
        } else {
            Seq::<(Seq<char>, i64)>::empty()
        }));
    }
}

/// How many projected entries equal `m`.
pub open spec fn count_cue_models(ms: Seq<(Seq<char>, i64)>, m: (Seq<char>, i64)) -> nat
    decreases ms.len(),
{
    if ms.len() == 0 {
        0
    } else {
        ((if ms[0] == m {
            1int
        } else {
            0int
        }) + count_cue_models(ms.drop_first(), m)) as nat
    }
}

/// How many included cues have the image `m`.
pub open spec fn count_included_cues(cues: Seq<RawCue>, m: (Seq<char>, i64)) -> nat
    decreases cues.len(),
{
    if cues.len() == 0 {
        0
    } else {
        ((if cue_included(cues[0]) && cue_model(cues[0]) == m {
            1int
        } else {
            0int
        }) + count_included_cues(cues.drop_first(), m)) as nat
    }
}

/// Cue filtering, counted: the projected entries are exactly the images
/// of the included cues — each cue of type 1 with an assigned hot-cue
/// contributes its image exactly once, and a boundary-marker cue (types
/// 2, 6, 7, 8, and every other type but 1) or a cue with a negative
/// hot-cue contributes nothing, whatever its other fields.
pub proof fn lemma_cue_projection_counts(cues: Seq<RawCue>, m: (Seq<char>, i64))
    ensures
        count_cue_models(spec_projected_cues(cues), m) == count_included_cues(cues, m),
    decreases cues.len(),
{
    if cues.len() > 0 {
        lemma_cue_projection_counts(cues.drop_first(), m);
        if cue_included(cues[0]) {
            let s = spec_projected_cues(cues);
            assert(s == seq![cue_model(cues[0])] + spec_projected_cues(cues.drop_first()));
            assert(s[0] == cue_model(cues[0]));
            assert(s.drop_first() =~= spec_projected_cues(cues.drop_first()));
        } else {
            assert(spec_projected_cues(cues) =~= spec_projected_cues(cues.drop_first()));
        }
    }
}

/// An included cue is counted at least once among the included images.
pub proof fn lemma_included_cue_counted(cues: Seq<RawCue>, i: int)
    requires
        0 <= i < cues.len(),
        cue_included(cues[i]),
    ensures
        count_included_cues(cues, cue_model(cues[i])) >= 1,
    decreases i,
{
    if i > 0 {
        lemma_included_cue_counted(cues.drop_first(), i - 1);
        assert(cues.drop_first()[i - 1] == cues[i]);
    }
}

/// How a projected cue entry relates to the image it was built from: the
/// fixed type and display color, an empty label, the offset text and the
/// hot-cue slot.
pub open spec fn rb_cue_matches(c: Cue, m: (Seq<char>, i64)) -> bool {
    c.name@ == Seq::<char>::empty() && c.cue_type == 0 && c.start@ == m.0 && c.num == m.1 && c.red
        == 40 && c.green == 226 && c.blue == 20
}

/// The beat-grid start offset of the tempo entry, if the track has one.
pub open spec fn spec_opt_start(ti: TrackTechnicalInfo) -> Option<Seconds> {
    match ti.beats {
        None => None,
        Some(b) => match spec_decode_beat_grid(b@) {
            None => None,
            Some(g) => ti.spec_start_of_beatgrid(g),
        },
    }
}

/// The text of the tempo entry's start offset: the corrected offset, or
/// the zero offset when the track has none.
pub open spec fn spec_inizio_text(ti: TrackTechnicalInfo) -> Seq<char> {
    match spec_opt_start(ti) {
        Some(s) => spec_format_seconds(s.num as int, s.den as nat),
        None => seq!['0', '.', '0'],
    }
}

/// How the tempo entry relates to the track: the start offset text, the
/// tempo with two decimals, and the fixed `4/4` metre and beat counter.
pub open spec fn rb_tempo_matches(tp: Tempo, ti: TrackTechnicalInfo) -> bool {
    tp.inizio@ == spec_inizio_text(ti) && tp.bpm@ == spec_format_milli_2(ti.bpm_milli as nat)
        && tp.metro@ == "4/4"@ && tp.battito@ == "1"@
}

/// The rebased segments of a track path: the path's own segments when
/// source and target share a filesystem convention, else the target root's
/// segments followed by the path's suffix under the source root; `None`
/// when rebasing and the path is not under the source root.
pub open spec fn spec_rebased(config: Config, path: Seq<char>) -> Option<Seq<Seq<char>>> {
    if !config.rebase_paths {
        Some(spec_segments(path))
    } else if seq_starts_with(spec_segments(path), spec_segments(config.source_library_root@)) {
        Some(
            spec_segments(config.target_library_root@) + spec_segments(path).skip(
                spec_segments(config.source_library_root@).len() as int,
            ),
        )
    } else {
        None
    }
}

/// Translates a track location into a `file://localhost/` URI: rebased if
/// the configuration asks for it, then percent-encoded segment by segment.
#[verifier::loop_isolation(false)]
pub fn get_track_location(config: &Config, mixxx_location: TrackLocation) -> (r: Result<
    String,
    ExportError,
>)
    ensures
        match r {
            Ok(url) => spec_rebased(*config, mixxx_location.location@) matches Some(segs)
                && segs_wf(segs) && url@ == "file://localhost/"@ + spec_encoded_joined(segs),
            Err(e) => match e {
                ExportError::PathNotUnderRoot { location } => location == mixxx_location.location
                    && spec_rebased(*config, mixxx_location.location@) is None,
                ExportError::MalformedPath { location } => location == mixxx_location.location && (
                spec_rebased(*config, mixxx_location.location@) matches Some(segs) && !segs_wf(
                    segs,
                )),
                _ => false,
            },
        },
{
    let segs = split_slashes(mixxx_location.location.as_str());
    let final_segs: Vec<&str> = if config.rebase_paths {
        let src_segs = split_slashes(config.source_library_root.as_str());
        let tgt_segs = split_slashes(config.target_library_root.as_str());
        if !segs_start_with(&segs, &src_segs) {
            return Err(ExportError::PathNotUnderRoot { location: mixxx_location.location });
        }
        let mut joined = tgt_segs;
        let mut k: usize = src_segs.len();
        proof {
            assert(str_views(segs@).subrange(src_segs@.len() as int, src_segs@.len() as int)
                =~= Seq::<Seq<char>>::empty());
            assert(str_views(joined@) =~= str_views(joined@) + Seq::<Seq<char>>::empty());
        }
        while k < segs.len()
            invariant
                src_segs@.len() <= k <= segs@.len(),
                str_views(joined@) == spec_segments(config.target_library_root@) + str_views(
                    segs@,
                ).subrange(src_segs@.len() as int, k as int),
            decreases segs@.len() - k,
        {
            let ghost old_joined = joined@;
            joined.push(segs[k]);
            proof {
                assert(str_views(segs@)[k as int] == segs@[k as int]@);
                assert(str_views(joined@) =~= str_views(old_joined).push(segs@[k as int]@));
                assert(str_views(segs@).subrange(src_segs@.len() as int, k + 1) =~= str_views(
                    segs@,
                ).subrange(src_segs@.len() as int, k as int).push(str_views(segs@)[k as int]));
                assert(str_views(joined@) =~= spec_segments(config.target_library_root@)
                    + str_views(segs@).subrange(src_segs@.len() as int, k + 1));
            }
            k += 1;
        }
        proof {
            assert(str_views(segs@).subrange(src_segs@.len() as int, segs@.len() as int)
                =~= str_views(segs@).skip(src_segs@.len() as int));
        }
        joined
    } else {
        segs
    };
    if !check_segments(&final_segs) {
        return Err(ExportError::MalformedPath { location: mixxx_location.location });
    }
    let url = encode_url(&final_segs);
    Ok(url)
}

/// The error projecting one track yields, if any, in the order the checks
/// run: the beat-grid blob, the path, and the file-kind allow-list.
#[verifier::opaque]
pub open spec fn spec_convert_err(config: Config, tr: MixxxTrack) -> Option<ExportError> {
    if (match tr.technical_info.beats {
        Some(b) => spec_decode_beat_grid(b@) is None,
        None => false,
    }) {
        Some(ExportError::BeatGridDecode { track_id: tr.id as i64 })
    } else if spec_rebased(config, tr.location.location@) is None {
        Some(ExportError::PathNotUnderRoot { location: tr.location.location })
    } else if !segs_wf(spec_rebased(config, tr.location.location@).unwrap()) {
        Some(ExportError::MalformedPath { location: tr.location.location })
    } else if spec_track_kind(tr.filetype@) is None {
        Some(ExportError::UnsupportedFileType { track_id: tr.id, filetype: tr.filetype })
    } else {
        None
    }
}

/// How a projected track node relates to the normalized track it was
/// built from: identity fields carried over (optional text defaulted to
/// empty), the fixed defaults (disc number one, size `0`, empty grouping,
/// remixer, label and mix), the translated rating, key and file kind, the
/// reformatted year and calendar date, and the content block of one tempo
/// entry followed by the projected cues.
#[verifier::opaque]
pub open spec fn track_converted(t: Track, config: Config, tr: MixxxTrack) -> bool {
    &&& t.track_id@ == dec_digits(tr.id as nat)
    &&& t.name == tr.title
    &&& t.artist == tr.artist
    &&& t.composer == tr.composer
    &&& t.album@ == crate::mixxx::aggregator::opt_str_or_empty(tr.album)
    &&& t.grouping@ == Seq::<char>::empty()
    &&& t.genre@ == crate::mixxx::aggregator::opt_str_or_empty(tr.genre)
    &&& Some(t.kind) == spec_track_kind(tr.filetype@)
    &&& t.size@ == "0"@
    &&& t.total_time as int == (if tr.technical_info.duration_ms as int / 1000 > u32::MAX as int {
        u32::MAX as int
    } else {
        tr.technical_info.duration_ms as int / 1000
    })
    &&& t.disc_number == 1
    &&& t.track_number@ == crate::mixxx::aggregator::opt_str_or_empty(tr.tracknumber)
    &&& t.year@ == (match spec_parse_u16(tr.year@) {
        Some(v) => dec_digits(v as nat),
        None => Seq::<char>::empty(),
    })
    &&& t.average_bpm@ == spec_format_milli(tr.technical_info.bpm_milli as nat)
    &&& t.date_added@ == spec_format_date(tr.metadata.datetime_added)
    &&& t.bit_rate == tr.technical_info.bitrate
    &&& t.sample_rate == tr.technical_info.samplerate
    &&& t.comments@ == crate::mixxx::aggregator::opt_str_or_empty(tr.comment)
    &&& t.play_count == tr.metadata.timesplayed
    &&& t.rating == spec_translate_rating(tr.metadata.rating as int)
    &&& t.location@ == "file://localhost/"@ + spec_encoded_joined(
        spec_rebased(config, tr.location.location@).unwrap(),
    )
    &&& t.remixer@ == Seq::<char>::empty()
    &&& t.tonality@ == spec_translate_key(tr.technical_info.key@)
    &&& t.label@ == Seq::<char>::empty()
    &&& t.mix@ == Seq::<char>::empty()
    &&& t.values@.len() == 1 + spec_projected_cues(tr.cues@).len()
    &&& (match t.values@[0] {
        TrackContent::Tempo(tp) => rb_tempo_matches(tp, tr.technical_info),
        TrackContent::Cue(_) => false,
    })
    &&& forall|k: int|
        0 <= k < spec_projected_cues(tr.cues@).len() ==> (match #[trigger] t.values@[k + 1] {
            TrackContent::Cue(c) => rb_cue_matches(c, spec_projected_cues(tr.cues@)[k]),
            TrackContent::Tempo(_) => false,
        })
}

/// Convert a single mixxx track into a rekordbox style track node.
#[verifier::rlimit(100)]
#[verifier::loop_isolation(false)]
pub fn convert_track(config: &Config, mixxx_track: MixxxTrack) -> (r: Result<Track, ExportError>)
    requires
        mixxx_track.metadata.datetime_added.wf(),
    ensures
        match r {
            Ok(t) => spec_convert_err(*config, mixxx_track) is None && track_converted(
                t,
                *config,
                mixxx_track,
            ),
            Err(e) => spec_convert_err(*config, mixxx_track) == Some(e),
        },
{
    proof {
        reveal(spec_convert_err);
        reveal(track_converted);
    }
    let ghost tr0 = mixxx_track;
    // Determine the start of the track.  Without an analyzed beat grid the
    // export falls back to the very start of the audio file.
    let start_of_track: String = match mixxx_track.technical_info.get_start_of_beatgrid() {
        Ok(Some(s)) => format_seconds(&s),
        Ok(None) => {
            let z = String::from_str("0.0");
            proof {
                reveal_strlit("0.0");
                assert(z@ =~= seq!['0', '.', '0']);
            }
            z
        },
        Err(_) => {
            let wide_id: i64 = #[verifier::truncate] (mixxx_track.id as i64);
            return Err(ExportError::BeatGridDecode { track_id: wide_id });
        },
    };
    let tempo = Tempo {
        inizio: start_of_track,
        bpm: format_milli_2(mixxx_track.technical_info.bpm_milli),
        metro: String::from_str("4/4"),
        battito: String::from_str("1"),
    };
    proof {
        assert(rb_tempo_matches(tempo, tr0.technical_info));
    }
    let mut values: Vec<TrackContent> = Vec::new();
    values.push(TrackContent::Tempo(tempo));
    let mut ci: usize = 0;
    proof {
        assert(tr0.cues@.take(0) =~= Seq::<RawCue>::empty());
        assert(spec_projected_cues(tr0.cues@.take(0)) =~= Seq::<(Seq<char>, i64)>::empty());
    }
    while ci < mixxx_track.cues.len()
        invariant
            ci <= tr0.cues@.len(),
            mixxx_track.cues@ == tr0.cues@,
            mixxx_track.technical_info == tr0.technical_info,
            values@.len() == 1 + spec_projected_cues(tr0.cues@.take(ci as int)).len(),
            (match values@[0] {
                TrackContent::Tempo(tp) => rb_tempo_matches(tp, tr0.technical_info),
                TrackContent::Cue(_) => false,
            }),
            forall|k: int|
                0 <= k < spec_projected_cues(tr0.cues@.take(ci as int)).len() ==> (match #[trigger] values@[k
                    + 1] {
                    TrackContent::Cue(c) => rb_cue_matches(
                        c,
                        spec_projected_cues(tr0.cues@.take(ci as int))[k],
                    ),
                    TrackContent::Tempo(_) => false,
                }),
        decreases tr0.cues@.len() - ci,
    {
        let cue_type: i64 = mixxx_track.cues[ci].cue_type;
        let hotcue: i64 = mixxx_track.cues[ci].hotcue;
        let position: i64 = mixxx_track.cues[ci].position;
        proof {
            lemma_projected_cues_push(tr0.cues@.take(ci as int), tr0.cues@[ci as int]);
            assert(tr0.cues@.take(ci + 1) =~= tr0.cues@.take(ci as int).push(tr0.cues@[ci as int]));
        }
        if cue_type == 1 && hotcue >= 0 {
            let offset = convert_mixxx_position(position, CUE_POSITION_RATE);
            let start_text = format_seconds(&offset);
            let rb = Cue::new(String::new(), start_text, hotcue);
            proof {
                assert(rb_cue_matches(rb, cue_model(tr0.cues@[ci as int])));
            }
            values.push(TrackContent::Cue(rb));
        }
        ci += 1;
    }
    proof {
        assert(tr0.cues@.take(tr0.cues@.len() as int) =~= tr0.cues@);
    }
    let location = match get_track_location(config, mixxx_track.location) {
        Ok(url) => url,
        Err(e) => {
            return Err(e);
        },
    };
    let kind = match TrackKind::try_from_string(mixxx_track.filetype.as_str()) {
        Some(k) => k,
        None => {
            return Err(
                ExportError::UnsupportedFileType {
                    track_id: mixxx_track.id,
                    filetype: mixxx_track.filetype,
                },
            );
        },
    };
    let total_time: u32 = {
        let q: u64 = mixxx_track.technical_info.duration_ms / 1000;
        if q > (u32::MAX as u64) {
            u32::MAX
        } else {
            q as u32
        }
    };
    let year: String = match parse_u16(mixxx_track.year.as_str()) {
        Some(v) => u64_to_dec(v as u64),
        None => String::new(),
    };
    let tonality = String::from_str(translate_key(mixxx_track.technical_info.key.as_str()));
    let track = Track {
        track_id: usize_to_dec(mixxx_track.id),
        name: mixxx_track.title,
        artist: mixxx_track.artist,
        composer: mixxx_track.composer,
        album: match mixxx_track.album {
            Some(a) => a,
            None => String::new(),
        },
        grouping: String::new(),
        genre: match mixxx_track.genre {
            Some(g) => g,
            None => String::new(),
        },
        kind,
        size: String::from_str("0"),
        total_time,
        disc_number: 1,
        track_number: match mixxx_track.tracknumber {
            Some(n) => n,
            None => String::new(),
        },
        year,
        average_bpm: format_milli(mixxx_track.technical_info.bpm_milli),
        date_added: format_date(&mixxx_track.metadata.datetime_added),
        bit_rate: mixxx_track.technical_info.bitrate,
        sample_rate: mixxx_track.technical_info.samplerate,
        comments: match mixxx_track.comment {
            Some(c) => c,
            None => String::new(),
        },
        play_count: mixxx_track.metadata.timesplayed,
        rating: translate_rating(mixxx_track.metadata.rating),
        location,
        remixer: String::new(),
        tonality,
        label: String::new(),
        mix: String::new(),
        values,
    };
    proof {
        reveal_strlit("0");
        assert(track_converted(track, *config, tr0));
    }
    Ok(track)
}


/// The exported playlist models of a playlist list: one `(name, members)`
/// pair per non-hidden playlist, in order.
pub open spec fn spec_proj_playlists(ps: Seq<MixxxPlaylist>) -> Seq<(Seq<char>, Seq<usize>)>
    decreases ps.len(),
{
    if ps.len() == 0 {
        Seq::empty()
    } else {
        (if !ps[0].hidden {
            seq![(ps[0].name@, ps[0].track_ids@)]
        } else {
            Seq::empty()
        }) + spec_proj_playlists(ps.drop_first())
    }
}

/// The exported playlist models of a crate list: one `(name, members)`
/// pair per non-hidden crate, in order.
pub open spec fn spec_proj_crates(cs: Seq<MixxxCrate>) -> Seq<(Seq<char>, Seq<usize>)>
    decreases cs.len(),
{
    if cs.len() == 0 {
        Seq::empty()
    } else {
        (if !cs[0].hidden {
            seq![(cs[0].name@, cs[0].track_ids@)]
        } else {
            Seq::empty()
        }) + spec_proj_crates(cs.drop_first())
    }
}

proof fn lemma_proj_playlists_push(ps: Seq<MixxxPlaylist>, p: MixxxPlaylist)
    ensures
        spec_proj_playlists(ps.push(p)) == spec_proj_playlists(ps) + (if !p.hidden {
            seq![(p.name@, p.track_ids@)]
        } else {
            Seq::<(Seq<char>, Seq<usize>)>::empty()
        }),
    decreases ps.len(),
{
    if ps.len() == 0 {
        assert(ps =~= Seq::<MixxxPlaylist>::empty());
        assert(spec_proj_playlists(Seq::<MixxxPlaylist>::empty()) =~= Seq::<(
            Seq<char>,
            Seq<usize>,
        )>::empty());
        assert(ps.push(p)[0] == p);
        assert(ps.push(p).drop_first() =~= Seq::<MixxxPlaylist>::empty());
        assert(spec_proj_playlists(ps.push(p)) =~= spec_proj_playlists(ps) + (if !p.hidden {
            seq![(p.name@, p.track_ids@)]
        } else {
            Seq::<(Seq<char>, Seq<usize>)>::empty()
        }));
    } else {
        lemma_proj_playlists_push(ps.drop_first(), p);
        assert(ps.push(p).drop_first() =~= ps.drop_first().push(p));
        assert(ps.push(p)[0] == ps[0]);
        assert(spec_proj_playlists(ps.push(p)) =~= spec_proj_playlists(ps) + (if !p.hidden {
            seq![(p.name@, p.track_ids@)]
        } else {
            Seq::<(Seq<char>, Seq<usize>)>::empty()
        }));
    }
}

proof fn lemma_proj_crates_push(cs: Seq<MixxxCrate>, c: MixxxCrate)
    ensures
        spec_proj_crates(cs.push(c)) == spec_proj_crates(cs) + (if !c.hidden {
            seq![(c.name@, c.track_ids@)]
        } else {
            Seq::<(Seq<char>, Seq<usize>)>::empty()
        }),
    decreases cs.len(),
{
    if cs.len() == 0 {
        assert(cs =~= Seq::<MixxxCrate>::empty());
        assert(spec_proj_crates(Seq::<MixxxCrate>::empty()) =~= Seq::<(
            Seq<char>,
            Seq<usize>,
        )>::empty());
        assert(cs.push(c)[0] == c);
        assert(cs.push(c).drop_first() =~= Seq::<MixxxCrate>::empty());
        assert(spec_proj_crates(cs.push(c)) =~= spec_proj_crates(cs) + (if !c.hidden {
            seq![(c.name@, c.track_ids@)]
        } else {
            Seq::<(Seq<char>, Seq<usize>)>::empty()
        }));
    } else {
        lemma_proj_crates_push(cs.drop_first(), c);
        assert(cs.push(c).drop_first() =~= cs.drop_first().push(c));
        assert(cs.push(c)[0] == cs[0]);
        assert(spec_proj_crates(cs.push(c)) =~= spec_proj_crates(cs) + (if !c.hidden {
            seq![(c.name@, c.track_ids@)]
        } else {
            Seq::<(Seq<char>, Seq<usize>)>::empty()
        }));
    }
}

/// Whether some non-hidden playlist is literally named `all`.
pub open spec fn has_all_playlist(ps: Seq<MixxxPlaylist>) -> bool {
    exists|i: int| 0 <= i < ps.len() && !(#[trigger] ps[i]).hidden && ps[i].name@ == "all"@
}

/// The track identifiers of the library, in its canonical iteration order.
pub open spec fn spec_track_ids(ts: Seq<MixxxTrack>) -> Seq<usize> {
    Seq::new(ts.len(), |i: int| ts[i].id)
}

/// Every playlist model of the export, in order: the non-hidden playlists,
/// then — only when no non-hidden playlist is literally named `all` — a
/// synthesized `all` playlist reaching every track, then the non-hidden
/// crates.
pub open spec fn spec_playlist_models(lib: MixxxLibrary) -> Seq<(Seq<char>, Seq<usize>)> {
    spec_proj_playlists(lib.playlists@) + (if has_all_playlist(lib.playlists@) {
        Seq::<(Seq<char>, Seq<usize>)>::empty()
    } else {
        seq![("all"@, spec_track_ids(lib.tracks@))]
    }) + spec_proj_crates(lib.crates@)
}

/// How a projected playlist node relates to its model: the fixed node and
/// key types, the name, and one track reference per member, in order.
pub open spec fn rb_playlist_matches(p: Playlist, m: (Seq<char>, Seq<usize>)) -> bool {
    p.node_type == 1 && p.key_type == 0 && p.name@ == m.0 && p.entries == m.1.len()
        && p.tracks@.len() == m.1.len() && (forall|k: int|
        0 <= k < m.1.len() ==> (#[trigger] p.tracks@[k]).key == m.1[k])
}

/// Pointwise correspondence of projected playlist nodes and their models.
pub open spec fn models_match(ps: Seq<Playlist>, ms: Seq<(Seq<char>, Seq<usize>)>) -> bool {
    ps.len() == ms.len() && (forall|k: int|
        0 <= k < ms.len() ==> rb_playlist_matches(#[trigger] ps[k], ms[k]))
}

/// Every track of the library projects without error.
pub open spec fn all_tracks_convert(config: Config, ts: Seq<MixxxTrack>) -> bool {
    forall|i: int| 0 <= i < ts.len() ==> spec_convert_err(config, #[trigger] ts[i]) is None
}

/// `e` is the error of the first track that fails to project.
pub open spec fn tracks_convert_first_err(
    config: Config,
    ts: Seq<MixxxTrack>,
    e: ExportError,
) -> bool {
    exists|i: int|
        0 <= i < ts.len() && spec_convert_err(config, #[trigger] ts[i]) == Some(e) && (forall|
            j: int,
        |
            0 <= j < i ==> spec_convert_err(config, #[trigger] ts[j]) is None)
}

/// Builds the track-reference nodes of one playlist.
#[verifier::loop_isolation(false)]
fn playlist_tracks_from_ids(ids: &Vec<usize>) -> (pts: Vec<PlaylistTrack>)
    ensures
        pts@.len() == ids@.len(),
        forall|k: int| 0 <= k < ids@.len() ==> (#[trigger] pts@[k]).key == ids@[k],
{
    let mut pts: Vec<PlaylistTrack> = Vec::new();
    let mut k: usize = 0;
    while k < ids.len()
        invariant
            k <= ids@.len(),
            pts@.len() == k,
            forall|j: int| 0 <= j < k ==> (#[trigger] pts@[j]).key == ids@[j],
        decreases ids@.len() - k,
    {
        pts.push(PlaylistTrack::new(ids[k]));
        k += 1;
    }
    pts
}

/// Projects the whole normalized library into the Rekordbox tree: one
/// track node per track in identifier order, then one playlist node per
/// non-hidden playlist, the synthesized `all` playlist when no playlist of
/// that name exists, and one playlist node per non-hidden crate (the
/// target format has no crate concept).  The first track that fails to
/// project aborts the run.
///
/// A playlist or crate member identifier with no matching track is carried
/// through unchanged rather than dropped or rejected: the dangling
/// reference is left for the target program to resolve, and never aborts
/// the export.
#[verifier::rlimit(100)]
#[verifier::loop_isolation(false)]
pub fn mixxx_to_rekordbox(config: &Config, mixxx_library: MixxxLibrary) -> (r: Result<
    Library,
    ExportError,
>)
    requires
        forall|i: int|
            0 <= i < mixxx_library.tracks@.len() ==> (#[trigger] mixxx_library.tracks@[i])
                .metadata.datetime_added.wf(),
    ensures
        match r {
            Ok(out) => {
                &&& all_tracks_convert(*config, mixxx_library.tracks@)
                &&& out.version@ == "1.0.0"@
                &&& product_is_default(out.product)
                &&& out.tracks.entries == mixxx_library.tracks@.len()
                &&& out.tracks.tracks@.len() == mixxx_library.tracks@.len()
                &&& (forall|i: int|
                    0 <= i < mixxx_library.tracks@.len() ==> track_converted(
                        #[trigger] out.tracks.tracks@[i],
                        *config,
                        mixxx_library.tracks@[i],
                    ))
                &&& out.playlists.playlists_root.node_type == 0
                &&& out.playlists.playlists_root.name@ == "ROOT"@
                &&& out.playlists.playlists_root.count == spec_playlist_models(mixxx_library).len()
                &&& models_match(
                    out.playlists.playlists_root.playlists@,
                    spec_playlist_models(mixxx_library),
                )
            },
            Err(e) => tracks_convert_first_err(*config, mixxx_library.tracks@, e),
        },
{
    let ghost lib0 = mixxx_library;
    let MixxxLibrary { tracks, playlists, crates } = mixxx_library;
    // The member list of the synthesized playlist: every track identifier,
    // in library iteration order, collected before the tracks are consumed.
    let mut all_ids: Vec<usize> = Vec::new();
    let mut ti: usize = 0;
    while ti < tracks.len()
        invariant
            ti <= tracks@.len(),
            tracks@ == lib0.tracks@,
            all_ids@.len() == ti,
            forall|j: int| 0 <= j < ti ==> all_ids@[j] == lib0.tracks@[j].id,
        decreases tracks@.len() - ti,
    {
        let id: usize = tracks[ti].id;
        all_ids.push(id);
        ti += 1;
    }
    proof {
        assert(all_ids@ =~= spec_track_ids(lib0.tracks@));
    }
    // Go through all mixxx tracks and create the respective rekordbox
    // tracks.
    let mut rb_tracks: Vec<Track> = Vec::new();
    let mut rest_t = tracks;
    loop
        invariant
            lib0.tracks@.len() >= rest_t@.len(),
            rest_t@ == lib0.tracks@.skip(lib0.tracks@.len() - rest_t@.len()),
            rb_tracks@.len() == lib0.tracks@.len() - rest_t@.len(),
            forall|i: int|
                0 <= i < rb_tracks@.len() ==> spec_convert_err(
                    *config,
                    #[trigger] lib0.tracks@[i],
                ) is None,
            forall|i: int|
                0 <= i < rb_tracks@.len() ==> track_converted(
                    #[trigger] rb_tracks@[i],
                    *config,
                    lib0.tracks@[i],
                ),
        decreases rest_t@.len(),
    {
        if rest_t.len() == 0 {
            break ;
        }
        let ghost k = lib0.tracks@.len() - rest_t@.len();
        let t = rest_t.remove(0);
        proof {
            assert(t == lib0.tracks@[k]);
            assert(rest_t@ =~= lib0.tracks@.skip(k + 1));
        }
        let rb = match convert_track(config, t) {
            Ok(rb) => rb,
            Err(e) => {
                proof {
                    assert(tracks_convert_first_err(*config, lib0.tracks@, e));
                }
                return Err(e);
            },
        };
        rb_tracks.push(rb);
    }
    // Go through all playlists and create respective rekordbox playlists,
    // skipping hidden ones and watching for one literally named `all`.
    let mut rb_playlists: Vec<Playlist> = Vec::new();
    let mut all_exists = false;
    let mut rest_p = playlists;
    proof {
        assert(lib0.playlists@.take(0) =~= Seq::<MixxxPlaylist>::empty());
        assert(spec_proj_playlists(lib0.playlists@.take(0)) =~= Seq::<(
            Seq<char>,
            Seq<usize>,
        )>::empty());
    }
    loop
        invariant
            lib0.playlists@.len() >= rest_p@.len(),
            rest_p@ == lib0.playlists@.skip(lib0.playlists@.len() - rest_p@.len()),
            all_exists == has_all_playlist(
                lib0.playlists@.take(lib0.playlists@.len() - rest_p@.len()),
            ),
            models_match(
                rb_playlists@,
                spec_proj_playlists(lib0.playlists@.take(lib0.playlists@.len() - rest_p@.len())),
            ),
        decreases rest_p@.len(),
    {
        if rest_p.len() == 0 {
            break ;
        }
        let ghost k = lib0.playlists@.len() - rest_p@.len();
        let ghost prefix = lib0.playlists@.take(k);
        let p = rest_p.remove(0);
        proof {
            assert(p == lib0.playlists@[k]);
            assert(rest_p@ =~= lib0.playlists@.skip(k + 1));
            lemma_proj_playlists_push(prefix, p);
            assert(lib0.playlists@.take(k + 1) =~= prefix.push(p));
            assert(has_all_playlist(lib0.playlists@.take(k + 1)) == (has_all_playlist(prefix) || (
            !p.hidden && p.name@ == "all"@))) by {
                if has_all_playlist(prefix) {
                    let i = choose|i: int|
                        0 <= i < prefix.len() && !(#[trigger] prefix[i]).hidden && prefix[i].name@
                            == "all"@;
                    assert(lib0.playlists@.take(k + 1)[i] == prefix[i]);
                }
                if !p.hidden && p.name@ == "all"@ {
                    assert(lib0.playlists@.take(k + 1)[k] == p);
                }
                if has_all_playlist(lib0.playlists@.take(k + 1)) {
                    let i = choose|i: int|
                        0 <= i < k + 1 && !(#[trigger] lib0.playlists@.take(k + 1)[i]).hidden
                            && lib0.playlists@.take(k + 1)[i].name@ == "all"@;
                    if i < k {
                        assert(prefix[i] == lib0.playlists@.take(k + 1)[i]);
                    } else {
                        assert(lib0.playlists@.take(k + 1)[k] == p);
                    }
                }
            }
        }
        if !p.hidden {
            if str_eq(p.name.as_str(), "all") {
                all_exists = true;
            }
            let pts = playlist_tracks_from_ids(&p.track_ids);
            let ghost name_view = p.name@;
            let ghost ids_view = p.track_ids@;
            let node = Playlist::new(p.name, pts);
            proof {
                assert(rb_playlist_matches(node, (name_view, ids_view)));
            }
            let ghost old_nodes = rb_playlists@;
            rb_playlists.push(node);
            proof {
                let ms = spec_proj_playlists(lib0.playlists@.take(k + 1));
                assert(ms =~= spec_proj_playlists(prefix).push((name_view, ids_view)));
                assert forall|j: int| 0 <= j < ms.len() implies rb_playlist_matches(
                    #[trigger] rb_playlists@[j],
                    ms[j],
                ) by {
                    if j < old_nodes.len() {
                        assert(rb_playlists@[j] == old_nodes[j]);
                        assert(ms[j] == spec_proj_playlists(prefix)[j]);
                    } else {
                        assert(rb_playlists@[j] == node);
                        assert(ms[j] == (name_view, ids_view));
                    }
                }
            }
        } else {
            proof {
                assert(spec_proj_playlists(lib0.playlists@.take(k + 1)) =~= spec_proj_playlists(
                    prefix,
                ));
            }
        }
    }
    proof {
        assert(lib0.playlists@.take(lib0.playlists@.len() as int) =~= lib0.playlists@);
    }
    // Create a playlist that contains all tracks, if none is named `all`.
    if !all_exists {
        let pts = playlist_tracks_from_ids(&all_ids);
        let name = String::from_str("all");
        let node = Playlist::new(name, pts);
        proof {
            assert(rb_playlist_matches(node, ("all"@, spec_track_ids(lib0.tracks@))));
        }
        let ghost old_nodes = rb_playlists@;
        rb_playlists.push(node);
        proof {
            let ms = spec_proj_playlists(lib0.playlists@) + seq![
                ("all"@, spec_track_ids(lib0.tracks@)),
            ];
            assert(ms =~= spec_proj_playlists(lib0.playlists@).push(
                ("all"@, spec_track_ids(lib0.tracks@)),
            ));
            assert forall|j: int| 0 <= j < ms.len() implies rb_playlist_matches(
                #[trigger] rb_playlists@[j],
                ms[j],
            ) by {
                if j < old_nodes.len() {
                    assert(rb_playlists@[j] == old_nodes[j]);
                    assert(ms[j] == spec_proj_playlists(lib0.playlists@)[j]);
                } else {
                    assert(rb_playlists@[j] == node);
                }
            }
        }
    }
    let ghost mid = spec_proj_playlists(lib0.playlists@) + (if has_all_playlist(lib0.playlists@) {
        Seq::<(Seq<char>, Seq<usize>)>::empty()
    } else {
        seq![("all"@, spec_track_ids(lib0.tracks@))]
    });
    proof {
        if has_all_playlist(lib0.playlists@) {
            assert(mid =~= spec_proj_playlists(lib0.playlists@));
        }
        assert(models_match(rb_playlists@, mid));
        assert(spec_proj_crates(lib0.crates@.take(0)) =~= Seq::<(Seq<char>, Seq<usize>)>::empty());
        assert(mid + spec_proj_crates(lib0.crates@.take(0)) =~= mid);
    }
    // Rekordbox doesn't have the concept of crates, which is why they
    // become normal playlists as well.
    let mut rest_c = crates;
    loop
        invariant
            lib0.crates@.len() >= rest_c@.len(),
            rest_c@ == lib0.crates@.skip(lib0.crates@.len() - rest_c@.len()),
            models_match(
                rb_playlists@,
                mid + spec_proj_crates(lib0.crates@.take(lib0.crates@.len() - rest_c@.len())),
            ),
        decreases rest_c@.len(),
    {
        if rest_c.len() == 0 {
            break ;
        }
        let ghost k = lib0.crates@.len() - rest_c@.len();
        let ghost prefix = lib0.crates@.take(k);
        let c = rest_c.remove(0);
        proof {
            assert(c == lib0.crates@[k]);
            assert(rest_c@ =~= lib0.crates@.skip(k + 1));
            lemma_proj_crates_push(prefix, c);
            assert(lib0.crates@.take(k + 1) =~= prefix.push(c));
        }
        if !c.hidden {
            let pts = playlist_tracks_from_ids(&c.track_ids);
            let ghost name_view = c.name@;
            let ghost ids_view = c.track_ids@;
            let node = Playlist::new(c.name, pts);
            proof {
                assert(rb_playlist_matches(node, (name_view, ids_view)));
            }
            let ghost old_nodes = rb_playlists@;
            rb_playlists.push(node);
            proof {
                let ms = mid + spec_proj_crates(lib0.crates@.take(k + 1));
                assert(ms =~= (mid + spec_proj_crates(prefix)).push((name_view, ids_view)));
                assert forall|j: int| 0 <= j < ms.len() implies rb_playlist_matches(
                    #[trigger] rb_playlists@[j],
                    ms[j],
                ) by {
                    if j < old_nodes.len() {
                        assert(rb_playlists@[j] == old_nodes[j]);
                        assert(ms[j] == (mid + spec_proj_crates(prefix))[j]);
                    } else {
                        assert(rb_playlists@[j] == node);
                        assert(ms[j] == (name_view, ids_view));
                    }
                }
            }
        } else {
            proof {
                assert(spec_proj_crates(lib0.crates@.take(k + 1)) =~= spec_proj_crates(prefix));
                assert(mid + spec_proj_crates(lib0.crates@.take(k + 1)) =~= mid + spec_proj_crates(
                    prefix,
                ));
            }
        }
    }
    proof {
        assert(lib0.crates@.take(lib0.crates@.len() as int) =~= lib0.crates@);
        assert(mid + spec_proj_crates(lib0.crates@) =~= spec_playlist_models(lib0));
    }
    let collection = Tracks::new(rb_tracks);
    let playlists_node = Playlists::new(rb_playlists);
    let out = Library::new(collection, playlists_node);
    proof {
        assert(lib0.tracks@.skip(0) =~= lib0.tracks@);
    }
    Ok(out)
}

/// Hidden playlists and crates never appear in the projection, and the
/// synthesized `all` playlist appears exactly when no non-hidden playlist
/// is literally named `all`: for any name, the projected nodes carrying it
/// are the non-hidden playlists with that name, one synthesized entry when
/// the name is `all` and none was present, and the non-hidden crates with
/// that name.
pub open spec fn count_model_names(ms: Seq<(Seq<char>, Seq<usize>)>, name: Seq<char>) -> nat
    decreases ms.len(),
{
    if ms.len() == 0 {
        0
    } else {
        ((if ms[0].0 == name {
            1int
        } else {
            0int
        }) + count_model_names(ms.drop_first(), name)) as nat
    }
}

/// How many non-hidden playlists carry `name`.
pub open spec fn count_playlist_names(ps: Seq<MixxxPlaylist>, name: Seq<char>) -> nat
    decreases ps.len(),
{
    if ps.len() == 0 {
        0
    } else {
        ((if !ps[0].hidden && ps[0].name@ == name {
            1int
        } else {
            0int
        }) + count_playlist_names(ps.drop_first(), name)) as nat
    }
}

/// How many non-hidden crates carry `name`.
pub open spec fn count_crate_names(cs: Seq<MixxxCrate>, name: Seq<char>) -> nat
    decreases cs.len(),
{
    if cs.len() == 0 {
        0
    } else {
        ((if !cs[0].hidden && cs[0].name@ == name {
            1int
        } else {
            0int
        }) + count_crate_names(cs.drop_first(), name)) as nat
    }
}

proof fn lemma_count_model_names_concat(
    a: Seq<(Seq<char>, Seq<usize>)>,
    b: Seq<(Seq<char>, Seq<usize>)>,
    name: Seq<char>,
)
    ensures
        count_model_names(a + b, name) == count_model_names(a, name) + count_model_names(b, name),
    decreases a.len(),
{
    if a.len() == 0 {
        assert(a + b =~= b);
    } else {
        lemma_count_model_names_concat(a.drop_first(), b, name);
        assert((a + b).drop_first() =~= a.drop_first() + b);
        assert((a + b)[0] == a[0]);
    }
}

proof fn lemma_proj_playlists_name_count(ps: Seq<MixxxPlaylist>, name: Seq<char>)
    ensures
        count_model_names(spec_proj_playlists(ps), name) == count_playlist_names(ps, name),
    decreases ps.len(),
{
    if ps.len() > 0 {
        lemma_proj_playlists_name_count(ps.drop_first(), name);
        if !ps[0].hidden {
            let s = spec_proj_playlists(ps);
            assert(s == seq![(ps[0].name@, ps[0].track_ids@)] + spec_proj_playlists(
                ps.drop_first(),
            ));
            assert(s[0] == (ps[0].name@, ps[0].track_ids@));
            assert(s.drop_first() =~= spec_proj_playlists(ps.drop_first()));
        } else {
            assert(spec_proj_playlists(ps) =~= spec_proj_playlists(ps.drop_first()));
        }
    }
}

proof fn lemma_proj_crates_name_count(cs: Seq<MixxxCrate>, name: Seq<char>)
    ensures
        count_model_names(spec_proj_crates(cs), name) == count_crate_names(cs, name),
    decreases cs.len(),
{
    if cs.len() > 0 {
        lemma_proj_crates_name_count(cs.drop_first(), name);
        if !cs[0].hidden {
            let s = spec_proj_crates(cs);
            assert(s == seq![(cs[0].name@, cs[0].track_ids@)] + spec_proj_crates(cs.drop_first()));
            assert(s[0] == (cs[0].name@, cs[0].track_ids@));
            assert(s.drop_first() =~= spec_proj_crates(cs.drop_first()));
        } else {
            assert(spec_proj_crates(cs) =~= spec_proj_crates(cs.drop_first()));
        }
    }
}

/// For every name, the projected playlist nodes carrying it are exactly
/// the non-hidden playlists with that name, plus one synthesized entry
/// when the name is `all` and no non-hidden playlist carries it, plus the
/// non-hidden crates with that name.  In particular a hidden playlist or
/// crate contributes nothing.
pub proof fn lemma_projected_playlist_names(lib: MixxxLibrary, name: Seq<char>)
    ensures
        count_model_names(spec_playlist_models(lib), name) == count_playlist_names(
            lib.playlists@,
            name,
        ) + (if !has_all_playlist(lib.playlists@) && name == "all"@ {
            1int
        } else {
            0int
        }) + count_crate_names(lib.crates@, name),
{
    let a = spec_proj_playlists(lib.playlists@);
    let m = if has_all_playlist(lib.playlists@) {
        Seq::<(Seq<char>, Seq<usize>)>::empty()
    } else {
        seq![("all"@, spec_track_ids(lib.tracks@))]
    };
    let c = spec_proj_crates(lib.crates@);
    lemma_count_model_names_concat(a + m, c, name);
    lemma_count_model_names_concat(a, m, name);
    lemma_proj_playlists_name_count(lib.playlists@, name);
    lemma_proj_crates_name_count(lib.crates@, name);
    if has_all_playlist(lib.playlists@) {
        assert(count_model_names(m, name) == 0);
    } else {
        assert(m[0] == ("all"@, spec_track_ids(lib.tracks@)));
        assert(m.drop_first() =~= Seq::<(Seq<char>, Seq<usize>)>::empty());
        assert(count_model_names(m.drop_first(), name) == 0);
    }
}

/// When no non-hidden playlist is named `all`, the projection holds a
/// synthesized `all` playlist right after the playlists, whose members are
/// every track identifier exactly once, in library iteration order.
pub proof fn lemma_all_tracks_playlist(lib: MixxxLibrary)
    requires
        lib.wf(),
        !has_all_playlist(lib.playlists@),
    ensures
        spec_playlist_models(lib).len() == spec_proj_playlists(lib.playlists@).len() + 1
            + spec_proj_crates(lib.crates@).len(),
        spec_playlist_models(lib)[spec_proj_playlists(lib.playlists@).len() as int] == (
        "all"@,
        spec_track_ids(lib.tracks@),
        ),
        spec_track_ids(lib.tracks@).len() == lib.tracks@.len(),
        forall|a: int, b: int|
            0 <= a < b < lib.tracks@.len() ==> spec_track_ids(lib.tracks@)[a] != spec_track_ids(
                lib.tracks@,
            )[b],
{
}

/// When a non-hidden playlist is already named `all`, nothing is
/// synthesized: the projection holds exactly the non-hidden playlists and
/// crates.
pub proof fn lemma_no_synthetic_all(lib: MixxxLibrary)
    requires
        has_all_playlist(lib.playlists@),
    ensures
        spec_playlist_models(lib) =~= spec_proj_playlists(lib.playlists@) + spec_proj_crates(
            lib.crates@,
        ),
{
}

} // verus!
