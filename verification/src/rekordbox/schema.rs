//! The Rekordbox tree schema: the attribute-bearing node types that the
//! external XML marshaller serializes, together with the fixed value
//! translation tables (musical key notation, star rating, file kind).

use vstd::prelude::*;

verus! {

/// The root of the exported tree.
#[derive(Clone, Debug, PartialEq, Eq)]
pub struct Library {
    pub version: String,
    pub product: Product,
    pub tracks: Tracks,
    pub playlists: Playlists,
}

impl Library {
    /// Assembles the tree root around a collection and a playlists node.
    pub fn new(tracks: Tracks, playlists: Playlists) -> (r: Library)
        ensures
            r.version@ == "1.0.0"@,
            product_is_default(r.product),
            r.tracks == tracks,
            r.playlists == playlists,
    {
        Library { version: String::from_str("1.0.0"), product: Product::default(), tracks, playlists }
    }
}

/// The fixed product descriptor of the target program.
#[derive(Clone, Debug, PartialEq, Eq)]
pub struct Product {
    pub name: String,
    pub version: String,
    pub company: String,
}

/// The fixed descriptor values: name `rekordbox`, version `6.7.2`, company
/// `AlphaTheta`.
pub open spec fn product_is_default(p: Product) -> bool {
    p.name@ == "rekordbox"@ && p.version@ == "6.7.2"@ && p.company@ == "AlphaTheta"@
}

impl Default for Product {
    fn default() -> (r: Product)
        ensures
            product_is_default(r),
    {
        Product {
            name: String::from_str("rekordbox"),
            version: String::from_str("6.7.2"),
            company: String::from_str("AlphaTheta"),
        }
    }
}

/// The collection node: all tracks, with their count.
#[derive(Clone, Debug, PartialEq, Eq)]
pub struct Tracks {
    pub entries: usize,
    pub tracks: Vec<Track>,
}

impl Tracks {
    /// Wraps the track list, recording its length as the entry count.
    pub fn new(tracks: Vec<Track>) -> (r: Tracks)
        ensures
            r.entries == tracks@.len(),
            r.tracks == tracks,
    {
        let entries = tracks.len();
        Tracks { entries, tracks }
    }
}

/// A single track node of the collection.
#[derive(Clone, Debug, PartialEq, Eq)]
pub struct Track {
    pub track_id: String,
    pub name: String,
    pub artist: String,
    pub composer: String,
    pub album: String,
    pub grouping: String,
    pub genre: String,
    pub kind: TrackKind,
    pub size: String,
    pub total_time: u32,
    pub disc_number: u32,
    pub track_number: String,
    pub year: String,
    pub average_bpm: String,
    pub date_added: String,
    pub bit_rate: i64,
    pub sample_rate: i64,
    pub comments: String,
    pub play_count: i64,
    pub rating: u8,
    pub location: String,
    pub remixer: String,
    pub tonality: String,
    pub label: String,
    pub mix: String,
    /// The nested tempo and cue entries, tempo first.
    pub values: Vec<TrackContent>,
}

/// A child element of a track node.
#[derive(Clone, Debug, PartialEq, Eq)]
pub enum TrackContent {
    Tempo(Tempo),
    Cue(Cue),
}

/// The tempo entry of a track.
#[derive(Clone, Debug, PartialEq, Eq)]
pub struct Tempo {
    /// Start of the beat grid, in seconds, as decimal text.
    pub inizio: String,
    /// Tempo with exactly two digits after the point.
    pub bpm: String,
    /// Time signature; no source field exists, fixed at `4/4`.
    pub metro: String,
    /// Beat counter; no source field exists, fixed at `1`.
    pub battito: String,
}

/// A cue entry of a track.
#[derive(Clone, Debug, PartialEq, Eq)]
pub struct Cue {
    pub name: String,
    pub cue_type: u32,
    /// Offset in seconds as decimal text.
    pub start: String,
    /// Hot-cue slot number.
    pub num: i64,
    pub red: u8,
    pub green: u8,
    pub blue: u8,
}

impl Cue {
    /// Builds a cue entry with the fixed display color and type.
    pub fn new(name: String, start: String, num: i64) -> (r: Cue)
        ensures
            r.name == name,
            r.cue_type == 0,
            r.start == start,
            r.num == num,
            r.red == 40,
            r.green == 226,
            r.blue == 20,
    {
        Cue { name, cue_type: 0, start, num, red: 40, green: 226, blue: 20 }
    }
}

/// A string describing the type of audio file.
#[derive(Clone, Copy, Debug, PartialEq, Eq, Structural)]
pub enum TrackKind {
    Mp3,
    Flac,
}

/// The file-kind allow-list: `mp3` and `flac`, nothing else.  Unknown
/// extensions are a fatal condition at projection — a deliberately strict
/// policy, chosen over silently accepting unknown kinds, so that no track
/// reaches the target with a wrong kind label.
pub open spec fn spec_track_kind(filetype: Seq<char>) -> Option<TrackKind> {
    if filetype == "mp3"@ {
        Some(TrackKind::Mp3)
    } else if filetype == "flac"@ {
        Some(TrackKind::Flac)
    } else {
        None
    }
}

impl TrackKind {
    /// The file kind of an allow-listed extension.  Callers must have
    /// checked the extension: the original treats an unknown one as a
    /// fatal condition, and the projector rejects it first.
    pub fn from_string(filetype: String) -> (r: TrackKind)
        requires
            spec_track_kind(filetype@) is Some,
        ensures
            Some(r) == spec_track_kind(filetype@),
    {
        match Self::try_from_string(filetype.as_str()) {
            Some(k) => k,
            None => vstd::pervasive::unreached(),
        }
    }

    /// The file kind of an extension, `None` outside the allow-list.
    pub fn try_from_string(filetype: &str) -> (r: Option<TrackKind>)
        ensures
            r == spec_track_kind(filetype@),
    {
        if crate::text::str_eq(filetype, "mp3") {
            Some(TrackKind::Mp3)
        } else if crate::text::str_eq(filetype, "flac") {
            Some(TrackKind::Flac)
        } else {
            None
        }
    }
}

/// The fixed Camelot-wheel to Rekordbox key translation: twenty-four
/// entries, unmapped input yields the empty string.
pub open spec fn spec_translate_key(k: Seq<char>) -> Seq<char> {
    if k == "11B"@ {
        "A"@
    } else if k == "4B"@ {
        "Ab/G#"@
    } else if k == "8A"@ {
        "Am"@
    } else if k == "1B"@ {
        "B"@
    } else if k == "6B"@ {
        "Bb"@
    } else if k == "3A"@ {
        "Bbm/A#m"@
    } else if k == "10A"@ {
        "Bm"@
    } else if k == "8B"@ {
        "C"@
    } else if k == "12A"@ {
        "C#m/Dbm"@
    } else if k == "5A"@ {
        "Cm"@
    } else if k == "10B"@ {
        "D"@
    } else if k == "3B"@ {
        "Db"@
    } else if k == "7A"@ {
        "Dm"@
    } else if k == "12B"@ {
        "E"@
    } else if k == "5B"@ {
        "Eb/D#"@
    } else if k == "2A"@ {
        "Ebm"@
    } else if k == "9A"@ {
        "Em"@
    } else if k == "7B"@ {
        "F"@
    } else if k == "11A"@ {
        "F#m"@
    } else if k == "4A"@ {
        "Fm"@
    } else if k == "9B"@ {
        "G"@
    } else if k == "1A"@ {
        "G#m/Abm"@
    } else if k == "2B"@ {
        "Gb/F#"@
    } else if k == "6A"@ {
        "Gm"@
    } else {
        ""@
    }
}

/// Many programs use the Camelot wheel to categorize tonal keys.
/// Rekordbox uses its own notation, which this table maps to.
pub fn translate_key(mixxx_key: &str) -> (r: &'static str)
    ensures
        r@ == spec_translate_key(mixxx_key@),
{
    if crate::text::str_eq(mixxx_key, "11B") {
        "A"
    } else if crate::text::str_eq(mixxx_key, "4B") {
        "Ab/G#"
    } else if crate::text::str_eq(mixxx_key, "8A") {
        "Am"
    } else if crate::text::str_eq(mixxx_key, "1B") {
        "B"
    } else if crate::text::str_eq(mixxx_key, "6B") {
        "Bb"
    } else if crate::text::str_eq(mixxx_key, "3A") {
        "Bbm/A#m"
    } else if crate::text::str_eq(mixxx_key, "10A") {
        "Bm"
    } else if crate::text::str_eq(mixxx_key, "8B") {
        "C"
    } else if crate::text::str_eq(mixxx_key, "12A") {
        "C#m/Dbm"
    } else if crate::text::str_eq(mixxx_key, "5A") {
        "Cm"
    } else if crate::text::str_eq(mixxx_key, "10B") {
        "D"
    } else if crate::text::str_eq(mixxx_key, "3B") {
        "Db"
    } else if crate::text::str_eq(mixxx_key, "7A") {
        "Dm"
    } else if crate::text::str_eq(mixxx_key, "12B") {
        "E"
    } else if crate::text::str_eq(mixxx_key, "5B") {
        "Eb/D#"
    } else if crate::text::str_eq(mixxx_key, "2A") {
        "Ebm"
    } else if crate::text::str_eq(mixxx_key, "9A") {
        "Em"
    } else if crate::text::str_eq(mixxx_key, "7B") {
        "F"
    } else if crate::text::str_eq(mixxx_key, "11A") {
        "F#m"
    } else if crate::text::str_eq(mixxx_key, "4A") {
        "Fm"
    } else if crate::text::str_eq(mixxx_key, "9B") {
        "G"
    } else if crate::text::str_eq(mixxx_key, "1A") {
        "G#m/Abm"
    } else if crate::text::str_eq(mixxx_key, "2B") {
        "Gb/F#"
    } else if crate::text::str_eq(mixxx_key, "6A") {
        "Gm"
    } else {
        ""
    }
}

/// The six-point rating step table with clamping: ratings at or below zero
/// map to 0, ratings at or above five map to 255, and one star is worth 51.
pub open spec fn spec_translate_rating(r: int) -> u8 {
    if r <= 0 {
        0
    } else if r == 1 {
        51
    } else if r == 2 {
        102
    } else if r == 3 {
        153
    } else if r == 4 {
        204
    } else {
        255
    }
}

/// Rekordbox uses a byte based rating format.
pub fn translate_rating(rating: i64) -> (r: u8)
    ensures
        r == spec_translate_rating(rating as int),
{
    if rating <= 0 {
        0
    } else if rating == 1 {
        51
    } else if rating == 2 {
        102
    } else if rating == 3 {
        153
    } else if rating == 4 {
        204
    } else {
        255
    }
}

/// Rating translation is monotonic: a better rating never maps to a lower
/// byte value.
pub proof fn lemma_translate_rating_monotonic(a: int, b: int)
    requires
        a <= b,
    ensures
        spec_translate_rating(a) <= spec_translate_rating(b),
{
}

/// Re-applying the rating mapping to an already-mapped boundary rating
/// changes nothing: ratings clamped to 0 or 255 are fixed points of the
/// table.  (The middle star values are not: one star maps to byte 51,
/// which read back as a rating lies beyond five stars and clamps to 255.)
pub proof fn lemma_translate_rating_stable(r: int)
    requires
        r <= 0 || r >= 5,
    ensures
        spec_translate_rating(spec_translate_rating(r) as int) == spec_translate_rating(r),
{
}

/// The playlists node that contains the single root folder node.
#[derive(Clone, Debug, PartialEq, Eq)]
pub struct Playlists {
    pub playlists_root: PlaylistsRoot,
}

impl Playlists {
    /// Wraps the playlist nodes in the mandatory root folder node.
    pub fn new(playlists: Vec<Playlist>) -> (r: Playlists)
        ensures
            r.playlists_root.node_type == 0,
            r.playlists_root.name@ == "ROOT"@,
            r.playlists_root.count == playlists@.len(),
            r.playlists_root.playlists == playlists,
    {
        Playlists { playlists_root: PlaylistsRoot::new(playlists) }
    }
}

/// The representation of the "root folder".  This node must always exist
/// and is the very first node.
#[derive(Clone, Debug, PartialEq, Eq)]
pub struct PlaylistsRoot {
    pub node_type: u32,
    pub name: String,
    pub count: usize,
    pub playlists: Vec<Playlist>,
}

impl PlaylistsRoot {
    /// Builds the root folder node around the playlist nodes.
    pub fn new(playlists: Vec<Playlist>) -> (r: PlaylistsRoot)
        ensures
            r.node_type == 0,
            r.name@ == "ROOT"@,
            r.count == playlists@.len(),
            r.playlists == playlists,
    {
        let count = playlists.len();
        PlaylistsRoot { node_type: 0, name: String::from_str("ROOT"), count, playlists }
    }
}

/// The representation of a single playlist.  A playlist contains one
/// track-reference element per member, pointing into the collection.
#[derive(Clone, Debug, PartialEq, Eq)]
pub struct Playlist {
    pub node_type: u32,
    pub name: String,
    pub key_type: u32,
    pub entries: usize,
    pub tracks: Vec<PlaylistTrack>,
}

impl Playlist {
    /// Builds a playlist node, recording the member count.
    pub fn new(name: String, tracks: Vec<PlaylistTrack>) -> (r: Playlist)
        ensures
            r.node_type == 1,
            r.name == name,
            r.key_type == 0,
            r.entries == tracks@.len(),
            r.tracks == tracks,
    {
        let entries = tracks.len();
        Playlist { node_type: 1, name, key_type: 0, entries, tracks }
    }
}

/// A track reference inside a playlist node.
#[derive(Clone, Copy, Debug, PartialEq, Eq, Structural)]
pub struct PlaylistTrack {
    pub key: usize,
}

impl PlaylistTrack {
    /// Create a new track entry used inside a playlist declaration.  The
    /// `key` argument is the identifier of the referenced collection
    /// track.
    pub fn new(key: usize) -> (r: PlaylistTrack)
        ensures
            r.key == key,
    {
        PlaylistTrack { key }
    }
}

} // verus!
