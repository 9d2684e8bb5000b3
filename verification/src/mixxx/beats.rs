//! The beat-grid blob codec.
//!
//! Mixxx stores per-track beat analysis as a small binary message in the
//! protobuf wire format: an outer `BeatGrid` message holding an optional
//! `Bpm` sub-message (a double plus a provenance enum) and an optional
//! first-beat `Beat` sub-message (a signed frame position, an enabled flag
//! and a provenance enum).  The decoder below reads exactly that wire
//! format: little-endian base-128 varints of at most ten bytes, wire types
//! 0 (varint), 1 (eight bytes), 2 (length-delimited) and 5 (four bytes),
//! unknown fields skipped, repeated scalar fields last-wins, repeated
//! sub-messages merged field-wise, and anything else rejected.
//!
//! The decoded frame position is then corrected into a vendor-neutral time
//! offset by [`beatgrid_start`].

use vstd::prelude::*;

use crate::text::Seconds;

verus! {

/// A first-beat record of the beat-grid message.
#[derive(Clone, Copy, Debug, PartialEq, Eq, Structural)]
pub struct Beat {
    /// Field 1: position of the beat, in audio frames; may be negative.
    pub frame_position: Option<i32>,
    /// Field 2: whether the beat is enabled.
    pub enabled: Option<bool>,
    /// Field 3: raw provenance code, see [`Source`].
    pub source: Option<i32>,
}

/// A tempo record of the beat-grid message.
#[derive(Clone, Copy, Debug, PartialEq, Eq, Structural)]
pub struct Bpm {
    /// Field 1: the IEEE-754 bit pattern of the stored double.  The codec
    /// carries the bits through without interpreting them; the correction
    /// uses the tempo stored in the track row instead.
    pub bpm: Option<u64>,
    /// Field 2: raw provenance code, see [`Source`].
    pub source: Option<i32>,
}

/// A beat-map message: a list of individual beats.  Mixxx writes this shape
/// for its non-constant-tempo analysis; the converter does not read it, but
/// the shape is part of the stored schema.
#[derive(Clone, Debug, PartialEq, Eq)]
pub struct BeatMap {
    pub beat: Vec<Beat>,
}

/// The outer beat-grid message.
#[derive(Clone, Copy, Debug, PartialEq, Eq, Structural)]
pub struct BeatGrid {
    /// Field 1: the tempo record.
    pub bpm: Option<Bpm>,
    /// Field 2: the first-beat record.
    pub first_beat: Option<Beat>,
}

/// Provenance of a tempo or beat record.
#[derive(Clone, Copy, Debug, PartialEq, Eq, Structural)]
pub enum Source {
    Analyzer,
    FileMetadata,
    User,
}

/// The raw wire code of a provenance value.
pub open spec fn spec_source_code(s: Source) -> int {
    match s {
        Source::Analyzer => 0,
        Source::FileMetadata => 1,
        Source::User => 2,
    }
}

/// The field name of a provenance value.
pub open spec fn spec_source_str(s: Source) -> Seq<char> {
    match s {
        Source::Analyzer => "ANALYZER"@,
        Source::FileMetadata => "FILE_METADATA"@,
        Source::User => "USER"@,
    }
}

/// The provenance value of a field name, if any.
pub open spec fn spec_source_from_name(v: Seq<char>) -> Option<Source> {
    if v == "ANALYZER"@ {
        Some(Source::Analyzer)
    } else if v == "FILE_METADATA"@ {
        Some(Source::FileMetadata)
    } else if v == "USER"@ {
        Some(Source::User)
    } else {
        None
    }
}

impl Source {
    /// String value of the enum field names used in the stored schema.
    pub fn as_str_name(&self) -> (r: &'static str)
        ensures
            r@ == spec_source_str(*self),
    {
        match self {
            Source::Analyzer => "ANALYZER",
            Source::FileMetadata => "FILE_METADATA",
            Source::User => "USER",
        }
    }

    /// Creates an enum from field names used in the stored schema.
    pub fn from_str_name(value: &str) -> (r: Option<Source>)
        ensures
            r == spec_source_from_name(value@),
    {
        if crate::text::str_eq(value, "ANALYZER") {
            Some(Source::Analyzer)
        } else if crate::text::str_eq(value, "FILE_METADATA") {
            Some(Source::FileMetadata)
        } else if crate::text::str_eq(value, "USER") {
            Some(Source::User)
        } else {
            None
        }
    }
}

/// A malformed beat-grid blob: truncated data, an over-long or over-wide
/// varint, a bad wire type, or a known field with the wrong wire type.
#[derive(Clone, Copy, Debug, PartialEq, Eq, Structural)]
pub struct DecodeError;

/// Reads a base-128 varint at `pos`, composing the seven-bit groups least
/// significant first, with no limit on length or value.  Yields the value
/// and the position after it.
pub open spec fn spec_varint_raw(s: Seq<u8>, pos: int, end: int) -> Option<(nat, int)>
    decreases end - pos,
{
    if !(0 <= pos && pos < end && end <= s.len()) {
        None
    } else {
        let b = s[pos];
        if b < 0x80 {
            Some((b as nat, pos + 1))
        } else {
            match spec_varint_raw(s, pos + 1, end) {
                None => None,
                Some((v, p)) => Some((((b - 0x80) as nat + 128 * v) as nat, p)),
            }
        }
    }
}

/// A raw varint read stays inside `(pos, end]`.
pub proof fn lemma_varint_raw_bounds(s: Seq<u8>, pos: int, end: int)
    ensures
        spec_varint_raw(s, pos, end) matches Some(r) ==> pos < r.1 <= end,
    decreases end - pos,
{
    if 0 <= pos && pos < end && end <= s.len() {
        if s[pos] >= 0x80 {
            lemma_varint_raw_bounds(s, pos + 1, end);
        }
    }
}

/// Reads a varint as the wire format allows it: at most ten bytes, value
/// below two to the sixty-fourth.
pub open spec fn spec_varint(s: Seq<u8>, pos: int, end: int) -> Option<(u64, int)> {
    match spec_varint_raw(s, pos, end) {
        None => None,
        Some((v, p)) => if p - pos <= 10 && v < 0x1_0000_0000_0000_0000 {
            Some((v as u64, p))
        } else {
            None
        },
    }
}

/// A varint read stays inside `(pos, end]`.
pub proof fn lemma_varint_bounds(s: Seq<u8>, pos: int, end: int)
    ensures
        spec_varint(s, pos, end) matches Some(r) ==> pos < r.1 <= end,
{
    lemma_varint_raw_bounds(s, pos, end);
}

/// Reads a varint from `s` at `pos`, strictly below `end`.
fn read_varint(s: &[u8], pos: usize, end: usize) -> (r: Result<(u64, usize), DecodeError>)
    requires
        pos <= end <= s@.len(),
    ensures
        match r {
            Ok(v) => spec_varint(s@, pos as int, end as int) == Some((v.0, v.1 as int)) && pos
                < v.1 <= end,
            Err(_) => spec_varint(s@, pos as int, end as int) is None,
        },
    decreases end - pos,
{
    if pos >= end {
        return Err(DecodeError);
    }
    let b: u8 = s[pos];
    if b < 0x80 {
        Ok((b as u64, pos + 1))
    } else {
        match read_varint(s, pos + 1, end) {
            Err(e) => {
                proof {
                    lemma_varint_raw_bounds(s@, pos + 1, end as int);
                    match spec_varint_raw(s@, pos + 1, end as int) {
                        Some((v1, p1)) => {
                            // The suffix was a well-bounded raw read that the
                            // wire format rejects; the full read is rejected
                            // with it.
                            if p1 - (pos + 1) <= 10 && v1 < 0x1_0000_0000_0000_0000 {
                                assert(spec_varint(s@, pos + 1, end as int) is Some);
                            }
                        },
                        None => {},
                    }
                }
                Err(e)
            },
            Ok((v1, p1)) => {
                if p1 - pos > 10 {
                    return Err(DecodeError);
                }
                if v1 >= 0x0200_0000_0000_0000 {
                    proof {
                        assert((s@[pos as int] - 0x80) as nat + 128 * (v1 as nat)
                            >= 0x1_0000_0000_0000_0000);
                    }
                    return Err(DecodeError);
                }
                let value: u64 = ((b - 0x80) as u64) + 128 * v1;
                Ok((value, p1))
            },
        }
    }
}

/// The low 32 bits of `v` read as a two's-complement signed value; this is
/// how the wire format stores a signed 32-bit integer in a varint.
pub open spec fn wrap_i32(v: u64) -> i32 {
    let m = v % 0x1_0000_0000;
    if m < 0x8000_0000 {
        m as i32
    } else {
        (m - 0x1_0000_0000) as i32
    }
}

fn u64_low_i32(v: u64) -> (r: i32)
    ensures
        r == wrap_i32(v),
{
    let m: u64 = v % 0x1_0000_0000;
    if m < 0x8000_0000 {
        m as i32
    } else {
        ((m as i64) - 0x1_0000_0000) as i32
    }
}

/// The eight bytes at `pos` read as a little-endian 64-bit value; this is
/// how the wire format stores a double, whose bit pattern it is.
pub open spec fn spec_le64_at(s: Seq<u8>, pos: int) -> u64
    recommends
        0 <= pos,
        pos + 8 <= s.len(),
{
    ((s[pos] as int) + (s[pos + 1] as int) * 0x100 + (s[pos + 2] as int) * 0x1_0000 + (s[pos + 3]
        as int) * 0x100_0000 + (s[pos + 4] as int) * 0x1_0000_0000 + (s[pos + 5] as int)
        * 0x100_0000_0000 + (s[pos + 6] as int) * 0x1_0000_0000_0000 + (s[pos + 7] as int)
        * 0x100_0000_0000_0000) as u64
}

fn read_le64(s: &[u8], pos: usize) -> (r: u64)
    requires
        pos + 8 <= s@.len(),
    ensures
        r == spec_le64_at(s@, pos as int),
{
    (s[pos] as u64) + (s[pos + 1] as u64) * 0x100 + (s[pos + 2] as u64) * 0x1_0000 + (s[pos + 3]
        as u64) * 0x100_0000 + (s[pos + 4] as u64) * 0x1_0000_0000 + (s[pos + 5] as u64)
        * 0x100_0000_0000 + (s[pos + 6] as u64) * 0x1_0000_0000_0000 + (s[pos + 7] as u64)
        * 0x100_0000_0000_0000
}

/// The empty first-beat record, before any field is read.
pub open spec fn spec_beat_default() -> Beat {
    Beat { frame_position: None, enabled: None, source: None }
}

/// The empty tempo record, before any field is read.
pub open spec fn spec_bpm_default() -> Bpm {
    Bpm { bpm: None, source: None }
}

/// The empty beat-grid message, before any field is read.
pub open spec fn spec_grid_default() -> BeatGrid {
    BeatGrid { bpm: None, first_beat: None }
}

/// Whether a field key read from the wire has a field number the format
/// accepts: at least one and below two to the twenty-ninth.
pub open spec fn field_num_ok(field: u64) -> bool {
    1 <= field <= 0x1FFF_FFFF
}

/// Reads the fields of a first-beat record from `s[pos..end]` onto `acc`.
pub open spec fn spec_beat_fields(s: Seq<u8>, pos: int, end: int, acc: Beat) -> Option<Beat>
    decreases end - pos,
{
    if !(0 <= pos && pos <= end && end <= s.len()) {
        None
    } else if pos == end {
        Some(acc)
    } else {
        match spec_varint(s, pos, end) {
            None => None,
            Some((key, p1)) => {
                let field = key / 8;
                let wire = key % 8;
                proof {
                    lemma_varint_bounds(s, pos, end);
                }
                if !field_num_ok(field) {
                    None
                } else if wire == 0 {
                    match spec_varint(s, p1, end) {
                        None => None,
                        Some((v, p2)) => {
                            proof {
                                lemma_varint_bounds(s, p1, end);
                            }
                            let acc2 = if field == 1 {
                                Beat {
                                    frame_position: Some(wrap_i32(v)),
                                    enabled: acc.enabled,
                                    source: acc.source,
                                }
                            } else if field == 2 {
                                Beat {
                                    frame_position: acc.frame_position,
                                    enabled: Some(v != 0),
                                    source: acc.source,
                                }
                            } else if field == 3 {
                                Beat {
                                    frame_position: acc.frame_position,
                                    enabled: acc.enabled,
                                    source: Some(wrap_i32(v)),
                                }
                            } else {
                                acc
                            };
                            spec_beat_fields(s, p2, end, acc2)
                        },
                    }
                } else if field == 1 || field == 2 || field == 3 {
                    None
                } else if wire == 1 {
                    if p1 + 8 <= end {
                        spec_beat_fields(s, p1 + 8, end, acc)
                    } else {
                        None
                    }
                } else if wire == 2 {
                    match spec_varint(s, p1, end) {
                        None => None,
                        Some((len, p2)) => {
                            proof {
                                lemma_varint_bounds(s, p1, end);
                            }
                            if p2 + len <= end {
                                spec_beat_fields(s, p2 + len, end, acc)
                            } else {
                                None
                            }
                        },
                    }
                } else if wire == 5 {
                    if p1 + 4 <= end {
                        spec_beat_fields(s, p1 + 4, end, acc)
                    } else {
                        None
                    }
                } else {
                    None
                }
            },
        }
    }
}

/// Reads the fields of a tempo record from `s[pos..end]` onto `acc`.
pub open spec fn spec_bpm_fields(s: Seq<u8>, pos: int, end: int, acc: Bpm) -> Option<Bpm>
    decreases end - pos,
{
    if !(0 <= pos && pos <= end && end <= s.len()) {
        None
    } else if pos == end {
        Some(acc)
    } else {
        match spec_varint(s, pos, end) {
            None => None,
            Some((key, p1)) => {
                let field = key / 8;
                let wire = key % 8;
                proof {
                    lemma_varint_bounds(s, pos, end);
                }
                if !field_num_ok(field) {
                    None
                } else if field == 1 {
                    if wire == 1 && p1 + 8 <= end {
                        spec_bpm_fields(
                            s,
                            p1 + 8,
                            end,
                            Bpm { bpm: Some(spec_le64_at(s, p1)), source: acc.source },
                        )
                    } else {
                        None
                    }
                } else if field == 2 {
                    if wire == 0 {
                        match spec_varint(s, p1, end) {
                            None => None,
                            Some((v, p2)) => {
                                proof {
                                    lemma_varint_bounds(s, p1, end);
                                }
                                spec_bpm_fields(
                                    s,
                                    p2,
                                    end,
                                    Bpm { bpm: acc.bpm, source: Some(wrap_i32(v)) },
                                )
                            },
                        }
                    } else {
                        None
                    }
                } else if wire == 0 {
                    match spec_varint(s, p1, end) {
                        None => None,
                        Some((v, p2)) => {
                            proof {
                                lemma_varint_bounds(s, p1, end);
                            }
                            spec_bpm_fields(s, p2, end, acc)
                        },
                    }
                } else if wire == 1 {
                    if p1 + 8 <= end {
                        spec_bpm_fields(s, p1 + 8, end, acc)
                    } else {
                        None
                    }
                } else if wire == 2 {
                    match spec_varint(s, p1, end) {
                        None => None,
                        Some((len, p2)) => {
                            proof {
                                lemma_varint_bounds(s, p1, end);
                            }
                            if p2 + len <= end {
                                spec_bpm_fields(s, p2 + len, end, acc)
                            } else {
                                None
                            }
                        },
                    }
                } else if wire == 5 {
                    if p1 + 4 <= end {
                        spec_bpm_fields(s, p1 + 4, end, acc)
                    } else {
                        None
                    }
                } else {
                    None
                }
            },
        }
    }
}

/// Reads the fields of the outer beat-grid message from `s[pos..end]` onto
/// `acc`.  A repeated sub-message field merges onto the record read so far.
pub open spec fn spec_grid_fields(s: Seq<u8>, pos: int, end: int, acc: BeatGrid) -> Option<
    BeatGrid,
>
    decreases end - pos,
{
    if !(0 <= pos && pos <= end && end <= s.len()) {
        None
    } else if pos == end {
        Some(acc)
    } else {
        match spec_varint(s, pos, end) {
            None => None,
            Some((key, p1)) => {
                let field = key / 8;
                let wire = key % 8;
                proof {
                    lemma_varint_bounds(s, pos, end);
                }
                if !field_num_ok(field) {
                    None
                } else if field == 1 || field == 2 {
                    if wire != 2 {
                        None
                    } else {
                        match spec_varint(s, p1, end) {
                            None => None,
                            Some((len, p2)) => {
                                proof {
                                    lemma_varint_bounds(s, p1, end);
                                }
                                if p2 + len <= end {
                                    if field == 1 {
                                        let start = match acc.bpm {
                                            Some(b) => b,
                                            None => spec_bpm_default(),
                                        };
                                        match spec_bpm_fields(s, p2, p2 + len, start) {
                                            None => None,
                                            Some(b2) => spec_grid_fields(
                                                s,
                                                p2 + len,
                                                end,
                                                BeatGrid { bpm: Some(b2), first_beat: acc.first_beat },
                                            ),
                                        }
                                    } else {
                                        let start = match acc.first_beat {
                                            Some(b) => b,
                                            None => spec_beat_default(),
                                        };
                                        match spec_beat_fields(s, p2, p2 + len, start) {
                                            None => None,
                                            Some(b2) => spec_grid_fields(
                                                s,
                                                p2 + len,
                                                end,
                                                BeatGrid { bpm: acc.bpm, first_beat: Some(b2) },
                                            ),
                                        }
                                    }
                                } else {
                                    None
                                }
                            },
                        }
                    }
                } else if wire == 0 {
                    match spec_varint(s, p1, end) {
                        None => None,
                        Some((v, p2)) => {
                            proof {
                                lemma_varint_bounds(s, p1, end);
                            }
                            spec_grid_fields(s, p2, end, acc)
                        },
                    }
                } else if wire == 1 {
                    if p1 + 8 <= end {
                        spec_grid_fields(s, p1 + 8, end, acc)
                    } else {
                        None
                    }
                } else if wire == 2 {
                    match spec_varint(s, p1, end) {
                        None => None,
                        Some((len, p2)) => {
                            proof {
                                lemma_varint_bounds(s, p1, end);
                            }
                            if p2 + len <= end {
                                spec_grid_fields(s, p2 + len, end, acc)
                            } else {
                                None
                            }
                        },
                    }
                } else if wire == 5 {
                    if p1 + 4 <= end {
                        spec_grid_fields(s, p1 + 4, end, acc)
                    } else {
                        None
                    }
                } else {
                    None
                }
            },
        }
    }
}

/// How a beat-grid blob decodes: the outer message read over the whole
/// blob, starting from the empty record.
pub open spec fn spec_decode_beat_grid(s: Seq<u8>) -> Option<BeatGrid> {
    spec_grid_fields(s, 0, s.len() as int, spec_grid_default())
}

/// What a successful scalar-field skip yields: the position after the field.
pub open spec fn spec_skip_ok(s: Seq<u8>, p1: int, end: int, wire: int, p: int) -> bool {
    if wire == 0 {
        match spec_varint(s, p1, end) {
            Some(x) => x.1 == p,
            None => false,
        }
    } else if wire == 1 {
        p == p1 + 8
    } else if wire == 2 {
        match spec_varint(s, p1, end) {
            Some(x) => x.1 + x.0 == p && p <= end,
            None => false,
        }
    } else {
        p == p1 + 4
    }
}

/// When a scalar-field skip fails.
pub open spec fn spec_skip_err(s: Seq<u8>, p1: int, end: int, wire: int) -> bool {
    if wire == 0 {
        spec_varint(s, p1, end) is None
    } else if wire == 1 {
        p1 + 8 > end
    } else if wire == 2 {
        match spec_varint(s, p1, end) {
            Some(x) => x.1 + x.0 > end,
            None => true,
        }
    } else {
        p1 + 4 > end
    }
}

/// Skips one non-message field at `p1` whose wire type was `wire`; shared
/// by the three message readers.
#[verifier::loop_isolation(false)]
fn skip_scalar_field(s: &[u8], p1: usize, end: usize, wire: u64) -> (r: Result<
    usize,
    DecodeError,
>)
    requires
        p1 <= end <= s@.len(),
        wire == 0 || wire == 1 || wire == 2 || wire == 5,
    ensures
        match r {
            Ok(p) => p1 < p <= end && spec_skip_ok(s@, p1 as int, end as int, wire as int, p as int),
            Err(_) => spec_skip_err(s@, p1 as int, end as int, wire as int),
        },
{
    if wire == 0 {
        let (_v, p2) = read_varint(s, p1, end)?;
        Ok(p2)
    } else if wire == 1 {
        if end - p1 >= 8 {
            Ok(p1 + 8)
        } else {
            Err(DecodeError)
        }
    } else if wire == 2 {
        let (len, p2) = read_varint(s, p1, end)?;
        if len <= (end - p2) as u64 {
            Ok(p2 + (len as usize))
        } else {
            Err(DecodeError)
        }
    } else {
        if end - p1 >= 4 {
            Ok(p1 + 4)
        } else {
            Err(DecodeError)
        }
    }
}

/// Reads a first-beat record from `s[start..end]`.
#[verifier::loop_isolation(false)]
fn beat_fields(s: &[u8], start: usize, end: usize, init: Beat) -> (r: Result<Beat, DecodeError>)
    requires
        start <= end <= s@.len(),
    ensures
        match r {
            Ok(b) => spec_beat_fields(s@, start as int, end as int, init) == Some(b),
            Err(_) => spec_beat_fields(s@, start as int, end as int, init) is None,
        },
{
    let mut pos: usize = start;
    let mut acc: Beat = init;
    while pos < end
        invariant
            start <= pos <= end,
            spec_beat_fields(s@, pos as int, end as int, acc) == spec_beat_fields(
                s@,
                start as int,
                end as int,
                init,
            ),
        decreases end - pos,
    {
        let (key, p1) = match read_varint(s, pos, end) {
            Ok(v) => v,
            Err(e) => {
                return Err(e);
            },
        };
        let field: u64 = key / 8;
        let wire: u64 = key % 8;
        if field < 1 || field > 0x1FFF_FFFF {
            return Err(DecodeError);
        }
        if wire == 0 {
            let (v, p2) = match read_varint(s, p1, end) {
                Ok(v) => v,
                Err(e) => {
                    return Err(e);
                },
            };
            if field == 1 {
                acc = Beat { frame_position: Some(u64_low_i32(v)), enabled: acc.enabled, source: acc.source };
            } else if field == 2 {
                acc = Beat { frame_position: acc.frame_position, enabled: Some(v != 0), source: acc.source };
            } else if field == 3 {
                acc = Beat { frame_position: acc.frame_position, enabled: acc.enabled, source: Some(u64_low_i32(v)) };
            }
            pos = p2;
        } else if field == 1 || field == 2 || field == 3 {
            return Err(DecodeError);
        } else if wire == 1 || wire == 2 || wire == 5 {
            let p2 = match skip_scalar_field(s, p1, end, wire) {
                Ok(p) => p,
                Err(e) => {
                    return Err(e);
                },
            };
            pos = p2;
        } else {
            return Err(DecodeError);
        }
    }
    Ok(acc)
}

/// Reads a tempo record from `s[start..end]`.
#[verifier::loop_isolation(false)]
fn bpm_fields(s: &[u8], start: usize, end: usize, init: Bpm) -> (r: Result<Bpm, DecodeError>)
    requires
        start <= end <= s@.len(),
    ensures
        match r {
            Ok(b) => spec_bpm_fields(s@, start as int, end as int, init) == Some(b),
            Err(_) => spec_bpm_fields(s@, start as int, end as int, init) is None,
        },
{
    let mut pos: usize = start;
    let mut acc: Bpm = init;
    while pos < end
        invariant
            start <= pos <= end,
            spec_bpm_fields(s@, pos as int, end as int, acc) == spec_bpm_fields(
                s@,
                start as int,
                end as int,
                init,
            ),
        decreases end - pos,
    {
        let (key, p1) = match read_varint(s, pos, end) {
            Ok(v) => v,
            Err(e) => {
                return Err(e);
            },
        };
        let field: u64 = key / 8;
        let wire: u64 = key % 8;
        if field < 1 || field > 0x1FFF_FFFF {
            return Err(DecodeError);
        }
        if field == 1 {
            if wire == 1 && end - p1 >= 8 {
                let bits = read_le64(s, p1);
                acc = Bpm { bpm: Some(bits), source: acc.source };
                pos = p1 + 8;
            } else {
                return Err(DecodeError);
            }
        } else if field == 2 {
            if wire == 0 {
                let (v, p2) = match read_varint(s, p1, end) {
                    Ok(v) => v,
                    Err(e) => {
                        return Err(e);
                    },
                };
                acc = Bpm { bpm: acc.bpm, source: Some(u64_low_i32(v)) };
                pos = p2;
            } else {
                return Err(DecodeError);
            }
        } else if wire == 0 || wire == 1 || wire == 2 || wire == 5 {
            let p2 = match skip_scalar_field(s, p1, end, wire) {
                Ok(p) => p,
                Err(e) => {
                    return Err(e);
                },
            };
            pos = p2;
        } else {
            return Err(DecodeError);
        }
    }
    Ok(acc)
}

/// Decodes a beat-grid blob, as [`spec_decode_beat_grid`] reads it.
#[verifier::loop_isolation(false)]
pub fn decode_beat_grid(bytes: &[u8]) -> (r: Result<BeatGrid, DecodeError>)
    ensures
        match r {
            Ok(g) => spec_decode_beat_grid(bytes@) == Some(g),
            Err(_) => spec_decode_beat_grid(bytes@) is None,
        },
{
    let end: usize = bytes.len();
    let mut pos: usize = 0;
    let mut acc: BeatGrid = BeatGrid { bpm: None, first_beat: None };
    while pos < end
        invariant
            pos <= end,
            spec_grid_fields(bytes@, pos as int, end as int, acc) == spec_grid_fields(
                bytes@,
                0,
                end as int,
                spec_grid_default(),
            ),
        decreases end - pos,
    {
        let (key, p1) = match read_varint(bytes, pos, end) {
            Ok(v) => v,
            Err(e) => {
                return Err(e);
            },
        };
        let field: u64 = key / 8;
        let wire: u64 = key % 8;
        if field < 1 || field > 0x1FFF_FFFF {
            return Err(DecodeError);
        }
        if field == 1 || field == 2 {
            if wire != 2 {
                return Err(DecodeError);
            }
            let (len, p2) = match read_varint(bytes, p1, end) {
                Ok(v) => v,
                Err(e) => {
                    return Err(e);
                },
            };
            if len > (end - p2) as u64 {
                return Err(DecodeError);
            }
            let sub_end: usize = p2 + (len as usize);
            if field == 1 {
                let start = match acc.bpm {
                    Some(b) => b,
                    None => Bpm { bpm: None, source: None },
                };
                let b2 = match bpm_fields(bytes, p2, sub_end, start) {
                    Ok(b) => b,
                    Err(e) => {
                        return Err(e);
                    },
                };
                acc = BeatGrid { bpm: Some(b2), first_beat: acc.first_beat };
            } else {
                let start = match acc.first_beat {
                    Some(b) => b,
                    None => Beat { frame_position: None, enabled: None, source: None },
                };
                let b2 = match beat_fields(bytes, p2, sub_end, start) {
                    Ok(b) => b,
                    Err(e) => {
                        return Err(e);
                    },
                };
                acc = BeatGrid { bpm: acc.bpm, first_beat: Some(b2) };
            }
            pos = sub_end;
        } else if wire == 0 || wire == 1 || wire == 2 || wire == 5 {
            let p2 = match skip_scalar_field(bytes, p1, end, wire) {
                Ok(p) => p,
                Err(e) => {
                    return Err(e);
                },
            };
            pos = p2;
        } else {
            return Err(DecodeError);
        }
    }
    Ok(acc)
}

/// The largest tempo, in thousandths of a beat per minute, that the beat
/// arithmetic accepts (a million beats per minute).  The bound keeps every
/// intermediate product inside sixty-four bits.
pub const MAX_MILLI_BPM: u64 = 1_000_000_000;

/// A tempo on which the beat arithmetic is undefined: zero, or beyond
/// [`MAX_MILLI_BPM`].
#[derive(Clone, Copy, Debug, PartialEq, Eq, Structural)]
pub struct InvalidBpm;

/// The corrected first-beat numerator over the denominator `sr * m`, where
/// `f` is the frame position, `sr` the divisor in frames per second and `m`
/// the tempo in thousandths of a beat per minute.
///
/// The raw position is `f / sr` seconds and one beat lasts `60000 / m`
/// seconds; over the common denominator `sr * m` these are `f * m` and
/// `60000 * sr`.  A negative position means the first audible beat is one
/// beat later; a position beyond one beat length means the stored beat was
/// the second one, one beat earlier.
pub open spec fn corrected_num(f: int, sr: int, m: int) -> int {
    let p = f * m;
    let b = 60000 * sr;
    let p1 = if p < 0 {
        p + b
    } else {
        p
    };
    if p1 > b {
        p1 - b
    } else {
        p1
    }
}

/// Corrects a decoded frame position into a time offset in seconds, as
/// [`corrected_num`] over the denominator `divisor_hz * milli_bpm`.
///
/// Fails exactly on tempos for which a beat length cannot be computed.
pub fn beatgrid_start(frame_position: i32, divisor_hz: u32, milli_bpm: u64) -> (r: Result<
    Seconds,
    InvalidBpm,
>)
    requires
        divisor_hz >= 1,
    ensures
        r is Err <==> (milli_bpm == 0 || milli_bpm > MAX_MILLI_BPM),
        r matches Ok(s) ==> s.den == divisor_hz as int * milli_bpm as int && s.num == corrected_num(
            frame_position as int,
            divisor_hz as int,
            milli_bpm as int,
        ) && s.wf(),
{
    if milli_bpm == 0 || milli_bpm > MAX_MILLI_BPM {
        return Err(InvalidBpm);
    }
    proof {
        assert((frame_position as int) * (milli_bpm as int) <= 0x8000_0000 * 1_000_000_000
            && (frame_position as int) * (milli_bpm as int) >= -0x8000_0000 * 1_000_000_000)
            by (nonlinear_arith)
            requires
                -0x8000_0000 <= frame_position as int <= 0x7FFF_FFFF,
                0 < milli_bpm as int <= 1_000_000_000,
        ;
        assert((divisor_hz as int) * (milli_bpm as int) <= 0xFFFF_FFFF * 1_000_000_000
            && (divisor_hz as int) * (milli_bpm as int) >= 1) by (nonlinear_arith)
            requires
                1 <= divisor_hz as int <= 0xFFFF_FFFF,
                0 < milli_bpm as int <= 1_000_000_000,
        ;
    }
    let p: i64 = (frame_position as i64) * (milli_bpm as i64);
    let b: i64 = 60000 * (divisor_hz as i64);
    let p1: i64 = if p < 0 {
        p + b
    } else {
        p
    };
    let num: i64 = if p1 > b {
        p1 - b
    } else {
        p1
    };
    let den: u64 = (divisor_hz as u64) * milli_bpm;
    Ok(Seconds { num, den })
}

/// For a non-negative frame position whose raw offset stays under two beat
/// lengths and does not land exactly on one, the corrected offset lies in
/// `[0, beat_length)`.  Over the common denominator `sr * m`, the raw
/// offset is `f * m` and the beat length is `60000 * sr`.
///
/// (A raw offset of two beat lengths or more stays beyond one beat length
/// after the single correction step, and an offset of exactly one beat
/// length is left as it is.)
pub proof fn lemma_beatgrid_start_in_range(f: int, sr: int, m: int)
    requires
        sr >= 1,
        m >= 1,
        f >= 0,
        f * m != 60000 * sr,
        f * m < 2 * (60000 * sr),
    ensures
        0 <= corrected_num(f, sr, m) < 60000 * sr,
{
    assert(f * m >= 0) by (nonlinear_arith)
        requires
            f >= 0,
            m >= 1,
    ;
}

} // verus!
