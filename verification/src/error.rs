//! The error taxonomy of the conversion pipeline.
//!
//! Every error here aborts the whole run: a partially exported library
//! could be mistaken for a complete migration.  The one deliberate local
//! recovery lives elsewhere: parse failures on the decorative year and key
//! fields degrade to an empty value, and an undecidable tempo degrades the
//! beat-grid offset to its absence.

use vstd::prelude::*;

use crate::text::dec_digits;
use crate::text::i64_to_dec;
use crate::text::int_digits;
use crate::text::usize_to_dec;

verus! {

/// Why a conversion run was aborted.  Each variant names the offending
/// entity by its identifier.
#[derive(Clone, Debug, PartialEq, Eq)]
pub enum ExportError {
    /// A track row has no location row, or a location row with an empty
    /// column; every track must name a concrete file.
    MissingLocation { track_id: i64 },
    /// A numeric identifier does not fit the target identifier width.
    IdentifierOverflow { id: i64 },
    /// A timestamp column that must parse does not.
    DatetimeParse { track_id: i64, text: String },
    /// A malformed beat-grid blob.
    BeatGridDecode { track_id: i64 },
    /// A file type outside the allow-list; deliberately strict.
    UnsupportedFileType { track_id: usize, filetype: String },
    /// Paths are being rebased and this one is not under the source root.
    PathNotUnderRoot { location: String },
    /// A track location without a filename component, or with a relative
    /// step in it.
    MalformedPath { location: String },
}

/// The user-visible description of an error: what failed, on which entity.
pub open spec fn spec_describe(e: ExportError) -> Seq<char> {
    match e {
        ExportError::MissingLocation { track_id } => "no location row for track "@ + int_digits(
            track_id as int,
        ),
        ExportError::IdentifierOverflow { id } => "identifier does not fit the target width: "@
            + int_digits(id as int),
        ExportError::DatetimeParse { track_id, text } => "unparseable datetime_added on track "@
            + int_digits(track_id as int) + ": "@ + text@,
        ExportError::BeatGridDecode { track_id } => "malformed beat-grid blob on track "@
            + int_digits(track_id as int),
        ExportError::UnsupportedFileType { track_id, filetype } => "unsupported file type on track "@
            + dec_digits(track_id as nat) + ": "@ + filetype@,
        ExportError::PathNotUnderRoot { location } => "track path is not under the source library root: "@
            + location@,
        ExportError::MalformedPath { location } => "track path does not name a file: "@
            + location@,
    }
}

impl ExportError {
    /// Renders the error for the user, naming the offending entity.
    pub fn describe(&self) -> (r: String)
        ensures
            r@ == spec_describe(*self),
    {
        match self {
            ExportError::MissingLocation { track_id } => {
                let mut out = String::from_str("no location row for track ");
                let d = i64_to_dec(*track_id);
                out.append(d.as_str());
                proof {
                    assert(out@ =~= spec_describe(*self));
                }
                out
            },
            ExportError::IdentifierOverflow { id } => {
                let mut out = String::from_str("identifier does not fit the target width: ");
                let d = i64_to_dec(*id);
                out.append(d.as_str());
                proof {
                    assert(out@ =~= spec_describe(*self));
                }
                out
            },
            ExportError::DatetimeParse { track_id, text } => {
                let mut out = String::from_str("unparseable datetime_added on track ");
                let d = i64_to_dec(*track_id);
                out.append(d.as_str());
                out.append(": ");
                out.append(text.as_str());
                proof {
                    reveal_strlit(": ");
                    assert(out@ =~= spec_describe(*self));
                }
                out
            },
            ExportError::BeatGridDecode { track_id } => {
                let mut out = String::from_str("malformed beat-grid blob on track ");
                let d = i64_to_dec(*track_id);
                out.append(d.as_str());
                proof {
                    assert(out@ =~= spec_describe(*self));
                }
                out
            },
            ExportError::UnsupportedFileType { track_id, filetype } => {
                let mut out = String::from_str("unsupported file type on track ");
                let d = usize_to_dec(*track_id);
                out.append(d.as_str());
                out.append(": ");
                out.append(filetype.as_str());
                proof {
                    reveal_strlit(": ");
                    assert(out@ =~= spec_describe(*self));
                }
                out
            },
            ExportError::PathNotUnderRoot { location } => {
                let mut out = String::from_str(
                    "track path is not under the source library root: ",
                );
                out.append(location.as_str());
                proof {
                    assert(out@ =~= spec_describe(*self));
                }
                out
            },
            ExportError::MalformedPath { location } => {
                let mut out = String::from_str("track path does not name a file: ");
                out.append(location.as_str());
                proof {
                    assert(out@ =~= spec_describe(*self));
                }
                out
            },
        }
    }
}

} // verus!
