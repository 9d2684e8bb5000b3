//! Some helper methods to work with mixxx's data structures.

use vstd::prelude::*;

use crate::text::Seconds;

verus! {

/// The fixed rate, in frames per second, at which Mixxx stores cue
/// positions.  Positions are saved as `seconds * rate`, and the rate is
/// this constant rather than the track's own sample rate.
pub const CUE_POSITION_RATE: i64 = 88_200;

/// Converts a stored frame position into the exact time offset
/// `cue_position / sample_rate` seconds.
pub fn convert_mixxx_position(cue_position: i64, sample_rate: i64) -> (r: Seconds)
    requires
        sample_rate >= 1,
    ensures
        r.num == cue_position,
        r.den == sample_rate,
        r.wf(),
{
    Seconds { num: cue_position, den: sample_rate as u64 }
}

} // verus!
