//! Saved clips: a region of a source file with the pitch and tempo it was
//! heard at.
use vstd::prelude::*;

verus! {

/// A clip marked by the user. Points are positions in the source's decoded
/// buffer, counted in interleaved stereo samples; `sample_rate` is the
/// source's rate (frames per second), so the points can be shown as times.
#[derive(Debug)]
pub struct Clip {
    pub source: String,
    pub in_point: u64,
    pub out_point: u64,
    pub pitch: i32,
    pub tempo: u32,
    pub sample_rate: u32,
}

/// Why a clip cannot be rendered.
#[derive(Clone, Copy, Debug, PartialEq, Eq)]
pub enum ClipError {
    /// The in point is not before the out point (after rounding both down to
    /// whole frames and cutting them at the end of the buffer).
    InPointNotBeforeOutPoint,
}

/// A point rounded down to the start of its frame, and no further than the
/// end of a buffer of `len` samples.
pub open spec fn region_bound(point: u64, len: nat) -> int {
    let aligned = (point / 2) * 2;
    if aligned < len {
        aligned as int
    } else {
        len as int
    }
}

impl Clip {
    /// The range `[start, end)` of a decoded buffer of `len` interleaved
    /// samples that the clip covers, or an error when it would be empty.
    pub fn sample_range(&self, len: usize) -> (res: Result<(usize, usize), ClipError>)
        ensures
            match res {
                Ok((start, end)) => {
                    &&& start == region_bound(self.in_point, len as nat)
                    &&& end == region_bound(self.out_point, len as nat)
                    &&& start < end
                },
                Err(e) => {
                    &&& e == ClipError::InPointNotBeforeOutPoint
                    &&& region_bound(self.in_point, len as nat) >= region_bound(
                        self.out_point,
                        len as nat,
                    )
                },
            },
    {
        let a = (self.in_point / 2) * 2;
        let b = (self.out_point / 2) * 2;
        let start: usize = if a < len as u64 {
            a as usize
        } else {
            len
        };
        let end: usize = if b < len as u64 {
            b as usize
        } else {
            len
        };
        if start < end {
            Ok((start, end))
        } else {
            Err(ClipError::InPointNotBeforeOutPoint)
        }
    }
}

/// A clip's range lies inside the buffer, starts on a frame boundary, and
/// is not empty.
pub proof fn law_clip_range_inside(in_point: u64, out_point: u64, len: nat)
    requires
        region_bound(in_point, len) < region_bound(out_point, len),
    ensures
        0 <= region_bound(in_point, len),
        region_bound(out_point, len) <= len,
        region_bound(in_point, len) % 2 == 0,
        in_point <= out_point,
{
}

/// A clip bound is its point moved back to the start of its stereo frame
/// (back by one sample for an odd point, not at all for an even one), or
/// the end of the buffer when that lies beyond it.
pub proof fn law_region_bound_is_frame_start(point: u64, len: nat)
    ensures
        point % 2 == 0 && point < len ==> region_bound(point, len) == point,
        point % 2 == 1 && point - 1 < len ==> region_bound(point, len) == point - 1,
        point - point % 2 >= len ==> region_bound(point, len) == len,
        region_bound(point, len) <= point,
        region_bound(point, len) <= len,
{
}

} // verus!
