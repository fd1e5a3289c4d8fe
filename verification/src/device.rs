//! Choice of the output stream configuration among the ranges the output
//! device supports.
use vstd::prelude::*;

verus! {

/// One supported output configuration range, as far as the choice needs it.
#[derive(Clone, Copy, Debug, PartialEq, Eq)]
pub struct OutputConfigRange {
    pub channels: u16,
    pub min_sample_rate: u32,
    pub max_sample_rate: u32,
    /// Whether the samples are 32-bit floats.
    pub is_f32: bool,
}

/// Stereo float output.
pub open spec fn stereo_f32(c: OutputConfigRange) -> bool {
    c.channels == 2 && c.is_f32
}

/// Stereo float output that can run at `rate`.
pub open spec fn fits_rate(c: OutputConfigRange, rate: u32) -> bool {
    stereo_f32(c) && c.min_sample_rate <= rate && rate <= c.max_sample_rate
}

/// Picks the output configuration: the first stereo float range that can
/// run at the file's `rate` (run at that rate); failing that, the first
/// stereo float range at all (run at its highest rate). Returns the index of
/// the range and the rate to run it at, or `None` when no range is stereo
/// float.
pub fn choose_output_config(configs: &Vec<OutputConfigRange>, rate: u32) -> (res: Option<
    (usize, u32),
>)
    ensures
        match res {
            Some((i, r)) => {
                &&& i < configs@.len()
                &&& stereo_f32(configs@[i as int])
                &&& if exists|j: int| 0 <= j < configs@.len() && fits_rate(#[trigger] configs@[j], rate) {
                    &&& fits_rate(configs@[i as int], rate)
                    &&& r == rate
                    &&& forall|j: int| 0 <= j < i ==> !fits_rate(#[trigger] configs@[j], rate)
                } else {
                    &&& r == configs@[i as int].max_sample_rate
                    &&& forall|j: int| 0 <= j < i ==> !stereo_f32(#[trigger] configs@[j])
                }
            },
            None => forall|j: int| 0 <= j < configs@.len() ==> !stereo_f32(#[trigger] configs@[j]),
        },
{
    let mut i: usize = 0;
    while i < configs.len()
        invariant
            i <= configs@.len(),
            forall|j: int| 0 <= j < i ==> !fits_rate(#[trigger] configs@[j], rate),
        decreases configs@.len() - i,
    {
        let c = configs[i];
        if c.channels == 2 && c.min_sample_rate <= rate && c.max_sample_rate >= rate && c.is_f32 {
            return Some((i, rate));
        }
        i = i + 1;
    }
    assert(forall|j: int| 0 <= j < configs@.len() ==> !fits_rate(#[trigger] configs@[j], rate));
    let mut k: usize = 0;
    while k < configs.len()
        invariant
            k <= configs@.len(),
            forall|j: int| 0 <= j < configs@.len() ==> !fits_rate(#[trigger] configs@[j], rate),
            forall|j: int| 0 <= j < k ==> !stereo_f32(#[trigger] configs@[j]),
        decreases configs@.len() - k,
    {
        let c = configs[k];
        if c.channels == 2 && c.is_f32 {
            return Some((k, c.max_sample_rate));
        }
        k = k + 1;
    }
    None
}

/// Capacity of the ring between the feeder and the output, in interleaved
/// samples: two per frame for `device_rate` frames, that is one second of
/// stereo output at the device's rate.
pub fn ring_capacity(device_rate: u32) -> (cap: usize)
    requires
        2 * device_rate <= usize::MAX,
    ensures
        cap == 2 * device_rate,
        cap / 2 == device_rate,
{
    device_rate as usize * 2
}

} // verus!
