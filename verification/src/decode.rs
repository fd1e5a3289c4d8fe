//! Decisions of the decoding loop: the stream layout assumed when the
//! container leaves it open, and what to do when reading or decoding a
//! packet fails.
use vstd::prelude::*;

verus! {

/// Sample rate assumed when the stream does not declare one.
pub const DEFAULT_SAMPLE_RATE: u32 = 44100;

/// Channel count assumed when the stream does not declare one.
pub const DEFAULT_CHANNELS: usize = 2;

/// Kinds of failure the demuxer or the decoder reports.
#[derive(Clone, Copy, Debug, PartialEq, Eq)]
pub enum StreamError {
    /// Reading the stream failed (this is also how its end shows).
    Io,
    /// The decoder must be reset, as on a change of stream parameters.
    ResetRequired,
    /// One packet could not be decoded.
    Decode,
    /// Anything else.
    Other,
}

/// What the loop does next.
#[derive(Clone, Copy, Debug, PartialEq, Eq)]
pub enum PacketStep {
    /// Drop this packet and go on with the next one.
    Skip,
    /// Stop decoding and keep what was decoded so far.
    Finish,
}

/// A packet that cannot be decoded is skipped; any other failure ends
/// decoding.
pub fn on_stream_error(e: StreamError) -> (step: PacketStep)
    ensures
        step == (if e == StreamError::Decode {
            PacketStep::Skip
        } else {
            PacketStep::Finish
        }),
{
    match e {
        StreamError::Decode => PacketStep::Skip,
        _ => PacketStep::Finish,
    }
}

/// Sample rate and channel count of a stream, with the defaults where the
/// stream declares none.
pub fn stream_layout(rate: Option<u32>, channels: Option<usize>) -> (res: (u32, usize))
    ensures
        res.0 == (match rate {
            Some(r) => r,
            None => DEFAULT_SAMPLE_RATE,
        }),
        res.1 == (match channels {
            Some(c) => c,
            None => DEFAULT_CHANNELS,
        }),
{
    let r = match rate {
        Some(r) => r,
        None => DEFAULT_SAMPLE_RATE,
    };
    let c = match channels {
        Some(c) => c,
        None => DEFAULT_CHANNELS,
    };
    (r, c)
}

} // verus!
