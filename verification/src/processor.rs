//! Decisions of the playback feeder: each round it reads the shared controls
//! (stop, seek request, play/pause, loop points) and decides whether to stop,
//! idle, or feed the next chunk of the decoded buffer to the stretcher, and
//! how much of the stretcher's output still belongs to its start-up delay.
//! The feeder's loop itself (stretcher calls, ring buffer, sleeps) runs
//! outside this crate and carries out the plan.
use vstd::prelude::*;

verus! {

/// Frames fed to the stretcher per round.
pub const CHUNK: usize = 1024;

/// Interleaved samples fed per round (two channels).
pub const CHUNK_SAMPLES: usize = CHUNK * 2;

/// Free room in the output ring below which the feeder backs off.
pub const BACKOFF_ROOM: usize = CHUNK * 4;

/// Loop settings as the transport publishes them: positions are interleaved
/// sample indices, `None` meaning the point is unset.
#[derive(Clone, Copy, Debug, PartialEq, Eq)]
pub struct LoopParams {
    pub looping: bool,
    pub loop_in: Option<u64>,
    pub loop_out: Option<u64>,
}

/// What the feeder reads from the shared controls at the start of a round.
/// `seek` is a pending seek request that this round has claimed.
#[derive(Clone, Copy, Debug, PartialEq, Eq)]
pub struct Tick {
    pub stop: bool,
    pub seek: Option<u64>,
    pub playing: bool,
    pub loop_params: LoopParams,
}

/// A range `[start, end)` of the decoded buffer to feed; `is_final` tells the
/// stretcher that no input follows.
#[derive(Clone, Copy, Debug, PartialEq, Eq)]
pub struct Chunk {
    pub start: usize,
    pub end: usize,
    pub is_final: bool,
}

/// The decision of one round. `seeked` (the seek target) and `wrapped` (the
/// in point) ask the caller to restart the stretcher (in that order) and to
/// publish that position as the playback position.
#[derive(Clone, Copy, Debug, PartialEq, Eq)]
pub enum Plan {
    /// Leave the loop.
    Stop,
    /// Playback is paused: idle briefly.
    Paused { seeked: Option<u64> },
    /// The read position is at or past the end of the buffer: idle.
    Wait { seeked: Option<u64>, wrapped: Option<u64> },
    /// Feed `chunk`.
    Feed { seeked: Option<u64>, wrapped: Option<u64>, chunk: Chunk },
}

/// The feeder's own state: its read position in the decoded buffer and how
/// many output samples still belong to the stretcher's start-up delay.
#[derive(Clone, Copy, Debug, PartialEq, Eq)]
pub struct Processor {
    pub pos: usize,
    pub delay_remaining: usize,
}

/// Where a seek to `target` puts the read position: the target, but no
/// further than two samples before the end of the buffer.
pub open spec fn seek_position(target: u64, len: nat) -> int {
    let last: int = if len >= 2 { len - 2 } else { 0 };
    if target < last {
        target as int
    } else {
        last
    }
}

/// A loop is active when looping is on and both points are set with the
/// out point after the in point.
pub open spec fn loop_active(lp: LoopParams) -> bool {
    &&& lp.looping
    &&& lp.loop_in is Some
    &&& lp.loop_out is Some
    &&& lp.loop_out->0 > lp.loop_in->0
}

/// Whether the read position `pos` has reached the out point of an active loop.
pub open spec fn loop_wraps(lp: LoopParams, pos: int) -> bool {
    loop_active(lp) && pos >= lp.loop_out->0
}

/// End of the chunk that starts at `pos`.
pub open spec fn chunk_end(pos: int, len: nat) -> int {
    if pos + CHUNK_SAMPLES < len {
        pos + CHUNK_SAMPLES
    } else {
        len as int
    }
}

/// Read position after the seek step of a round.
pub open spec fn pos_after_seek(pos: int, tick: Tick, len: nat) -> int {
    match tick.seek {
        Some(t) => seek_position(t, len),
        None => pos,
    }
}

/// Read position after the seek and loop steps of a playing round.
pub open spec fn pos_after_loop(pos: int, tick: Tick, len: nat) -> int {
    let p = pos_after_seek(pos, tick, len);
    if loop_wraps(tick.loop_params, p) {
        tick.loop_params.loop_in->0 as int
    } else {
        p
    }
}

/// The plan of a round that starts at read position `pos`.
pub open spec fn planned(pos: int, tick: Tick, len: nat) -> Plan {
    let p = pos_after_seek(pos, tick, len);
    let wrapped = if loop_wraps(tick.loop_params, p) {
        tick.loop_params.loop_in
    } else {
        None
    };
    let q = pos_after_loop(pos, tick, len);
    if tick.stop {
        Plan::Stop
    } else if !tick.playing {
        Plan::Paused { seeked: tick.seek }
    } else if q >= len {
        Plan::Wait { seeked: tick.seek, wrapped }
    } else {
        Plan::Feed {
            seeked: tick.seek,
            wrapped,
            chunk: Chunk {
                start: q as usize,
                end: chunk_end(q, len) as usize,
                is_final: chunk_end(q, len) >= len,
            },
        }
    }
}

/// The read position after a round that starts at `pos`.
pub open spec fn planned_pos(pos: int, tick: Tick, len: nat) -> int {
    let q = pos_after_loop(pos, tick, len);
    if tick.stop {
        pos
    } else if !tick.playing {
        pos_after_seek(pos, tick, len)
    } else if q >= len {
        q
    } else {
        chunk_end(q, len)
    }
}

/// Total output discarded as start-up delay over several retrievals of the
/// given sizes, starting with `delay` samples of delay.
pub open spec fn total_discarded(delay: nat, produced: Seq<nat>) -> nat
    decreases produced.len(),
{
    if produced.len() == 0 {
        0
    } else {
        let skip = if delay < produced[0] { delay } else { produced[0] };
        skip + total_discarded((delay - skip) as nat, produced.drop_first())
    }
}

/// Sum of a sequence of sizes.
pub open spec fn total(produced: Seq<nat>) -> nat
    decreases produced.len(),
{
    if produced.len() == 0 {
        0
    } else {
        produced[0] + total(produced.drop_first())
    }
}

impl Processor {
    /// A feeder at the start of the buffer whose fresh stretcher reports a
    /// start-up delay of `start_delay` frames.
    pub fn new(start_delay: usize) -> (res: Processor)
        requires
            start_delay <= usize::MAX / 2,
        ensures
            res.pos == 0,
            res.delay_remaining == 2 * start_delay,
    {
        Processor { pos: 0, delay_remaining: start_delay * 2 }
    }

    /// Records the start-up delay (in frames) of a freshly started stretcher:
    /// that many stereo frames of output are to be discarded.
    pub fn restart_delay(&mut self, start_delay: usize)
        requires
            start_delay <= usize::MAX / 2,
        ensures
            final(self).pos == old(self).pos,
            final(self).delay_remaining == 2 * start_delay,
    {
        self.delay_remaining = start_delay * 2;
    }

    /// Decides one round of the feeder over a decoded buffer of `len`
    /// interleaved samples, and moves the read position accordingly.
    pub fn plan(&mut self, tick: &Tick, len: usize) -> (res: Plan)
        ensures
            res == planned(old(self).pos as int, *tick, len as nat),
            final(self).pos == planned_pos(old(self).pos as int, *tick, len as nat),
            final(self).delay_remaining == old(self).delay_remaining,
    {
        if tick.stop {
            return Plan::Stop;
        }
        if let Some(target) = tick.seek {
            let last: usize = if len >= 2 { len - 2 } else { 0 };
            if target < last as u64 {
                self.pos = target as usize;
            } else {
                self.pos = last;
            }
        }
        if !tick.playing {
            return Plan::Paused { seeked: tick.seek };
        }
        let lp = tick.loop_params;
        let mut wrapped: Option<u64> = None;
        if lp.looping {
            if let (Some(loop_in), Some(loop_out)) = (lp.loop_in, lp.loop_out) {
                if loop_out > loop_in && self.pos as u64 >= loop_out {
                    self.pos = loop_in as usize;
                    wrapped = Some(loop_in);
                }
            }
        }
        if self.pos >= len {
            return Plan::Wait { seeked: tick.seek, wrapped };
        }
        let start = self.pos;
        let end = if len - start > CHUNK_SAMPLES {
            start + CHUNK_SAMPLES
        } else {
            len
        };
        self.pos = end;
        Plan::Feed {
            seeked: tick.seek,
            wrapped,
            chunk: Chunk { start, end, is_final: end >= len },
        }
    }

    /// Of `produced` samples just retrieved from the stretcher, returns how
    /// many at the front still belong to the start-up delay and are to be
    /// dropped; the rest are played.
    pub fn take_delay(&mut self, produced: usize) -> (skip: usize)
        ensures
            skip == if old(self).delay_remaining < produced {
                old(self).delay_remaining
            } else {
                produced
            },
            final(self).delay_remaining == old(self).delay_remaining - skip,
            final(self).pos == old(self).pos,
    {
        let skip = if self.delay_remaining < produced {
            self.delay_remaining
        } else {
            produced
        };
        self.delay_remaining = self.delay_remaining - skip;
        skip
    }
}

/// Whether the feeder should back off because the output ring has less than
/// `BACKOFF_ROOM` free samples.
pub fn needs_backoff(vacant: usize) -> (res: bool)
    ensures
        res == (vacant < BACKOFF_ROOM),
{
    vacant < BACKOFF_ROOM
}

/// Every chunk the feeder hands on lies inside the decoded buffer, is not
/// empty, holds at most `CHUNK_SAMPLES` samples, is marked final exactly when
/// it reaches the end, and the read position moves to its end.
pub proof fn law_feed_within_buffer(pos: int, tick: Tick, len: nat)
    requires
        0 <= pos,
        len <= usize::MAX,
        planned(pos, tick, len) is Feed,
    ensures
        ({
            let c = planned(pos, tick, len)->chunk;
            &&& c.start < c.end <= len
            &&& c.end - c.start <= CHUNK_SAMPLES
            &&& c.is_final == (c.end == len)
            &&& planned_pos(pos, tick, len) == c.end
        }),
{
}

/// While playing without seeks or loop jumps, consecutive rounds feed
/// consecutive chunks: each starts where the one before ended, and once the
/// end of the buffer has been fed the feeder waits.
pub proof fn law_playback_is_contiguous(pos: int, t1: Tick, t2: Tick, len: nat)
    requires
        0 <= pos,
        len <= usize::MAX,
        planned(pos, t1, len) is Feed,
        !t2.stop,
        t2.playing,
        t2.seek is None,
        !loop_wraps(t2.loop_params, planned_pos(pos, t1, len)),
    ensures
        ({
            let c1 = planned(pos, t1, len)->chunk;
            let next = planned(planned_pos(pos, t1, len), t2, len);
            &&& c1.end < len ==> next is Feed && next->chunk.start == c1.end
            &&& c1.end == len ==> next is Wait
        }),
{
}

/// While a loop is active, every chunk fed starts before the out point:
/// reaching the out point sends the read position back to the in point.
pub proof fn law_loop_feeds_before_out_point(pos: int, tick: Tick, len: nat)
    requires
        0 <= pos,
        loop_active(tick.loop_params),
        planned(pos, tick, len) is Feed,
    ensures
        planned(pos, tick, len)->chunk.start < tick.loop_params.loop_out->0,
{
}

/// A seek never moves the read position past two samples before the end of
/// the buffer, and a target before that is reached exactly.
pub proof fn law_seek_stays_inside(target: u64, len: nat)
    requires
        len >= 2,
    ensures
        0 <= seek_position(target, len) <= len - 2,
        target <= len - 2 ==> seek_position(target, len) == target,
{
}

/// Seek targets and loop in points that fall on frame boundaries (even
/// interleaved positions).
pub open spec fn tick_on_frames(tick: Tick) -> bool {
    &&& (tick.seek matches Some(t) ==> t % 2 == 0)
    &&& (tick.loop_params.loop_in matches Some(p) ==> p % 2 == 0)
}

/// Over a buffer of whole stereo frames, one round keeps reading on frame
/// boundaries: from a frame start, with seek targets and loop in points on
/// frame starts, the chunk fed starts and ends on a frame boundary and the
/// next round again starts on one.
pub proof fn law_feed_frame_aligned(pos: int, tick: Tick, len: nat)
    requires
        0 <= pos,
        pos % 2 == 0,
        len % 2 == 0,
        len <= usize::MAX,
        tick_on_frames(tick),
    ensures
        planned_pos(pos, tick, len) % 2 == 0,
        planned(pos, tick, len) is Feed ==> planned(pos, tick, len)->chunk.start % 2 == 0
            && planned(pos, tick, len)->chunk.end % 2 == 0,
{
}

/// Whether every chunk fed over the rounds `ticks`, starting at read
/// position `pos`, starts and ends on a frame boundary.
pub open spec fn feeds_on_frames(pos: int, ticks: Seq<Tick>, len: nat) -> bool
    decreases ticks.len(),
{
    if ticks.len() == 0 {
        true
    } else {
        let plan = planned(pos, ticks[0], len);
        &&& (plan is Feed ==> plan->chunk.start % 2 == 0 && plan->chunk.end % 2 == 0)
        &&& feeds_on_frames(planned_pos(pos, ticks[0], len), ticks.drop_first(), len)
    }
}

/// Over a whole run on a buffer of whole stereo frames, starting at the
/// start of the buffer, every chunk the feeder hands to the stretcher holds
/// whole frames, as long as every seek target and loop in point is a frame
/// start.
pub proof fn law_run_feeds_whole_frames(pos: int, ticks: Seq<Tick>, len: nat)
    requires
        0 <= pos,
        pos % 2 == 0,
        len % 2 == 0,
        len <= usize::MAX,
        forall|i: int| 0 <= i < ticks.len() ==> tick_on_frames(#[trigger] ticks[i]),
    ensures
        feeds_on_frames(pos, ticks, len),
    decreases ticks.len(),
{
    if ticks.len() > 0 {
        law_feed_frame_aligned(pos, ticks[0], len);
        let next = planned_pos(pos, ticks[0], len);
        assert(0 <= next) by {
            assert(planned_pos(pos, ticks[0], len) >= 0);
        }
        assert forall|i: int| 0 <= i < ticks.drop_first().len() implies tick_on_frames(
            #[trigger] ticks.drop_first()[i],
        ) by {
            assert(ticks.drop_first()[i] == ticks[i + 1]);
        }
        law_run_feeds_whole_frames(next, ticks.drop_first(), len);
    }
}

/// While paused, the read position only moves by seeking.
pub proof fn law_pause_holds_position(pos: int, tick: Tick, len: nat)
    requires
        !tick.stop,
        !tick.playing,
        tick.seek is None,
    ensures
        planned_pos(pos, tick, len) == pos,
        planned(pos, tick, len) == (Plan::Paused { seeked: None }),
{
}

/// Over any run of retrievals, exactly the first `delay` output samples are
/// dropped as start-up delay (or all of them, if fewer were produced).
pub proof fn law_delay_discards_exactly(delay: nat, produced: Seq<nat>)
    ensures
        total_discarded(delay, produced) == if delay < total(produced) {
            delay
        } else {
            total(produced)
        },
    decreases produced.len(),
{
    if produced.len() > 0 {
        let skip = if delay < produced[0] {
            delay
        } else {
            produced[0]
        };
        law_delay_discards_exactly((delay - skip) as nat, produced.drop_first());
    }
}

/// A seek moves reading to its target, wherever reading was before: to the
/// target itself when it lies at least two samples before the end, else two
/// samples before the end. While paused the read position simply becomes
/// that; while playing (unless the target lies at or past the out point of
/// an active loop) the next chunk starts there and runs for 2048 samples or
/// to the end of the buffer.
pub proof fn law_seek_moves_reading(pos: int, tick: Tick, len: nat, t: u64)
    requires
        0 <= pos,
        len <= usize::MAX,
        !tick.stop,
        tick.seek == Some(t),
    ensures
        ({
            let last: int = if len >= 2 {
                len - 2
            } else {
                0
            };
            let target: int = if t < last {
                t as int
            } else {
                last
            };
            let lp = tick.loop_params;
            let jumps = lp.looping && lp.loop_in is Some && lp.loop_out is Some && lp.loop_in->0
                < lp.loop_out->0 && target >= lp.loop_out->0;
            &&& !tick.playing ==> planned_pos(pos, tick, len) == target && planned(pos, tick, len)
                == (Plan::Paused { seeked: Some(t) })
            &&& (tick.playing && !jumps && target < len) ==> {
                &&& planned(pos, tick, len) is Feed
                &&& planned(pos, tick, len)->Feed_seeked == Some(t)
                &&& planned(pos, tick, len)->Feed_wrapped is None
                &&& planned(pos, tick, len)->chunk.start == target
                &&& planned(pos, tick, len)->chunk.end == (if target + 2048 < len {
                    target + 2048
                } else {
                    len as int
                })
                &&& planned_pos(pos, tick, len) == planned(pos, tick, len)->chunk.end
            }
            &&& (tick.playing && !jumps && target >= len) ==> planned(pos, tick, len) == (
            Plan::Wait { seeked: Some(t), wrapped: None })
        }),
{
}

/// With an active loop (looping on, in point before out point), reading
/// that has reached the out point goes back to the in point, and the round
/// says so; reading before the out point goes on where it was.
pub proof fn law_loop_returns_to_in_point(pos: int, tick: Tick, len: nat, a: u64, b: u64)
    requires
        0 <= pos,
        len <= usize::MAX,
        !tick.stop,
        tick.playing,
        tick.seek is None,
        tick.loop_params.looping,
        tick.loop_params.loop_in == Some(a),
        tick.loop_params.loop_out == Some(b),
        a < b,
    ensures
        pos >= b && a < len ==> {
            &&& planned(pos, tick, len) is Feed
            &&& planned(pos, tick, len)->Feed_wrapped == Some(a)
            &&& planned(pos, tick, len)->Feed_seeked is None
            &&& planned(pos, tick, len)->chunk.start == a
        },
        pos >= b && a >= len ==> planned(pos, tick, len) == (Plan::Wait {
            seeked: None,
            wrapped: Some(a),
        }),
        pos < b && pos < len ==> {
            &&& planned(pos, tick, len) is Feed
            &&& planned(pos, tick, len)->Feed_wrapped is None
            &&& planned(pos, tick, len)->chunk.start == pos
        },
{
}

/// Without seeks or loops, a playing round feeds the next 2048 samples from
/// the read position (fewer at the end of the buffer, the last chunk being
/// marked final), and waits once the end is reached; stopping changes
/// nothing.
pub proof fn law_plain_playback_round(pos: int, tick: Tick, len: nat)
    requires
        0 <= pos,
        len <= usize::MAX,
        tick.seek is None,
        !tick.loop_params.looping,
    ensures
        tick.stop ==> planned(pos, tick, len) == Plan::Stop && planned_pos(pos, tick, len) == pos,
        !tick.stop && tick.playing && pos < len ==> {
            let end: int = if pos + 2048 < len {
                pos + 2048
            } else {
                len as int
            };
            &&& planned(pos, tick, len) == (Plan::Feed {
                seeked: None,
                wrapped: None,
                chunk: Chunk { start: pos as usize, end: end as usize, is_final: end == len },
            })
            &&& planned_pos(pos, tick, len) == end
        },
        !tick.stop && tick.playing && pos >= len ==> planned(pos, tick, len) == (Plan::Wait {
            seeked: None,
            wrapped: None,
        }) && planned_pos(pos, tick, len) == pos,
        !tick.stop && !tick.playing ==> planned_pos(pos, tick, len) == pos,
{
}

} // verus!
