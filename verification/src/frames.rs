//! Sample layout: interleaved multi-channel buffers, per-channel buffers,
//! and the mono-to-stereo upmix applied while decoding.
use vstd::prelude::*;

verus! {

/// Channel `c` of an interleaved buffer with `channels` channels: the sample
/// of that channel in every complete frame.
pub open spec fn channel_of<T>(s: Seq<T>, channels: nat, c: int) -> Seq<T> {
    Seq::new(s.len() / channels, |f: int| s[f * channels + c])
}

/// The interleaved buffer made of the first `frames` samples of each channel:
/// sample `k` belongs to channel `k % n` and frame `k / n`.
pub open spec fn interleaved<T>(chs: Seq<Seq<T>>, frames: nat) -> Seq<T> {
    Seq::new(frames * chs.len(), |k: int| chs[k % (chs.len() as int)][k / (chs.len() as int)])
}

/// What decoding appends for one decoded packet, always two channels per
/// frame: mono is duplicated into left and right; with two or more channels
/// each whole frame contributes its first two channels (stereo is copied as
/// it is, further channels are left out). A packet without channels holds no
/// frames and adds nothing.
pub open spec fn upmixed<T>(samples: Seq<T>, channels: nat) -> Seq<T> {
    if channels == 0 {
        Seq::empty()
    } else if channels == 1 {
        Seq::new(2 * samples.len(), |i: int| samples[i / 2])
    } else {
        Seq::new(2 * (samples.len() / channels), |i: int| samples[(i / 2) * channels + i % 2])
    }
}

/// Position arithmetic of frame `f`, channel `c` in an `n`-channel layout.
pub proof fn lemma_frame_position(f: int, n: int, c: int)
    requires
        0 <= f,
        0 <= c < n,
    ensures
        (f * n + c) % n == c,
        (f * n + c) / n == f,
{
    vstd::arithmetic::div_mod::lemma_fundamental_div_mod_converse(f * n + c, n, f, c);
}

/// A frame/channel position inside `frames` frames lies inside the buffer.
pub proof fn lemma_position_in_bounds(f: int, frames: int, n: int, c: int)
    requires
        0 <= f < frames,
        0 <= c < n,
    ensures
        f * n + c < frames * n,
        0 <= f * n + c,
{
    assert(f * n + c < frames * n) by (nonlinear_arith)
        requires
            0 <= f < frames,
            0 <= c < n,
    ;
    assert(0 <= f * n) by (nonlinear_arith)
        requires
            0 <= f,
            0 <= c < n,
    ;
}

/// Splits an interleaved buffer into one buffer per channel, as the stretcher
/// takes its input.
pub fn deinterleave<T: Copy>(interleaved: &[T], channels: usize) -> (res: Vec<Vec<T>>)
    requires
        channels > 0,
        interleaved@.len() % (channels as nat) == 0,
    ensures
        res@.len() == channels,
        forall|c: int|
            0 <= c < channels ==> #[trigger] res@[c]@ == channel_of(
                interleaved@,
                channels as nat,
                c,
            ),
{
    let len = interleaved.len();
    let frames = len / channels;
    proof {
        vstd::arithmetic::div_mod::lemma_fundamental_div_mod(
            interleaved@.len() as int,
            channels as int,
        );
    }
    let mut res: Vec<Vec<T>> = Vec::new();
    let mut c: usize = 0;
    while c < channels
        invariant
            c <= channels,
            channels > 0,
            frames == interleaved@.len() / (channels as nat),
            frames * channels == interleaved@.len(),
            len == interleaved@.len(),
            res@.len() == c,
            forall|k: int|
                0 <= k < c ==> #[trigger] res@[k]@ == channel_of(
                    interleaved@,
                    channels as nat,
                    k,
                ),
        decreases channels - c,
    {
        let mut chan: Vec<T> = Vec::new();
        let mut f: usize = 0;
        while f < frames
            invariant
                f <= frames,
                c < channels,
                frames == interleaved@.len() / (channels as nat),
                frames * channels == interleaved@.len(),
                len == interleaved@.len(),
                chan@.len() == f,
                forall|g: int|
                    0 <= g < f ==> #[trigger] chan@[g] == interleaved@[g * channels + c],
            decreases frames - f,
        {
            proof {
                lemma_position_in_bounds(f as int, frames as int, channels as int, c as int);
            }
            chan.push(interleaved[f * channels + c]);
            f = f + 1;
        }
        assert(chan@ =~= channel_of(interleaved@, channels as nat, c as int));
        res.push(chan);
        c = c + 1;
    }
    res
}

/// Joins the first `frames` samples of each channel buffer into one
/// interleaved buffer, as the stretcher's output is handed on. Without
/// channel buffers the result is empty.
pub fn interleave<T: Copy>(channels: &Vec<Vec<T>>, frames: usize) -> (res: Vec<T>)
    requires
        frames * channels@.len() <= usize::MAX,
        forall|c: int| 0 <= c < channels@.len() ==> frames <= #[trigger] channels@[c]@.len(),
    ensures
        res@ == interleaved(channels@.map_values(|v: Vec<T>| v@), frames as nat),
{
    let n = channels.len();
    let ghost chs = channels@.map_values(|v: Vec<T>| v@);
    let mut res: Vec<T> = Vec::new();
    if n == 0 {
        assert(res@ =~= interleaved(chs, frames as nat));
        return res;
    }
    let mut f: usize = 0;
    while f < frames
        invariant
            f <= frames,
            n == channels@.len(),
            n > 0,
            frames * n <= usize::MAX,
            chs == channels@.map_values(|v: Vec<T>| v@),
            forall|c: int| 0 <= c < n ==> frames <= #[trigger] channels@[c]@.len(),
            res@.len() == f * n,
            forall|k: int|
                0 <= k < f * n ==> #[trigger] res@[k] == chs[k % (n as int)][k / (n as int)],
        decreases frames - f,
    {
        let mut c: usize = 0;
        while c < n
            invariant
                c <= n,
                f < frames,
                n == channels@.len(),
                n > 0,
                frames * n <= usize::MAX,
                chs == channels@.map_values(|v: Vec<T>| v@),
                forall|c: int| 0 <= c < n ==> frames <= #[trigger] channels@[c]@.len(),
                res@.len() == f * n + c,
                forall|k: int|
                    0 <= k < f * n + c ==> #[trigger] res@[k] == chs[k % (n as int)][k / (
                    n as int)],
            decreases n - c,
        {
            proof {
                lemma_frame_position(f as int, n as int, c as int);
                lemma_position_in_bounds(f as int, frames as int, n as int, c as int);
            }
            res.push(channels[c][f]);
            c = c + 1;
        }
        assert((f + 1) * n == f * n + n) by (nonlinear_arith);
        f = f + 1;
    }
    assert(res@ =~= interleaved(chs, frames as nat));
    res
}

/// Appends one decoded packet to the stereo buffer: a mono packet has each
/// sample written twice (left and right); a packet of two or more channels
/// has the first two channels of each whole frame written.
pub fn upmix_to_stereo<T: Copy>(out: &mut Vec<T>, samples: &[T], channels: usize)
    ensures
        final(out)@ == old(out)@ + upmixed(samples@, channels as nat),
{
    let ghost start = out@;
    if channels == 0 {
        assert(out@ =~= start + upmixed(samples@, channels as nat));
    } else if channels == 1 {
        let mut i: usize = 0;
        while i < samples.len()
            invariant
                i <= samples@.len(),
                out@.len() == start.len() + 2 * i,
                forall|k: int| 0 <= k < start.len() ==> #[trigger] out@[k] == start[k],
                forall|k: int|
                    0 <= k < 2 * i ==> #[trigger] out@[start.len() + k] == samples@[k / 2],
            decreases samples@.len() - i,
        {
            let s = samples[i];
            out.push(s);
            out.push(s);
            i = i + 1;
        }
        assert forall|j: int| start.len() <= j < out@.len() implies out@[j] == upmixed(
            samples@,
            channels as nat,
        )[j - start.len()] by {
            let k = j - start.len();
            assert(out@[start.len() + k] == samples@[k / 2]);
        }
        assert(out@ =~= start + upmixed(samples@, channels as nat));
    } else {
        let len = samples.len();
        let frames = len / channels;
        proof {
            vstd::arithmetic::div_mod::lemma_fundamental_div_mod(len as int, channels as int);
            assert(frames * channels <= len) by (nonlinear_arith)
                requires
                    len == channels * frames + len % channels,
                    len % channels >= 0,
            ;
        }
        let mut f: usize = 0;
        while f < frames
            invariant
                f <= frames,
                channels >= 2,
                len == samples@.len(),
                frames == len / channels,
                frames * channels <= len,
                out@.len() == start.len() + 2 * f,
                forall|k: int| 0 <= k < start.len() ==> #[trigger] out@[k] == start[k],
                forall|k: int|
                    0 <= k < 2 * f ==> #[trigger] out@[start.len() + k] == samples@[(k / 2)
                        * channels + k % 2],
            decreases frames - f,
        {
            proof {
                lemma_position_in_bounds(f as int, frames as int, channels as int, 1);
                lemma_position_in_bounds(f as int, frames as int, channels as int, 0);
            }
            let left = samples[f * channels];
            let right = samples[f * channels + 1];
            out.push(left);
            out.push(right);
            proof {
                let k0 = 2 * f as int;
                assert(k0 / 2 == f && k0 % 2 == 0);
                assert((k0 + 1) / 2 == f && (k0 + 1) % 2 == 1);
                assert(out@[start.len() + k0] == samples@[(k0 / 2) * channels + k0 % 2]);
                assert(out@[start.len() + k0 + 1] == samples@[((k0 + 1) / 2) * channels + (k0
                    + 1) % 2]);
            }
            f = f + 1;
        }
        assert forall|j: int| start.len() <= j < out@.len() implies out@[j] == upmixed(
            samples@,
            channels as nat,
        )[j - start.len()] by {
            let k = j - start.len();
            assert(out@[start.len() + k] == samples@[(k / 2) * channels + k % 2]);
        }
        assert(out@ =~= start + upmixed(samples@, channels as nat));
    }
}

/// Decoding always yields stereo: every packet adds whole frames of two
/// samples, the left and right sample of frame `f` standing at `2f` and
/// `2f + 1` (both the mono sample for mono, channels 0 and 1 otherwise).
pub proof fn law_upmix_is_stereo<T>(samples: Seq<T>, channels: nat)
    ensures
        upmixed(samples, channels).len() % 2 == 0,
        channels == 1 ==> forall|f: int|
            0 <= f < samples.len() ==> #[trigger] upmixed(samples, channels)[2 * f] == samples[f]
                && upmixed(samples, channels)[2 * f + 1] == samples[f],
        channels >= 2 ==> forall|f: int|
            0 <= f < samples.len() / channels ==> #[trigger] upmixed(samples, channels)[2 * f]
                == samples[f * channels] && upmixed(samples, channels)[2 * f + 1] == samples[f
                * channels + 1],
{
    if channels == 1 {
        assert forall|f: int| 0 <= f < samples.len() implies #[trigger] upmixed(
            samples,
            channels,
        )[2 * f] == samples[f] && upmixed(samples, channels)[2 * f + 1] == samples[f] by {
            assert((2 * f) / 2 == f);
            assert((2 * f + 1) / 2 == f);
        }
    }
    if channels >= 2 {
        assert forall|f: int| 0 <= f < samples.len() / channels implies #[trigger] upmixed(
            samples,
            channels,
        )[2 * f] == samples[f * channels] && upmixed(samples, channels)[2 * f + 1] == samples[f
            * channels + 1] by {
            assert((2 * f) / 2 == f && (2 * f) % 2 == 0);
            assert((2 * f + 1) / 2 == f && (2 * f + 1) % 2 == 1);
        }
    }
}

/// Splitting an interleaved buffer of whole frames into its channels and
/// joining the channels again gives back the buffer sample for sample.
pub proof fn law_interleave_after_deinterleave<T>(s: Seq<T>, n: nat)
    requires
        n > 0,
        s.len() % n == 0,
    ensures
        interleaved(Seq::new(n, |c: int| channel_of(s, n, c)), s.len() / n) == s,
{
    let chs = Seq::new(n, |c: int| channel_of(s, n, c));
    vstd::arithmetic::div_mod::lemma_fundamental_div_mod(s.len() as int, n as int);
    assert((s.len() / n) * n == s.len()) by (nonlinear_arith)
        requires
            s.len() == n * (s.len() / n) + s.len() % n,
            s.len() % n == 0,
    ;
    let r = interleaved(chs, s.len() / n);
    assert forall|k: int| 0 <= k < s.len() implies r[k] == s[k] by {
        vstd::arithmetic::div_mod::lemma_fundamental_div_mod(k, n as int);
        let q = k / (n as int);
        let c = k % (n as int);
        assert(0 <= c < n);
        assert(0 <= q) by {
            vstd::arithmetic::div_mod::lemma_div_pos_is_pos(k, n as int);
        }
        assert(q < s.len() / n) by {
            assert(q * n <= k) by (nonlinear_arith)
                requires
                    k == n * q + c,
                    0 <= c,
            ;
            if q >= s.len() / n {
                assert(q * n >= (s.len() / n) * n) by (nonlinear_arith)
                    requires
                        q >= s.len() / n,
                        n > 0,
                ;
            }
        }
        assert(q * n + c == k) by (nonlinear_arith)
            requires
                k == n * q + c,
        ;
    }
    assert(r =~= s);
}

/// Joining channel buffers and splitting the result again gives back the
/// first `frames` samples of every channel.
pub proof fn law_deinterleave_after_interleave<T>(chs: Seq<Seq<T>>, frames: nat)
    requires
        chs.len() > 0,
        forall|c: int| 0 <= c < chs.len() ==> frames <= #[trigger] chs[c].len(),
    ensures
        forall|c: int|
            0 <= c < chs.len() ==> #[trigger] channel_of(interleaved(chs, frames), chs.len(), c)
                == chs[c].subrange(0, frames as int),
{
    let n = chs.len();
    let s = interleaved(chs, frames);
    assert((frames * n) / n == frames) by {
        vstd::arithmetic::div_mod::lemma_div_multiples_vanish(frames as int, n as int);
        assert(frames * n == n * frames) by (nonlinear_arith);
    }
    assert forall|c: int| 0 <= c < n implies #[trigger] channel_of(s, n, c) == chs[c].subrange(
        0,
        frames as int,
    ) by {
        assert forall|f: int| 0 <= f < frames implies s[f * n + c] == chs[c][f] by {
            lemma_frame_position(f, n as int, c);
            lemma_position_in_bounds(f, frames as int, n as int, c);
        }
        assert(channel_of(s, n, c) =~= chs[c].subrange(0, frames as int));
    }
}

/// The interleaved buffer holds `frames` samples of every channel, frame
/// after frame: channel `c`'s sample of frame `f` stands at `f * n + c`.
pub proof fn law_interleaved_positions<T>(chs: Seq<Seq<T>>, frames: nat)
    requires
        chs.len() > 0,
    ensures
        interleaved(chs, frames).len() == frames * chs.len(),
        forall|f: int, c: int|
            0 <= f < frames && 0 <= c < chs.len() ==> #[trigger] interleaved(chs, frames)[f
                * chs.len() + c] == chs[c][f],
{
    let n = chs.len();
    assert forall|f: int, c: int| 0 <= f < frames && 0 <= c < n implies #[trigger] interleaved(
        chs,
        frames,
    )[f * n + c] == chs[c][f] by {
        lemma_frame_position(f, n as int, c);
        lemma_position_in_bounds(f, frames as int, n as int, c);
    }
}

/// A channel of an interleaved buffer has one sample per whole frame, the
/// sample of frame `f` being the one at `f * n + c`.
pub proof fn law_channel_positions<T>(s: Seq<T>, n: nat, c: int)
    requires
        n > 0,
        0 <= c < n,
    ensures
        channel_of(s, n, c).len() == s.len() / n,
        forall|f: int| 0 <= f < s.len() / n ==> #[trigger] channel_of(s, n, c)[f] == s[f * n + c],
{
}

/// How much a packet adds: two samples per sample for mono, two per whole
/// frame otherwise, nothing without channels.
pub proof fn law_upmix_length<T>(samples: Seq<T>, channels: nat)
    ensures
        channels == 0 ==> upmixed(samples, channels).len() == 0,
        channels == 1 ==> upmixed(samples, channels).len() == 2 * samples.len(),
        channels >= 2 ==> upmixed(samples, channels).len() == 2 * (samples.len() / channels),
        channels == 2 && samples.len() % 2 == 0 ==> upmixed(samples, channels) == samples,
{
    if channels == 2 && samples.len() % 2 == 0 {
        let u = upmixed(samples, channels);
        assert forall|i: int| 0 <= i < samples.len() implies u[i] == samples[i] by {
            assert((i / 2) * 2 + i % 2 == i);
        }
        assert(u =~= samples);
    }
}

} // verus!
