//! Pitch and tempo controls. Pitch is counted in half semitones and tempo in
//! hundredths of normal speed, so that every step, limit and preset of the
//! controls is an exact whole number.
use vstd::prelude::*;

verus! {

/// Largest pitch shift either way: 24 semitones.
pub const PITCH_LIMIT: i32 = 48;

/// Fine pitch step: half a semitone.
pub const PITCH_FINE_STEP: i32 = 1;

/// Coarse pitch step: two semitones.
pub const PITCH_COARSE_STEP: i32 = 4;

/// Slowest tempo: 0.10x.
pub const TEMPO_MIN: u32 = 10;

/// Fastest tempo: 4.00x.
pub const TEMPO_MAX: u32 = 400;

/// Tempo step: 0.05x.
pub const TEMPO_STEP: u32 = 5;

/// Normal speed: 1.00x.
pub const TEMPO_NEUTRAL: u32 = 100;

/// The three screw presets.
#[derive(Clone, Copy, Debug, PartialEq, Eq)]
pub enum Preset {
    /// -3 semitones at 0.80x.
    Light,
    /// -6 semitones at 0.70x.
    Classic,
    /// -9 semitones at 0.60x.
    Deep,
}

/// `v` limited to `[lo, hi]`.
pub open spec fn clamp(v: int, lo: int, hi: int) -> int {
    if v < lo {
        lo
    } else if v > hi {
        hi
    } else {
        v
    }
}

/// Size of one pitch step.
pub open spec fn pitch_step(coarse: bool) -> int {
    if coarse {
        PITCH_COARSE_STEP as int
    } else {
        PITCH_FINE_STEP as int
    }
}

/// A pitch value the controls can hold.
pub open spec fn pitch_in_range(p: int) -> bool {
    -PITCH_LIMIT <= p <= PITCH_LIMIT
}

/// A tempo value the controls can hold.
pub open spec fn tempo_in_range(t: int) -> bool {
    TEMPO_MIN <= t <= TEMPO_MAX
}

/// Pitch after one step up.
pub open spec fn raised_pitch(p: int, coarse: bool) -> int {
    clamp(p + pitch_step(coarse), -PITCH_LIMIT as int, PITCH_LIMIT as int)
}

/// Pitch after one step down.
pub open spec fn lowered_pitch(p: int, coarse: bool) -> int {
    clamp(p - pitch_step(coarse), -PITCH_LIMIT as int, PITCH_LIMIT as int)
}

/// Tempo after one step up.
pub open spec fn raised_tempo(t: int) -> int {
    clamp(t + TEMPO_STEP, TEMPO_MIN as int, TEMPO_MAX as int)
}

/// Tempo after one step down.
pub open spec fn lowered_tempo(t: int) -> int {
    clamp(t - TEMPO_STEP, TEMPO_MIN as int, TEMPO_MAX as int)
}

/// Pitch (half semitones) and tempo (hundredths) of a preset.
pub open spec fn preset_spec(p: Preset) -> (i32, u32) {
    match p {
        Preset::Light => (-6i32, 80u32),
        Preset::Classic => (-12i32, 70u32),
        Preset::Deep => (-18i32, 60u32),
    }
}

/// One pitch step up (`coarse`: two semitones, else half a semitone),
/// held within +-24 semitones.
pub fn raise_pitch(p: i32, coarse: bool) -> (r: i32)
    ensures
        r == raised_pitch(p as int, coarse),
{
    let step: i64 = if coarse {
        PITCH_COARSE_STEP as i64
    } else {
        PITCH_FINE_STEP as i64
    };
    let v: i64 = p as i64 + step;
    if v > PITCH_LIMIT as i64 {
        PITCH_LIMIT
    } else if v < -(PITCH_LIMIT as i64) {
        -PITCH_LIMIT
    } else {
        v as i32
    }
}

/// One pitch step down, held within +-24 semitones.
pub fn lower_pitch(p: i32, coarse: bool) -> (r: i32)
    ensures
        r == lowered_pitch(p as int, coarse),
{
    let step: i64 = if coarse {
        PITCH_COARSE_STEP as i64
    } else {
        PITCH_FINE_STEP as i64
    };
    let v: i64 = p as i64 - step;
    if v > PITCH_LIMIT as i64 {
        PITCH_LIMIT
    } else if v < -(PITCH_LIMIT as i64) {
        -PITCH_LIMIT
    } else {
        v as i32
    }
}

/// One tempo step up (0.05x), held within 0.10x..4.00x.
pub fn raise_tempo(t: u32) -> (r: u32)
    ensures
        r == raised_tempo(t as int),
{
    let v: u64 = t as u64 + TEMPO_STEP as u64;
    if v > TEMPO_MAX as u64 {
        TEMPO_MAX
    } else if v < TEMPO_MIN as u64 {
        TEMPO_MIN
    } else {
        v as u32
    }
}

/// One tempo step down (0.05x), held within 0.10x..4.00x.
pub fn lower_tempo(t: u32) -> (r: u32)
    ensures
        r == lowered_tempo(t as int),
{
    let v: i64 = t as i64 - TEMPO_STEP as i64;
    if v > TEMPO_MAX as i64 {
        TEMPO_MAX
    } else if v < TEMPO_MIN as i64 {
        TEMPO_MIN
    } else {
        v as u32
    }
}

/// Pitch (half semitones) and tempo (hundredths) of a preset.
pub fn preset_values(p: Preset) -> (r: (i32, u32))
    ensures
        r == preset_spec(p),
        pitch_in_range(r.0 as int),
        tempo_in_range(r.1 as int),
{
    match p {
        Preset::Light => (-6, 80),
        Preset::Classic => (-12, 70),
        Preset::Deep => (-18, 60),
    }
}

/// A step up followed by a step down of the same size gives back the pitch
/// where the step up was not cut off at the limit, and the other way round.
pub proof fn law_pitch_steps_undo(p: int, coarse: bool)
    requires
        pitch_in_range(p),
    ensures
        p + pitch_step(coarse) <= PITCH_LIMIT ==> lowered_pitch(raised_pitch(p, coarse), coarse)
            == p,
        p - pitch_step(coarse) >= -PITCH_LIMIT ==> raised_pitch(lowered_pitch(p, coarse), coarse)
            == p,
{
}

/// A tempo step up followed by a step down gives back the tempo where the
/// step up was not cut off at the limit, and the other way round.
pub proof fn law_tempo_steps_undo(t: int)
    requires
        tempo_in_range(t),
    ensures
        t + TEMPO_STEP <= TEMPO_MAX ==> lowered_tempo(raised_tempo(t)) == t,
        t - TEMPO_STEP >= TEMPO_MIN ==> raised_tempo(lowered_tempo(t)) == t,
{
}

/// Steps never leave the ranges; at a limit, a step further keeps the limit.
pub proof fn law_steps_saturate(p: int, t: int, coarse: bool)
    ensures
        pitch_in_range(raised_pitch(p, coarse)),
        pitch_in_range(lowered_pitch(p, coarse)),
        tempo_in_range(raised_tempo(t)),
        tempo_in_range(lowered_tempo(t)),
        raised_pitch(PITCH_LIMIT as int, coarse) == PITCH_LIMIT,
        lowered_pitch(-PITCH_LIMIT as int, coarse) == -PITCH_LIMIT,
        raised_tempo(TEMPO_MAX as int) == TEMPO_MAX,
        lowered_tempo(TEMPO_MIN as int) == TEMPO_MIN,
{
}

/// One fine step moves the pitch by one half semitone and one coarse step
/// by four (two semitones), and a tempo step by five hundredths, wherever
/// that stays within the limits; a step that would pass a limit stops at
/// the limit.
pub proof fn law_steps_are_exact(p: int, t: int)
    ensures
        -48 <= p + 1 <= 48 ==> raised_pitch(p, false) == p + 1,
        -48 <= p + 4 <= 48 ==> raised_pitch(p, true) == p + 4,
        -48 <= p - 1 <= 48 ==> lowered_pitch(p, false) == p - 1,
        -48 <= p - 4 <= 48 ==> lowered_pitch(p, true) == p - 4,
        p >= -48 && p + 4 > 48 ==> raised_pitch(p, true) == 48,
        p <= 48 && p - 4 < -48 ==> lowered_pitch(p, true) == -48,
        t + 5 <= 400 && t + 5 >= 10 ==> raised_tempo(t) == t + 5,
        t - 5 >= 10 && t - 5 <= 400 ==> lowered_tempo(t) == t - 5,
        t >= 10 && t + 5 > 400 ==> raised_tempo(t) == 400,
        t <= 400 && t - 5 < 10 ==> lowered_tempo(t) == 10,
{
}

/// Every preset lowers the pitch and slows the tempo, and the deeper the
/// preset, the lower and slower.
pub proof fn law_presets_screw_down()
    ensures
        forall|p: Preset| #[trigger] preset_spec(p).0 < 0 && preset_spec(p).1 < TEMPO_NEUTRAL,
        preset_spec(Preset::Deep).0 < preset_spec(Preset::Classic).0 < preset_spec(
            Preset::Light,
        ).0,
        preset_spec(Preset::Deep).1 < preset_spec(Preset::Classic).1 < preset_spec(
            Preset::Light,
        ).1,
{
    assert forall|p: Preset| #[trigger] preset_spec(p).0 < 0 && preset_spec(p).1 < TEMPO_NEUTRAL by {
        match p {
            Preset::Light => {},
            Preset::Classic => {},
            Preset::Deep => {},
        }
    }
}

} // verus!
