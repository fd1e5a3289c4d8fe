//! The transport: what the user controls from the keyboard (pitch, tempo,
//! play/pause, in and out points, looping, the file being played, saved
//! clips) and what each key press asks the audio side to do.
use vstd::prelude::*;
use crate::clip::Clip;
use crate::controls::{
    clamp, lowered_pitch, lowered_tempo, pitch_in_range, preset_spec, raised_pitch,
    raised_tempo, tempo_in_range, lower_pitch, lower_tempo, preset_values, raise_pitch,
    raise_tempo, Preset, TEMPO_NEUTRAL,
};
use crate::processor::LoopParams;
use crate::text::{clip_file_name, clip_file_text};

verus! {

/// A key as the transport sees it.
#[derive(Clone, Copy, Debug, PartialEq, Eq)]
pub enum Key {
    Char(char),
    Up,
    Down,
    Left,
    Right,
    Other,
}

/// What a key press means.
#[derive(Clone, Copy, Debug, PartialEq, Eq)]
pub enum Command {
    Quit,
    ToggleHelp,
    TogglePlay,
    PitchUp { coarse: bool },
    PitchDown { coarse: bool },
    TempoUp,
    TempoDown,
    Reset,
    MarkIn,
    MarkOut,
    JumpToIn,
    JumpToOut,
    ToggleLoop,
    SaveClip,
    NextFile,
    PreviousFile,
    ApplyPreset(Preset),
    Ignore,
}

/// A clip to render and the file name to save it under.
#[derive(Debug)]
pub struct ClipRequest {
    pub clip: Clip,
    pub file_name: String,
}

/// What the audio side is to do after a key press.
#[derive(Debug)]
pub enum KeyAction {
    /// Nothing beyond the transport's own state.
    Nothing,
    /// Leave the program.
    Quit,
    /// Start (`true`) or pause playback.
    SetPlaying(bool),
    /// Publish a new pitch (half semitones).
    SetPitch(i32),
    /// Publish a new tempo (hundredths).
    SetTempo(u32),
    /// Publish a new pitch and tempo.
    SetPitchTempo(i32, u32),
    /// Publish new loop settings.
    SyncLoop(LoopParams),
    /// Ask playback to jump to a position (interleaved samples).
    Seek(u64),
    /// Render and save a clip; on success hand it to `AppState::record_clip`.
    SaveClip(ClipRequest),
    /// Decode the file at this index of `files` and restart playback on it;
    /// on success hand it to `AppState::load_audio`.
    LoadFile(usize),
}

/// The transport state.
///
/// `pitch` is in half semitones, `tempo` in hundredths of normal speed.
/// Positions (`position`, the points, `total_samples`) count interleaved
/// stereo samples of the decoded buffer; `sample_rate` is in frames per
/// second.
#[derive(Debug)]
pub struct AppState {
    pub pitch: i32,
    pub tempo: u32,
    pub playing: bool,
    pub position: u64,
    pub total_samples: u64,
    pub sample_rate: u32,
    pub in_point: Option<u64>,
    pub out_point: Option<u64>,
    pub looping: bool,
    pub show_help: bool,
    pub files: Vec<String>,
    pub file_idx: usize,
    pub clips: Vec<Clip>,
    pub clip_counter: u32,
    pub status_msg: Option<String>,
    pub waveform_rms: Vec<u64>,
}

/// The command bound to a key (with Shift held or not).
pub open spec fn command_spec(key: Key, shift: bool) -> Command {
    match key {
        Key::Up => Command::PitchUp { coarse: shift },
        Key::Down => Command::PitchDown { coarse: shift },
        Key::Right => Command::TempoUp,
        Key::Left => Command::TempoDown,
        Key::Other => Command::Ignore,
        Key::Char(c) => {
            if c == 'q' {
                Command::Quit
            } else if c == '?' {
                Command::ToggleHelp
            } else if c == ' ' {
                Command::TogglePlay
            } else if c == 'r' {
                Command::Reset
            } else if c == 'i' {
                Command::MarkIn
            } else if c == 'o' {
                Command::MarkOut
            } else if c == '[' {
                Command::JumpToIn
            } else if c == ']' {
                Command::JumpToOut
            } else if c == 'l' {
                Command::ToggleLoop
            } else if c == 's' {
                Command::SaveClip
            } else if c == 'n' {
                Command::NextFile
            } else if c == 'p' {
                Command::PreviousFile
            } else if c == '1' {
                Command::ApplyPreset(Preset::Light)
            } else if c == '2' {
                Command::ApplyPreset(Preset::Classic)
            } else if c == '3' {
                Command::ApplyPreset(Preset::Deep)
            } else {
                Command::Ignore
            }
        },
    }
}

/// Index of the next (`forward`) or previous file in a list of `n` files,
/// wrapping around at both ends.
pub open spec fn cycled_index(idx: int, n: int, forward: bool) -> int {
    if forward {
        (idx + 1) % n
    } else {
        (idx - 1) % n
    }
}

/// Loop settings published for a transport state.
pub open spec fn loop_params_spec(s: AppState) -> LoopParams {
    LoopParams { looping: s.looping, loop_in: s.in_point, loop_out: s.out_point }
}

/// The clip that saving would render: the marked region (the whole file
/// where a point is unset) at the current pitch and tempo.
pub open spec fn pending_clip(s: AppState) -> Clip {
    Clip {
        source: s.files[s.file_idx as int],
        in_point: match s.in_point {
            Some(p) => p,
            None => 0,
        },
        out_point: match s.out_point {
            Some(p) => p,
            None => s.total_samples,
        },
        pitch: s.pitch,
        tempo: s.tempo,
        sample_rate: s.sample_rate,
    }
}

/// The transport state after a command.
pub open spec fn after(s: AppState, cmd: Command) -> AppState {
    match cmd {
        Command::ToggleHelp => AppState { show_help: !s.show_help, ..s },
        Command::TogglePlay => AppState { playing: !s.playing, ..s },
        Command::PitchUp { coarse } => AppState {
            pitch: raised_pitch(s.pitch as int, coarse) as i32,
            ..s
        },
        Command::PitchDown { coarse } => AppState {
            pitch: lowered_pitch(s.pitch as int, coarse) as i32,
            ..s
        },
        Command::TempoUp => AppState { tempo: raised_tempo(s.tempo as int) as u32, ..s },
        Command::TempoDown => AppState { tempo: lowered_tempo(s.tempo as int) as u32, ..s },
        Command::Reset => AppState { pitch: 0, tempo: TEMPO_NEUTRAL, ..s },
        Command::MarkIn => AppState { in_point: Some(s.position), ..s },
        Command::MarkOut => AppState { out_point: Some(s.position), ..s },
        Command::ToggleLoop => AppState { looping: !s.looping, ..s },
        Command::SaveClip => AppState { clip_counter: (s.clip_counter + 1) as u32, ..s },
        Command::NextFile => if s.files.len() <= 1 {
            s
        } else {
            AppState {
                file_idx: cycled_index(s.file_idx as int, s.files.len() as int, true) as usize,
                ..s
            }
        },
        Command::PreviousFile => if s.files.len() <= 1 {
            s
        } else {
            AppState {
                file_idx: cycled_index(s.file_idx as int, s.files.len() as int, false) as usize,
                ..s
            }
        },
        Command::ApplyPreset(p) => AppState { pitch: preset_spec(p).0, tempo: preset_spec(p).1, ..s },
        _ => s,
    }
}

/// Whether `a` is what the audio side is asked to do when `cmd` is applied
/// to state `s`.
pub open spec fn action_fits(a: KeyAction, s: AppState, cmd: Command) -> bool {
    let t = after(s, cmd);
    match cmd {
        Command::Quit => a is Quit,
        Command::TogglePlay => a == KeyAction::SetPlaying(t.playing),
        Command::PitchUp { .. } => a == KeyAction::SetPitch(t.pitch),
        Command::PitchDown { .. } => a == KeyAction::SetPitch(t.pitch),
        Command::TempoUp => a == KeyAction::SetTempo(t.tempo),
        Command::TempoDown => a == KeyAction::SetTempo(t.tempo),
        Command::Reset => a == KeyAction::SetPitchTempo(t.pitch, t.tempo),
        Command::ApplyPreset(_) => a == KeyAction::SetPitchTempo(t.pitch, t.tempo),
        Command::MarkIn => a == KeyAction::SyncLoop(loop_params_spec(t)),
        Command::MarkOut => a == KeyAction::SyncLoop(loop_params_spec(t)),
        Command::ToggleLoop => a == KeyAction::SyncLoop(loop_params_spec(t)),
        Command::JumpToIn => match s.in_point {
            Some(p) => a == KeyAction::Seek(p),
            None => a is Nothing,
        },
        Command::JumpToOut => match s.out_point {
            Some(p) => a == KeyAction::Seek(p),
            None => a is Nothing,
        },
        Command::SaveClip => match a {
            KeyAction::SaveClip(req) => {
                &&& req.clip == pending_clip(s)
                &&& req.file_name@ == clip_file_text(t.clip_counter as nat)
            },
            _ => false,
        },
        Command::NextFile => if s.files.len() <= 1 {
            a is Nothing
        } else {
            a == KeyAction::LoadFile(t.file_idx)
        },
        Command::PreviousFile => if s.files.len() <= 1 {
            a is Nothing
        } else {
            a == KeyAction::LoadFile(t.file_idx)
        },
        _ => a is Nothing,
    }
}

/// Whole seconds in `samples` interleaved stereo samples at `rate` frames per
/// second, as the position display truncates them (the largest value when
/// it does not fit, and zero for an empty buffer of unknown rate).
pub open spec fn seconds_spec(samples: u64, rate: u32) -> int {
    if rate == 0 {
        if samples == 0 {
            0
        } else {
            u32::MAX as int
        }
    } else {
        let s = samples as int / (2 * rate as int);
        if s > u32::MAX {
            u32::MAX as int
        } else {
            s
        }
    }
}

/// The status line after a clip was saved under `file_name`.
pub open spec fn saved_text(file_name: Seq<char>) -> Seq<char> {
    seq!['s', 'a', 'v', 'e', 'd', ' ', '\u{2192}', ' '] + file_name
}

/// The command bound to a key: arrows for pitch (Shift for coarse steps)
/// and tempo, and the letters of the key table.
pub fn command_for(key: Key, shift: bool) -> (cmd: Command)
    ensures
        cmd == command_spec(key, shift),
{
    match key {
        Key::Up => Command::PitchUp { coarse: shift },
        Key::Down => Command::PitchDown { coarse: shift },
        Key::Right => Command::TempoUp,
        Key::Left => Command::TempoDown,
        Key::Other => Command::Ignore,
        Key::Char(c) => {
            if c == 'q' {
                Command::Quit
            } else if c == '?' {
                Command::ToggleHelp
            } else if c == ' ' {
                Command::TogglePlay
            } else if c == 'r' {
                Command::Reset
            } else if c == 'i' {
                Command::MarkIn
            } else if c == 'o' {
                Command::MarkOut
            } else if c == '[' {
                Command::JumpToIn
            } else if c == ']' {
                Command::JumpToOut
            } else if c == 'l' {
                Command::ToggleLoop
            } else if c == 's' {
                Command::SaveClip
            } else if c == 'n' {
                Command::NextFile
            } else if c == 'p' {
                Command::PreviousFile
            } else if c == '1' {
                Command::ApplyPreset(Preset::Light)
            } else if c == '2' {
                Command::ApplyPreset(Preset::Classic)
            } else if c == '3' {
                Command::ApplyPreset(Preset::Deep)
            } else {
                Command::Ignore
            }
        },
    }
}

/// Index of the next (`forward`) or previous file among `n`, wrapping around.
pub fn cycle_index(idx: usize, n: usize, forward: bool) -> (r: usize)
    requires
        idx < n,
    ensures
        r == cycled_index(idx as int, n as int, forward),
        r < n,
{
    proof {
        let ni = n as int;
        let i = idx as int;
        if forward {
            if i + 1 == ni {
                vstd::arithmetic::div_mod::lemma_fundamental_div_mod_converse(i + 1, ni, 1, 0);
            } else {
                vstd::arithmetic::div_mod::lemma_fundamental_div_mod_converse(i + 1, ni, 0, i + 1);
            }
        } else {
            if i == 0 {
                vstd::arithmetic::div_mod::lemma_fundamental_div_mod_converse(-1, ni, -1, ni - 1);
            } else {
                vstd::arithmetic::div_mod::lemma_fundamental_div_mod_converse(i - 1, ni, 0, i - 1);
            }
        }
    }
    if forward {
        if idx + 1 == n {
            0
        } else {
            idx + 1
        }
    } else {
        if idx == 0 {
            n - 1
        } else {
            idx - 1
        }
    }
}

/// Whole seconds in `samples` interleaved stereo samples at `rate` frames
/// per second.
pub fn seconds_at(samples: u64, rate: u32) -> (r: u32)
    ensures
        r == seconds_spec(samples, rate),
{
    if rate == 0 {
        if samples == 0 {
            0
        } else {
            u32::MAX
        }
    } else {
        let s = samples / (2 * rate as u64);
        if s > u32::MAX as u64 {
            u32::MAX
        } else {
            s as u32
        }
    }
}

impl AppState {
    /// Valid transport state: pitch and tempo within their ranges, and the
    /// current file among the files (the first position when there are none).
    pub open spec fn wf(&self) -> bool {
        &&& pitch_in_range(self.pitch as int)
        &&& tempo_in_range(self.tempo as int)
        &&& (self.file_idx < self.files.len() || self.file_idx == 0)
    }

    /// The state when playback of the first file starts: neutral pitch and
    /// tempo, playing from the start, no points, no clips.
    pub fn new(files: Vec<String>, sample_rate: u32, total_samples: u64, waveform_rms: Vec<u64>) -> (s: AppState)
        ensures
            s.wf(),
            s.pitch == 0,
            s.tempo == TEMPO_NEUTRAL,
            s.playing,
            s.position == 0,
            s.total_samples == total_samples,
            s.sample_rate == sample_rate,
            s.in_point is None,
            s.out_point is None,
            !s.looping,
            !s.show_help,
            s.files == files,
            s.file_idx == 0,
            s.clips@.len() == 0,
            s.clip_counter == 0,
            s.status_msg is None,
            s.waveform_rms == waveform_rms,
    {
        AppState {
            pitch: 0,
            tempo: TEMPO_NEUTRAL,
            playing: true,
            position: 0,
            total_samples,
            sample_rate,
            in_point: None,
            out_point: None,
            looping: false,
            show_help: false,
            files,
            file_idx: 0,
            clips: Vec::new(),
            clip_counter: 0,
            status_msg: None,
            waveform_rms,
        }
    }

    /// Loop settings to publish to playback.
    pub fn loop_params(&self) -> (lp: LoopParams)
        ensures
            lp == loop_params_spec(*self),
    {
        LoopParams { looping: self.looping, loop_in: self.in_point, loop_out: self.out_point }
    }

    /// Takes over what playback reports: the position reached and whether it
    /// is playing.
    pub fn sync_from_engine(&mut self, position: u64, playing: bool)
        ensures
            *final(self) == (AppState { position, playing, ..*old(self) }),
    {
        self.position = position;
        self.playing = playing;
    }

    /// Whole seconds played so far.
    pub fn position_secs(&self) -> (r: u32)
        ensures
            r == seconds_spec(self.position, self.sample_rate),
    {
        seconds_at(self.position, self.sample_rate)
    }

    /// Whole seconds in the current file.
    pub fn duration_secs(&self) -> (r: u32)
        ensures
            r == seconds_spec(self.total_samples, self.sample_rate),
    {
        seconds_at(self.total_samples, self.sample_rate)
    }

    /// Applies a command to the transport and says what the audio side is
    /// to do.
    pub fn apply(&mut self, cmd: Command) -> (a: KeyAction)
        requires
            old(self).wf(),
            cmd == Command::SaveClip ==> old(self).clip_counter < u32::MAX,
            cmd == Command::SaveClip ==> old(self).files.len() > 0,
        ensures
            final(self).wf(),
            *final(self) == after(*old(self), cmd),
            action_fits(a, *old(self), cmd),
    {
        match cmd {
            Command::Quit => KeyAction::Quit,
            Command::ToggleHelp => {
                self.show_help = !self.show_help;
                KeyAction::Nothing
            },
            Command::TogglePlay => {
                self.playing = !self.playing;
                KeyAction::SetPlaying(self.playing)
            },
            Command::PitchUp { coarse } => {
                self.pitch = raise_pitch(self.pitch, coarse);
                KeyAction::SetPitch(self.pitch)
            },
            Command::PitchDown { coarse } => {
                self.pitch = lower_pitch(self.pitch, coarse);
                KeyAction::SetPitch(self.pitch)
            },
            Command::TempoUp => {
                self.tempo = raise_tempo(self.tempo);
                KeyAction::SetTempo(self.tempo)
            },
            Command::TempoDown => {
                self.tempo = lower_tempo(self.tempo);
                KeyAction::SetTempo(self.tempo)
            },
            Command::Reset => {
                self.pitch = 0;
                self.tempo = TEMPO_NEUTRAL;
                KeyAction::SetPitchTempo(0, TEMPO_NEUTRAL)
            },
            Command::ApplyPreset(p) => {
                let (pitch, tempo) = preset_values(p);
                self.pitch = pitch;
                self.tempo = tempo;
                KeyAction::SetPitchTempo(pitch, tempo)
            },
            Command::MarkIn => {
                self.in_point = Some(self.position);
                KeyAction::SyncLoop(self.loop_params())
            },
            Command::MarkOut => {
                self.out_point = Some(self.position);
                KeyAction::SyncLoop(self.loop_params())
            },
            Command::ToggleLoop => {
                self.looping = !self.looping;
                KeyAction::SyncLoop(self.loop_params())
            },
            Command::JumpToIn => match self.in_point {
                Some(p) => KeyAction::Seek(p),
                None => KeyAction::Nothing,
            },
            Command::JumpToOut => match self.out_point {
                Some(p) => KeyAction::Seek(p),
                None => KeyAction::Nothing,
            },
            Command::SaveClip => {
                let source = self.files[self.file_idx].clone();
                self.clip_counter = self.clip_counter + 1;
                let file_name = clip_file_name(self.clip_counter);
                let in_point = match self.in_point {
                    Some(p) => p,
                    None => 0,
                };
                let out_point = match self.out_point {
                    Some(p) => p,
                    None => self.total_samples,
                };
                let clip = Clip {
                    source,
                    in_point,
                    out_point,
                    pitch: self.pitch,
                    tempo: self.tempo,
                    sample_rate: self.sample_rate,
                };
                KeyAction::SaveClip(ClipRequest { clip, file_name })
            },
            Command::NextFile => {
                let n = self.files.len();
                if n <= 1 {
                    KeyAction::Nothing
                } else {
                    self.file_idx = cycle_index(self.file_idx, n, true);
                    KeyAction::LoadFile(self.file_idx)
                }
            },
            Command::PreviousFile => {
                let n = self.files.len();
                if n <= 1 {
                    KeyAction::Nothing
                } else {
                    self.file_idx = cycle_index(self.file_idx, n, false);
                    KeyAction::LoadFile(self.file_idx)
                }
            },
            Command::Ignore => KeyAction::Nothing,
        }
    }

    /// Records a clip that was rendered and saved under `req.file_name`, and
    /// says so in the status line.
    pub fn record_clip(&mut self, req: ClipRequest)
        ensures
            final(self).clips@ == old(self).clips@.push(req.clip),
            final(self).status_msg matches Some(m) && m@ == saved_text(req.file_name@),
            final(self).pitch == old(self).pitch,
            final(self).tempo == old(self).tempo,
            final(self).playing == old(self).playing,
            final(self).position == old(self).position,
            final(self).total_samples == old(self).total_samples,
            final(self).sample_rate == old(self).sample_rate,
            final(self).in_point == old(self).in_point,
            final(self).out_point == old(self).out_point,
            final(self).looping == old(self).looping,
            final(self).show_help == old(self).show_help,
            final(self).files == old(self).files,
            final(self).file_idx == old(self).file_idx,
            final(self).clip_counter == old(self).clip_counter,
            final(self).waveform_rms == old(self).waveform_rms,
    {
        proof {
            reveal_strlit("saved \u{2192} ");
        }
        let mut msg = String::from_str("saved \u{2192} ");
        msg.append(req.file_name.as_str());
        self.status_msg = Some(msg);
        self.clips.push(req.clip);
    }

    /// Takes over a newly decoded file: its rate, length and waveform; the
    /// points are cleared and the position goes back to the start, while
    /// pitch, tempo, looping and the clips stay.
    pub fn load_audio(&mut self, sample_rate: u32, total_samples: u64, waveform_rms: Vec<u64>)
        ensures
            *final(self) == (AppState {
                sample_rate,
                total_samples,
                waveform_rms,
                in_point: None,
                out_point: None,
                position: 0,
                ..*old(self)
            }),
    {
        self.sample_rate = sample_rate;
        self.total_samples = total_samples;
        self.waveform_rms = waveform_rms;
        self.in_point = None;
        self.out_point = None;
        self.position = 0;
    }

    /// Handles one key press: looks up its command and applies it.
    pub fn handle_key(&mut self, key: Key, shift: bool) -> (a: KeyAction)
        requires
            old(self).wf(),
            command_spec(key, shift) == Command::SaveClip ==> old(self).clip_counter < u32::MAX,
            command_spec(key, shift) == Command::SaveClip ==> old(self).files.len() > 0,
        ensures
            final(self).wf(),
            *final(self) == after(*old(self), command_spec(key, shift)),
            action_fits(a, *old(self), command_spec(key, shift)),
    {
        let cmd = command_for(key, shift);
        self.apply(cmd)
    }
}

/// Help, play/pause and looping are toggles: pressing the key twice gives
/// back the same transport state.
pub proof fn law_toggles_undo_themselves(s: AppState)
    ensures
        after(after(s, Command::ToggleHelp), Command::ToggleHelp) == s,
        after(after(s, Command::TogglePlay), Command::TogglePlay) == s,
        after(after(s, Command::ToggleLoop), Command::ToggleLoop) == s,
{
    assert(after(after(s, Command::ToggleHelp), Command::ToggleHelp) =~= s);
    assert(after(after(s, Command::TogglePlay), Command::TogglePlay) =~= s);
    assert(after(after(s, Command::ToggleLoop), Command::ToggleLoop) =~= s);
}

/// A pitch step up then down (or down then up) of the same size leaves the
/// whole transport as it was, unless the first step hit the limit; likewise
/// for tempo.
pub proof fn law_steps_undo_on_transport(s: AppState, coarse: bool)
    requires
        s.wf(),
    ensures
        s.pitch + crate::controls::pitch_step(coarse) <= crate::controls::PITCH_LIMIT ==> after(
            after(s, Command::PitchUp { coarse }),
            Command::PitchDown { coarse },
        ) == s,
        s.pitch - crate::controls::pitch_step(coarse) >= -crate::controls::PITCH_LIMIT ==> after(
            after(s, Command::PitchDown { coarse }),
            Command::PitchUp { coarse },
        ) == s,
        s.tempo + crate::controls::TEMPO_STEP <= crate::controls::TEMPO_MAX ==> after(
            after(s, Command::TempoUp),
            Command::TempoDown,
        ) == s,
        s.tempo - crate::controls::TEMPO_STEP >= crate::controls::TEMPO_MIN ==> after(
            after(s, Command::TempoDown),
            Command::TempoUp,
        ) == s,
{
    crate::controls::law_pitch_steps_undo(s.pitch as int, coarse);
    crate::controls::law_tempo_steps_undo(s.tempo as int);
    assert(after(after(s, Command::PitchUp { coarse }), Command::PitchDown { coarse }).pitch
        == lowered_pitch(raised_pitch(s.pitch as int, coarse), coarse));
    if s.pitch + crate::controls::pitch_step(coarse) <= crate::controls::PITCH_LIMIT {
        assert(after(after(s, Command::PitchUp { coarse }), Command::PitchDown { coarse }) =~= s);
    }
    if s.pitch - crate::controls::pitch_step(coarse) >= -crate::controls::PITCH_LIMIT {
        assert(after(after(s, Command::PitchDown { coarse }), Command::PitchUp { coarse }) =~= s);
    }
    if s.tempo + crate::controls::TEMPO_STEP <= crate::controls::TEMPO_MAX {
        assert(after(after(s, Command::TempoUp), Command::TempoDown) =~= s);
    }
    if s.tempo - crate::controls::TEMPO_STEP >= crate::controls::TEMPO_MIN {
        assert(after(after(s, Command::TempoDown), Command::TempoUp) =~= s);
    }
}

/// Reset brings pitch and tempo back to neutral whatever was done to them
/// before, and touches nothing else.
pub proof fn law_reset_is_neutral(s: AppState, cmd: Command)
    requires
        cmd is PitchUp || cmd is PitchDown || cmd is TempoUp || cmd is TempoDown
            || cmd is ApplyPreset || cmd is Reset,
    ensures
        after(after(s, cmd), Command::Reset) == after(s, Command::Reset),
        after(s, Command::Reset).pitch == 0,
        after(s, Command::Reset).tempo == TEMPO_NEUTRAL,
{
    assert(after(after(s, cmd), Command::Reset) =~= after(s, Command::Reset));
}

/// Jumping to a point just marked seeks to the position where it was marked.
pub proof fn law_jump_returns_to_mark(s: AppState, a: KeyAction, b: KeyAction)
    ensures
        action_fits(a, after(s, Command::MarkIn), Command::JumpToIn) ==> a == KeyAction::Seek(
            s.position,
        ),
        action_fits(b, after(s, Command::MarkOut), Command::JumpToOut) ==> b == KeyAction::Seek(
            s.position,
        ),
{
}

/// With more than one file, next then previous (or previous then next)
/// comes back to the same file and state; the current index always stays
/// among the files.
pub proof fn law_file_cycle_returns(s: AppState)
    requires
        s.wf(),
        s.files.len() > 1,
    ensures
        after(after(s, Command::NextFile), Command::PreviousFile) == s,
        after(after(s, Command::PreviousFile), Command::NextFile) == s,
        after(s, Command::NextFile).file_idx < s.files.len(),
        after(s, Command::PreviousFile).file_idx < s.files.len(),
{
    let n = s.files.len() as int;
    let i = s.file_idx as int;
    if i + 1 == n {
        vstd::arithmetic::div_mod::lemma_fundamental_div_mod_converse(i + 1, n, 1, 0);
        vstd::arithmetic::div_mod::lemma_fundamental_div_mod_converse(-1, n, -1, n - 1);
    } else {
        vstd::arithmetic::div_mod::lemma_fundamental_div_mod_converse(i + 1, n, 0, i + 1);
    }
    if i == 0 {
        vstd::arithmetic::div_mod::lemma_fundamental_div_mod_converse(-1, n, -1, n - 1);
        vstd::arithmetic::div_mod::lemma_fundamental_div_mod_converse(n, n, 1, 0);
    } else {
        vstd::arithmetic::div_mod::lemma_fundamental_div_mod_converse(i - 1, n, 0, i - 1);
        vstd::arithmetic::div_mod::lemma_fundamental_div_mod_converse(i, n, 0, i);
    }
    assert(after(after(s, Command::NextFile), Command::PreviousFile) =~= s);
    assert(after(after(s, Command::PreviousFile), Command::NextFile) =~= s);
}

/// A saved clip covers the marked region, from the start of the file where
/// no in point is set and to its end where no out point is set, at the pitch
/// and tempo in effect, from the current file at its own sample rate; each
/// save numbers its file one higher.
pub proof fn law_save_covers_marks(s: AppState, a: KeyAction)
    requires
        s.clip_counter < u32::MAX,
        action_fits(a, s, Command::SaveClip),
    ensures
        a matches KeyAction::SaveClip(req) && {
            &&& req.clip.in_point == (if s.in_point is Some {
                s.in_point->0
            } else {
                0
            })
            &&& req.clip.out_point == (if s.out_point is Some {
                s.out_point->0
            } else {
                s.total_samples
            })
            &&& req.clip.pitch == s.pitch
            &&& req.clip.tempo == s.tempo
            &&& req.clip.sample_rate == s.sample_rate
            &&& req.clip.source == s.files[s.file_idx as int]
            &&& req.file_name@ == clip_file_text((s.clip_counter + 1) as nat)
        },
{
}

/// The loop settings a transport publishes make the feeder loop exactly
/// when looping is on and both points are marked with the out point after
/// the in point.
pub proof fn law_published_loop_is_active(s: AppState)
    ensures
        crate::processor::loop_active(loop_params_spec(s)) <==> (s.looping && s.in_point is Some
            && s.out_point is Some && s.in_point->0 < s.out_point->0),
{
}

/// Whole seconds shown for a position: for a known rate, the largest whole
/// number of seconds (two samples per frame, `rate` frames per second) that
/// does not exceed the position, held at the largest 32-bit value.
pub proof fn law_seconds_truncate(samples: u64, rate: u32)
    ensures
        rate > 0 && seconds_spec(samples, rate) < u32::MAX ==> seconds_spec(samples, rate) * 2
            * rate <= samples < (seconds_spec(samples, rate) + 1) * 2 * rate,
        rate > 0 && seconds_spec(samples, rate) == u32::MAX ==> samples >= u32::MAX as int * 2
            * rate,
        0 <= seconds_spec(samples, rate) <= u32::MAX,
        rate == 0 ==> (seconds_spec(samples, rate) == 0 <==> samples == 0),
{
    if rate > 0 {
        let d = 2 * rate as int;
        let x = samples as int;
        let q = x / d;
        vstd::arithmetic::div_mod::lemma_fundamental_div_mod(x, d);
        assert(0 <= q) by {
            vstd::arithmetic::div_mod::lemma_div_pos_is_pos(x, d);
        }
        assert(q * d <= x < (q + 1) * d) by (nonlinear_arith)
            requires
                x == d * q + x % d,
                0 <= x % d < d,
        ;
        assert(q * 2 * rate == q * d && (q + 1) * 2 * rate == (q + 1) * d) by (nonlinear_arith)
            requires
                d == 2 * rate,
        ;
        assert(u32::MAX as int * 2 * rate == u32::MAX as int * d) by (nonlinear_arith)
            requires
                d == 2 * rate,
        ;
        if q >= u32::MAX {
            assert(u32::MAX as int * d <= q * d) by (nonlinear_arith)
                requires
                    q >= u32::MAX,
                    d > 0,
            ;
        }
    }
}

/// Each toggle flips exactly its own flag and leaves every other part of
/// the transport as it was.
pub proof fn law_toggles_flip_one_flag(s: AppState)
    ensures
        after(s, Command::ToggleHelp).show_help == !s.show_help,
        after(s, Command::ToggleHelp) == (AppState { show_help: !s.show_help, ..s }),
        after(s, Command::TogglePlay).playing == !s.playing,
        after(s, Command::TogglePlay) == (AppState { playing: !s.playing, ..s }),
        after(s, Command::ToggleLoop).looping == !s.looping,
        after(s, Command::ToggleLoop) == (AppState { looping: !s.looping, ..s }),
{
}

/// Next moves to the following file and previous to the one before, with
/// the last and the first file wrapping round to each other.
pub proof fn law_file_cycle_is_adjacent(idx: int, n: int)
    requires
        0 <= idx < n,
    ensures
        idx + 1 < n ==> cycled_index(idx, n, true) == idx + 1,
        idx + 1 == n ==> cycled_index(idx, n, true) == 0,
        idx > 0 ==> cycled_index(idx, n, false) == idx - 1,
        idx == 0 ==> cycled_index(idx, n, false) == n - 1,
{
    if idx + 1 == n {
        vstd::arithmetic::div_mod::lemma_fundamental_div_mod_converse(idx + 1, n, 1, 0);
    } else {
        vstd::arithmetic::div_mod::lemma_fundamental_div_mod_converse(idx + 1, n, 0, idx + 1);
    }
    if idx == 0 {
        vstd::arithmetic::div_mod::lemma_fundamental_div_mod_converse(-1, n, -1, n - 1);
    } else {
        vstd::arithmetic::div_mod::lemma_fundamental_div_mod_converse(idx - 1, n, 0, idx - 1);
    }
}

/// Marks record where playback is: marking the in (out) point sets it to
/// the current position and touches nothing else.
pub proof fn law_marks_take_position(s: AppState)
    ensures
        after(s, Command::MarkIn).in_point == Some(s.position),
        after(s, Command::MarkIn) == (AppState { in_point: Some(s.position), ..s }),
        after(s, Command::MarkOut).out_point == Some(s.position),
        after(s, Command::MarkOut) == (AppState { out_point: Some(s.position), ..s }),
        loop_params_spec(s).loop_in == s.in_point && loop_params_spec(s).loop_out == s.out_point
            && loop_params_spec(s).looping == s.looping,
{
}

} // verus!
