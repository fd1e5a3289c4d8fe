use screwdriver::clip::{Clip, ClipError};
use screwdriver::controls::{
    lower_pitch, lower_tempo, preset_values, raise_pitch, raise_tempo, Preset, PITCH_LIMIT,
    TEMPO_MAX, TEMPO_MIN,
};
use screwdriver::processor::LoopParams;
use screwdriver::state::{command_for, cycle_index, seconds_at, AppState, Command, Key, KeyAction};

fn files(names: &[&str]) -> Vec<String> {
    names.iter().map(|s| s.to_string()).collect()
}

fn fresh() -> AppState {
    AppState::new(files(&["voice.wav"]), 44100, 441000, vec![1, 2, 3])
}

#[test]
fn new_state_is_neutral_and_playing() {
    let s = fresh();
    assert_eq!(s.pitch, 0);
    assert_eq!(s.tempo, 100);
    assert!(s.playing);
    assert_eq!(s.position, 0);
    assert_eq!(s.in_point, None);
    assert_eq!(s.out_point, None);
    assert!(!s.looping);
    assert!(!s.show_help);
    assert_eq!(s.file_idx, 0);
    assert_eq!(s.clip_counter, 0);
    assert!(s.clips.is_empty());
}

#[test]
fn arrow_keys_step_pitch_by_half_semitones() {
    let mut s = fresh();
    assert!(matches!(s.handle_key(Key::Up, false), KeyAction::SetPitch(1)));
    assert!(matches!(s.handle_key(Key::Up, false), KeyAction::SetPitch(2)));
    assert!(matches!(s.handle_key(Key::Down, false), KeyAction::SetPitch(1)));
    assert_eq!(s.pitch, 1);
}

#[test]
fn shift_arrows_step_pitch_by_two_semitones() {
    let mut s = fresh();
    assert!(matches!(s.handle_key(Key::Up, true), KeyAction::SetPitch(4)));
    assert!(matches!(s.handle_key(Key::Down, true), KeyAction::SetPitch(0)));
    assert!(matches!(s.handle_key(Key::Down, true), KeyAction::SetPitch(-4)));
}

#[test]
fn pitch_is_held_within_24_semitones() {
    let mut s = fresh();
    for _ in 0..30 {
        s.handle_key(Key::Up, true);
    }
    assert_eq!(s.pitch, PITCH_LIMIT);
    for _ in 0..100 {
        s.handle_key(Key::Down, false);
    }
    assert_eq!(s.pitch, -PITCH_LIMIT);
    assert_eq!(raise_pitch(47, true), 48);
    assert_eq!(lower_pitch(-46, true), -48);
    assert_eq!(raise_pitch(i32::MAX, false), 48);
    assert_eq!(lower_pitch(i32::MIN, true), -48);
}

#[test]
fn side_arrows_step_tempo_by_five_hundredths() {
    let mut s = fresh();
    assert!(matches!(s.handle_key(Key::Right, false), KeyAction::SetTempo(105)));
    assert!(matches!(s.handle_key(Key::Left, false), KeyAction::SetTempo(100)));
    assert!(matches!(s.handle_key(Key::Left, true), KeyAction::SetTempo(95)));
}

#[test]
fn tempo_is_held_between_tenth_and_four_times() {
    let mut s = fresh();
    for _ in 0..100 {
        s.handle_key(Key::Right, false);
    }
    assert_eq!(s.tempo, TEMPO_MAX);
    for _ in 0..100 {
        s.handle_key(Key::Left, false);
    }
    assert_eq!(s.tempo, TEMPO_MIN);
    assert_eq!(raise_tempo(398), 400);
    assert_eq!(lower_tempo(12), 10);
    assert_eq!(lower_tempo(0), 10);
    assert_eq!(raise_tempo(u32::MAX), 400);
}

#[test]
fn presets_match_the_key_table() {
    assert_eq!(preset_values(Preset::Light), (-6, 80));
    assert_eq!(preset_values(Preset::Classic), (-12, 70));
    assert_eq!(preset_values(Preset::Deep), (-18, 60));
    let mut s = fresh();
    assert!(matches!(s.handle_key(Key::Char('2'), false), KeyAction::SetPitchTempo(-12, 70)));
    assert!(matches!(s.handle_key(Key::Char('1'), false), KeyAction::SetPitchTempo(-6, 80)));
    assert!(matches!(s.handle_key(Key::Char('3'), false), KeyAction::SetPitchTempo(-18, 60)));
    assert_eq!((s.pitch, s.tempo), (-18, 60));
}

#[test]
fn reset_restores_neutral_pitch_and_tempo() {
    let mut s = fresh();
    s.handle_key(Key::Up, true);
    s.handle_key(Key::Left, false);
    assert!(matches!(s.handle_key(Key::Char('r'), false), KeyAction::SetPitchTempo(0, 100)));
    assert_eq!((s.pitch, s.tempo), (0, 100));
}

#[test]
fn space_toggles_playback() {
    let mut s = fresh();
    assert!(matches!(s.handle_key(Key::Char(' '), false), KeyAction::SetPlaying(false)));
    assert!(!s.playing);
    assert!(matches!(s.handle_key(Key::Char(' '), false), KeyAction::SetPlaying(true)));
    assert!(s.playing);
}

#[test]
fn question_mark_toggles_help_and_q_quits() {
    let mut s = fresh();
    assert!(matches!(s.handle_key(Key::Char('?'), false), KeyAction::Nothing));
    assert!(s.show_help);
    s.handle_key(Key::Char('?'), false);
    assert!(!s.show_help);
    assert!(matches!(s.handle_key(Key::Char('q'), false), KeyAction::Quit));
    assert!(matches!(s.handle_key(Key::Char('x'), false), KeyAction::Nothing));
    assert!(matches!(s.handle_key(Key::Other, true), KeyAction::Nothing));
}

#[test]
fn marks_follow_the_position_and_jumps_return_to_them() {
    let mut s = fresh();
    assert!(matches!(s.handle_key(Key::Char('['), false), KeyAction::Nothing));
    assert!(matches!(s.handle_key(Key::Char(']'), false), KeyAction::Nothing));
    s.sync_from_engine(8820, true);
    match s.handle_key(Key::Char('i'), false) {
        KeyAction::SyncLoop(lp) => {
            assert_eq!(lp, LoopParams { looping: false, loop_in: Some(8820), loop_out: None })
        }
        other => panic!("unexpected {:?}", other),
    }
    s.sync_from_engine(44100, true);
    s.handle_key(Key::Char('o'), false);
    match s.handle_key(Key::Char('l'), false) {
        KeyAction::SyncLoop(lp) => assert_eq!(
            lp,
            LoopParams { looping: true, loop_in: Some(8820), loop_out: Some(44100) }
        ),
        other => panic!("unexpected {:?}", other),
    }
    assert!(matches!(s.handle_key(Key::Char('['), false), KeyAction::Seek(8820)));
    assert!(matches!(s.handle_key(Key::Char(']'), false), KeyAction::Seek(44100)));
    assert_eq!(s.loop_params(), LoopParams { looping: true, loop_in: Some(8820), loop_out: Some(44100) });
}

#[test]
fn saving_numbers_clips_and_defaults_to_whole_file() {
    let mut s = fresh();
    s.handle_key(Key::Char('1'), false);
    let req = match s.handle_key(Key::Char('s'), false) {
        KeyAction::SaveClip(req) => req,
        other => panic!("unexpected {:?}", other),
    };
    assert_eq!(req.file_name, "clip_001.wav");
    assert_eq!(req.clip.source, "voice.wav");
    assert_eq!(req.clip.in_point, 0);
    assert_eq!(req.clip.out_point, 441000);
    assert_eq!((req.clip.pitch, req.clip.tempo), (-6, 80));
    assert_eq!(req.clip.sample_rate, 44100);
    s.record_clip(req);
    assert_eq!(s.clips.len(), 1);
    assert_eq!(s.status_msg.as_deref(), Some("saved \u{2192} clip_001.wav"));
    s.sync_from_engine(1000, true);
    s.handle_key(Key::Char('i'), false);
    match s.handle_key(Key::Char('s'), false) {
        KeyAction::SaveClip(req) => {
            assert_eq!(req.file_name, "clip_002.wav");
            assert_eq!(req.clip.in_point, 1000);
        }
        other => panic!("unexpected {:?}", other),
    }
    assert_eq!(s.clip_counter, 2);
    assert_eq!(s.clips.len(), 1);
}

#[test]
fn files_cycle_in_both_directions() {
    let mut s = AppState::new(files(&["a.wav", "b.mp3", "c.flac"]), 48000, 96000, vec![]);
    assert!(matches!(s.handle_key(Key::Char('p'), false), KeyAction::LoadFile(2)));
    assert!(matches!(s.handle_key(Key::Char('n'), false), KeyAction::LoadFile(0)));
    assert!(matches!(s.handle_key(Key::Char('n'), false), KeyAction::LoadFile(1)));
    assert_eq!(s.file_idx, 1);
    assert_eq!(cycle_index(2, 3, true), 0);
    assert_eq!(cycle_index(0, 3, false), 2);
    assert_eq!(cycle_index(1, 3, false), 0);
}

#[test]
fn single_file_does_not_cycle() {
    let mut s = fresh();
    assert!(matches!(s.handle_key(Key::Char('n'), false), KeyAction::Nothing));
    assert!(matches!(s.handle_key(Key::Char('p'), false), KeyAction::Nothing));
    assert_eq!(s.file_idx, 0);
}

#[test]
fn loading_a_file_clears_marks_and_keeps_controls() {
    let mut s = AppState::new(files(&["a.wav", "b.wav"]), 44100, 1000, vec![]);
    s.handle_key(Key::Up, false);
    s.sync_from_engine(500, true);
    s.handle_key(Key::Char('i'), false);
    s.handle_key(Key::Char('l'), false);
    s.handle_key(Key::Char('n'), false);
    s.load_audio(22050, 2000, vec![7]);
    assert_eq!(s.in_point, None);
    assert_eq!(s.out_point, None);
    assert_eq!(s.position, 0);
    assert_eq!(s.sample_rate, 22050);
    assert_eq!(s.total_samples, 2000);
    assert_eq!(s.waveform_rms, vec![7]);
    assert_eq!(s.pitch, 1);
    assert!(s.looping);
    assert_eq!(s.file_idx, 1);
}

#[test]
fn key_table_commands() {
    assert_eq!(command_for(Key::Up, true), Command::PitchUp { coarse: true });
    assert_eq!(command_for(Key::Char('l'), false), Command::ToggleLoop);
    assert_eq!(command_for(Key::Char('3'), false), Command::ApplyPreset(Preset::Deep));
    assert_eq!(command_for(Key::Char('Q'), false), Command::Ignore);
}

#[test]
fn seconds_shown_for_positions() {
    assert_eq!(seconds_at(0, 44100), 0);
    assert_eq!(seconds_at(88199, 44100), 0);
    assert_eq!(seconds_at(88200, 44100), 1);
    assert_eq!(seconds_at(88200 * 125, 44100), 125);
    assert_eq!(seconds_at(0, 0), 0);
    assert_eq!(seconds_at(5, 0), u32::MAX);
    assert_eq!(seconds_at(u64::MAX, 1), u32::MAX);
    let mut s = fresh();
    s.sync_from_engine(88200 * 3, false);
    assert_eq!(s.position_secs(), 3);
    assert_eq!(s.duration_secs(), 5);
    assert!(!s.playing);
}

#[test]
fn clip_ranges_are_frame_aligned_and_cut_at_the_end() {
    let clip = Clip {
        source: "a.wav".to_string(),
        in_point: 101,
        out_point: 2001,
        pitch: 0,
        tempo: 100,
        sample_rate: 44100,
    };
    assert_eq!(clip.sample_range(5000), Ok((100, 2000)));
    assert_eq!(clip.sample_range(1001), Ok((100, 1001)));
    assert_eq!(clip.sample_range(100), Err(ClipError::InPointNotBeforeOutPoint));
    let backwards = Clip { in_point: 3000, out_point: 1000, ..clip };
    assert_eq!(backwards.sample_range(5000), Err(ClipError::InPointNotBeforeOutPoint));
}

#[test]
fn empty_file_list_is_accepted_until_a_save() {
    let mut s = AppState::new(vec![], 44100, 0, vec![]);
    assert_eq!(s.file_idx, 0);
    assert!(matches!(s.handle_key(Key::Char('n'), false), KeyAction::Nothing));
    assert!(matches!(s.handle_key(Key::Up, false), KeyAction::SetPitch(1)));
    assert_eq!(s.duration_secs(), 0);
}
