# screwdriver

A terminal tool for chopped & screwed style listening: play audio files with
live pitch and tempo control, mark in and out points, loop between them and
save processed clips as WAV files.

`src/` is the verified core, checked with Verus:

- `state` — the transport: key bindings, what each key does to pitch, tempo,
  playback, marks, looping, the current file and saved clips, and what the
  audio side is asked to do.
- `controls` — pitch (half semitones) and tempo (hundredths) steps, limits
  and presets.
- `processor` — the playback feeder's decisions: seeking, loop jumps, the
  next chunk to stretch, dropping the stretcher's start-up delay.
- `frames` — interleaving, de-interleaving and mono upmix.
- `waveform` — loudness buckets and their spread over the display width.
- `device` — choice of the output configuration.
- `decode` — stream defaults and decode error handling.
- `clip` — the sample range of a clip.
- `text` — times, clip file names, pitch and tempo labels.

`app/` is the program around it: decoding with symphonia, the stretcher
(librubberband), audio output with cpal, the ring buffer, WAV writing with
hound, and the ratatui/crossterm interface.
