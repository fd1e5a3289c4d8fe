//! Verified core of a terminal tool for pitch- and tempo-shifted playback:
//! transport and parameter state, the playback feeder's decisions, sample
//! layouts, waveform bucketing, output-device selection and text fields.
#![allow(unused_imports)]

pub mod frames;
pub mod processor;
pub mod text;
pub mod controls;
pub mod clip;
pub mod state;
pub mod waveform;
pub mod device;
pub mod decode;
