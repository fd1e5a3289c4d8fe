use screwdriver::decode::{on_stream_error, stream_layout, PacketStep, StreamError};
use screwdriver::device::{choose_output_config, ring_capacity, OutputConfigRange};
use screwdriver::frames::{deinterleave, interleave, upmix_to_stereo};
use screwdriver::waveform::{rms_bucket_ranges, subsample_waveform};

#[test]
fn deinterleave_splits_channels() {
    let v = vec![1, 2, 3, 4, 5, 6];
    assert_eq!(deinterleave(&v, 2), vec![vec![1, 3, 5], vec![2, 4, 6]]);
    assert_eq!(deinterleave(&v, 3), vec![vec![1, 4], vec![2, 5], vec![3, 6]]);
    let empty: Vec<i32> = vec![];
    assert_eq!(deinterleave(&empty, 2), vec![Vec::<i32>::new(), Vec::new()]);
}

#[test]
fn interleave_joins_frames() {
    let chans = vec![vec![1.0f32, 3.0, 5.0, 7.0], vec![2.0, 4.0, 6.0, 8.0]];
    assert_eq!(interleave(&chans, 3), vec![1.0, 2.0, 3.0, 4.0, 5.0, 6.0]);
    assert_eq!(interleave(&chans, 0), Vec::<f32>::new());
    let none: Vec<Vec<f32>> = vec![];
    assert_eq!(interleave(&none, 5), Vec::<f32>::new());
}

#[test]
fn ring_holds_one_second_of_stereo() {
    assert_eq!(ring_capacity(48000), 96000);
    assert_eq!(ring_capacity(44100), 88200);
    assert_eq!(ring_capacity(0), 0);
}

#[test]
fn round_trip_gives_back_the_buffer() {
    let v: Vec<f32> = (0..20).map(|i| i as f32 * 0.5).collect();
    let split = deinterleave(&v, 2);
    assert_eq!(interleave(&split, 10), v);
}

#[test]
fn mono_is_upmixed_to_stereo() {
    let mut out = vec![9];
    upmix_to_stereo(&mut out, &[1, 2, 3], 1);
    assert_eq!(out, vec![9, 1, 1, 2, 2, 3, 3]);
    upmix_to_stereo(&mut out, &[4, 5], 2);
    assert_eq!(out, vec![9, 1, 1, 2, 2, 3, 3, 4, 5]);
    let mut wide = vec![];
    upmix_to_stereo(&mut wide, &[1, 2, 3, 4, 5, 6], 6);
    assert_eq!(wide, vec![1, 2]);
}

#[test]
fn surround_keeps_the_front_pair_of_each_frame() {
    let mut out = vec![];
    upmix_to_stereo(&mut out, &[1, 2, 3, 4, 5, 6, 7, 8, 9], 3);
    assert_eq!(out, vec![1, 2, 4, 5, 7, 8]);
    let mut partial = vec![];
    upmix_to_stereo(&mut partial, &[1, 2, 3, 4], 3);
    assert_eq!(partial, vec![1, 2]);
    let mut none = vec![0];
    upmix_to_stereo(&mut none, &[1, 2, 3], 0);
    assert_eq!(none, vec![0]);
    let mut stereo = vec![];
    upmix_to_stereo(&mut stereo, &[1, 2, 3, 4], 2);
    assert_eq!(stereo, vec![1, 2, 3, 4]);
    assert_eq!(stereo.len() % 2, 0);
}

#[test]
fn rms_buckets_cover_the_buffer() {
    assert_eq!(rms_bucket_ranges(0, 200), None);
    assert_eq!(rms_bucket_ranges(10, 0), None);
    assert_eq!(rms_bucket_ranges(10, 3), Some(vec![(0, 3), (3, 6), (6, 9)]));
    assert_eq!(rms_bucket_ranges(5, 200), Some(vec![(0, 1), (1, 2), (2, 3), (3, 4), (4, 5)]));
    assert_eq!(rms_bucket_ranges(7, 2), Some(vec![(0, 3), (3, 6)]));
    let r = rms_bucket_ranges(1000, 200).unwrap();
    assert_eq!(r.len(), 200);
    assert_eq!(r[199], (995, 1000));
}

#[test]
fn waveform_is_spread_over_the_width() {
    assert_eq!(subsample_waveform(&vec![], 10), vec![0]);
    assert_eq!(subsample_waveform(&vec![5, 6], 0), vec![0]);
    assert_eq!(subsample_waveform(&vec![10, 20, 30, 40], 2), vec![10, 30]);
    assert_eq!(subsample_waveform(&vec![10, 20], 5), vec![10, 10, 10, 20, 20]);
}

#[test]
fn output_config_prefers_the_file_rate() {
    let mono = OutputConfigRange { channels: 1, min_sample_rate: 8000, max_sample_rate: 96000, is_f32: true };
    let int16 = OutputConfigRange { channels: 2, min_sample_rate: 8000, max_sample_rate: 96000, is_f32: false };
    let low = OutputConfigRange { channels: 2, min_sample_rate: 8000, max_sample_rate: 32000, is_f32: true };
    let wide = OutputConfigRange { channels: 2, min_sample_rate: 8000, max_sample_rate: 192000, is_f32: true };
    assert_eq!(choose_output_config(&vec![mono, int16, low, wide], 44100), Some((3, 44100)));
    assert_eq!(choose_output_config(&vec![mono, low], 44100), Some((1, 32000)));
    assert_eq!(choose_output_config(&vec![mono, int16], 44100), None);
    assert_eq!(choose_output_config(&vec![], 44100), None);
}

#[test]
fn decoding_skips_bad_packets_and_stops_otherwise() {
    assert_eq!(on_stream_error(StreamError::Decode), PacketStep::Skip);
    assert_eq!(on_stream_error(StreamError::Io), PacketStep::Finish);
    assert_eq!(on_stream_error(StreamError::ResetRequired), PacketStep::Finish);
    assert_eq!(on_stream_error(StreamError::Other), PacketStep::Finish);
    assert_eq!(stream_layout(None, None), (44100, 2));
    assert_eq!(stream_layout(Some(48000), Some(1)), (48000, 1));
}
