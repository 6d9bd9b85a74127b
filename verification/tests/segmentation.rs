use gain_core::level::Db;
use gain_core::segmentation::{frame_size, segment, Segment};

// Per-frame RMS levels of a float signal, as the measuring side computes them.
fn frame_levels(samples: &[f32], frame: usize) -> Vec<Db> {
    samples
        .chunks(frame)
        .map(|f| {
            let sum_sq: f32 = f.iter().map(|s| s * s).sum();
            let rms = (sum_sq / f.len() as f32).sqrt();
            let rms_db = if rms == 0.0 { -120.0f32 } else { 20.0 * rms.log10() };
            Db { nano: (rms_db as f64 * 1e9).round() as i64 }
        })
        .collect()
}

fn segment_samples(samples: &[f32], sample_rate: u32) -> Vec<Segment> {
    let frame = frame_size(sample_rate);
    segment(&frame_levels(samples, frame), frame, samples.len())
}

fn silence(n: usize) -> Vec<f32> {
    vec![0.0f32; n]
}

fn tone(n: usize) -> Vec<f32> {
    vec![0.5f32; n]
}

#[test]
fn empty_input_returns_empty() {
    assert!(segment_samples(&[], 44100).is_empty());
}

#[test]
fn pure_silence_returns_single_silent_segment() {
    let segs = segment_samples(&silence(44100), 44100);
    assert_eq!(segs.len(), 1);
    assert_eq!(segs[0].start_sample, 0);
    assert_eq!(segs[0].end_sample, 44100);
}

#[test]
fn pure_tone_returns_single_active_segment() {
    let segs = segment_samples(&tone(44100), 44100);
    assert_eq!(segs.len(), 1);
    assert_eq!(segs[0].start_sample, 0);
    assert_eq!(segs[0].end_sample, 44100);
}

#[test]
fn tone_silence_tone_returns_three_segments() {
    let mut samples = tone(22050);
    samples.extend(silence(22050));
    samples.extend(tone(22050));
    let segs = segment_samples(&samples, 44100);
    assert_eq!(segs.len(), 3, "expected tone|silence|tone, got {} segments", segs.len());
    assert_eq!(segs[1].start_sample, segs[0].end_sample);
    assert_eq!(segs[2].start_sample, segs[1].end_sample);
    assert_eq!(segs[2].end_sample, samples.len());
}

#[test]
fn short_silence_under_250ms_is_merged() {
    let mut samples = tone(22050);
    samples.extend(silence(4410));
    samples.extend(tone(22050));
    let segs = segment_samples(&samples, 44100);
    assert_eq!(segs.len(), 1, "short gap should be merged into single segment");
}

#[test]
fn segments_cover_full_sample_range() {
    let mut samples = silence(11025);
    samples.extend(tone(22050));
    samples.extend(silence(11025));
    let segs = segment_samples(&samples, 44100);
    assert_eq!(segs[0].start_sample, 0);
    assert_eq!(segs.last().unwrap().end_sample, samples.len());
}

#[test]
fn frame_size_is_ten_milliseconds_at_least_one() {
    assert_eq!(frame_size(44100), 441);
    assert_eq!(frame_size(48000), 480);
    assert_eq!(frame_size(50), 1);
    assert_eq!(frame_size(0), 1);
}

#[test]
fn short_leading_silence_keeps_its_own_segment() {
    // 5 silent frames, then 10 sounding frames, at 100 samples per frame.
    let mut levels = vec![Db { nano: -120_000_000_000 }; 5];
    levels.extend(vec![Db { nano: -6_000_000_000 }; 10]);
    let segs = segment(&levels, 100, 1450);
    assert_eq!(
        segs,
        vec![
            Segment { start_sample: 0, end_sample: 500 },
            Segment { start_sample: 500, end_sample: 1450 },
        ]
    );
}

#[test]
fn long_silence_splits_and_short_gaps_join() {
    // sound 3, silence 30, sound 2, silence 4, sound 1 (frames of 10 samples)
    let loud = Db { nano: -20_000_000_000 };
    let quiet = Db { nano: -60_000_000_001 };
    let mut levels = vec![loud; 3];
    levels.extend(vec![quiet; 30]);
    levels.extend(vec![loud; 2]);
    levels.extend(vec![quiet; 4]);
    levels.extend(vec![loud; 1]);
    let segs = segment(&levels, 10, 395);
    assert_eq!(
        segs,
        vec![
            Segment { start_sample: 0, end_sample: 30 },
            Segment { start_sample: 30, end_sample: 330 },
            Segment { start_sample: 330, end_sample: 395 },
        ]
    );
}

#[test]
fn level_at_threshold_is_not_silent() {
    let at = Db { nano: -60_000_000_000 };
    let segs = segment(&vec![at; 40], 1, 40);
    assert_eq!(segs, vec![Segment { start_sample: 0, end_sample: 40 }]);
}
