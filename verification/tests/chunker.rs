use ebook_playback::chunker::{chunk_audio_samples, samples_per_frame, AudioFrame};

fn ramp(count: usize) -> Vec<i16> {
    let mut samples = Vec::new();
    for i in 0..count {
        samples.push((i % 1000) as i16);
    }
    samples
}

fn joined(frames: &[AudioFrame]) -> Vec<i16> {
    let mut all = Vec::new();
    for frame in frames {
        all.extend_from_slice(&frame.samples);
    }
    all
}

#[test]
fn empty_input_gives_one_empty_frame() {
    let frames = chunk_audio_samples(Vec::new(), 16_000, 40);
    assert_eq!(frames.len(), 1);
    assert!(frames[0].samples.is_empty());
    assert_eq!(frames[0].sample_rate, 16_000);
    assert_eq!(frames[0].associated_text_idx, 0);
}

#[test]
fn frames_hold_two_hundred_milliseconds() {
    assert_eq!(samples_per_frame(16_000), 3_200);
    assert_eq!(samples_per_frame(22_050), 4_410);
    assert_eq!(samples_per_frame(4), 1);
    assert_eq!(samples_per_frame(0), 1);
    assert_eq!(samples_per_frame(u32::MAX), 858_993_459);
}

#[test]
fn frames_partition_the_samples() {
    let samples = ramp(7_000);
    let frames = chunk_audio_samples(samples.clone(), 16_000, 50);
    assert_eq!(frames.len(), 3);
    assert_eq!(frames[0].samples.len(), 3_200);
    assert_eq!(frames[1].samples.len(), 3_200);
    assert_eq!(frames[2].samples.len(), 600);
    assert_eq!(joined(&frames), samples);
    for frame in &frames {
        assert_eq!(frame.sample_rate, 16_000);
    }
}

#[test]
fn text_offsets_are_interpolated_and_rounded() {
    let frames = chunk_audio_samples(ramp(7_000), 16_000, 50);
    // 0, 3200 * 50 / 7000 = 22.86, 6400 * 50 / 7000 = 45.71
    assert_eq!(frames[0].associated_text_idx, 0);
    assert_eq!(frames[1].associated_text_idx, 23);
    assert_eq!(frames[2].associated_text_idx, 46);
}

#[test]
fn halves_round_upward() {
    // one sample per frame; offsets k * 2 / 4 = 0, 0.5, 1, 1.5
    let frames = chunk_audio_samples(vec![1, 2, 3, 4], 5, 2);
    let offsets: Vec<usize> = frames.iter().map(|f| f.associated_text_idx).collect();
    assert_eq!(offsets, vec![0, 1, 1, 2]);
}

#[test]
fn offsets_never_decrease_and_stay_in_the_text() {
    for text_len in [0usize, 1, 7, 1_000] {
        let samples = ramp(10_001);
        let frames = chunk_audio_samples(samples.clone(), 8_000, text_len);
        assert_eq!(frames.len(), 7);
        assert_eq!(joined(&frames), samples);
        let mut last = 0;
        for frame in &frames {
            assert!(frame.associated_text_idx >= last);
            assert!(frame.associated_text_idx <= text_len);
            last = frame.associated_text_idx;
        }
    }
}

#[test]
fn exact_multiple_has_no_short_frame() {
    let frames = chunk_audio_samples(ramp(6_400), 16_000, 10);
    assert_eq!(frames.len(), 2);
    assert_eq!(frames[1].samples.len(), 3_200);
    assert_eq!(frames[1].associated_text_idx, 5);
}

#[test]
fn a_frame_copy_is_equal() {
    let frames = chunk_audio_samples(ramp(10), 16_000, 3);
    let copy = frames[0].clone();
    assert_eq!(copy.samples, frames[0].samples);
    assert_eq!(copy.sample_rate, frames[0].sample_rate);
    assert_eq!(copy.associated_text_idx, frames[0].associated_text_idx);
}
