use loop_station::{AudioBuffer, AudioEngine, AudioError, BpmDetector, BufferPool, Effect, PooledBuffer, UNITY};
use loop_station::{AppConfig, TrackEffects};

/// A sample value in the library's fixed-point format.
fn q(x: f32) -> i32 {
    (x * UNITY as f32) as i32
}

/// Short clicks at every beat of `bpm`, eight seconds long.
fn generate_test_signal(bpm: f32, sample_rate: u32) -> Vec<i32> {
    let len = (sample_rate * 8) as usize;
    let mut signal = vec![0i32; len];
    let beat = 60.0 / bpm as f64 * sample_rate as f64;
    let mut k = 0usize;
    loop {
        let start = (k as f64 * beat).round() as usize;
        if start >= len {
            break;
        }
        for i in start..(start + 16).min(len) {
            signal[i] = q(0.8);
        }
        k += 1;
    }
    signal
}

#[test]
fn test_buffer_operations() {
    let mut buffer = AudioBuffer::new(44100, 2);
    buffer.append_mono(&[q(1.0), q(2.0), q(3.0)]);
    assert_eq!(buffer.len(), 3);
    assert_eq!(buffer.samples()[0], vec![q(1.0), q(2.0), q(3.0)]);
    assert_eq!(buffer.samples()[1], vec![q(1.0), q(2.0), q(3.0)]);

    buffer.apply_gain(q(0.5));
    assert_eq!(buffer.samples()[0], vec![q(0.5), q(1.0), q(1.5)]);

    buffer.to_mono();
    assert_eq!(buffer.channels(), 1);
    assert_eq!(buffer.samples()[0], vec![q(0.5), q(1.0), q(1.5)]);
}

#[test]
fn test_buffer_pool() {
    let mut pool = BufferPool::new(10);
    {
        let mut buffer = PooledBuffer::new(&mut pool, 2, 1024);
        buffer.extend_channel(0, &[q(1.0), q(2.0)]);
        buffer.extend_channel(1, &[q(3.0), q(4.0)]);
        pool.release(buffer);
    }

    let buffer = PooledBuffer::new(&mut pool, 2, 1024);
    assert!(buffer.capacity(0) >= 1024);
}

#[test]
fn test_config_defaults() {
    let config = AppConfig::default();
    assert_eq!(config.input_channels, 2);
    assert_eq!(config.initial_bpm_milli, 120_000);
}

#[test]
fn test_bpm_detection() {
    let detector = BpmDetector::new(44100);
    let test_signal = generate_test_signal(120.0, 44100);
    let bpm = detector.detect(&test_signal).unwrap() as f64 / 1000.0;
    assert!((bpm - 120.0).abs() < 1.0);
}

#[test]
fn detect_exact_tempo_value() {
    let detector = BpmDetector::new(44100);
    let signal = generate_test_signal(120.0, 44100);
    // a beat of 43 frames of 512 samples at 44100 Hz
    assert_eq!(detector.detect(&signal).unwrap(), 120_185);
}

#[test]
fn detect_silence_fails() {
    let detector = BpmDetector::new(44100);
    let signal = vec![0i32; 44100 * 4];
    assert!(matches!(detector.detect(&signal), Err(AudioError::InvalidBuffer)));
}

#[test]
fn engine_records_and_replays() {
    let mut engine = AudioEngine::new(44100, 4).unwrap();
    engine.add_track(String::from("loop"), 1).unwrap();
    engine.tracks[0].start_recording().unwrap();
    let mut ramp = Vec::new();
    for cb in 0..4 {
        let block: Vec<i32> = (0..128).map(|i| ((cb * 128 + i) as i32) * 100).collect();
        ramp.extend_from_slice(&block);
        let input = vec![block];
        let mut output = vec![vec![0i32; 128]; 2];
        engine.process(&input, &mut output).unwrap();
        assert_eq!(output[0], vec![0i32; 128]);
    }
    engine.tracks[0].stop_recording().unwrap();
    assert_eq!(engine.tracks[0].loop_length(), Some(512));
    let mut out = vec![0i32; 512];
    engine.tracks[0].process_output(&mut out).unwrap();
    assert_eq!(engine.tracks[0].cursor_position(), 0);
    assert_eq!(out, ramp);
    assert_eq!(engine.clock.sample_count(), 512);
}

#[test]
fn engine_mixes_playing_tracks_into_every_output() {
    let mut engine = AudioEngine::new(44100, 4).unwrap();
    engine.add_track(String::from("a"), 1).unwrap();
    engine.add_track(String::from("b"), 1).unwrap();
    for t in 0..2 {
        engine.tracks[t].start_recording().unwrap();
        engine.tracks[t].process_input(&[q(1.0), q(2.0)]);
        engine.tracks[t].stop_recording().unwrap();
    }
    let input: Vec<Vec<i32>> = Vec::new();
    let mut output = vec![vec![0i32; 4]; 2];
    engine.process(&input, &mut output).unwrap();
    assert_eq!(output[0], vec![q(2.0), q(4.0), q(2.0), q(4.0)]);
    assert_eq!(output[1], output[0]);
}

#[test]
fn engine_track_limit() {
    let mut engine = AudioEngine::new(44100, 1).unwrap();
    assert_eq!(engine.add_track(String::from("a"), 2).unwrap(), 0);
    assert!(matches!(engine.add_track(String::from("b"), 2), Err(AudioError::TrackError(_))));
    assert_eq!(engine.tracks.len(), 1);
}

#[test]
fn engine_applies_post_gain_and_mute() {
    let mut engine = AudioEngine::new(44100, 4).unwrap();
    engine.add_track(String::from("a"), 1).unwrap();
    engine.add_track(String::from("b"), 1).unwrap();
    for t in 0..2 {
        engine.tracks[t].start_recording().unwrap();
        engine.tracks[t].process_input(&[q(1.0), q(2.0)]);
        engine.tracks[t].stop_recording().unwrap();
    }
    let half = TrackEffects { post_gain: UNITY / 2, ..engine.tracks[0].mixing() };
    engine.tracks[0].set_mixing(half);
    let muted = TrackEffects { mute: true, ..engine.tracks[1].mixing() };
    engine.tracks[1].set_mixing(muted);
    let input: Vec<Vec<i32>> = Vec::new();
    let mut output = vec![vec![0i32; 2]; 1];
    engine.process(&input, &mut output).unwrap();
    assert_eq!(output[0], vec![q(0.5), q(1.0)]);
    // the muted track did not advance
    assert_eq!(engine.tracks[1].cursor_position(), 0);
    assert_eq!(engine.tracks[0].cursor_position(), 0);
}

#[test]
fn new_tracks_copy_default_effects() {
    let mut engine = AudioEngine::new(44100, 2).unwrap();
    engine.effects_processor.chain.effects.push(Effect::Gain(2 * UNITY));
    engine.add_track(String::from("a"), 1).unwrap();
    assert_eq!(engine.tracks[0].effects().chain.effects, vec![Effect::Gain(2 * UNITY)]);
    engine.tracks[0].start_recording().unwrap();
    engine.tracks[0].process_input(&[3]);
    engine.tracks[0].stop_recording().unwrap();
    let mut out = vec![0i32; 1];
    engine.tracks[0].process_output(&mut out).unwrap();
    assert_eq!(out, vec![6]);
}

#[test]
fn engine_reports_failing_tracks() {
    let mut engine = AudioEngine::new(44100, 3).unwrap();
    for name in ["a", "b", "c"] {
        engine.add_track(String::from(name), 1).unwrap();
    }
    for t in 0..3 {
        engine.tracks[t].start_recording().unwrap();
        engine.tracks[t].process_input(&[q(1.0)]);
        engine.tracks[t].stop_recording().unwrap();
    }
    let mut bad = loop_station::EffectsProcessor::new(44100);
    bad.chain.effects.push(Effect::Limiter(-1));
    engine.tracks[1].set_effects(bad);
    let input: Vec<Vec<i32>> = Vec::new();
    let mut output = vec![vec![0i32; 1]; 1];
    engine.process(&input, &mut output).unwrap();
    assert_eq!(engine.failed_tracks, vec![1]);
    assert_eq!(output[0], vec![q(2.0)]);
    engine.tracks[1].set_effects(loop_station::EffectsProcessor::new(44100));
    engine.process(&input, &mut output).unwrap();
    assert!(engine.failed_tracks.is_empty());
    assert_eq!(output[0], vec![q(3.0)]);
}

#[test]
fn added_track_has_id_name_and_defaults() {
    let mut engine = AudioEngine::new(44100, 3).unwrap();
    engine.add_track(String::from("a"), 1).unwrap();
    engine.add_track(String::from("drums"), 2).unwrap();
    let t = &engine.tracks[1];
    assert_eq!(t.metadata().id, 1);
    assert_eq!(t.metadata().name, "drums");
    assert_eq!(t.cursor_position(), 0);
    assert_eq!(t.loop_length(), None);
    assert_eq!(t.undo_depth(), 0);
    assert_eq!(t.mixing().post_gain, UNITY);
}

#[test]
fn engine_pans_between_two_outputs() {
    let mut engine = AudioEngine::new(44100, 2).unwrap();
    engine.add_track(String::from("a"), 1).unwrap();
    engine.tracks[0].start_recording().unwrap();
    engine.tracks[0].process_input(&[q(1.0)]);
    engine.tracks[0].stop_recording().unwrap();
    let right = TrackEffects { pan: UNITY / 2, ..engine.tracks[0].mixing() };
    engine.tracks[0].set_mixing(right);
    let input: Vec<Vec<i32>> = Vec::new();
    let mut output = vec![vec![0i32; 1]; 2];
    engine.process(&input, &mut output).unwrap();
    assert_eq!(output[0], vec![q(0.5)]);
    assert_eq!(output[1], vec![q(1.0)]);
}

#[test]
fn engine_records_input_through_pre_gain() {
    let mut engine = AudioEngine::new(44100, 2).unwrap();
    engine.add_track(String::from("a"), 1).unwrap();
    let quiet = TrackEffects { pre_gain: UNITY / 4, ..engine.tracks[0].mixing() };
    engine.tracks[0].set_mixing(quiet);
    engine.tracks[0].start_recording().unwrap();
    let input = vec![vec![q(1.0), q(2.0)]];
    let mut output = vec![vec![0i32; 2]; 1];
    engine.process(&input, &mut output).unwrap();
    assert_eq!(engine.tracks[0].buffer().samples()[0], vec![q(0.25), q(0.5)]);
}
