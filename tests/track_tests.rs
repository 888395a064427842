use loop_station::{AudioError, Effect, EffectsChain, EffectsProcessor, MasterClock, Quantizer, AudioBuffer, Track, TrackState, UNITY};

fn recorded(samples: &[i32]) -> Track {
    let mut t = Track::new(0, String::from("t"), 44100, 1);
    t.start_recording().unwrap();
    t.process_input(samples);
    t.stop_recording().unwrap();
    t
}

#[test]
fn start_recording_twice_is_refused() {
    let mut t = Track::new(1, String::from("t"), 44100, 2);
    t.start_recording().unwrap();
    t.process_input(&[1, 2, 3]);
    let err = t.start_recording();
    assert!(matches!(err, Err(AudioError::InvalidStateTransition)));
    assert_eq!(t.state(), TrackState::Recording);
    assert_eq!(t.cursor_position(), 3);
    assert_eq!(t.buffer().samples()[0], vec![1, 2, 3]);
}

#[test]
fn invalid_transitions_fail() {
    let mut t = Track::new(1, String::from("t"), 44100, 1);
    assert!(matches!(t.stop_recording(), Err(AudioError::InvalidStateTransition)));
    assert!(matches!(t.start_overdub(), Err(AudioError::InvalidStateTransition)));
    assert_eq!(t.state(), TrackState::Idle);
}

#[test]
fn stop_recording_sets_loop_length() {
    let t = recorded(&[1, 2, 3, 4]);
    assert_eq!(t.state(), TrackState::Playing);
    assert_eq!(t.loop_length(), Some(4));
    assert_eq!(t.cursor_position(), 0);
}

#[test]
fn new_track_keeps_id_and_name() {
    let t = Track::new(7, String::from("bass"), 48000, 2);
    assert_eq!(t.metadata().id, 7);
    assert_eq!(t.metadata().name, "bass");
    assert_eq!(t.metadata().color, (255, 0, 0));
    assert_eq!(t.state(), TrackState::Idle);
    assert_eq!(t.buffer().channels(), 2);
    assert_eq!(t.buffer().sample_rate(), 48000);
}

#[test]
fn tempo_with_beat_under_half_a_sample_is_accepted() {
    let mut clock = MasterClock::new(1, 60_000);
    assert_eq!(clock.samples_per_beat(), 1);
    clock.set_bpm(200_000).unwrap();
    assert_eq!(clock.bpm_milli(), 200_000);
    assert_eq!(clock.samples_per_beat(), 0);
    clock.advance(5);
    assert_eq!(clock.get_position(), (5, 0));
}

#[test]
fn overdub_adds_into_every_channel() {
    let mut t = Track::new(0, String::from("t"), 44100, 2);
    t.start_recording().unwrap();
    t.process_input(&[10, 20]);
    t.stop_recording().unwrap();
    t.start_overdub().unwrap();
    t.process_input(&[1, 2, 3]);
    assert_eq!(t.buffer().samples()[0], vec![14, 22]);
    assert_eq!(t.buffer().samples()[1], vec![14, 22]);
    assert_eq!(t.cursor_position(), 1);
}

#[test]
fn quantize_with_zero_beat_keeps_buffer() {
    let mut t = recorded(&[1; 5]);
    let mut clock = MasterClock::new(1, 60_000);
    clock.set_bpm(200_000).unwrap();
    t.quantize(&clock).unwrap();
    assert_eq!(t.buffer().len(), 5);
    assert_eq!(t.undo_depth(), 2);
}

#[test]
fn samples_per_beat_rounds_to_nearest() {
    let clock = MasterClock::new(48000, 130_000);
    assert_eq!(clock.samples_per_beat(), 22154);
}

#[test]
fn overdub_wraps_into_loop() {
    let mut t = recorded(&[10, 20, 30]);
    let mut out = vec![0; 2];
    t.process_output(&mut out).unwrap();
    assert_eq!(out, vec![10, 20]);
    t.start_overdub().unwrap();
    t.process_input(&[1, 2, 3]);
    assert_eq!(t.buffer().samples()[0], vec![12, 23, 31]);
    assert_eq!(t.cursor_position(), 2);
    t.stop_recording().unwrap();
    assert_eq!(t.state(), TrackState::Playing);
    assert_eq!(t.loop_length(), Some(3));
}

#[test]
fn playback_wraps_and_applies_effects() {
    let mut t = recorded(&[UNITY, 2 * UNITY]);
    let mut p = EffectsProcessor::new(44100);
    p.chain.effects.push(Effect::Gain(UNITY / 2));
    t.set_effects(p);
    let mut out = vec![0; 5];
    t.process_output(&mut out).unwrap();
    assert_eq!(out, vec![UNITY / 2, UNITY, UNITY / 2, UNITY, UNITY / 2]);
    assert_eq!(t.cursor_position(), 1);
}

#[test]
fn playback_with_invalid_effect_fails_and_writes_nothing() {
    let mut t = recorded(&[5, 6]);
    let mut p = EffectsProcessor::new(44100);
    p.chain.effects.push(Effect::Limiter(-1));
    t.set_effects(p);
    let mut out = vec![9; 2];
    assert!(matches!(t.process_output(&mut out), Err(AudioError::EffectError(_))));
    assert_eq!(out, vec![9, 9]);
    assert_eq!(t.cursor_position(), 0);
}

#[test]
fn undo_restores_each_snapshot() {
    let mut t = recorded(&[1, 2]);
    t.start_overdub().unwrap();
    t.process_input(&[1, 1]);
    assert_eq!(t.buffer().samples()[0], vec![2, 3]);
    t.undo().unwrap();
    assert_eq!(t.buffer().samples()[0], vec![1, 2]);
    assert_eq!(t.cursor_position(), 0);
    t.undo().unwrap();
    assert!(t.buffer().is_empty());
    assert_eq!(t.cursor_position(), 0);
    assert!(matches!(t.undo(), Err(AudioError::NothingToUndo)));
}

#[test]
fn undo_keeps_only_latest_thirty_two() {
    let mut t = recorded(&[0]);
    for _ in 0..33 {
        t.start_overdub().unwrap();
        t.process_input(&[1]);
        t.stop_recording().unwrap();
    }
    assert_eq!(t.buffer().samples()[0], vec![33]);
    assert_eq!(t.undo_depth(), 32);
    for k in (1..=32).rev() {
        t.undo().unwrap();
        assert_eq!(t.buffer().samples()[0], vec![k]);
    }
    assert!(matches!(t.undo(), Err(AudioError::NothingToUndo)));
    assert_eq!(t.buffer().samples()[0], vec![1]);
    assert_eq!(t.redo_depth(), 32);
}

#[test]
fn redo_after_undo_restores_state() {
    let mut t = recorded(&[3, 4]);
    t.start_overdub().unwrap();
    t.process_input(&[1]);
    let before = t.buffer().samples().clone();
    let cursor = t.cursor_position();
    t.undo().unwrap();
    t.redo().unwrap();
    assert_eq!(t.buffer().samples(), &before);
    assert_eq!(t.cursor_position(), cursor);
    assert!(matches!(t.redo(), Err(AudioError::NothingToRedo)));
}

#[test]
fn new_action_clears_redo() {
    let mut t = recorded(&[3, 4]);
    t.apply_effects().unwrap();
    t.undo().unwrap();
    assert_eq!(t.redo_depth(), 1);
    t.apply_effects().unwrap();
    assert_eq!(t.redo_depth(), 0);
}

#[test]
fn quantize_snaps_to_beats() {
    let mut t = recorded(&[1; 30000]);
    let clock = MasterClock::new(44100, 120_000);
    t.quantize(&clock).unwrap();
    assert_eq!(t.buffer().len(), 22050);
    t.undo().unwrap();
    assert_eq!(t.buffer().len(), 30000);
}

#[test]
fn quantizer_rounds_to_nearest_multiple() {
    let mut b = AudioBuffer::new(44100, 1);
    b.append_mono(&[1; 10]);
    Quantizer.quantize(&mut b, 4).unwrap();
    assert_eq!(b.len(), 12);
    assert_eq!(b.samples()[0][10], 0);
    let mut b = AudioBuffer::new(44100, 1);
    b.append_mono(&[1; 9]);
    Quantizer.quantize(&mut b, 4).unwrap();
    assert_eq!(b.len(), 8);
    Quantizer.quantize(&mut b, 0).unwrap();
    assert_eq!(b.len(), 8);
}

#[test]
fn samples_per_beat_at_common_tempi() {
    let mut clock = MasterClock::new(44100, 120_000);
    assert_eq!(clock.samples_per_beat(), 22050);
    clock.set_bpm(60_000).unwrap();
    assert_eq!(clock.samples_per_beat(), 44100);
    assert!(matches!(clock.set_bpm(0), Err(AudioError::InvalidParameter)));
    assert_eq!(clock.bpm_milli(), 60_000);
}

#[test]
fn clock_position_follows_counter() {
    let mut clock = MasterClock::new(44100, 120_000);
    clock.advance(22050 * 2 + 11025);
    assert_eq!(clock.get_position(), (2, 32768));
    clock.set_bpm(60_000).unwrap();
    assert_eq!(clock.get_position(), (1, 16384));
}

#[test]
fn chain_applies_in_order_and_stops_at_invalid() {
    let chain = EffectsChain { effects: vec![Effect::Gain(2 * UNITY), Effect::Limiter(15), Effect::Limiter(-1), Effect::Gain(0)], enabled: true };
    let mut block = vec![5, 10, -20];
    assert!(matches!(chain.process(&mut block), Err(AudioError::EffectError(_))));
    assert_eq!(block, vec![10, 15, -15]);
}

#[test]
fn disabled_chain_is_a_no_op() {
    let chain = EffectsChain { effects: vec![Effect::Limiter(-1)], enabled: false };
    let mut block = vec![5, 10];
    chain.process(&mut block).unwrap();
    assert_eq!(block, vec![5, 10]);
}

#[test]
fn processor_runs_chain_on_buffer_and_sample() {
    let mut p = EffectsProcessor::new(48000);
    assert_eq!(p.sample_rate(), 48000);
    assert_eq!(p.process_sample(7).unwrap(), 7);
    p.chain.effects.push(Effect::Limiter(4));
    assert_eq!(p.process_sample(7).unwrap(), 4);
    let mut b = AudioBuffer::new(48000, 2);
    b.append_mono(&[-9, 3]);
    p.process_buffer(&mut b).unwrap();
    assert_eq!(b.samples()[1], vec![-4, 3]);
}
