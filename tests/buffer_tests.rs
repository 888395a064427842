use loop_station::{AudioBuffer, AudioError, BufferPool, PooledBuffer, UNITY};

fn q(x: f32) -> i32 {
    (x * UNITY as f32) as i32
}

#[test]
fn new_buffer_is_empty() {
    let buffer = AudioBuffer::new(48000, 3);
    assert_eq!(buffer.channels(), 3);
    assert_eq!(buffer.len(), 0);
    assert!(buffer.is_empty());
    assert_eq!(buffer.sample_rate(), 48000);
    for c in 0..3 {
        assert!(buffer.samples()[c].is_empty());
    }
}

#[test]
fn mix_at_zero_gain_only_pads() {
    let mut a = AudioBuffer::from_data(vec![vec![q(1.0), q(2.0)]], 44100).unwrap();
    let b = AudioBuffer::from_data(vec![vec![q(5.0), q(6.0), q(7.0)]], 44100).unwrap();
    a.mix(&b, 0).unwrap();
    assert_eq!(a.samples()[0], vec![q(1.0), q(2.0), 0]);
}

#[test]
fn mix_adds_scaled_samples() {
    let mut a = AudioBuffer::from_data(vec![vec![q(1.0), q(2.0)], vec![0, 0]], 44100).unwrap();
    let b = AudioBuffer::from_data(vec![vec![q(1.0), q(1.0)], vec![q(4.0), q(-4.0)]], 44100).unwrap();
    a.mix(&b, q(0.5)).unwrap();
    assert_eq!(a.samples()[0], vec![q(1.5), q(2.5)]);
    assert_eq!(a.samples()[1], vec![q(2.0), q(-2.0)]);
}

#[test]
fn mix_saturates() {
    let mut a = AudioBuffer::from_data(vec![vec![i32::MAX, i32::MIN]], 44100).unwrap();
    let b = AudioBuffer::from_data(vec![vec![i32::MAX, i32::MIN]], 44100).unwrap();
    a.mix(&b, UNITY).unwrap();
    assert_eq!(a.samples()[0], vec![i32::MAX, i32::MIN]);
}

#[test]
fn mix_rejects_other_shapes() {
    let mut a = AudioBuffer::new(44100, 2);
    a.append_mono(&[1, 2]);
    let other_rate = AudioBuffer::new(48000, 2);
    assert!(matches!(a.mix(&other_rate, UNITY), Err(AudioError::BufferMismatch)));
    let other_channels = AudioBuffer::new(44100, 1);
    assert!(matches!(a.mix(&other_channels, UNITY), Err(AudioError::BufferMismatch)));
    assert_eq!(a.samples()[0], vec![1, 2]);
}

#[test]
fn append_per_channel_and_mismatch() {
    let mut a = AudioBuffer::new(44100, 2);
    a.append(&[&[1, 2], &[3, 4]]).unwrap();
    assert_eq!(a.samples()[0], vec![1, 2]);
    assert_eq!(a.samples()[1], vec![3, 4]);
    assert!(matches!(a.append(&[&[5]]), Err(AudioError::ChannelMismatch)));
    assert_eq!(a.len(), 2);
}

#[test]
fn from_data_rejects_empty_and_ragged() {
    assert!(matches!(AudioBuffer::from_data(vec![], 44100), Err(AudioError::InvalidBuffer)));
    assert!(matches!(AudioBuffer::from_data(vec![vec![1], vec![1, 2]], 44100), Err(AudioError::InvalidBuffer)));
}

#[test]
fn resize_pads_and_truncates() {
    let mut a = AudioBuffer::new(44100, 2);
    a.append_mono(&[1, 2, 3]);
    a.resize(5);
    assert_eq!(a.samples()[1], vec![1, 2, 3, 0, 0]);
    a.resize(2);
    assert_eq!(a.samples()[0], vec![1, 2]);
}

#[test]
fn clear_keeps_channels() {
    let mut a = AudioBuffer::new(44100, 2);
    a.append_mono(&[1, 2, 3]);
    a.clear();
    assert_eq!(a.channels(), 2);
    assert!(a.is_empty());
}

#[test]
fn to_mono_takes_floor_of_mean() {
    let mut a = AudioBuffer::from_data(vec![vec![q(1.0), -1], vec![q(3.0), 0]], 44100).unwrap();
    a.to_mono();
    assert_eq!(a.channels(), 1);
    assert_eq!(a.samples()[0], vec![q(2.0), -1]);
}

#[test]
fn gain_rounds_down() {
    let mut a = AudioBuffer::from_data(vec![vec![3, -3]], 44100).unwrap();
    a.apply_gain(q(0.5));
    assert_eq!(a.samples()[0], vec![1, -2]);
}

#[test]
fn pool_keeps_at_most_max_buffers() {
    let mut pool = BufferPool::new(10);
    let mut out = Vec::new();
    for _ in 0..11 {
        out.push(pool.get(2, 64));
    }
    for b in out {
        pool.release(b);
    }
    assert_eq!(pool.available(2), 10);
    let b = pool.get(2, 64);
    assert_eq!(b.channels(), 2);
    assert_eq!(b.len(), 0);
    assert_eq!(pool.available(2), 9);
}

#[test]
fn pool_hands_back_cleared_storage() {
    let mut pool = BufferPool::new(2);
    let mut b = PooledBuffer::new(&mut pool, 1, 8);
    b.extend_channel(0, &[7, 8, 9]);
    b.set(0, 1, 5);
    assert_eq!(b.channel(0), &vec![7, 5, 9]);
    pool.release(b);
    assert_eq!(pool.available(1), 1);
    assert_eq!(pool.available(3), 0);
    let b = pool.get(1, 8);
    assert_eq!(b.channel(0).len(), 0);
    assert_eq!(pool.available(1), 0);
}
