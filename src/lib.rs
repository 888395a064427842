//! Core of a multi-track audio looper: sample buffers and their pool, the
//! per-track recording/playback state machine with undo history, an effects
//! chain, the master tempo clock, a tempo detector, and the engine that runs
//! one audio callback.
//!
//! Samples are signed 16.16 fixed-point values (`UNITY` is 1.0), and tempi
//! are thousandths of a beat per minute, so that every arithmetic step has an
//! exact, proved meaning.

pub mod error;
pub mod sample;
pub mod buffer;
pub mod pool;
pub mod effects;
pub mod clock;
pub mod track;
pub mod detect;
pub mod engine;
pub mod config;

pub use error::AudioError;
pub use sample::{Sample, UNITY};
pub use buffer::AudioBuffer;
pub use pool::{BufferPool, PooledBuffer};
pub use effects::{Effect, EffectsChain, EffectsProcessor};
pub use clock::{MasterClock, Quantizer};
pub use track::{Track, TrackState, TrackEffects, TrackMetadata};
pub use detect::BpmDetector;
pub use engine::AudioEngine;
pub use config::{AppConfig, DEFAULT_SAMPLE_RATE};
