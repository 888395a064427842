use vstd::prelude::*;

verus! {

/// Errors reported by buffers, tracks, effects and the engine.
#[derive(Debug)]
pub enum AudioError {
    /// A track-level failure, with a description.
    TrackError(String),
    /// A failure reported by the audio backend.
    JackError(String),
    /// An effect could not process its input.
    EffectError(String),
    /// A buffer-level failure, with a description.
    BufferError(String),
    /// The number of input channels differs from the buffer's.
    ChannelMismatch,
    /// A port could not be registered with the backend.
    PortRegistration(String),
    /// The backend client could not be activated.
    Activation(String),
    /// Buffer data was empty or its channels differ in length.
    InvalidBuffer,
    /// Two buffers differ in sample rate or channel count.
    BufferMismatch,
    /// The requested track state change is not allowed from the current state.
    InvalidStateTransition,
    /// The undo history is empty.
    NothingToUndo,
    /// The redo history is empty.
    NothingToRedo,
    /// A parameter lies outside its allowed range (a tempo of zero).
    InvalidParameter,
}

} // verus!
