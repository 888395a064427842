use vstd::prelude::*;

verus! {

/// Sample rate used unless the backend says otherwise.
pub const DEFAULT_SAMPLE_RATE: u32 = 44100;

/// Application settings.
#[derive(Debug, Clone)]
pub struct AppConfig {
    /// Number of audio input channels
    pub input_channels: usize,
    /// Number of audio output channels
    pub output_channels: usize,
    /// Initial tempo, in thousandths of a beat per minute
    pub initial_bpm_milli: u32,
    /// Maximum number of tracks
    pub max_tracks: usize,
    /// Audio backend client name
    pub client_name: String,
}

impl Default for AppConfig {
    fn default() -> (r: AppConfig)
        ensures
            r.input_channels == 2,
            r.output_channels == 2,
            r.initial_bpm_milli == 120_000,
            r.max_tracks == 8,
            r.client_name@ == "loop_station"@,
    {
        AppConfig {
            input_channels: 2,
            output_channels: 2,
            initial_bpm_milli: 120_000,
            max_tracks: 8,
            client_name: String::from_str("loop_station"),
        }
    }
}

} // verus!
