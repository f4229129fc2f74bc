//! Application, audio and network settings with their default values.
use vstd::prelude::*;

verus! {

/// Audio settings.
#[derive(Debug, Clone, Copy, PartialEq, Eq)]
pub struct AudioConfig {
    /// Sample rate (Hz).
    pub sample_rate: u32,
    /// Buffer size (samples).
    pub buffer_size: u32,
    /// Channel count.
    pub channels: u16,
}

/// Network settings.
#[derive(Debug, Clone, Copy, PartialEq, Eq)]
pub struct NetworkConfig {
    /// Listen port.
    pub listen_port: u16,
    /// Jitter buffer depth (number of buffers).
    pub jitter_buffer_depth: u32,
}

/// Settings of the whole application.
#[derive(Debug, Clone, Copy, PartialEq, Eq)]
pub struct AppConfig {
    pub audio: AudioConfig,
    pub network: NetworkConfig,
}

/// The default audio settings: 48 kHz, 128-sample buffers, stereo.
pub open spec fn default_audio_config() -> AudioConfig {
    AudioConfig { sample_rate: 48_000, buffer_size: 128, channels: 2 }
}

/// The default network settings: port 5000, jitter buffer of two buffers.
pub open spec fn default_network_config() -> NetworkConfig {
    NetworkConfig { listen_port: 5000, jitter_buffer_depth: 2 }
}

impl Default for AudioConfig {
    fn default() -> (r: Self)
        ensures
            r == default_audio_config(),
    {
        AudioConfig { sample_rate: 48_000, buffer_size: 128, channels: 2 }
    }
}

impl Default for NetworkConfig {
    fn default() -> (r: Self)
        ensures
            r == default_network_config(),
    {
        NetworkConfig { listen_port: 5000, jitter_buffer_depth: 2 }
    }
}

impl Default for AppConfig {
    fn default() -> (r: Self)
        ensures
            r.audio == default_audio_config(),
            r.network == default_network_config(),
    {
        AppConfig { audio: AudioConfig::default(), network: NetworkConfig::default() }
    }
}

} // verus!
