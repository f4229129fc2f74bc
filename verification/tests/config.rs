use cplp::config::{AppConfig, AudioConfig, NetworkConfig};

#[test]
fn config_audio_config_default_values() {
    let config = AudioConfig::default();
    assert_eq!(config.sample_rate, 48_000);
    assert_eq!(config.buffer_size, 128);
    assert_eq!(config.channels, 2);
}

#[test]
fn network_config_default_values() {
    let config = NetworkConfig::default();
    assert_eq!(config.listen_port, 5000);
    assert_eq!(config.jitter_buffer_depth, 2);
}

#[test]
fn app_config_contains_defaults() {
    let config = AppConfig::default();
    assert_eq!(config.audio.sample_rate, 48_000);
    assert_eq!(config.audio.buffer_size, 128);
    assert_eq!(config.audio.channels, 2);
    assert_eq!(config.network.listen_port, 5000);
    assert_eq!(config.network.jitter_buffer_depth, 2);
}
