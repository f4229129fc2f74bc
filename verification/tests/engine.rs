use cplp::config::AudioConfig;
use cplp::engine::{callback_len, max_callback_len, ring_capacity};

#[test]
fn local_buf_preallocation_no_heap_in_callback_pattern() {
    let config = AudioConfig::default();
    let callback_buf_len = (config.buffer_size as usize) * (config.channels as usize);
    // buffer_size=128, channels=2 by default: 256
    assert_eq!(callback_buf_len, 128 * 2);
    let buf = vec![0.0f32; callback_buf_len];
    assert_eq!(buf.len(), callback_buf_len);
}

#[test]
fn buffer_capacity_formula() {
    let config = AudioConfig::default();
    let capacity = (config.buffer_size as usize) * (config.channels as usize) * 8;
    // 128 * 2 * 8 = 2048
    assert_eq!(capacity, 2048);
    assert_eq!(ring_capacity(&config), 2048);
}

#[test]
fn engine_audio_config_default_values() {
    let config = AudioConfig::default();
    assert_eq!(config.sample_rate, 48_000);
    assert_eq!(config.buffer_size, 128);
    assert_eq!(config.channels, 2);
}

#[test]
fn scratch_buffers_hold_4096_frames() {
    let config = AudioConfig::default();
    assert_eq!(max_callback_len(&config), 8192);
    let mono = AudioConfig { channels: 1, ..AudioConfig::default() };
    assert_eq!(max_callback_len(&mono), 4096);
}

#[test]
fn callback_len_is_capped_by_scratch() {
    assert_eq!(callback_len(512, 8192), 512);
    assert_eq!(callback_len(10000, 8192), 8192);
    assert_eq!(callback_len(8192, 8192), 8192);
    assert_eq!(callback_len(0, 8192), 0);
}

#[test]
fn ring_capacity_scales_with_channels() {
    let config = AudioConfig { sample_rate: 44_100, buffer_size: 256, channels: 1 };
    assert_eq!(ring_capacity(&config), 2048);
}
