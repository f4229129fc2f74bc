use cplp::logging::{preset_to_filter, resolve_filter_from};

#[test]
fn test_preset_dev() {
    let filter = preset_to_filter("dev");
    assert!(filter.starts_with("debug,cplp_audio=trace"));
    assert!(filter.contains("cosmic_text=warn"));
    assert!(filter.contains("naga=warn"));
    assert!(filter.contains("wgpu_core=warn"));
}

#[test]
fn test_preset_audio() {
    assert_eq!(
        preset_to_filter("audio"),
        "info,cplp_audio=trace,cplp_audio::engine=trace"
    );
}

#[test]
fn test_preset_network() {
    assert_eq!(
        preset_to_filter("network"),
        "info,cplp_network=debug,cplp_session=debug"
    );
}

#[test]
fn test_preset_production() {
    assert_eq!(preset_to_filter("production"), "warn");
}

#[test]
fn test_preset_passthrough() {
    assert_eq!(
        preset_to_filter("debug,my_crate=trace"),
        "debug,my_crate=trace"
    );
}

#[test]
fn test_resolve_filter_default() {
    assert_eq!(resolve_filter_from(None, None), "info");
}

#[test]
fn test_resolve_filter_cplp_log_takes_priority() {
    let filter = resolve_filter_from(Some("dev"), Some("warn"));
    assert!(filter.starts_with("debug,cplp_audio=trace"));
}

#[test]
fn test_resolve_filter_rust_log_fallback() {
    assert_eq!(
        resolve_filter_from(None, Some("warn,my_crate=debug")),
        "warn,my_crate=debug"
    );
}

#[test]
fn test_resolve_filter_custom_cplp_log() {
    assert_eq!(
        resolve_filter_from(Some("trace,hyper=warn"), None),
        "trace,hyper=warn"
    );
}

#[test]
fn preset_dev_full_filter() {
    assert_eq!(
        preset_to_filter("dev"),
        "debug,cplp_audio=trace,cosmic_text=warn,naga=warn,wgpu_core=warn,wgpu_hal=warn,winit=warn"
    );
}

#[test]
fn preset_names_are_case_sensitive() {
    assert_eq!(preset_to_filter("Dev"), "Dev");
    assert_eq!(preset_to_filter(""), "");
}

#[test]
fn resolve_filter_preset_through_cplp_log() {
    assert_eq!(resolve_filter_from(Some("production"), Some("debug")), "warn");
    assert_eq!(resolve_filter_from(Some("network"), None), "info,cplp_network=debug,cplp_session=debug");
}
