//! Choosing the log filter: the `CPLP_LOG` presets, the `RUST_LOG` fallback
//! and the default.
use vstd::prelude::*;
use crate::text::{chars_of, chars_eq_str};

verus! {

/// The filter a `CPLP_LOG` value stands for: the four named presets map to
/// their filters, and any other value is taken as a filter itself.
pub open spec fn preset_filter(preset: Seq<char>) -> Seq<char> {
    if preset == "dev"@ {
        "debug,cplp_audio=trace,cosmic_text=warn,naga=warn,wgpu_core=warn,wgpu_hal=warn,winit=warn"@
    } else if preset == "audio"@ {
        "info,cplp_audio=trace,cplp_audio::engine=trace"@
    } else if preset == "network"@ {
        "info,cplp_network=debug,cplp_session=debug"@
    } else if preset == "production"@ {
        "warn"@
    } else {
        preset
    }
}

/// The filter chosen from the values of `CPLP_LOG` and `RUST_LOG`: the
/// first takes priority (through its presets), then the second, then `info`.
pub open spec fn chosen_filter(cplp_log: Option<Seq<char>>, rust_log: Option<Seq<char>>) -> Seq<char> {
    match cplp_log {
        Some(p) => preset_filter(p),
        None => match rust_log {
            Some(f) => f,
            None => "info"@,
        },
    }
}

/// The filter a `CPLP_LOG` preset stands for.
pub fn preset_to_filter<'a>(preset: &'a str) -> (r: &'a str)
    ensures
        r@ == preset_filter(preset@),
{
    let cs = chars_of(preset);
    if chars_eq_str(cs.as_slice(), "dev") {
        "debug,cplp_audio=trace,cosmic_text=warn,naga=warn,wgpu_core=warn,wgpu_hal=warn,winit=warn"
    } else if chars_eq_str(cs.as_slice(), "audio") {
        "info,cplp_audio=trace,cplp_audio::engine=trace"
    } else if chars_eq_str(cs.as_slice(), "network") {
        "info,cplp_network=debug,cplp_session=debug"
    } else if chars_eq_str(cs.as_slice(), "production") {
        "warn"
    } else {
        preset
    }
}

/// The filter to log with, given the values of `CPLP_LOG` and `RUST_LOG`
/// if they are set.
pub fn resolve_filter_from(cplp_log: Option<&str>, rust_log: Option<&str>) -> (r: String)
    ensures
        r@ == chosen_filter(
            match cplp_log { Some(s) => Some(s@), None => None },
            match rust_log { Some(s) => Some(s@), None => None },
        ),
{
    match cplp_log {
        Some(preset) => String::from_str(preset_to_filter(preset)),
        None => match rust_log {
            Some(filter) => String::from_str(filter),
            None => String::from_str("info"),
        },
    }
}

} // verus!
