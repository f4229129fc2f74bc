use vstd::prelude::*;

pub mod audio_graph;
pub mod bridge;
pub mod config;
pub mod engine;
pub mod ffi;
pub mod flux;
pub mod hud;
pub mod interleave;
pub mod llm;
pub mod logging;
pub mod midi_input;
pub mod mixer;
pub mod module;
pub mod packet;
pub mod parser;
pub mod plugins;
pub mod scene;
pub mod sequence;
pub mod session;
pub mod sequencer;
pub mod signal_flow;
pub mod text;
pub mod token;
pub mod types;
pub mod ui;
pub mod voices;

verus! {
} // verus!
