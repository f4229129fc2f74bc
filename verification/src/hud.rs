//! What the HUD and the application exchange in interactive mode.
use vstd::prelude::*;

verus! {

/// A scanned plugin.
#[derive(Debug, Clone, PartialEq, Eq)]
pub struct PluginEntry {
    pub name: String,
    pub id: String,
    pub vendor: String,
}

/// A user action reported by the HUD.
#[derive(Debug, Clone, Copy, PartialEq, Eq, Structural)]
pub enum HudAction {
    Play { plugin_index: usize, midi_port_index: Option<usize> },
    Stop,
}

} // verus!
