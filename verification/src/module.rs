//! Shared description of native audio modules: the MIDI events they receive
//! and their metadata.
use vstd::prelude::*;

verus! {

/// A MIDI event for an audio module: note on, note off or control change.
#[derive(Debug, Clone, Copy, PartialEq, Eq, Structural)]
pub enum MidiEvent {
    NoteOn { note: u8, velocity: u8 },
    NoteOff { note: u8 },
    ControlChange { cc: u8, value: u8 },
}

/// What kind of module it is.
#[derive(Debug, Clone, Copy, PartialEq, Eq, Structural)]
pub enum ModuleCategory {
    Instrument,
    Effect,
    Utility,
}

/// Metadata of a module.
#[derive(Debug, Clone)]
pub struct ModuleInfo {
    pub id: String,
    pub name: String,
    pub vendor: String,
    pub category: ModuleCategory,
}

} // verus!
