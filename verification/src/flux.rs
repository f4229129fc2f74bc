//! States of the live-control modules, as shown on the HUD.
use vstd::prelude::*;
use crate::module::ModuleInfo;
use crate::text::{chars_eq_str, chars_of};

verus! {

/// The state of a module.
#[derive(Debug, Clone, Copy, PartialEq, Eq, Structural)]
pub enum ModuleState {
    Off,
    Ready,
    Playing,
}

/// The state of the looper.
#[derive(Debug, Clone, Copy, PartialEq, Eq, Structural)]
pub enum LooperState {
    Empty,
    Recording,
    Playing,
    Stopped,
}

} // verus!

verus! {

/// The bit pattern of `120.0f32`, the default tempo.
pub const DEFAULT_BPM_BITS: u32 = 0x42F0_0000;

/// What the HUD shows of the live-control modules; the tempo is an `f32`
/// bit pattern.
#[derive(Debug, Clone, PartialEq, Eq)]
pub struct FluxSnapshot {
    pub bpm_bits: u32,
    pub synth_state: ModuleState,
    pub beat_machine_state: ModuleState,
    pub looper_state: LooperState,
    pub active_plugin: Option<String>,
}

impl Default for FluxSnapshot {
    /// 120 BPM, every module off, the looper empty, no plugin.
    fn default() -> (r: Self)
        ensures
            r.bpm_bits == DEFAULT_BPM_BITS,
            r.synth_state == ModuleState::Off,
            r.beat_machine_state == ModuleState::Off,
            r.looper_state == LooperState::Empty,
            r.active_plugin is None,
    {
        FluxSnapshot {
            bpm_bits: DEFAULT_BPM_BITS,
            synth_state: ModuleState::Off,
            beat_machine_state: ModuleState::Off,
            looper_state: LooperState::Empty,
            active_plugin: None,
        }
    }
}

} // verus!

verus! {

/// Whether a module has the given identifier.
pub open spec fn has_module_id(m: ModuleInfo, id: Seq<char>) -> bool {
    m.id@ == id
}

/// The position of the first module with the given identifier, if any.
pub open spec fn first_module_with_id(modules: Seq<ModuleInfo>, id: Seq<char>) -> Option<int>
    decreases modules.len(),
{
    if modules.len() == 0 {
        None
    } else if has_module_id(modules[0], id) {
        Some(0)
    } else {
        match first_module_with_id(modules.drop_first(), id) {
            Some(i) => Some(i + 1),
            None => None,
        }
    }
}

proof fn lemma_first_module(modules: Seq<ModuleInfo>, id: Seq<char>)
    ensures
        match first_module_with_id(modules, id) {
            Some(i) => 0 <= i < modules.len() && has_module_id(modules[i], id) && forall|j: int|
                0 <= j < i ==> !has_module_id(#[trigger] modules[j], id),
            None => forall|j: int| 0 <= j < modules.len() ==> !has_module_id(#[trigger] modules[j], id),
        },
    decreases modules.len(),
{
    if modules.len() > 0 {
        lemma_first_module(modules.drop_first(), id);
        if !has_module_id(modules[0], id) {
            assert forall|j: int| 1 <= j < modules.len() implies modules[j] == modules.drop_first()[j - 1] by {}
        }
    }
}

/// The position of the first module with the given identifier.
fn module_position(modules: &Vec<ModuleInfo>, id: &str) -> (r: Option<usize>)
    ensures
        match r {
            Some(i) => first_module_with_id(modules@, id@) == Some(i as int),
            None => first_module_with_id(modules@, id@) is None,
        },
{
    proof {
        lemma_first_module(modules@, id@);
    }
    let mut i: usize = 0;
    while i < modules.len()
        invariant
            i <= modules@.len(),
            forall|j: int| 0 <= j < i ==> !has_module_id(#[trigger] modules@[j], id@),
        decreases modules@.len() - i,
    {
        let cs = chars_of(modules[i].id.as_str());
        if chars_eq_str(cs.as_slice(), id) {
            proof {
                lemma_first_module(modules@, id@);
                let k = first_module_with_id(modules@, id@)->0;
                assert(!has_module_id(modules@[k], id@) || k >= i);
                assert(has_module_id(modules@[i as int], id@));
            }
            return Some(i);
        }
        i = i + 1;
    }
    proof {
        lemma_first_module(modules@, id@);
        if first_module_with_id(modules@, id@) is Some {
            let k = first_module_with_id(modules@, id@)->0;
            assert(has_module_id(modules@[k], id@));
        }
    }
    None
}

/// The state of the live-control hub: its sample rate and tempo (`f32`
/// bit patterns), the state of each module, the active plugin and the
/// modules registered at run time, in order.
pub struct Flux {
    sample_rate_bits: u32,
    bpm_bits: u32,
    modules: Vec<ModuleInfo>,
    synth_state: ModuleState,
    beat_machine_state: ModuleState,
    looper_state: LooperState,
    active_plugin: Option<String>,
}

/// What a [`Flux`] holds.
pub struct FluxView {
    pub sample_rate_bits: u32,
    pub bpm_bits: u32,
    pub modules: Seq<ModuleInfo>,
    pub synth_state: ModuleState,
    pub beat_machine_state: ModuleState,
    pub looper_state: LooperState,
    pub active_plugin: Option<Seq<char>>,
}

/// The text of an optional string.
pub open spec fn opt_text(s: Option<String>) -> Option<Seq<char>> {
    match s {
        Some(t) => Some(t@),
        None => None,
    }
}

impl View for Flux {
    type V = FluxView;

    closed spec fn view(&self) -> FluxView {
        FluxView {
            sample_rate_bits: self.sample_rate_bits,
            bpm_bits: self.bpm_bits,
            modules: self.modules@,
            synth_state: self.synth_state,
            beat_machine_state: self.beat_machine_state,
            looper_state: self.looper_state,
            active_plugin: opt_text(self.active_plugin),
        }
    }
}

impl Flux {
    /// A hub at the given sample rate and tempo, every module off, the
    /// looper empty, no plugin and no registered module.
    pub fn new(sample_rate_bits: u32, bpm_bits: u32) -> (r: Self)
        ensures
            r@ == (FluxView {
                sample_rate_bits,
                bpm_bits,
                modules: Seq::empty(),
                synth_state: ModuleState::Off,
                beat_machine_state: ModuleState::Off,
                looper_state: LooperState::Empty,
                active_plugin: None,
            }),
    {
        Flux {
            sample_rate_bits,
            bpm_bits,
            modules: Vec::new(),
            synth_state: ModuleState::Off,
            beat_machine_state: ModuleState::Off,
            looper_state: LooperState::Empty,
            active_plugin: None,
        }
    }

    /// What the HUD shows: the tempo, the module states and the active plugin.
    pub fn snapshot(&self) -> (r: FluxSnapshot)
        ensures
            r.bpm_bits == self@.bpm_bits,
            r.synth_state == self@.synth_state,
            r.beat_machine_state == self@.beat_machine_state,
            r.looper_state == self@.looper_state,
            opt_text(r.active_plugin) == self@.active_plugin,
    {
        let active_plugin = match &self.active_plugin {
            Some(name) => Some(name.clone()),
            None => None,
        };
        FluxSnapshot {
            bpm_bits: self.bpm_bits,
            synth_state: self.synth_state,
            beat_machine_state: self.beat_machine_state,
            looper_state: self.looper_state,
            active_plugin,
        }
    }

    /// Sets the active plugin.
    pub fn set_active_plugin(&mut self, name: Option<String>)
        ensures
            final(self)@ == (FluxView { active_plugin: opt_text(name), ..old(self)@ }),
    {
        self.active_plugin = name;
    }

    /// Sets the synthesizer's state.
    pub fn set_synth_state(&mut self, state: ModuleState)
        ensures
            final(self)@ == (FluxView { synth_state: state, ..old(self)@ }),
    {
        self.synth_state = state;
    }

    /// Sets the beat machine's state.
    pub fn set_beat_machine_state(&mut self, state: ModuleState)
        ensures
            final(self)@ == (FluxView { beat_machine_state: state, ..old(self)@ }),
    {
        self.beat_machine_state = state;
    }

    /// Sets the looper's state.
    pub fn set_looper_state(&mut self, state: LooperState)
        ensures
            final(self)@ == (FluxView { looper_state: state, ..old(self)@ }),
    {
        self.looper_state = state;
    }

    /// The sample rate, as an `f32` bit pattern.
    pub fn sample_rate_bits(&self) -> (r: u32)
        ensures
            r == self@.sample_rate_bits,
    {
        self.sample_rate_bits
    }

    /// Registers a module after the others.
    pub fn register_module(&mut self, module: ModuleInfo)
        ensures
            final(self)@ == (FluxView { modules: old(self)@.modules.push(module), ..old(self)@ }),
    {
        self.modules.push(module);
    }

    /// Removes the first registered module with the given identifier; says
    /// whether there was one.
    pub fn remove_module(&mut self, id: &str) -> (r: bool)
        ensures
            r == (first_module_with_id(old(self)@.modules, id@) is Some),
            match first_module_with_id(old(self)@.modules, id@) {
                Some(i) => final(self)@ == (FluxView { modules: old(self)@.modules.remove(i), ..old(self)@ }),
                None => final(self)@ == old(self)@,
            },
    {
        match module_position(&self.modules, id) {
            Some(i) => {
                proof {
                    lemma_first_module(self.modules@, id@);
                }
                self.modules.remove(i);
                true
            },
            None => false,
        }
    }

    /// The number of registered modules.
    pub fn module_count(&self) -> (r: usize)
        ensures
            r == self@.modules.len(),
    {
        self.modules.len()
    }
}

} // verus!
