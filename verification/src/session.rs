//! The Cadence session: which plugin it plays, its settings, and what it
//! does with a text command and with each tick of its sequencer.
use vstd::prelude::*;
use crate::config::{default_audio_config, default_network_config, AppConfig, AudioConfig, NetworkConfig};
use crate::midi_input::{MidiDispatch, NoteController};
use crate::module::MidiEvent as ModuleEvent;
use crate::parser::{
    command_plan, command_sequence, error_message, parse_command, plan_fits, tempo_texts_of, ParsedCommand,
    ParsedCommandView, ParseErrorView,
};
use crate::plugins::{search_failed, search_found, search_plugin, PluginInfo, PluginLookupError};
use crate::sequence::{events_fit, MidiSequenceView};
use crate::sequencer::{advanced, with_sequence, MidiSequencer, MidiSequencerView, NoteCommand};

verus! {

/// Whether `a` is `b` with some of its elements left out, the rest in order.
pub open spec fn is_subsequence<A>(a: Seq<A>, b: Seq<A>) -> bool
    decreases b.len(),
{
    if b.len() == 0 {
        a.len() == 0
    } else if a.len() > 0 && a.last() == b.last() && is_subsequence(a.drop_last(), b.drop_last()) {
        true
    } else {
        is_subsequence(a, b.drop_last())
    }
}

/// `after` is `before` followed by some of the `offered` events, in order:
/// what a target that may drop events (its queue being full) has received.
pub open spec fn received_some_of(before: Seq<ModuleEvent>, after: Seq<ModuleEvent>, offered: Seq<ModuleEvent>) -> bool {
    &&& before.len() <= after.len()
    &&& after.take(before.len() as int) == before
    &&& is_subsequence(after.skip(before.len() as int), offered)
}

proof fn lemma_received_nothing(d: Seq<ModuleEvent>)
    ensures
        received_some_of(d, d, Seq::empty()),
{
    assert(d.take(d.len() as int) == d);
    assert(d.skip(d.len() as int) =~= Seq::<ModuleEvent>::empty());
}

proof fn lemma_received_step(
    before: Seq<ModuleEvent>,
    mid: Seq<ModuleEvent>,
    after: Seq<ModuleEvent>,
    offered: Seq<ModuleEvent>,
    e: ModuleEvent,
)
    requires
        received_some_of(before, mid, offered),
        after == mid || after == mid.push(e),
    ensures
        received_some_of(before, after, offered.push(e)),
{
    let n = before.len() as int;
    let s = mid.skip(n);
    assert(offered.push(e).drop_last() == offered);
    if after == mid {
        assert(is_subsequence(s, offered.push(e)));
    } else {
        assert(after.take(n) == mid.take(n));
        assert(after.skip(n) == s.push(e));
        assert(s.push(e).drop_last() == s);
        assert(is_subsequence(s.push(e), offered.push(e)));
    }
}

/// Note-off events for every MIDI note, from 0 up to 127.
pub open spec fn all_notes_off_events() -> Seq<ModuleEvent> {
    Seq::new(128, |n: int| ModuleEvent::NoteOff { note: n as u8 })
}

/// The events that note commands stand for: a note-on or a note-off each,
/// and a stop all the notes off.
pub open spec fn command_events(cmds: Seq<NoteCommand>) -> Seq<ModuleEvent>
    decreases cmds.len(),
{
    if cmds.len() == 0 {
        Seq::empty()
    } else {
        command_events(cmds.drop_last()) + match cmds.last() {
            NoteCommand::NoteOn { note, velocity } => seq![ModuleEvent::NoteOn { note, velocity }],
            NoteCommand::NoteOff { note } => seq![ModuleEvent::NoteOff { note }],
            NoteCommand::Stop => all_notes_off_events(),
        }
    }
}

/// Offers a note-off for every note, from 0 up to 127, after the events in `offered`.
fn notes_off_after<T: MidiDispatch>(target: &mut T, Ghost(before): Ghost<Seq<ModuleEvent>>, Ghost(offered): Ghost<Seq<ModuleEvent>>)
    requires
        received_some_of(before, old(target).delivered(), offered),
    ensures
        final(target).offered() == old(target).offered() + all_notes_off_events(),
        received_some_of(before, final(target).delivered(), offered + all_notes_off_events()),
{
    let mut n: u8 = 0;
    proof {
        assert(target.offered() + all_notes_off_events().take(0) =~= target.offered());
    }
    while n < 128
        invariant
            n <= 128,
            target.offered() == old(target).offered() + all_notes_off_events().take(n as int),
            received_some_of(before, target.delivered(), offered + all_notes_off_events().take(n as int)),
        decreases 128 - n,
    {
        let ghost mid = target.delivered();
        target.note_off(n);
        proof {
            let e = ModuleEvent::NoteOff { note: n };
            lemma_received_step(before, mid, target.delivered(), offered + all_notes_off_events().take(n as int), e);
            assert(offered + all_notes_off_events().take(n + 1) =~= (offered + all_notes_off_events().take(
                n as int,
            )).push(e));
            assert(old(target).offered() + all_notes_off_events().take(n + 1) =~= (old(target).offered()
                + all_notes_off_events().take(n as int)).push(e));
        }
        n = n + 1;
    }
    assert(all_notes_off_events().take(128) =~= all_notes_off_events());
}

/// Offers a note-off for every note, from 0 up to 127.
pub fn all_notes_off<T: MidiDispatch>(target: &mut T)
    ensures
        final(target).offered() == old(target).offered() + all_notes_off_events(),
        received_some_of(old(target).delivered(), final(target).delivered(), all_notes_off_events()),
{
    proof {
        lemma_received_nothing(target.delivered());
    }
    notes_off_after(target, Ghost(target.delivered()), Ghost(Seq::empty()));
    assert(Seq::<ModuleEvent>::empty() + all_notes_off_events() =~= all_notes_off_events());
}

/// Hands note commands to the target in order: note-ons and note-offs as
/// they are, and a stop as a note-off for every note.
pub fn apply_note_commands<T: MidiDispatch>(cmds: &[NoteCommand], target: &mut T)
    ensures
        final(target).offered() == old(target).offered() + command_events(cmds@),
        received_some_of(old(target).delivered(), final(target).delivered(), command_events(cmds@)),
{
    let ghost before = target.delivered();
    proof {
        lemma_received_nothing(before);
        assert(cmds@.take(0) =~= Seq::<NoteCommand>::empty());
        assert(target.offered() + command_events(cmds@.take(0)) =~= target.offered());
    }
    let mut i: usize = 0;
    while i < cmds.len()
        invariant
            i <= cmds@.len(),
            target.offered() == old(target).offered() + command_events(cmds@.take(i as int)),
            received_some_of(before, target.delivered(), command_events(cmds@.take(i as int))),
        decreases cmds@.len() - i,
    {
        let ghost done = command_events(cmds@.take(i as int));
        let ghost mid = target.delivered();
        proof {
            assert(cmds@.take(i + 1).drop_last() == cmds@.take(i as int));
            assert(cmds@.take(i + 1).last() == cmds@[i as int]);
        }
        match cmds[i] {
            NoteCommand::NoteOn { note, velocity } => {
                target.note_on(note, velocity);
                proof {
                    let e = ModuleEvent::NoteOn { note, velocity };
                    lemma_received_step(before, mid, target.delivered(), done, e);
                    assert(done + seq![e] == done.push(e));
                    assert(old(target).offered() + (done + seq![e]) =~= (old(target).offered() + done).push(e));
                }
            },
            NoteCommand::NoteOff { note } => {
                target.note_off(note);
                proof {
                    let e = ModuleEvent::NoteOff { note };
                    lemma_received_step(before, mid, target.delivered(), done, e);
                    assert(done + seq![e] == done.push(e));
                    assert(old(target).offered() + (done + seq![e]) =~= (old(target).offered() + done).push(e));
                }
            },
            NoteCommand::Stop => {
                notes_off_after(target, Ghost(before), Ghost(done));
                assert(old(target).offered() + (done + all_notes_off_events()) =~= (old(target).offered() + done)
                    + all_notes_off_events());
            },
        }
        i = i + 1;
    }
    assert(cmds@.take(cmds@.len() as int) == cmds@);
}

/// How a text command is to be served.
#[derive(Debug, Clone, Copy, PartialEq, Eq, Structural)]
pub enum CommandMode {
    /// Read it with the local parser.
    Parse,
    /// Hand it to the language model.
    Ask,
}

/// Where a text command went.
#[derive(Debug, Clone, PartialEq, Eq)]
pub enum RouteResult {
    /// The local parser read it; its tempo numbers are still to be converted
    /// (see [`ParsedCommand::into_sequence`]).
    Parsed(ParsedCommand),
    /// It goes to the language model as it is.
    DelegateToLlm(String),
    /// The local parser refused it, with this message.
    Error(String),
}

/// Sends a text command to the parser or to the language model, by mode.
pub fn route_command(mode: &CommandMode, text: &str) -> (r: RouteResult)
    ensures
        match *mode {
            CommandMode::Ask => r matches RouteResult::DelegateToLlm(t) && t@ == text@,
            CommandMode::Parse => match command_plan(text@) {
                Ok(p) => r matches RouteResult::Parsed(c) && c@ == p && plan_fits(p),
                Err(e) => r matches RouteResult::Error(m) && m@ == error_message(e),
            },
        },
{
    match mode {
        CommandMode::Parse => match parse_command(text) {
            Ok(p) => RouteResult::Parsed(p),
            Err(e) => RouteResult::Error(e.message()),
        },
        CommandMode::Ask => RouteResult::DelegateToLlm(String::from_str(text)),
    }
}

/// What serving a command came to.
#[derive(Debug, Clone, PartialEq, Eq)]
pub enum CommandOutcome {
    /// A new sequence of that many events was set, after all notes were turned off.
    SequenceSet { event_count: usize },
    /// The command went to the language model.
    Delegated(String),
    /// The command was refused, with this message; nothing changed.
    Rejected(String),
}

/// The number of tempo texts a command needs converted, when it parses.
pub open spec fn tempo_text_count(text: Seq<char>) -> int {
    match command_plan(text) {
        Ok(p) => tempo_texts_of(p).len() as int,
        Err(_) => 0,
    }
}

/// Serves a text command received from a peer. In parse mode, the command
/// is read (with `tempo_values`, the `f32` bits of each of its tempo texts,
/// `None` where a text spells no number); if it reads, every note is turned
/// off and the sequencer is given the new sequence.
pub fn handle_command(
    mode: &CommandMode,
    text: &str,
    tempo_values: &[Option<u32>],
    sequencer: &mut MidiSequencer,
    note_ctrl: &mut NoteController,
) -> (r: CommandOutcome)
    requires
        *mode == CommandMode::Parse ==> tempo_values@.len() == tempo_text_count(text@),
    ensures
        match *mode {
            CommandMode::Ask => {
                &&& r matches CommandOutcome::Delegated(t) && t@ == text@
                &&& final(sequencer)@ == old(sequencer)@
                &&& final(note_ctrl).offered() == old(note_ctrl).offered()
                &&& final(note_ctrl).delivered() == old(note_ctrl).delivered()
            },
            CommandMode::Parse => match command_plan(text@) {
                Err(e) => {
                    &&& r matches CommandOutcome::Rejected(m) && m@ == error_message(e)
                    &&& final(sequencer)@ == old(sequencer)@
                    &&& final(note_ctrl).offered() == old(note_ctrl).offered()
                    &&& final(note_ctrl).delivered() == old(note_ctrl).delivered()
                },
                Ok(p) => match command_sequence(p, tempo_values@) {
                    Err(e) => {
                        &&& r matches CommandOutcome::Rejected(m) && m@ == error_message(e)
                        &&& final(sequencer)@ == old(sequencer)@
                        &&& final(note_ctrl).offered() == old(note_ctrl).offered()
                        &&& final(note_ctrl).delivered() == old(note_ctrl).delivered()
                    },
                    Ok(q) => {
                        &&& r == CommandOutcome::SequenceSet { event_count: q.events.len() as usize }
                        &&& events_fit(q.events)
                        &&& final(sequencer)@ == with_sequence(old(sequencer)@, q)
                        &&& final(note_ctrl).offered() == old(note_ctrl).offered() + all_notes_off_events()
                        &&& received_some_of(
                            old(note_ctrl).delivered(),
                            final(note_ctrl).delivered(),
                            all_notes_off_events(),
                        )
                    },
                },
            },
        },
{
    match route_command(mode, text) {
        RouteResult::Parsed(p) => match p.into_sequence(tempo_values) {
            Ok(seq) => {
                all_notes_off(note_ctrl);
                let event_count = seq.events.len();
                sequencer.set_sequence(seq);
                CommandOutcome::SequenceSet { event_count }
            },
            Err(e) => CommandOutcome::Rejected(e.message()),
        },
        RouteResult::DelegateToLlm(t) => CommandOutcome::Delegated(t),
        RouteResult::Error(m) => CommandOutcome::Rejected(m),
    }
}

/// One tick of the sequencer loop: the sequencer advances (see
/// [`MidiSequencer::update`]) and its commands go to the plugin. Returns the
/// commands.
pub fn play_tick(
    sequencer: &mut MidiSequencer,
    now_bits: u64,
    delta_ticks: u64,
    note_ctrl: &mut NoteController,
) -> (r: Vec<NoteCommand>)
    requires
        old(sequencer)@.sequence matches Some(q) ==> events_fit(q.events),
        old(sequencer)@.current_tick + delta_ticks <= u64::MAX,
    ensures
        match old(sequencer)@.sequence {
            None => final(sequencer)@ == old(sequencer)@ && r@.len() == 0,
            Some(q) => match old(sequencer)@.last_time_bits {
                None => final(sequencer)@ == (MidiSequencerView { last_time_bits: Some(now_bits), ..old(sequencer)@ })
                    && r@.len() == 0,
                Some(_) => (final(sequencer)@, r@) == advanced(old(sequencer)@, q, now_bits, delta_ticks as int),
            },
        },
        final(note_ctrl).offered() == old(note_ctrl).offered() + command_events(r@),
        received_some_of(old(note_ctrl).delivered(), final(note_ctrl).delivered(), command_events(r@)),
{
    let cmds = sequencer.update(now_bits, delta_ticks);
    apply_note_commands(cmds.as_slice(), note_ctrl);
    cmds
}

/// A Cadence session: the plugin to play and the port to use.
pub struct CadenceSession {
    plugin_id: String,
    port: u16,
}

/// The settings of a session.
pub struct CadenceSessionView {
    pub plugin_id: Seq<char>,
    pub port: u16,
}

impl View for CadenceSession {
    type V = CadenceSessionView;

    closed spec fn view(&self) -> CadenceSessionView {
        CadenceSessionView { plugin_id: self.plugin_id@, port: self.port }
    }
}

impl CadenceSession {
    /// A session for the plugin (an identifier, or part of a name) on the port.
    pub fn new(plugin_id: String, port: u16) -> (r: Self)
        ensures
            r@.plugin_id == plugin_id@,
            r@.port == port,
    {
        CadenceSession { plugin_id, port }
    }

    /// The plugin asked for.
    pub fn plugin_id(&self) -> (r: &str)
        ensures
            r@ == self@.plugin_id,
    {
        self.plugin_id.as_str()
    }

    /// The port.
    pub fn port(&self) -> (r: u16)
        ensures
            r == self@.port,
    {
        self.port
    }

    /// The settings of the session: the default audio settings, and the
    /// default network settings listening on the session's port.
    pub fn build_config(&self) -> (r: AppConfig)
        ensures
            r.audio == default_audio_config(),
            r.network == (NetworkConfig { listen_port: self@.port, ..default_network_config() }),
    {
        AppConfig {
            audio: AudioConfig::default(),
            network: NetworkConfig { listen_port: self.port, ..NetworkConfig::default() },
        }
    }

    /// The installed plugin the session asks for: the first with its
    /// identifier, or else the first whose name contains it, ignoring ASCII case.
    pub fn find_plugin<'a>(&self, plugins: &'a [PluginInfo]) -> (r: Result<&'a PluginInfo, PluginLookupError>)
        ensures
            match r {
                Ok(p) => search_found(plugins@, self@.plugin_id, *p),
                Err(e) => search_failed(plugins@, self@.plugin_id, e@),
            },
    {
        search_plugin(plugins, self.plugin_id.as_str())
    }
}

} // verus!
