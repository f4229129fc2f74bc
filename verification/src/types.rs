//! Shared types: peers, errors and the nodes of the signal-flow display.
use vstd::prelude::*;

verus! {

/// The state of a peer connection.
#[derive(Debug, Clone, Copy, PartialEq, Eq, Structural)]
pub enum PeerStatus {
    Connecting,
    Connected,
    SessionActive,
    Disconnecting,
    Disconnected,
}

/// The common error type.
#[derive(Debug, Clone, PartialEq, Eq)]
pub enum CplpError {
    Audio(String),
    Network(String),
    Session(String),
    Plugin(String),
}

/// The message of an error: its kind, a colon and its detail.
pub open spec fn cplp_error_message(e: CplpError) -> Seq<char> {
    match e {
        CplpError::Audio(s) => "audio error: "@ + s@,
        CplpError::Network(s) => "network error: "@ + s@,
        CplpError::Session(s) => "session error: "@ + s@,
        CplpError::Plugin(s) => "plugin error: "@ + s@,
    }
}

fn with_prefix(prefix: &str, s: &String) -> (r: String)
    ensures
        r@ == prefix@ + s@,
{
    let mut r = String::from_str(prefix);
    r.append(s.as_str());
    r
}

impl CplpError {
    /// The human-readable message of the error.
    pub fn message(&self) -> (r: String)
        ensures
            r@ == cplp_error_message(*self),
    {
        match self {
            CplpError::Audio(s) => with_prefix("audio error: ", s),
            CplpError::Network(s) => with_prefix("network error: ", s),
            CplpError::Session(s) => with_prefix("session error: ", s),
            CplpError::Plugin(s) => with_prefix("plugin error: ", s),
        }
    }
}

/// Identifier of a peer.
#[derive(Debug, Clone, PartialEq, Eq, Hash)]
pub struct PeerId(pub String);

impl PeerId {
    /// A peer identifier with the given text.
    pub fn new(id: &str) -> (r: Self)
        ensures
            r.0@ == id@,
    {
        PeerId(String::from_str(id))
    }

    /// The identifier as text.
    pub fn as_str(&self) -> (r: &str)
        ensures
            r@ == self.0@,
    {
        self.0.as_str()
    }

    /// The displayed form of the identifier: its text.
    pub fn to_string(&self) -> (r: String)
        ensures
            r@ == self.0@,
    {
        self.0.clone()
    }

    /// Whether two identifiers are the same.
    pub fn same_as(&self, other: &PeerId) -> (r: bool)
        ensures
            r == (self.0@ == other.0@),
    {
        self.0 == other.0
    }
}

/// The kinds of nodes of the signal-flow display.
#[derive(Debug, Clone, PartialEq, Eq)]
pub enum AudioNodeKind {
    MidiInput,
    Synth { plugin_name: String },
    BeatMachine,
    Looper,
    Mixer,
    NetworkSend,
    NetworkRecv,
    AudioOutput,
}

/// The label shown for a node kind; a synth shows its plugin's name, or
/// "Synth" when it has none.
pub open spec fn node_label(k: AudioNodeKind) -> Seq<char> {
    match k {
        AudioNodeKind::MidiInput => "MIDI In"@,
        AudioNodeKind::Synth { plugin_name } => if plugin_name@.len() == 0 {
            "Synth"@
        } else {
            plugin_name@
        },
        AudioNodeKind::BeatMachine => "Beat"@,
        AudioNodeKind::Looper => "Looper"@,
        AudioNodeKind::Mixer => "Mixer"@,
        AudioNodeKind::NetworkSend => "Net Send"@,
        AudioNodeKind::NetworkRecv => "Net Recv"@,
        AudioNodeKind::AudioOutput => "Output"@,
    }
}

impl AudioNodeKind {
    /// The label to display.
    pub fn label(&self) -> (r: String)
        ensures
            r@ == node_label(*self),
    {
        match self {
            AudioNodeKind::MidiInput => String::from_str("MIDI In"),
            AudioNodeKind::Synth { plugin_name } => {
                if plugin_name.as_str().unicode_len() == 0 {
                    String::from_str("Synth")
                } else {
                    plugin_name.clone()
                }
            },
            AudioNodeKind::BeatMachine => String::from_str("Beat"),
            AudioNodeKind::Looper => String::from_str("Looper"),
            AudioNodeKind::Mixer => String::from_str("Mixer"),
            AudioNodeKind::NetworkSend => String::from_str("Net Send"),
            AudioNodeKind::NetworkRecv => String::from_str("Net Recv"),
            AudioNodeKind::AudioOutput => String::from_str("Output"),
        }
    }
}

/// The state of a node of the signal-flow display.
#[derive(Debug, Clone, Copy, PartialEq, Eq, Structural)]
pub enum NodeActivity {
    Inactive,
    Active,
    Error,
}

} // verus!
