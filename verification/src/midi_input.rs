//! MIDI input: decoding raw MIDI messages and handing the resulting events to
//! the lock-free queues that feed the plugin host and the audio modules.
use vstd::prelude::*;
use ringbuf::traits::{Consumer, Producer, Split};
use ringbuf::{HeapCons, HeapProd, HeapRb};
use crate::module::MidiEvent as ModuleEvent;
use crate::text::{chars_contains, chars_of, contains_seq};

verus! {

/// The producer half of a `ringbuf` heap ring (`HeapProd`), held opaque:
/// the ring's contents are shared with the consumer's thread.
#[verifier::external_body]
#[verifier::reject_recursive_types(T)]
pub struct RingProducer<T> {
    inner: HeapProd<T>,
}

/// The consumer half of a `ringbuf` heap ring (`HeapCons`).
#[verifier::external_body]
#[verifier::reject_recursive_types(T)]
pub struct RingConsumer<T> {
    inner: HeapCons<T>,
}

/// `HeapRb::new(capacity).split()`: a new ring of the given capacity, split
/// into its producer and consumer. `HeapRb::new` panics on a zero capacity.
#[verifier::external_body]
fn ring_channel<T>(capacity: usize) -> (RingProducer<T>, RingConsumer<T>)
    requires
        capacity > 0,
{
    let (prod, cons) = HeapRb::<T>::new(capacity).split();
    (RingProducer { inner: prod }, RingConsumer { inner: cons })
}

/// `Producer::try_push`: appends the item, or, when the ring is full, gives
/// it back unchanged. Whether the ring is full depends on the consumer, so
/// nothing is promised about which of the two happens.
#[verifier::external_body]
fn ring_try_push<T>(prod: &mut RingProducer<T>, item: T) -> (r: Result<(), T>)
    ensures
        r matches Err(x) ==> x == item,
{
    prod.inner.try_push(item)
}

/// `Consumer::try_pop`: the oldest item, or `None` when the ring is empty.
/// What it returns depends on the producer's thread, so nothing is promised.
#[verifier::external_body]
fn ring_try_pop<T>(cons: &mut RingConsumer<T>) -> Option<T> {
    cons.inner.try_pop()
}


/// A MIDI event as the plugin host queues it: status byte, key and velocity.
#[derive(Debug, Clone, Copy, PartialEq, Eq, Structural)]
pub struct PluginMidiEvent {
    /// 0x90 note on, 0x80 note off, 0xB0 control change.
    pub status: u8,
    pub key: u8,
    pub velocity: u8,
}

/// The plugin-host encoding of a module event.
pub open spec fn plugin_event(e: ModuleEvent) -> PluginMidiEvent {
    match e {
        ModuleEvent::NoteOn { note, velocity } => PluginMidiEvent { status: 0x90, key: note, velocity },
        ModuleEvent::NoteOff { note } => PluginMidiEvent { status: 0x80, key: note, velocity: 0 },
        ModuleEvent::ControlChange { cc, value } => PluginMidiEvent { status: 0xB0, key: cc, velocity: value },
    }
}

/// The event that a raw MIDI message stands for: messages shorter than three
/// bytes and other statuses than note on, note off and control change stand
/// for none; a note on with velocity 0 is a note off. The channel (low nibble
/// of the status byte) is ignored.
pub open spec fn decode_midi(msg: Seq<u8>) -> Option<ModuleEvent> {
    if msg.len() < 3 {
        None
    } else {
        let status = msg[0] & 0xF0u8;
        let key = msg[1];
        let velocity = msg[2];
        if status == 0x90 {
            if velocity > 0 {
                Some(ModuleEvent::NoteOn { note: key, velocity })
            } else {
                Some(ModuleEvent::NoteOff { note: key })
            }
        } else if status == 0x80 {
            Some(ModuleEvent::NoteOff { note: key })
        } else if status == 0xB0 {
            Some(ModuleEvent::ControlChange { cc: key, value: velocity })
        } else {
            None
        }
    }
}

/// Decoding ignores the channel (the low four bits of the status byte) and
/// any bytes after the third: a message decodes as its status kind says. A
/// note on with a non-zero velocity is a note on, a note on with velocity 0
/// and a note off are note offs, a control change is a control change of its
/// controller and value, and every other kind, or a message shorter than
/// three bytes, is nothing.
pub proof fn law_decode_ignores_channel(msg: Seq<u8>)
    ensures
        msg.len() >= 3 ==> decode_midi(msg) == decode_midi(seq![msg[0] & 0xF0u8, msg[1], msg[2]]),
        msg.len() >= 3 ==> decode_midi(msg) == ({
            let kind = msg[0] & 0xF0u8;
            if kind == 0x90u8 && msg[2] > 0 {
                Some(ModuleEvent::NoteOn { note: msg[1], velocity: msg[2] })
            } else if kind == 0x90u8 || kind == 0x80u8 {
                Some(ModuleEvent::NoteOff { note: msg[1] })
            } else if kind == 0xB0u8 {
                Some(ModuleEvent::ControlChange { cc: msg[1], value: msg[2] })
            } else {
                None
            }
        }),
        msg.len() < 3 ==> decode_midi(msg) is None,
        forall|ch: u8, k: u8, v: u8| ch < 16 ==> decode_midi(seq![(0xB0u8 | ch) as u8, k, v]) == Some(
            ModuleEvent::ControlChange { cc: k, value: v },
        ),
{
    if msg.len() >= 3 {
        let s = msg[0];
        assert((s & 0xF0u8) & 0xF0u8 == s & 0xF0u8) by (bit_vector);
        let m = seq![msg[0] & 0xF0u8, msg[1], msg[2]];
        assert(m[0] == s & 0xF0u8 && m[1] == msg[1] && m[2] == msg[2]);
    }
    assert forall|ch: u8, k: u8, v: u8| ch < 16 implies decode_midi(seq![(0xB0u8 | ch) as u8, k, v]) == Some(
        ModuleEvent::ControlChange { cc: k, value: v },
    ) by {
        assert(((0xB0u8 | ch) as u8) & 0xF0u8 == 0xB0u8) by (bit_vector)
            requires
                ch < 16,
        ;
        let m = seq![(0xB0u8 | ch) as u8, k, v];
        assert(m[0] == (0xB0u8 | ch) as u8 && m[1] == k && m[2] == v);
    }
}

/// A target of decoded MIDI events. Each call hands one event to the
/// target's queue: `offered` is every event handed over so far, in order, and
/// `delivered` those the queue took; a full queue drops the event.
pub trait MidiDispatch {
    spec fn offered(&self) -> Seq<ModuleEvent>;

    spec fn delivered(&self) -> Seq<ModuleEvent>;

    fn note_on(&mut self, key: u8, velocity: u8)
        ensures
            final(self).offered() == old(self).offered().push(ModuleEvent::NoteOn { note: key, velocity }),
            final(self).delivered() == old(self).delivered() || final(self).delivered() == old(self).delivered().push(ModuleEvent::NoteOn { note: key, velocity }),
    ;

    fn note_off(&mut self, key: u8)
        ensures
            final(self).offered() == old(self).offered().push(ModuleEvent::NoteOff { note: key }),
            final(self).delivered() == old(self).delivered() || final(self).delivered() == old(self).delivered().push(ModuleEvent::NoteOff { note: key }),
    ;

    fn control_change(&mut self, cc: u8, value: u8)
        ensures
            final(self).offered() == old(self).offered().push(ModuleEvent::ControlChange { cc, value }),
            final(self).delivered() == old(self).delivered() || final(self).delivered() == old(self).delivered().push(ModuleEvent::ControlChange { cc, value }),
    ;
}

/// Whether a queued plugin-host event is the encoding of a module event:
/// a note on (0x90), a note off (0x80, velocity 0) or a control change (0xB0).
pub open spec fn is_plugin_encoding(x: PluginMidiEvent) -> bool {
    ||| x.status == 0x90
    ||| x.status == 0x80 && x.velocity == 0
    ||| x.status == 0xB0
}

/// The plugin-host encoding of a module event.
fn encode_for_plugin(e: ModuleEvent) -> (r: PluginMidiEvent)
    ensures
        r == plugin_event(e),
{
    match e {
        ModuleEvent::NoteOn { note, velocity } => PluginMidiEvent { status: 0x90, key: note, velocity },
        ModuleEvent::NoteOff { note } => PluginMidiEvent { status: 0x80, key: note, velocity: 0 },
        ModuleEvent::ControlChange { cc, value } => PluginMidiEvent { status: 0xB0, key: cc, velocity: value },
    }
}

/// Sends note events to the plugin host's audio thread without locking
/// (several events per audio cycle, so chords work).
pub struct NoteController {
    producer: RingProducer<ModuleEvent>,
    offered: Ghost<Seq<ModuleEvent>>,
    sent: Ghost<Seq<ModuleEvent>>,
}

/// The audio-thread end of a [`NoteController`].
pub struct NoteReceiver {
    consumer: RingConsumer<ModuleEvent>,
}

/// A note controller and its receiver, sharing a queue of the given capacity.
pub fn note_channel(capacity: usize) -> (r: (NoteController, NoteReceiver))
    requires
        capacity > 0,
    ensures
        r.0.offered().len() == 0,
        r.0.delivered().len() == 0,
{
    let (prod, cons) = ring_channel(capacity);
    (
        NoteController { producer: prod, offered: Ghost(Seq::empty()), sent: Ghost(Seq::empty()) },
        NoteReceiver { consumer: cons },
    )
}

impl NoteController {
    /// Hands the event to the queue, which takes it unless it is full.
    fn offer(&mut self, e: ModuleEvent)
        ensures
            final(self).offered() == old(self).offered().push(e),
            final(self).delivered() == old(self).delivered() || final(self).delivered() == old(self).delivered().push(e),
    {
        self.offered = Ghost(self.offered@.push(e));
        match ring_try_push(&mut self.producer, e) {
            Ok(()) => {
                self.sent = Ghost(self.sent@.push(e));
            },
            Err(_) => {},
        }
    }
}

impl MidiDispatch for NoteController {
    closed spec fn offered(&self) -> Seq<ModuleEvent> {
        self.offered@
    }

    closed spec fn delivered(&self) -> Seq<ModuleEvent> {
        self.sent@
    }

    /// Queues a note on (status 0x90).
    fn note_on(&mut self, key: u8, velocity: u8) {
        self.offer(ModuleEvent::NoteOn { note: key, velocity });
    }

    /// Queues a note off (status 0x80, velocity 0).
    fn note_off(&mut self, key: u8) {
        self.offer(ModuleEvent::NoteOff { note: key });
    }

    /// Queues a control change (status 0xB0).
    fn control_change(&mut self, cc: u8, value: u8) {
        self.offer(ModuleEvent::ControlChange { cc, value });
    }
}

impl NoteReceiver {
    /// The oldest queued event, if any, in the plugin host's encoding. What is
    /// queued depends on the sending thread; whatever comes out is the
    /// encoding of a note on, a note off or a control change.
    pub fn try_recv(&mut self) -> (r: Option<PluginMidiEvent>)
        ensures
            r matches Some(x) ==> is_plugin_encoding(x),
    {
        match ring_try_pop(&mut self.consumer) {
            Some(e) => Some(encode_for_plugin(e)),
            None => None,
        }
    }
}

/// Sends MIDI events to the native audio modules (looper and the like)
/// without locking.
pub struct MidiEventSender {
    producer: RingProducer<ModuleEvent>,
    offered: Ghost<Seq<ModuleEvent>>,
    sent: Ghost<Seq<ModuleEvent>>,
}

/// The audio-thread end of a [`MidiEventSender`].
pub struct MidiEventReceiver {
    consumer: RingConsumer<ModuleEvent>,
}

/// A module event sender and its receiver, sharing a queue of the given
/// capacity.
pub fn midi_event_channel(capacity: usize) -> (r: (MidiEventSender, MidiEventReceiver))
    requires
        capacity > 0,
    ensures
        r.0.offered().len() == 0,
        r.0.delivered().len() == 0,
{
    let (prod, cons) = ring_channel(capacity);
    (
        MidiEventSender { producer: prod, offered: Ghost(Seq::empty()), sent: Ghost(Seq::empty()) },
        MidiEventReceiver { consumer: cons },
    )
}

impl MidiEventSender {
    /// Hands the event to the queue, which takes it unless it is full.
    fn offer(&mut self, e: ModuleEvent)
        ensures
            final(self).offered() == old(self).offered().push(e),
            final(self).delivered() == old(self).delivered() || final(self).delivered() == old(self).delivered().push(e),
    {
        self.offered = Ghost(self.offered@.push(e));
        match ring_try_push(&mut self.producer, e) {
            Ok(()) => {
                self.sent = Ghost(self.sent@.push(e));
            },
            Err(_) => {},
        }
    }
}

impl MidiDispatch for MidiEventSender {
    closed spec fn offered(&self) -> Seq<ModuleEvent> {
        self.offered@
    }

    closed spec fn delivered(&self) -> Seq<ModuleEvent> {
        self.sent@
    }

    fn note_on(&mut self, key: u8, velocity: u8) {
        self.offer(ModuleEvent::NoteOn { note: key, velocity });
    }

    fn note_off(&mut self, key: u8) {
        self.offer(ModuleEvent::NoteOff { note: key });
    }

    fn control_change(&mut self, cc: u8, value: u8) {
        self.offer(ModuleEvent::ControlChange { cc, value });
    }
}

impl MidiEventReceiver {
    /// The oldest queued event, if any. What is queued depends on the sending
    /// thread, so no event is promised.
    pub fn try_recv(&mut self) -> Option<ModuleEvent> {
        ring_try_pop(&mut self.consumer)
    }
}

/// Decodes a raw MIDI message and hands the event to the target.
pub fn dispatch_midi<T: MidiDispatch>(message: &[u8], target: &mut T)
    ensures
        match decode_midi(message@) {
            None => final(target).offered() == old(target).offered() && final(target).delivered()
                == old(target).delivered(),
            Some(e) => final(target).offered() == old(target).offered().push(e) && (final(target).delivered()
                == old(target).delivered() || final(target).delivered() == old(target).delivered().push(e)),
        },
{
    if message.len() < 3 {
        return;
    }
    let status = message[0] & 0xF0;
    let key = message[1];
    let velocity = message[2];
    if status == 0x90 {
        if velocity > 0 {
            target.note_on(key, velocity);
        } else {
            target.note_off(key);
        }
    } else if status == 0x80 {
        target.note_off(key);
    } else if status == 0xB0 {
        target.control_change(key, velocity);
    }
}

/// Decodes a raw MIDI message for the plugin host's note queue.
pub fn handle_midi_message(message: &[u8], note_ctrl: &mut NoteController)
    ensures
        match decode_midi(message@) {
            None => final(note_ctrl).offered() == old(note_ctrl).offered() && final(note_ctrl).delivered() == old(note_ctrl).delivered(),
            Some(e) => final(note_ctrl).offered() == old(note_ctrl).offered().push(e) && (final(note_ctrl).delivered() == old(note_ctrl).delivered()
                || final(note_ctrl).delivered() == old(note_ctrl).delivered().push(e)),
        },
{
    dispatch_midi(message, note_ctrl);
}

/// Decodes a raw MIDI message for the audio modules' event queue.
pub fn forward_midi_event(message: &[u8], tx: &mut MidiEventSender)
    ensures
        match decode_midi(message@) {
            None => final(tx).offered() == old(tx).offered() && final(tx).delivered() == old(tx).delivered(),
            Some(e) => final(tx).offered() == old(tx).offered().push(e) && (final(tx).delivered() == old(tx).delivered()
                || final(tx).delivered() == old(tx).delivered().push(e)),
        },
{
    dispatch_midi(message, tx);
}

/// A note as the plugin receives it.
#[derive(Debug, Clone, Copy, PartialEq, Eq, Structural)]
pub enum PluginNote {
    On { key: u8, velocity: u8 },
    Off { key: u8 },
}

/// The note a queued event stands for: a note-on with a non-zero velocity is
/// a note-on, a note-on with velocity zero and a note-off are note-offs, and
/// anything else (a control change among it) is not a note.
pub open spec fn plugin_note_of(e: PluginMidiEvent) -> Option<PluginNote> {
    let status = e.status & 0xF0u8;
    if status == 0x90 && e.velocity > 0 {
        Some(PluginNote::On { key: e.key, velocity: e.velocity })
    } else if status == 0x90 || status == 0x80 {
        Some(PluginNote::Off { key: e.key })
    } else {
        None
    }
}

/// The note a queued event stands for.
pub fn plugin_note(e: PluginMidiEvent) -> (r: Option<PluginNote>)
    ensures
        r == plugin_note_of(e),
{
    let status = e.status & 0xF0;
    if status == 0x90 && e.velocity > 0 {
        Some(PluginNote::On { key: e.key, velocity: e.velocity })
    } else if status == 0x90 || status == 0x80 {
        Some(PluginNote::Off { key: e.key })
    } else {
        None
    }
}

/// Whether `i` is the first port whose name contains the text.
pub open spec fn first_port_with(names: Seq<String>, name: Seq<char>, i: int) -> bool {
    &&& 0 <= i < names.len()
    &&& contains_seq(names[i]@, name)
    &&& forall|j: int| 0 <= j < i ==> !contains_seq(#[trigger] names[j]@, name)
}

/// The index of the first input port whose name contains the text (the
/// ports listed by name, in the order the MIDI system lists them), or
/// `None` when no port matches.
pub fn port_index_by_name(port_names: &[String], name: &str) -> (r: Option<usize>)
    ensures
        match r {
            Some(i) => first_port_with(port_names@, name@, i as int),
            None => forall|j: int| 0 <= j < port_names@.len() ==> !contains_seq(#[trigger] port_names@[j]@, name@),
        },
{
    let needle = chars_of(name);
    let mut i: usize = 0;
    while i < port_names.len()
        invariant
            needle@ == name@,
            i <= port_names@.len(),
            forall|j: int| 0 <= j < i ==> !contains_seq(#[trigger] port_names@[j]@, name@),
        decreases port_names@.len() - i,
    {
        let hay = chars_of(port_names[i].as_str());
        if chars_contains(hay.as_slice(), needle.as_slice()) {
            return Some(i);
        }
        i = i + 1;
    }
    None
}

} // verus!
