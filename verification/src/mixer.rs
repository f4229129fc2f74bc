//! The shared mixer state: one track per peer, and a master volume. Every
//! peer keeps a copy; each setting is resolved last-writer-wins by its own
//! timestamp, so copies that saw the same updates agree whatever the order.
//!
//! Volumes and pans are `f32` values held by their bit patterns
//! (`f32::to_bits`); clamping is done on the bit patterns, with the results
//! `f32::clamp` gives.
use vstd::prelude::*;
use crate::types::PeerId;

verus! {

/// The bit pattern of `1.0f32`.
pub const ONE_BITS: u32 = 0x3F80_0000;

/// The bit pattern of `-1.0f32`.
pub const MINUS_ONE_BITS: u32 = 0xBF80_0000;

/// Whether an `f32` (by its bits) is below zero: negative, not -0.0, not NaN.
pub open spec fn is_below_zero(b: u32) -> bool {
    0x8000_0000 < b && b <= 0xFF80_0000
}

/// Whether an `f32` (by its bits) is below -1.0 (NaN is not).
pub open spec fn is_below_minus_one(b: u32) -> bool {
    MINUS_ONE_BITS < b && b <= 0xFF80_0000
}

/// Whether an `f32` (by its bits) is above 1.0 (NaN is not).
pub open spec fn is_above_one(b: u32) -> bool {
    ONE_BITS < b && b <= 0x7F80_0000
}

/// `x.clamp(0.0, 1.0)` on the bits of `x`: below zero gives 0.0, above one
/// gives 1.0, anything else (-0.0 and NaN among it) is kept.
pub open spec fn clamp_unit(b: u32) -> u32 {
    if is_below_zero(b) {
        0
    } else if is_above_one(b) {
        ONE_BITS
    } else {
        b
    }
}

/// `x.clamp(-1.0, 1.0)` on the bits of `x`.
pub open spec fn clamp_signed_unit(b: u32) -> u32 {
    if is_below_minus_one(b) {
        MINUS_ONE_BITS
    } else if is_above_one(b) {
        ONE_BITS
    } else {
        b
    }
}

/// `x.clamp(0.0, 1.0)` on the bit pattern of an `f32`.
pub fn clamp_unit_bits(b: u32) -> (r: u32)
    ensures
        r == clamp_unit(b),
{
    if 0x8000_0000 < b && b <= 0xFF80_0000 {
        0
    } else if ONE_BITS < b && b <= 0x7F80_0000 {
        ONE_BITS
    } else {
        b
    }
}

/// `x.clamp(-1.0, 1.0)` on the bit pattern of an `f32`.
pub fn clamp_signed_unit_bits(b: u32) -> (r: u32)
    ensures
        r == clamp_signed_unit(b),
{
    if MINUS_ONE_BITS < b && b <= 0xFF80_0000 {
        MINUS_ONE_BITS
    } else if ONE_BITS < b && b <= 0x7F80_0000 {
        ONE_BITS
    } else {
        b
    }
}

/// One channel of the mixer, with the time of the last write of each setting.
#[derive(Debug, Clone)]
pub struct TrackState {
    pub volume_bits: u32,
    pub pan_bits: u32,
    pub mute: bool,
    pub solo: bool,
    pub label: String,
    pub last_fader_ts: u64,
    pub last_pan_ts: u64,
    pub last_mute_ts: u64,
    pub last_solo_ts: u64,
}

impl TrackState {
    /// A copy of the track.
    pub fn clone_track(&self) -> (r: Self)
        ensures
            r == *self,
    {
        TrackState {
            volume_bits: self.volume_bits,
            pan_bits: self.pan_bits,
            mute: self.mute,
            solo: self.solo,
            label: self.label.clone(),
            last_fader_ts: self.last_fader_ts,
            last_pan_ts: self.last_pan_ts,
            last_mute_ts: self.last_mute_ts,
            last_solo_ts: self.last_solo_ts,
        }
    }

    /// A track at full volume, centred, neither muted nor soloed, never written.
    pub fn new(label: &str) -> (r: Self)
        ensures
            r.volume_bits == ONE_BITS,
            r.pan_bits == 0,
            !r.mute,
            !r.solo,
            r.label@ == label@,
            r.last_fader_ts == 0,
            r.last_pan_ts == 0,
            r.last_mute_ts == 0,
            r.last_solo_ts == 0,
    {
        TrackState {
            volume_bits: ONE_BITS,
            pan_bits: 0,
            mute: false,
            solo: false,
            label: String::from_str(label),
            last_fader_ts: 0,
            last_pan_ts: 0,
            last_mute_ts: 0,
            last_solo_ts: 0,
        }
    }
}

/// A fader write at time `ts`: taken (clamped to [0, 1]) only when newer
/// than the last fader write.
pub open spec fn with_fader(t: TrackState, volume_bits: u32, ts: u64) -> TrackState {
    if ts > t.last_fader_ts {
        TrackState { volume_bits: clamp_unit(volume_bits), last_fader_ts: ts, ..t }
    } else {
        t
    }
}

/// A pan write at time `ts`: taken (clamped to [-1, 1]) only when newer
/// than the last pan write.
pub open spec fn with_pan(t: TrackState, pan_bits: u32, ts: u64) -> TrackState {
    if ts > t.last_pan_ts {
        TrackState { pan_bits: clamp_signed_unit(pan_bits), last_pan_ts: ts, ..t }
    } else {
        t
    }
}

/// A mute write at time `ts`: taken only when newer than the last mute write.
pub open spec fn with_mute(t: TrackState, mute: bool, ts: u64) -> TrackState {
    if ts > t.last_mute_ts {
        TrackState { mute, last_mute_ts: ts, ..t }
    } else {
        t
    }
}

/// A solo write at time `ts`: taken only when newer than the last solo write.
pub open spec fn with_solo(t: TrackState, solo: bool, ts: u64) -> TrackState {
    if ts > t.last_solo_ts {
        TrackState { solo, last_solo_ts: ts, ..t }
    } else {
        t
    }
}

/// The mixer state: the tracks by peer, the master volume and the time of
/// its last write.
pub struct MixerState {
    tracks: Vec<(PeerId, TrackState)>,
    pub master_volume_bits: u32,
    pub last_master_ts: u64,
}

/// The value of a mixer state.
pub struct MixerStateView {
    pub tracks: Map<Seq<char>, TrackState>,
    pub master_volume_bits: u32,
    pub last_master_ts: u64,
}

/// The peer identifiers of the entries, in order.
pub open spec fn peer_keys(s: Seq<(PeerId, TrackState)>) -> Seq<Seq<char>> {
    s.map_values(|e: (PeerId, TrackState)| e.0.0@)
}

/// The position of an entry of the peer.
pub open spec fn index_of_peer(s: Seq<(PeerId, TrackState)>, k: Seq<char>) -> int {
    choose|i: int| 0 <= i < s.len() && s[i].0.0@ == k
}

/// The tracks of the entries, by peer identifier.
pub open spec fn tracks_map(s: Seq<(PeerId, TrackState)>) -> Map<Seq<char>, TrackState> {
    Map::new(|k: Seq<char>| peer_keys(s).contains(k), |k: Seq<char>| s[index_of_peer(s, k)].1)
}

impl View for MixerState {
    type V = MixerStateView;

    closed spec fn view(&self) -> MixerStateView {
        MixerStateView {
            tracks: tracks_map(self.tracks@),
            master_volume_bits: self.master_volume_bits,
            last_master_ts: self.last_master_ts,
        }
    }
}

proof fn lemma_entry_in_map(s: Seq<(PeerId, TrackState)>, i: int)
    requires
        peer_keys(s).no_duplicates(),
        0 <= i < s.len(),
    ensures
        tracks_map(s).contains_key(s[i].0.0@),
        tracks_map(s)[s[i].0.0@] == s[i].1,
{
    let k = s[i].0.0@;
    assert(peer_keys(s)[i] == k);
    assert(peer_keys(s).contains(k));
    assert(0 <= i < s.len() && s[i].0.0@ == k);
    let j = index_of_peer(s, k);
    assert(peer_keys(s)[j] == k);
    if j != i {
        assert(peer_keys(s)[j] != peer_keys(s)[i]);
    }
    assert(tracks_map(s)[k] == s[j].1);
}

proof fn lemma_key_in_map(s: Seq<(PeerId, TrackState)>, k: Seq<char>)
    ensures
        tracks_map(s).contains_key(k) <==> exists|i: int| 0 <= i < s.len() && s[i].0.0@ == k,
{
    if tracks_map(s).contains_key(k) {
        let i = choose|i: int| 0 <= i < peer_keys(s).len() && peer_keys(s)[i] == k;
        assert(s[i].0.0@ == k);
    }
    if exists|i: int| 0 <= i < s.len() && s[i].0.0@ == k {
        let i = choose|i: int| 0 <= i < s.len() && s[i].0.0@ == k;
        assert(peer_keys(s)[i] == k);
    }
}

proof fn lemma_update_entry(s: Seq<(PeerId, TrackState)>, i: int, p: PeerId, t: TrackState)
    requires
        peer_keys(s).no_duplicates(),
        0 <= i < s.len(),
        p.0@ == s[i].0.0@,
    ensures
        peer_keys(s.update(i, (p, t))) == peer_keys(s),
        tracks_map(s.update(i, (p, t))) == tracks_map(s).insert(p.0@, t),
{
    let s2 = s.update(i, (p, t));
    assert(peer_keys(s2) =~= peer_keys(s));
    lemma_entry_in_map(s2, i);
    assert forall|k: Seq<char>| #[trigger] tracks_map(s2).contains_key(k) <==> tracks_map(s).insert(p.0@, t).contains_key(k) by {
        lemma_key_in_map(s, k);
        lemma_key_in_map(s2, k);
        if exists|j: int| 0 <= j < s.len() && s[j].0.0@ == k {
            let j = choose|j: int| 0 <= j < s.len() && s[j].0.0@ == k;
            assert(s2[j].0.0@ == k);
        }
        if exists|j: int| 0 <= j < s2.len() && s2[j].0.0@ == k {
            let j = choose|j: int| 0 <= j < s2.len() && s2[j].0.0@ == k;
            assert(s[j].0.0@ == k);
        }
    }
    assert forall|k: Seq<char>| #[trigger] tracks_map(s2).contains_key(k) implies tracks_map(s2)[k] == tracks_map(s).insert(p.0@, t)[k] by {
        lemma_key_in_map(s2, k);
        let j = choose|j: int| 0 <= j < s2.len() && s2[j].0.0@ == k;
        lemma_entry_in_map(s2, j);
        if j != i {
            lemma_entry_in_map(s, j);
            assert(peer_keys(s)[j] != peer_keys(s)[i]);
        }
    }
    assert(tracks_map(s2) =~= tracks_map(s).insert(p.0@, t));
}

proof fn lemma_push_entry(s: Seq<(PeerId, TrackState)>, p: PeerId, t: TrackState)
    requires
        peer_keys(s).no_duplicates(),
        !peer_keys(s).contains(p.0@),
    ensures
        peer_keys(s.push((p, t))) == peer_keys(s).push(p.0@),
        peer_keys(s.push((p, t))).no_duplicates(),
        tracks_map(s.push((p, t))) == tracks_map(s).insert(p.0@, t),
{
    let s2 = s.push((p, t));
    assert(peer_keys(s2) =~= peer_keys(s).push(p.0@));
    assert forall|a: int, b: int| 0 <= a < peer_keys(s2).len() && 0 <= b < peer_keys(s2).len() && a != b
        implies peer_keys(s2)[a] != peer_keys(s2)[b] by {
        if a < s.len() && b < s.len() {
        } else if a < s.len() {
            assert(peer_keys(s)[a] == peer_keys(s2)[a]);
        } else if b < s.len() {
            assert(peer_keys(s)[b] == peer_keys(s2)[b]);
        }
    }
    assert forall|k: Seq<char>| #[trigger] tracks_map(s2).contains_key(k) <==> tracks_map(s).insert(p.0@, t).contains_key(k) by {
        lemma_key_in_map(s, k);
        lemma_key_in_map(s2, k);
        if exists|j: int| 0 <= j < s.len() && s[j].0.0@ == k {
            let j = choose|j: int| 0 <= j < s.len() && s[j].0.0@ == k;
            assert(s2[j].0.0@ == k);
        }
        if k == p.0@ {
            assert(s2[s.len() as int].0.0@ == k);
        }
        if exists|j: int| 0 <= j < s2.len() && s2[j].0.0@ == k {
            let j = choose|j: int| 0 <= j < s2.len() && s2[j].0.0@ == k;
            if j < s.len() {
                assert(s[j].0.0@ == k);
            }
        }
    }
    assert forall|k: Seq<char>| #[trigger] tracks_map(s2).contains_key(k) implies tracks_map(s2)[k] == tracks_map(s).insert(p.0@, t)[k] by {
        lemma_key_in_map(s2, k);
        let j = choose|j: int| 0 <= j < s2.len() && s2[j].0.0@ == k;
        lemma_entry_in_map(s2, j);
        if j < s.len() {
            lemma_entry_in_map(s, j);
            assert(peer_keys(s)[j] == k);
        }
    }
    assert(tracks_map(s2) =~= tracks_map(s).insert(p.0@, t));
}

proof fn lemma_swap_remove_entry(s: Seq<(PeerId, TrackState)>, i: int)
    requires
        peer_keys(s).no_duplicates(),
        0 <= i < s.len(),
    ensures
        peer_keys(s.update(i, s.last()).drop_last()).no_duplicates(),
        tracks_map(s.update(i, s.last()).drop_last()) == tracks_map(s).remove(s[i].0.0@),
{
    let s2 = s.update(i, s.last()).drop_last();
    let last = s.len() - 1;
    let gone = s[i].0.0@;
    // Each position of the result holds an old entry other than the removed one.
    assert forall|a: int| 0 <= a < s2.len() implies #[trigger] s2[a] == s[if a == i { last } else { a }] by {}
    assert forall|a: int, b: int| 0 <= a < peer_keys(s2).len() && 0 <= b < peer_keys(s2).len() && a != b
        implies peer_keys(s2)[a] != peer_keys(s2)[b] by {
        let oa = if a == i { last } else { a };
        let ob = if b == i { last } else { b };
        assert(peer_keys(s)[oa] != peer_keys(s)[ob]);
    }
    assert forall|k: Seq<char>| #[trigger] tracks_map(s2).contains_key(k) <==> tracks_map(s).remove(gone).contains_key(k) by {
        lemma_key_in_map(s, k);
        lemma_key_in_map(s2, k);
        if exists|j: int| 0 <= j < s2.len() && s2[j].0.0@ == k {
            let j = choose|j: int| 0 <= j < s2.len() && s2[j].0.0@ == k;
            let oj = if j == i { last } else { j };
            assert(s[oj].0.0@ == k);
            assert(peer_keys(s)[oj] != peer_keys(s)[i]);
        }
        if k != gone && exists|j: int| 0 <= j < s.len() && s[j].0.0@ == k {
            let j = choose|j: int| 0 <= j < s.len() && s[j].0.0@ == k;
            assert(j != i);
            let pos = if j == last { i } else { j };
            assert(s2[pos].0.0@ == k);
        }
    }
    assert forall|k: Seq<char>| #[trigger] tracks_map(s2).contains_key(k) implies tracks_map(s2)[k] == tracks_map(s).remove(gone)[k] by {
        lemma_key_in_map(s2, k);
        let j = choose|j: int| 0 <= j < s2.len() && s2[j].0.0@ == k;
        lemma_entry_in_map(s2, j);
        let oj = if j == i { last } else { j };
        lemma_entry_in_map(s, oj);
    }
    assert(tracks_map(s2) =~= tracks_map(s).remove(gone));
}

impl MixerState {
    /// No two tracks belong to the same peer.
    pub closed spec fn wf(&self) -> bool {
        peer_keys(self.tracks@).no_duplicates()
    }

    /// No tracks, full master volume, never written.
    pub fn new() -> (r: Self)
        ensures
            r.wf(),
            r@.tracks == Map::<Seq<char>, TrackState>::empty(),
            r@.master_volume_bits == ONE_BITS,
            r@.last_master_ts == 0,
    {
        let r = MixerState { tracks: Vec::new(), master_volume_bits: ONE_BITS, last_master_ts: 0 };
        assert(r@.tracks =~= Map::<Seq<char>, TrackState>::empty());
        r
    }

    /// The position of the peer's track.
    fn position(&self, peer: &PeerId) -> (r: Option<usize>)
        requires
            self.wf(),
        ensures
            match r {
                Some(i) => i < self.tracks@.len() && self.tracks@[i as int].0.0@ == peer.0@,
                None => !self@.tracks.contains_key(peer.0@),
            },
    {
        let mut i: usize = 0;
        while i < self.tracks.len()
            invariant
                i <= self.tracks@.len(),
                forall|j: int| 0 <= j < i ==> self.tracks@[j].0.0@ != peer.0@,
            decreases self.tracks@.len() - i,
        {
            if self.tracks[i].0.same_as(peer) {
                return Some(i);
            }
            i = i + 1;
        }
        proof {
            lemma_key_in_map(self.tracks@, peer.0@);
        }
        None
    }

    /// The number of tracks.
    pub fn track_count(&self) -> (r: usize)
        requires
            self.wf(),
        ensures
            r == self@.tracks.len(),
    {
        proof {
            peer_keys(self.tracks@).unique_seq_to_set();
            assert(self@.tracks.dom() =~= peer_keys(self.tracks@).to_set());
        }
        self.tracks.len()
    }

    /// Whether the peer has a track.
    pub fn contains_track(&self, peer: &PeerId) -> (r: bool)
        requires
            self.wf(),
        ensures
            r == self@.tracks.contains_key(peer.0@),
    {
        match self.position(peer) {
            Some(i) => {
                proof {
                    lemma_entry_in_map(self.tracks@, i as int);
                }
                true
            },
            None => false,
        }
    }

    /// The peer's track.
    pub fn track(&self, peer: &PeerId) -> (r: Option<&TrackState>)
        requires
            self.wf(),
        ensures
            match r {
                Some(t) => self@.tracks.contains_key(peer.0@) && *t == self@.tracks[peer.0@],
                None => !self@.tracks.contains_key(peer.0@),
            },
    {
        match self.position(peer) {
            Some(i) => {
                proof {
                    lemma_entry_in_map(self.tracks@, i as int);
                }
                Some(&self.tracks[i].1)
            },
            None => None,
        }
    }

    /// The tracks with their peers, in the order they were added.
    pub closed spec fn entries(&self) -> Seq<(PeerId, TrackState)> {
        self.tracks@
    }

    /// The master volume, as an `f32` bit pattern.
    pub fn master_volume(&self) -> (r: u32)
        ensures
            r == self@.master_volume_bits,
    {
        self.master_volume_bits
    }

    /// The tracks with their peers, in the order they were added.
    pub fn tracks(&self) -> (r: &[(PeerId, TrackState)])
        ensures
            tracks_map(r@) == self@.tracks,
            r@ == self.entries(),
    {
        self.tracks.as_slice()
    }

    /// Gives the peer this track, in place of any it had.
    pub fn add_track(&mut self, peer: PeerId, track: TrackState)
        requires
            old(self).wf(),
        ensures
            final(self).wf(),
            final(self)@ == (MixerStateView { tracks: old(self)@.tracks.insert(peer.0@, track), ..old(self)@ }),
    {
        match self.position(&peer) {
            Some(i) => {
                proof {
                    lemma_update_entry(self.tracks@, i as int, peer, track);
                }
                self.tracks.set(i, (peer, track));
            },
            None => {
                proof {
                    lemma_key_in_map(self.tracks@, peer.0@);
                    if peer_keys(self.tracks@).contains(peer.0@) {
                        let j = choose|j: int| 0 <= j < peer_keys(self.tracks@).len() && peer_keys(self.tracks@)[j] == peer.0@;
                        assert(self.tracks@[j].0.0@ == peer.0@);
                    }
                    lemma_push_entry(self.tracks@, peer, track);
                }
                self.tracks.push((peer, track));
            },
        }
    }

    /// Removes the peer's track; nothing happens when it has none.
    pub fn remove_track(&mut self, peer: &PeerId)
        requires
            old(self).wf(),
        ensures
            final(self).wf(),
            final(self)@ == (MixerStateView { tracks: old(self)@.tracks.remove(peer.0@), ..old(self)@ }),
    {
        match self.position(peer) {
            Some(i) => {
                proof {
                    lemma_swap_remove_entry(self.tracks@, i as int);
                }
                self.tracks.swap_remove(i);
            },
            None => {
                assert(self@.tracks =~= old(self)@.tracks.remove(peer.0@));
            },
        }
    }
}

/// The peer's track after a write, or the tracks unchanged when the peer has none.
pub open spec fn with_track_write(
    tracks: Map<Seq<char>, TrackState>,
    peer: Seq<char>,
    write: spec_fn(TrackState) -> TrackState,
) -> Map<Seq<char>, TrackState> {
    if tracks.contains_key(peer) {
        tracks.insert(peer, write(tracks[peer]))
    } else {
        tracks
    }
}

/// Whether some track is soloed.
pub open spec fn any_solo(tracks: Map<Seq<char>, TrackState>) -> bool {
    exists|k: Seq<char>| #[trigger] tracks.contains_key(k) && tracks[k].solo
}

/// Whether a track is heard: it is not muted, and, when some track is
/// soloed, it is soloed too.
pub open spec fn is_heard(t: TrackState, has_solo: bool) -> bool {
    !t.mute && (!has_solo || t.solo)
}

/// Whether a track is heard, given whether any track is soloed.
pub fn should_output(track: &TrackState, has_solo: bool) -> (r: bool)
    ensures
        r == is_heard(*track, has_solo),
{
    if track.mute {
        return false;
    }
    if has_solo && !track.solo {
        return false;
    }
    true
}

impl MixerState {
    /// Applies `write` to the track at position `i`, which belongs to `peer`.
    fn write_at(&mut self, i: usize, t: TrackState, Ghost(peer): Ghost<Seq<char>>)
        requires
            old(self).wf(),
            i < old(self).tracks@.len(),
            old(self).tracks@[i as int].0.0@ == peer,
        ensures
            final(self).wf(),
            final(self)@ == (MixerStateView { tracks: old(self)@.tracks.insert(peer, t), ..old(self)@ }),
    {
        let ghost p = self.tracks@[i as int].0;
        proof {
            lemma_update_entry(self.tracks@, i as int, p, t);
        }
        self.tracks[i].1 = t;
        assert(self.tracks@ == old(self).tracks@.update(i as int, (p, t)));
    }

    /// A fader write at time `ts`, last writer wins (see [`with_fader`]).
    pub fn apply_fader(&mut self, peer: &PeerId, volume_bits: u32, ts: u64)
        requires
            old(self).wf(),
        ensures
            final(self).wf(),
            final(self)@ == (MixerStateView {
                tracks: with_track_write(old(self)@.tracks, peer.0@, |t: TrackState| with_fader(t, volume_bits, ts)),
                ..old(self)@
            }),
    {
        match self.position(peer) {
            Some(i) => {
                proof {
                    lemma_entry_in_map(self.tracks@, i as int);
                }
                if ts > self.tracks[i].1.last_fader_ts {
                    let mut t = self.tracks[i].1.clone_track();
                    t.volume_bits = clamp_unit_bits(volume_bits);
                    t.last_fader_ts = ts;
                    self.write_at(i, t, Ghost(peer.0@));
                } else {
                    assert(old(self)@.tracks.insert(peer.0@, old(self)@.tracks[peer.0@]) =~= old(self)@.tracks);
                }
            },
            None => {},
        }
    }

    /// A pan write at time `ts`, last writer wins (see [`with_pan`]).
    pub fn apply_pan(&mut self, peer: &PeerId, pan_bits: u32, ts: u64)
        requires
            old(self).wf(),
        ensures
            final(self).wf(),
            final(self)@ == (MixerStateView {
                tracks: with_track_write(old(self)@.tracks, peer.0@, |t: TrackState| with_pan(t, pan_bits, ts)),
                ..old(self)@
            }),
    {
        match self.position(peer) {
            Some(i) => {
                proof {
                    lemma_entry_in_map(self.tracks@, i as int);
                }
                if ts > self.tracks[i].1.last_pan_ts {
                    let mut t = self.tracks[i].1.clone_track();
                    t.pan_bits = clamp_signed_unit_bits(pan_bits);
                    t.last_pan_ts = ts;
                    self.write_at(i, t, Ghost(peer.0@));
                } else {
                    assert(old(self)@.tracks.insert(peer.0@, old(self)@.tracks[peer.0@]) =~= old(self)@.tracks);
                }
            },
            None => {},
        }
    }

    /// A mute write at time `ts`, last writer wins (see [`with_mute`]).
    pub fn apply_mute(&mut self, peer: &PeerId, mute: bool, ts: u64)
        requires
            old(self).wf(),
        ensures
            final(self).wf(),
            final(self)@ == (MixerStateView {
                tracks: with_track_write(old(self)@.tracks, peer.0@, |t: TrackState| with_mute(t, mute, ts)),
                ..old(self)@
            }),
    {
        match self.position(peer) {
            Some(i) => {
                proof {
                    lemma_entry_in_map(self.tracks@, i as int);
                }
                if ts > self.tracks[i].1.last_mute_ts {
                    let mut t = self.tracks[i].1.clone_track();
                    t.mute = mute;
                    t.last_mute_ts = ts;
                    self.write_at(i, t, Ghost(peer.0@));
                } else {
                    assert(old(self)@.tracks.insert(peer.0@, old(self)@.tracks[peer.0@]) =~= old(self)@.tracks);
                }
            },
            None => {},
        }
    }

    /// A solo write at time `ts`, last writer wins (see [`with_solo`]).
    pub fn apply_solo(&mut self, peer: &PeerId, solo: bool, ts: u64)
        requires
            old(self).wf(),
        ensures
            final(self).wf(),
            final(self)@ == (MixerStateView {
                tracks: with_track_write(old(self)@.tracks, peer.0@, |t: TrackState| with_solo(t, solo, ts)),
                ..old(self)@
            }),
    {
        match self.position(peer) {
            Some(i) => {
                proof {
                    lemma_entry_in_map(self.tracks@, i as int);
                }
                if ts > self.tracks[i].1.last_solo_ts {
                    let mut t = self.tracks[i].1.clone_track();
                    t.solo = solo;
                    t.last_solo_ts = ts;
                    self.write_at(i, t, Ghost(peer.0@));
                } else {
                    assert(old(self)@.tracks.insert(peer.0@, old(self)@.tracks[peer.0@]) =~= old(self)@.tracks);
                }
            },
            None => {},
        }
    }

    /// A master volume write at time `ts`: taken (clamped to [0, 1]) only
    /// when newer than the last master write.
    pub fn apply_master(&mut self, volume_bits: u32, ts: u64)
        requires
            old(self).wf(),
        ensures
            final(self).wf(),
            final(self)@ == (if ts > old(self)@.last_master_ts {
                MixerStateView { master_volume_bits: clamp_unit(volume_bits), last_master_ts: ts, ..old(self)@ }
            } else {
                old(self)@
            }),
    {
        if ts > self.last_master_ts {
            self.master_volume_bits = clamp_unit_bits(volume_bits);
            self.last_master_ts = ts;
        }
    }

    /// Whether some track is soloed.
    pub fn has_solo(&self) -> (r: bool)
        requires
            self.wf(),
        ensures
            r == any_solo(self@.tracks),
    {
        let mut i: usize = 0;
        while i < self.tracks.len()
            invariant
                self.wf(),
                i <= self.tracks@.len(),
                forall|j: int| 0 <= j < i ==> !self.tracks@[j].1.solo,
            decreases self.tracks@.len() - i,
        {
            if self.tracks[i].1.solo {
                proof {
                    lemma_entry_in_map(self.tracks@, i as int);
                }
                return true;
            }
            i = i + 1;
        }
        proof {
            assert forall|k: Seq<char>| #[trigger] self@.tracks.contains_key(k) implies !self@.tracks[k].solo by {
                lemma_key_in_map(self.tracks@, k);
                let j = choose|j: int| 0 <= j < self.tracks@.len() && self.tracks@[j].0.0@ == k;
                lemma_entry_in_map(self.tracks@, j);
            }
        }
        false
    }
}

impl Default for MixerState {
    /// No tracks, full master volume, never written.
    fn default() -> (r: Self)
        ensures
            r.wf(),
            r@.tracks == Map::<Seq<char>, TrackState>::empty(),
            r@.master_volume_bits == ONE_BITS,
            r@.last_master_ts == 0,
    {
        MixerState::new()
    }
}

/// Last writer wins: two fader writes with different timestamps leave the
/// same track whichever comes first, and a write seen twice counts once.
/// So do pan, mute and solo writes.
pub proof fn law_writes_commute(t: TrackState, a: u32, ts_a: u64, b: u32, ts_b: u64, m: bool, n: bool)
    requires
        ts_a != ts_b,
    ensures
        with_fader(with_fader(t, a, ts_a), b, ts_b) == with_fader(with_fader(t, b, ts_b), a, ts_a),
        with_pan(with_pan(t, a, ts_a), b, ts_b) == with_pan(with_pan(t, b, ts_b), a, ts_a),
        with_mute(with_mute(t, m, ts_a), n, ts_b) == with_mute(with_mute(t, n, ts_b), m, ts_a),
        with_solo(with_solo(t, m, ts_a), n, ts_b) == with_solo(with_solo(t, n, ts_b), m, ts_a),
        with_fader(with_fader(t, a, ts_a), a, ts_a) == with_fader(t, a, ts_a),
        with_pan(with_pan(t, a, ts_a), a, ts_a) == with_pan(t, a, ts_a),
        with_mute(with_mute(t, m, ts_a), m, ts_a) == with_mute(t, m, ts_a),
        with_solo(with_solo(t, m, ts_a), m, ts_a) == with_solo(t, m, ts_a),
{
}

/// Writes to different settings of a track do not interfere: a fader write
/// and a pan write commute, whatever their timestamps.
pub proof fn law_settings_independent(t: TrackState, v: u32, ts_v: u64, p: u32, ts_p: u64)
    ensures
        with_pan(with_fader(t, v, ts_v), p, ts_p) == with_fader(with_pan(t, p, ts_p), v, ts_v),
{
}

/// A written fader stays between 0.0 and 1.0 (as bit patterns: 0.0 up to
/// 1.0), unless the value written was -0.0 or NaN, which are kept.
pub proof fn law_fader_in_range(t: TrackState, v: u32, ts: u64)
    requires
        ts > t.last_fader_ts,
        !(v == 0x8000_0000 || (0x7F80_0000 < v && v < 0x8000_0000) || 0xFF80_0000 < v),
    ensures
        with_fader(t, v, ts).volume_bits <= ONE_BITS,
{
}

} // verus!
