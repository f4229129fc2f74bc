//! The audio packet, the smallest unit sent over the network, and its
//! binary form: a sequence number (4 bytes), a timestamp in samples
//! (8 bytes), then the PCM samples (4 bytes each), all little-endian.
//! Samples are `f32` values held by their bit patterns (`f32::to_bits`),
//! which is what goes on the wire.
use vstd::prelude::*;
use crate::text::{decimal_chars, decimal_string};
use crate::types::CplpError;

verus! {

/// An audio packet.
#[derive(Debug, Clone, PartialEq, Eq)]
pub struct AudioPacket {
    /// Sequence number, to detect lost packets.
    pub seq: u32,
    /// Timestamp, in samples.
    pub timestamp: u64,
    /// Interleaved stereo samples, as `f32` bit patterns.
    pub pcm_bits: Vec<u32>,
}

/// The little-endian bytes of a `u32`.
pub open spec fn u32_le(x: u32) -> Seq<u8> {
    seq![x as u8, (x >> 8) as u8, (x >> 16) as u8, (x >> 24) as u8]
}

/// The little-endian bytes of a `u64`.
pub open spec fn u64_le(x: u64) -> Seq<u8> {
    seq![
        x as u8,
        (x >> 8) as u8,
        (x >> 16) as u8,
        (x >> 24) as u8,
        (x >> 32) as u8,
        (x >> 40) as u8,
        (x >> 48) as u8,
        (x >> 56) as u8,
    ]
}

/// The `u32` whose little-endian bytes start at `at`.
pub open spec fn u32_at(b: Seq<u8>, at: int) -> u32 {
    b[at] as u32 | (b[at + 1] as u32) << 8u32 | (b[at + 2] as u32) << 16u32 | (b[at + 3] as u32) << 24u32
}

/// The `u64` whose little-endian bytes start at `at`.
pub open spec fn u64_at(b: Seq<u8>, at: int) -> u64 {
    b[at] as u64 | (b[at + 1] as u64) << 8u64 | (b[at + 2] as u64) << 16u64 | (b[at + 3] as u64) << 24u64
        | (b[at + 4] as u64) << 32u64 | (b[at + 5] as u64) << 40u64 | (b[at + 6] as u64) << 48u64
        | (b[at + 7] as u64) << 56u64
}

/// The little-endian bytes of the samples, one after the other.
pub open spec fn samples_le(s: Seq<u32>) -> Seq<u8>
    decreases s.len(),
{
    if s.len() == 0 {
        Seq::empty()
    } else {
        samples_le(s.drop_last()) + u32_le(s.last())
    }
}

/// The binary form of a packet.
pub open spec fn packet_bytes(seq: u32, timestamp: u64, pcm: Seq<u32>) -> Seq<u8> {
    u32_le(seq) + u64_le(timestamp) + samples_le(pcm)
}

/// The samples read from the bytes after the header.
pub open spec fn samples_from(b: Seq<u8>) -> Seq<u32> {
    Seq::new(((b.len() - 12) / 4) as nat, |i: int| u32_at(b, 12 + 4 * i))
}

/// The message of a packet shorter than its header.
pub open spec fn too_short_message(len: nat) -> Seq<char> {
    "パケットが短すぎます: "@ + decimal_chars(len) + " bytes (最低 12)"@
}

/// The message of a packet whose sample bytes are not whole samples.
pub open spec fn misaligned_message(pcm_len: nat) -> Seq<char> {
    "PCM データサイズが不正: "@ + decimal_chars(pcm_len) + " bytes (4の倍数でない)"@
}

/// Why bytes of this length hold no packet: there is no whole header, or
/// the rest is not whole samples. `None` when they hold one.
pub open spec fn packet_error(len: nat) -> Option<Seq<char>> {
    if len < 12 {
        Some(too_short_message(len))
    } else if (len - 12) % 4 != 0 {
        Some(misaligned_message((len - 12) as nat))
    } else {
        None
    }
}

proof fn lemma_u32_le_roundtrip(x: u32)
    ensures
        u32_at(u32_le(x), 0) == x,
{
    let b = u32_le(x);
    let (b0, b1, b2, b3) = (x as u8, (x >> 8) as u8, (x >> 16) as u8, (x >> 24) as u8);
    assert(b[0] == b0 && b[1] == b1 && b[2] == b2 && b[3] == b3);
    assert(b0 as u32 | (b1 as u32) << 8u32 | (b2 as u32) << 16u32 | (b3 as u32) << 24u32 == x) by (bit_vector)
        requires
            b0 == x as u8,
            b1 == (x >> 8) as u8,
            b2 == (x >> 16) as u8,
            b3 == (x >> 24) as u8,
    ;
}

proof fn lemma_u64_le_roundtrip(x: u64)
    ensures
        u64_at(u64_le(x), 0) == x,
{
    let b = u64_le(x);
    let b0 = x as u8;
    let b1 = (x >> 8) as u8;
    let b2 = (x >> 16) as u8;
    let b3 = (x >> 24) as u8;
    let b4 = (x >> 32) as u8;
    let b5 = (x >> 40) as u8;
    let b6 = (x >> 48) as u8;
    let b7 = (x >> 56) as u8;
    assert(b[0] == b0 && b[1] == b1 && b[2] == b2 && b[3] == b3);
    assert(b[4] == b4 && b[5] == b5 && b[6] == b6 && b[7] == b7);
    assert(b0 as u64 | (b1 as u64) << 8u64 | (b2 as u64) << 16u64 | (b3 as u64) << 24u64 | (b4 as u64) << 32u64
        | (b5 as u64) << 40u64 | (b6 as u64) << 48u64 | (b7 as u64) << 56u64 == x) by (bit_vector)
        requires
            b0 == x as u8,
            b1 == (x >> 8) as u8,
            b2 == (x >> 16) as u8,
            b3 == (x >> 24) as u8,
            b4 == (x >> 32) as u8,
            b5 == (x >> 40) as u8,
            b6 == (x >> 48) as u8,
            b7 == (x >> 56) as u8,
    ;
}

proof fn lemma_u32_at_le(b: Seq<u8>, at: int)
    requires
        0 <= at,
        at + 4 <= b.len(),
    ensures
        u32_le(u32_at(b, at)) == b.subrange(at, at + 4),
{
    let x = u32_at(b, at);
    let (b0, b1, b2, b3) = (b[at], b[at + 1], b[at + 2], b[at + 3]);
    assert(x as u8 == b0 && (x >> 8) as u8 == b1 && (x >> 16) as u8 == b2 && (x >> 24) as u8 == b3) by (bit_vector)
        requires
            x == b0 as u32 | (b1 as u32) << 8u32 | (b2 as u32) << 16u32 | (b3 as u32) << 24u32,
    ;
    assert(u32_le(x) =~= b.subrange(at, at + 4));
}

proof fn lemma_u64_at_le(b: Seq<u8>, at: int)
    requires
        0 <= at,
        at + 8 <= b.len(),
    ensures
        u64_le(u64_at(b, at)) == b.subrange(at, at + 8),
{
    let x = u64_at(b, at);
    let b0 = b[at];
    let b1 = b[at + 1];
    let b2 = b[at + 2];
    let b3 = b[at + 3];
    let b4 = b[at + 4];
    let b5 = b[at + 5];
    let b6 = b[at + 6];
    let b7 = b[at + 7];
    assert(x as u8 == b0 && (x >> 8) as u8 == b1 && (x >> 16) as u8 == b2 && (x >> 24) as u8 == b3
        && (x >> 32) as u8 == b4 && (x >> 40) as u8 == b5 && (x >> 48) as u8 == b6 && (x >> 56) as u8 == b7)
        by (bit_vector)
        requires
            x == b0 as u64 | (b1 as u64) << 8u64 | (b2 as u64) << 16u64 | (b3 as u64) << 24u64 | (b4 as u64) << 32u64
                | (b5 as u64) << 40u64 | (b6 as u64) << 48u64 | (b7 as u64) << 56u64,
    ;
    assert(u64_le(x) =~= b.subrange(at, at + 8));
}

proof fn lemma_samples_le(s: Seq<u32>)
    ensures
        samples_le(s).len() == 4 * s.len(),
        forall|i: int| 0 <= i < s.len() ==> (#[trigger] samples_le(s).subrange(4 * i, 4 * i + 4)) == u32_le(s[i]),
    decreases s.len(),
{
    if s.len() > 0 {
        let rest = s.drop_last();
        lemma_samples_le(rest);
        assert forall|i: int| 0 <= i < s.len() implies (#[trigger] samples_le(s).subrange(4 * i, 4 * i + 4)) == u32_le(s[i]) by {
            if i < rest.len() {
                assert(samples_le(s).subrange(4 * i, 4 * i + 4) =~= samples_le(rest).subrange(4 * i, 4 * i + 4));
            } else {
                assert(samples_le(s).subrange(4 * i, 4 * i + 4) =~= u32_le(s.last()));
            }
        }
    }
}

/// A packet read back from its binary form is the packet written.
pub proof fn law_packet_roundtrip(seq: u32, timestamp: u64, pcm: Seq<u32>)
    ensures
        packet_error(packet_bytes(seq, timestamp, pcm).len()) is None,
        u32_at(packet_bytes(seq, timestamp, pcm), 0) == seq,
        u64_at(packet_bytes(seq, timestamp, pcm), 4) == timestamp,
        samples_from(packet_bytes(seq, timestamp, pcm)) == pcm,
{
    let b = packet_bytes(seq, timestamp, pcm);
    lemma_samples_le(pcm);
    lemma_u32_le_roundtrip(seq);
    lemma_u64_le_roundtrip(timestamp);
    assert(b.len() == 12 + 4 * pcm.len());
    assert((b.len() - 12) % 4 == 0) by (nonlinear_arith)
        requires
            b.len() == 12 + 4 * pcm.len(),
    ;
    assert(b.subrange(0, 4) =~= u32_le(seq));
    assert(b.subrange(4, 12) =~= u64_le(timestamp));
    assert(u32_at(b, 0) == u32_at(u32_le(seq), 0));
    assert(u64_at(b, 4) == u64_at(u64_le(timestamp), 0));
    assert((b.len() - 12) / 4 == pcm.len()) by (nonlinear_arith)
        requires
            b.len() == 12 + 4 * pcm.len(),
    ;
    assert forall|i: int| 0 <= i < pcm.len() implies #[trigger] samples_from(b)[i] == pcm[i] by {
        let w = samples_le(pcm).subrange(4 * i, 4 * i + 4);
        assert(w == u32_le(pcm[i]));
        assert(b.subrange(12 + 4 * i, 12 + 4 * i + 4) =~= w);
        assert(u32_at(b, 12 + 4 * i) == u32_at(w, 0));
        lemma_u32_le_roundtrip(pcm[i]);
    }
    assert(samples_from(b) =~= pcm);
}

/// Bytes that hold a packet are the binary form of the packet read from them.
pub proof fn law_bytes_roundtrip(b: Seq<u8>)
    requires
        packet_error(b.len()) is None,
    ensures
        packet_bytes(u32_at(b, 0), u64_at(b, 4), samples_from(b)) == b,
{
    let pcm = samples_from(b);
    let n = (b.len() - 12) / 4;
    assert(b.len() == 12 + 4 * n) by (nonlinear_arith)
        requires
            b.len() >= 12,
            (b.len() - 12) % 4 == 0,
            n == (b.len() - 12) / 4,
    ;
    lemma_samples_le(pcm);
    lemma_u32_at_le(b, 0);
    lemma_u64_at_le(b, 4);
    let out = packet_bytes(u32_at(b, 0), u64_at(b, 4), pcm);
    assert forall|k: int| 0 <= k < b.len() implies #[trigger] out[k] == b[k] by {
        if k < 4 {
            assert(out[k] == u32_le(u32_at(b, 0))[k]);
            assert(b.subrange(0, 4)[k] == b[k]);
        } else if k < 12 {
            assert(out[k] == u64_le(u64_at(b, 4))[k - 4]);
            assert(b.subrange(4, 12)[k - 4] == b[k]);
        } else {
            let i = (k - 12) / 4;
            let j = (k - 12) % 4;
            assert(k - 12 == 4 * i + j && 0 <= j < 4 && 0 <= i < n) by (nonlinear_arith)
                requires
                    12 <= k < 12 + 4 * n,
                    i == (k - 12) / 4,
                    j == (k - 12) % 4,
            ;
            assert(out[k] == samples_le(pcm)[k - 12]);
            assert(samples_le(pcm)[4 * i + j] == samples_le(pcm).subrange(4 * i, 4 * i + 4)[j]);
            lemma_u32_at_le(b, 12 + 4 * i);
            assert(u32_le(pcm[i]) == b.subrange(12 + 4 * i, 12 + 4 * i + 4));
            assert(b.subrange(12 + 4 * i, 12 + 4 * i + 4)[j] == b[k]);
        }
    }
    assert(out =~= b);
}

fn push_u32_le(buf: &mut Vec<u8>, x: u32)
    ensures
        final(buf)@ == old(buf)@ + u32_le(x),
{
    buf.push(x as u8);
    buf.push((x >> 8) as u8);
    buf.push((x >> 16) as u8);
    buf.push((x >> 24) as u8);
    assert(buf@ =~= old(buf)@ + u32_le(x));
}

fn push_u64_le(buf: &mut Vec<u8>, x: u64)
    ensures
        final(buf)@ == old(buf)@ + u64_le(x),
{
    buf.push(x as u8);
    buf.push((x >> 8) as u8);
    buf.push((x >> 16) as u8);
    buf.push((x >> 24) as u8);
    buf.push((x >> 32) as u8);
    buf.push((x >> 40) as u8);
    buf.push((x >> 48) as u8);
    buf.push((x >> 56) as u8);
    assert(buf@ =~= old(buf)@ + u64_le(x));
}

fn read_u32_le(data: &[u8], at: usize) -> (r: u32)
    requires
        at + 4 <= data@.len(),
    ensures
        r == u32_at(data@, at as int),
{
    data[at] as u32 | (data[at + 1] as u32) << 8u32 | (data[at + 2] as u32) << 16u32 | (data[at + 3] as u32) << 24u32
}

fn read_u64_le(data: &[u8], at: usize) -> (r: u64)
    requires
        at + 8 <= data@.len(),
    ensures
        r == u64_at(data@, at as int),
{
    data[at] as u64 | (data[at + 1] as u64) << 8u64 | (data[at + 2] as u64) << 16u64 | (data[at + 3] as u64) << 24u64
        | (data[at + 4] as u64) << 32u64 | (data[at + 5] as u64) << 40u64 | (data[at + 6] as u64) << 48u64
        | (data[at + 7] as u64) << 56u64
}

fn framed(before: &str, n: usize, after: &str) -> (r: String)
    ensures
        r@ == before@ + decimal_chars(n as nat) + after@,
{
    let mut r = String::from_str(before);
    let d = decimal_string(n);
    r.append(d.as_str());
    r.append(after);
    r
}

impl AudioPacket {
    /// The binary form of the packet.
    pub fn to_bytes(&self) -> (r: Vec<u8>)
        requires
            12 + 4 * self.pcm_bits@.len() <= usize::MAX,
        ensures
            r@ == packet_bytes(self.seq, self.timestamp, self.pcm_bits@),
    {
        let pcm_bytes = self.pcm_bits.len() * 4;
        let mut buf: Vec<u8> = Vec::with_capacity(4 + 8 + pcm_bytes);
        push_u32_le(&mut buf, self.seq);
        push_u64_le(&mut buf, self.timestamp);
        let mut i: usize = 0;
        while i < self.pcm_bits.len()
            invariant
                i <= self.pcm_bits@.len(),
                buf@ == u32_le(self.seq) + u64_le(self.timestamp) + samples_le(self.pcm_bits@.take(i as int)),
            decreases self.pcm_bits@.len() - i,
        {
            let ghost before = buf@;
            push_u32_le(&mut buf, self.pcm_bits[i]);
            proof {
                let t = self.pcm_bits@.take(i + 1);
                assert(t.drop_last() == self.pcm_bits@.take(i as int));
                assert(t.last() == self.pcm_bits@[i as int]);
                assert(buf@ =~= u32_le(self.seq) + u64_le(self.timestamp) + samples_le(t));
            }
            i = i + 1;
        }
        assert(self.pcm_bits@.take(self.pcm_bits@.len() as int) == self.pcm_bits@);
        buf
    }

    /// Reads a packet from its binary form; a network error when the bytes
    /// hold no whole header or the rest is not whole samples.
    pub fn from_bytes(data: &[u8]) -> (r: Result<Self, CplpError>)
        ensures
            match packet_error(data@.len()) {
                Some(m) => r matches Err(CplpError::Network(s)) && s@ == m,
                None => r matches Ok(p) && p.seq == u32_at(data@, 0) && p.timestamp == u64_at(data@, 4)
                    && p.pcm_bits@ == samples_from(data@),
            },
    {
        if data.len() < 12 {
            return Err(CplpError::Network(framed("パケットが短すぎます: ", data.len(), " bytes (最低 12)")));
        }
        if (data.len() - 12) % 4 != 0 {
            return Err(
                CplpError::Network(framed("PCM データサイズが不正: ", data.len() - 12, " bytes (4の倍数でない)")),
            );
        }
        let seq = read_u32_le(data, 0);
        let timestamp = read_u64_le(data, 4);
        let n = data.len();
        let sample_count = (n - 12) / 4;
        let mut pcm_bits: Vec<u32> = Vec::with_capacity(sample_count);
        let mut i: usize = 0;
        while i < sample_count
            invariant
                n == data@.len(),
                sample_count == (data@.len() - 12) / 4,
                data@.len() >= 12,
                i <= sample_count,
                pcm_bits@ == samples_from(data@).take(i as int),
            decreases sample_count - i,
        {
            assert(12 + i * 4 + 4 <= data@.len()) by (nonlinear_arith)
                requires
                    i < sample_count,
                    sample_count == (data@.len() - 12) / 4,
                    data@.len() >= 12,
            ;
            let offset = 12 + i * 4;
            pcm_bits.push(read_u32_le(data, offset));
            assert(pcm_bits@ =~= samples_from(data@).take(i + 1));
            i = i + 1;
        }
        assert(samples_from(data@).take(sample_count as int) =~= samples_from(data@));
        Ok(AudioPacket { seq, timestamp, pcm_bits })
    }

    /// The size of the binary form, in bytes.
    pub fn byte_size(&self) -> (r: usize)
        requires
            12 + 4 * self.pcm_bits@.len() <= usize::MAX,
        ensures
            r == 12 + 4 * self.pcm_bits@.len(),
            r == packet_bytes(self.seq, self.timestamp, self.pcm_bits@).len(),
    {
        proof {
            lemma_samples_le(self.pcm_bits@);
        }
        12 + self.pcm_bits.len() * 4
    }
}

} // verus!
