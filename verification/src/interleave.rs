//! Conversions between interleaved sample blocks (frame by frame:
//! L0 R0 L1 R1 ...) and planar ones (channel by channel: L0 L1 ... R0 R1 ...).
use vstd::prelude::*;

verus! {

/// Where sample `c` of frame `f` lies in an interleaved block of `channels` channels.
pub open spec fn frame_slot(f: int, c: int, channels: int) -> int {
    f * channels + c
}

/// Where sample `f` of channel `c` lies in a planar block of `frames` frames.
pub open spec fn channel_slot(c: int, f: int, frames: int) -> int {
    c * frames + f
}

proof fn lemma_slots(f: int, c: int, channels: int, frames: int)
    requires
        0 <= f < frames,
        0 <= c < channels,
    ensures
        0 <= frame_slot(f, c, channels) < channels * frames,
        0 <= channel_slot(c, f, frames) < channels * frames,
        frame_slot(f, c, channels) < (f + 1) * channels,
        f * channels <= frame_slot(f, c, channels),
{
    assert(0 <= f * channels + c < channels * frames) by (nonlinear_arith)
        requires
            0 <= f < frames,
            0 <= c < channels,
    ;
    assert(0 <= c * frames + f < channels * frames) by (nonlinear_arith)
        requires
            0 <= f < frames,
            0 <= c < channels,
    ;
    assert((f + 1) * channels == f * channels + channels) by (nonlinear_arith);
    assert(0 <= f * channels) by (nonlinear_arith)
        requires
            0 <= f,
            0 <= channels,
    ;
}

proof fn lemma_rows_ordered(f: int, g: int, channels: int)
    requires
        0 <= f < g,
        0 <= channels,
    ensures
        (f + 1) * channels <= g * channels,
{
    assert((f + 1) * channels <= g * channels) by (nonlinear_arith)
        requires
            f + 1 <= g,
            0 <= channels,
    ;
}

/// Planar to interleaved: writes sample `f` of channel `c` of `planar` to
/// slot `f * channels + c` of `interleaved`, for every frame and channel of
/// the block; the rest of `interleaved` is left as it is.
pub fn deinterleave_to_interleaved<T: Copy>(planar: &[T], interleaved: &mut [T], channels: usize, frame_count: usize)
    requires
        channels * frame_count <= planar@.len(),
        channels * frame_count <= old(interleaved)@.len(),
    ensures
        final(interleaved)@.len() == old(interleaved)@.len(),
        forall|f: int, c: int| 0 <= f < frame_count && 0 <= c < channels
            ==> #[trigger] final(interleaved)@[frame_slot(f, c, channels as int)] == planar@[channel_slot(c, f, frame_count as int)],
        forall|k: int| channels * frame_count <= k < old(interleaved)@.len() ==> #[trigger] final(interleaved)@[k] == old(interleaved)@[k],
{
    let ghost start = interleaved@;
    let n = interleaved.len();
    let ghost cc = channels as int;
    let ghost fc = frame_count as int;
    let mut frame: usize = 0;
    while frame < frame_count
        invariant
            frame <= frame_count,
            cc == channels,
            fc == frame_count,
            cc * fc <= planar@.len(),
            cc * fc <= start.len(),
            interleaved@.len() == start.len(),
            n == start.len(),
            forall|f: int, c: int| 0 <= f < frame && 0 <= c < cc
                ==> #[trigger] interleaved@[frame_slot(f, c, cc)] == planar@[channel_slot(c, f, fc)],
            forall|k: int| frame * cc <= k < start.len() ==> #[trigger] interleaved@[k] == start[k],
        decreases frame_count - frame,
    {
        let mut ch: usize = 0;
        while ch < channels
            invariant
                frame < frame_count,
                ch <= channels,
                cc == channels,
                fc == frame_count,
                cc * fc <= planar@.len(),
                cc * fc <= start.len(),
                interleaved@.len() == start.len(),
                n == start.len(),
                forall|f: int, c: int| 0 <= f < frame && 0 <= c < cc
                    ==> #[trigger] interleaved@[frame_slot(f, c, cc)] == planar@[channel_slot(c, f, fc)],
                forall|c: int| 0 <= c < ch ==> #[trigger] interleaved@[frame_slot(frame as int, c, cc)]
                    == planar@[channel_slot(c, frame as int, fc)],
                forall|k: int| frame * cc + ch <= k < start.len() ==> #[trigger] interleaved@[k] == start[k],
            decreases channels - ch,
        {
            proof {
                lemma_slots(frame as int, ch as int, cc, fc);
            }
            let dst = frame * channels + ch;
            let src = ch * frame_count + frame;
            let ghost before = interleaved@;
            interleaved[dst] = planar[src];
            proof {
                assert forall|f: int, c: int| 0 <= f < frame && 0 <= c < cc
                    implies #[trigger] interleaved@[frame_slot(f, c, cc)] == planar@[channel_slot(c, f, fc)] by {
                    lemma_slots(f, c, cc, fc);
                    lemma_rows_ordered(f, frame as int, cc);
                    assert(before[frame_slot(f, c, cc)] == planar@[channel_slot(c, f, fc)]);
                }
                assert forall|c: int| 0 <= c < ch + 1 implies #[trigger] interleaved@[frame_slot(frame as int, c, cc)]
                    == planar@[channel_slot(c, frame as int, fc)] by {
                    if c < ch {
                        assert(before[frame_slot(frame as int, c, cc)] == planar@[channel_slot(c, frame as int, fc)]);
                    }
                }
            }
            ch = ch + 1;
        }
        proof {
            assert forall|f: int, c: int| 0 <= f < frame + 1 && 0 <= c < cc
                implies #[trigger] interleaved@[frame_slot(f, c, cc)] == planar@[channel_slot(c, f, fc)] by {
                if f == frame {
                    assert(interleaved@[frame_slot(frame as int, c, cc)] == planar@[channel_slot(c, frame as int, fc)]);
                }
            }
            assert((frame + 1) * cc == frame * cc + cc) by (nonlinear_arith);
        }
        frame = frame + 1;
    }
    proof {
        assert forall|k: int| cc * fc <= k < start.len() implies #[trigger] interleaved@[k] == start[k] by {
            assert(frame * cc == cc * fc) by (nonlinear_arith)
                requires
                    frame == fc,
            ;
        }
    }
}

proof fn lemma_channel_slot_injective(c1: int, f1: int, c2: int, f2: int, frames: int)
    requires
        0 <= f1 < frames,
        0 <= f2 < frames,
        0 <= c1,
        0 <= c2,
        channel_slot(c1, f1, frames) == channel_slot(c2, f2, frames),
    ensures
        c1 == c2 && f1 == f2,
{
    assert(c1 == c2) by (nonlinear_arith)
        requires
            c1 * frames + f1 == c2 * frames + f2,
            0 <= f1 < frames,
            0 <= f2 < frames,
            0 <= c1,
            0 <= c2,
    ;
}

/// Interleaved to planar: writes slot `f * channels + c` of `interleaved` to
/// sample `f` of channel `c` of `planar`, for every frame and channel of the
/// block; the rest of `planar` is left as it is.
pub fn interleaved_to_deinterleaved<T: Copy>(interleaved: &[T], planar: &mut [T], channels: usize, frame_count: usize)
    requires
        channels * frame_count <= interleaved@.len(),
        channels * frame_count <= old(planar)@.len(),
    ensures
        final(planar)@.len() == old(planar)@.len(),
        forall|f: int, c: int| 0 <= f < frame_count && 0 <= c < channels
            ==> #[trigger] final(planar)@[channel_slot(c, f, frame_count as int)] == interleaved@[frame_slot(f, c, channels as int)],
        forall|k: int| channels * frame_count <= k < old(planar)@.len() ==> #[trigger] final(planar)@[k] == old(planar)@[k],
{
    let ghost start = planar@;
    let ghost cc = channels as int;
    let ghost fc = frame_count as int;
    let n = planar.len();
    let mut frame: usize = 0;
    while frame < frame_count
        invariant
            frame <= frame_count,
            cc == channels,
            fc == frame_count,
            cc * fc <= interleaved@.len(),
            cc * fc <= start.len(),
            planar@.len() == start.len(),
            n == start.len(),
            forall|f: int, c: int| 0 <= f < frame && 0 <= c < cc
                ==> #[trigger] planar@[channel_slot(c, f, fc)] == interleaved@[frame_slot(f, c, cc)],
            forall|k: int| cc * fc <= k < start.len() ==> #[trigger] planar@[k] == start[k],
        decreases frame_count - frame,
    {
        let mut ch: usize = 0;
        while ch < channels
            invariant
                frame < frame_count,
                ch <= channels,
                cc == channels,
                fc == frame_count,
                cc * fc <= interleaved@.len(),
                cc * fc <= start.len(),
                planar@.len() == start.len(),
                n == start.len(),
                forall|f: int, c: int| 0 <= f < frame && 0 <= c < cc
                    ==> #[trigger] planar@[channel_slot(c, f, fc)] == interleaved@[frame_slot(f, c, cc)],
                forall|c: int| 0 <= c < ch ==> #[trigger] planar@[channel_slot(c, frame as int, fc)]
                    == interleaved@[frame_slot(frame as int, c, cc)],
                forall|k: int| cc * fc <= k < start.len() ==> #[trigger] planar@[k] == start[k],
            decreases channels - ch,
        {
            proof {
                lemma_slots(frame as int, ch as int, cc, fc);
            }
            let dst = ch * frame_count + frame;
            let src = frame * channels + ch;
            let ghost before = planar@;
            planar[dst] = interleaved[src];
            proof {
                assert forall|f: int, c: int| 0 <= f < frame && 0 <= c < cc
                    implies #[trigger] planar@[channel_slot(c, f, fc)] == interleaved@[frame_slot(f, c, cc)] by {
                    lemma_slots(f, c, cc, fc);
                    if channel_slot(c, f, fc) == channel_slot(ch as int, frame as int, fc) {
                        lemma_channel_slot_injective(c, f, ch as int, frame as int, fc);
                    }
                    assert(before[channel_slot(c, f, fc)] == interleaved@[frame_slot(f, c, cc)]);
                }
                assert forall|c: int| 0 <= c < ch + 1 implies #[trigger] planar@[channel_slot(c, frame as int, fc)]
                    == interleaved@[frame_slot(frame as int, c, cc)] by {
                    if c < ch {
                        lemma_slots(frame as int, c, cc, fc);
                        if channel_slot(c, frame as int, fc) == channel_slot(ch as int, frame as int, fc) {
                            lemma_channel_slot_injective(c, frame as int, ch as int, frame as int, fc);
                        }
                        assert(before[channel_slot(c, frame as int, fc)] == interleaved@[frame_slot(frame as int, c, cc)]);
                    }
                }
            }
            ch = ch + 1;
        }
        proof {
            assert forall|f: int, c: int| 0 <= f < frame + 1 && 0 <= c < cc
                implies #[trigger] planar@[channel_slot(c, f, fc)] == interleaved@[frame_slot(f, c, cc)] by {
                if f == frame {
                    assert(planar@[channel_slot(c, frame as int, fc)] == interleaved@[frame_slot(frame as int, c, cc)]);
                }
            }
        }
        frame = frame + 1;
    }
}

/// Interleaving a block made planar gives back the block: converting an
/// interleaved block to planar and back restores every sample of it.
pub proof fn law_interleave_roundtrip<T>(original: Seq<T>, planar: Seq<T>, restored: Seq<T>, channels: int, frames: int)
    requires
        0 <= channels,
        0 <= frames,
        forall|f: int, c: int| 0 <= f < frames && 0 <= c < channels
            ==> #[trigger] planar[channel_slot(c, f, frames)] == original[frame_slot(f, c, channels)],
        forall|f: int, c: int| 0 <= f < frames && 0 <= c < channels
            ==> #[trigger] restored[frame_slot(f, c, channels)] == planar[channel_slot(c, f, frames)],
    ensures
        forall|k: int| 0 <= k < channels * frames ==> #[trigger] restored[k] == original[k],
{
    assert forall|k: int| 0 <= k < channels * frames implies #[trigger] restored[k] == original[k] by {
        let f = k / channels;
        let c = k % channels;
        assert(0 <= f < frames && 0 <= c < channels && k == f * channels + c) by (nonlinear_arith)
            requires
                0 <= k < channels * frames,
                channels > 0,
                f == k / channels,
                c == k % channels,
        {
            assert(k == channels * (k / channels) + k % channels);
            if f >= frames {
                assert(channels * f >= channels * frames);
            }
        }
        assert(restored[frame_slot(f, c, channels)] == planar[channel_slot(c, f, frames)]);
        assert(planar[channel_slot(c, f, frames)] == original[frame_slot(f, c, channels)]);
    }
}

} // verus!
