//! The sizes the audio engine works with: its ring buffers and the scratch
//! buffers of its output callback.
use vstd::prelude::*;
use crate::config::AudioConfig;

verus! {

/// Samples per ring buffer between the audio callback and the network: eight
/// callback buffers of every channel.
pub fn ring_capacity(config: &AudioConfig) -> (r: usize)
    requires
        config.buffer_size * config.channels * 8 <= usize::MAX,
    ensures
        r == config.buffer_size * config.channels * 8,
{
    let b = config.buffer_size as usize;
    let c = config.channels as usize;
    assert(b * c <= b * c * 8) by (nonlinear_arith);
    b * c * 8
}

/// Samples in each scratch buffer of the output callback: enough for 4096
/// frames, the most the system is expected to ask for at once.
pub fn max_callback_len(config: &AudioConfig) -> (r: usize)
    ensures
        r == 4096 * config.channels,
{
    4096 * (config.channels as usize)
}

/// How many samples a callback handles: what the system asks for, but no
/// more than the scratch buffers hold.
pub fn callback_len(requested: usize, scratch: usize) -> (r: usize)
    ensures
        r == if requested < scratch { requested } else { scratch },
{
    if requested < scratch { requested } else { scratch }
}

} // verus!
