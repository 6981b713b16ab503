//! Channel layout of interleaved audio output.

use vstd::prelude::*;

verus! {

/// The sample that belongs on position `channel` of a frame: the left sample
/// on the first channel, the right sample on every other.
pub open spec fn channel_sample<T>(channel: int, pair: (T, T)) -> T {
    if channel == 0 {
        pair.0
    } else {
        pair.1
    }
}

/// The number of frames that an output of `samples` positions holds, a last
/// frame that is cut short included.
pub open spec fn frames_in(samples: nat, channels: nat) -> nat {
    if samples % channels == 0 {
        samples / channels
    } else {
        samples / channels + 1
    }
}

/// The number of stereo pairs needed to fill an output of `samples`
/// positions: one for each frame, a last frame that is cut short included.
pub fn frame_count(samples: usize, channels: usize) -> (frames: usize)
    requires
        channels > 0,
    ensures
        frames == frames_in(samples as nat, channels as nat),
        frames * channels >= samples,
        frames > 0 ==> (frames - 1) * channels < samples,
{
    let whole = samples / channels;
    let rest = samples % channels;
    assert(samples == whole * channels + rest) by (nonlinear_arith)
        requires
            whole == samples / channels,
            rest == samples % channels,
            channels > 0,
    ;
    if rest == 0 {
        assert(whole > 0 ==> (whole - 1) * channels < whole * channels) by (nonlinear_arith)
            requires
                channels > 0,
        ;
        whole
    } else {
        assert((whole + 1) * channels == whole * channels + channels) by (nonlinear_arith);
        assert(whole < samples) by (nonlinear_arith)
            requires
                samples == whole * channels + rest,
                0 < rest < channels,
        ;
        whole + 1
    }
}

/// Fills interleaved output frame by frame from stereo pairs. Frame `f` takes
/// up positions `f * channels` and following, and is filled from `pairs[f]`:
/// its first channel carries the left sample, every further channel the right
/// one. A last frame that the output cuts short is filled as far as it goes.
pub fn write_data<T: Copy>(output: &mut [T], channels: usize, pairs: &[(T, T)])
    requires
        channels > 0,
        pairs@.len() * channels >= old(output)@.len(),
    ensures
        final(output)@.len() == old(output)@.len(),
        forall|i: int|
            0 <= i < final(output)@.len() ==> #[trigger] final(output)@[i] == channel_sample(
                i % (channels as int),
                pairs@[i / (channels as int)],
            ),
{
    let mut i: usize = 0;
    while i < output.len()
        invariant
            channels > 0,
            output@.len() == old(output)@.len(),
            pairs@.len() * channels >= output@.len(),
            i <= output@.len(),
            forall|j: int|
                0 <= j < i ==> #[trigger] output@[j] == channel_sample(
                    j % (channels as int),
                    pairs@[j / (channels as int)],
                ),
        decreases output@.len() - i,
    {
        let frame = i / channels;
        let channel = i % channels;
        assert(frame < pairs@.len()) by (nonlinear_arith)
            requires
                frame == i / channels,
                channels > 0,
                i < pairs@.len() * channels,
        ;
        let pair = pairs[frame];
        if channel == 0 {
            output[i] = pair.0;
        } else {
            output[i] = pair.1;
        }
        i = i + 1;
    }
}

} // verus!
