//! How much sound a decoded frame makes, and when all of it has been played.
use vstd::prelude::*;
use crate::streams::frame_or_stream;

verus! {

/// The frames of sound that a resampler may give beyond the exact number.
pub const RESAMPLER_SLACK: i64 = 256;

/// A quotient without its fraction.
pub open spec fn whole_quotient(a: int, b: int) -> int {
    if a >= 0 {
        a / b
    } else {
        -((-a) / b)
    }
}

/// The sample rate of a decoded frame.
pub open spec fn told_rate(frame_rate: i32, stream_rate: i32) -> Option<i32> {
    if frame_rate > 0 {
        Some(frame_rate)
    } else if stream_rate > 0 {
        Some(stream_rate)
    } else {
        None
    }
}

/// The sample rate of a decoded frame, where it or its stream tells it. A frame
/// without a sample rate makes no sound.
pub fn frame_sample_rate(frame_rate: i32, stream_rate: i32) -> (rate: Option<i32>)
    ensures
        rate == (if frame_rate > 0 {
            Some(frame_rate)
        } else if stream_rate > 0 {
            Some(stream_rate)
        } else {
            None
        }),
        rate == told_rate(frame_rate, stream_rate),
{
    let rate: i32 = frame_or_stream(frame_rate, stream_rate);
    if rate > 0 {
        Some(rate)
    } else {
        None
    }
}

/// How many frames of sound `nb_samples` become at another rate, with the slack.
pub open spec fn resampled_frames(nb_samples: int, target_rate: int, frame_rate: int) -> int {
    whole_quotient(nb_samples * target_rate, frame_rate) + RESAMPLER_SLACK
}

/// The frames of sound that have to find room when a decoded frame is resampled,
/// counted in 32 bits.
pub fn max_output_frames(nb_samples: i32, target_rate: u32, frame_rate: i32) -> (frames: i32)
    requires
        frame_rate > 0,
    ensures
        frames == resampled_frames(
            nb_samples as int,
            target_rate as int,
            frame_rate as int,
        ) as i32,
{
    proof {
        product_fits(nb_samples as int, target_rate as int);
        quotient_shrinks(nb_samples * target_rate, frame_rate as int);
    }
    (nb_samples as i64 * target_rate as i64 / frame_rate as i64 + RESAMPLER_SLACK) as i32
}

proof fn product_fits(a: int, b: int)
    by (nonlinear_arith)
    requires
        -0x8000_0000 <= a <= 0x7fff_ffff,
        0 <= b <= 0xffff_ffff,
    ensures
        -0x8000_0000 * 0xffff_ffff <= a * b <= 0x7fff_ffff * 0xffff_ffff,
{
}

proof fn quotient_shrinks(a: int, b: int)
    by (nonlinear_arith)
    requires
        b > 0,
    ensures
        a >= 0 ==> 0 <= a / b <= a,
        a < 0 ==> a <= -((-a) / b) <= 0,
{
}

/// A number of frames of sound can be told as a number of samples.
pub open spec fn samples_fit(frames: i32, channels: u16) -> bool {
    0 <= frames * channels <= i32::MAX
}

/// Tells whether a number of frames of sound can be told as a number of samples.
pub fn samples_countable(frames: i32, channels: u16) -> (countable: bool)
    ensures
        countable == samples_fit(frames, channels),
{
    proof {
        product_fits(frames as int, channels as int);
    }
    let samples: i64 = frames as i64 * channels as i64;
    0 <= samples && samples <= 0x7fff_ffff
}

/// The number of samples in a number of frames of sound, one for each channel.
pub fn sample_count(frames: i32, channels: u16) -> (count: usize)
    requires
        samples_fit(frames, channels),
    ensures
        count == frames * channels,
{
    (frames * channels as i32) as usize
}

/// How many samples of a buffer a resampler has filled.
pub open spec fn filled_samples(converted: i32, channels: u16, buffer_len: nat) -> nat {
    if converted <= 0 {
        0
    } else if converted * channels < buffer_len {
        (converted * channels) as nat
    } else {
        buffer_len
    }
}

/// How many samples of the buffer a resampler has filled; `converted` is the
/// number of frames that it reports. A resampler that fails has filled none.
pub fn converted_samples(converted: i32, channels: u16, buffer_len: usize) -> (count: usize)
    requires
        converted > 0 ==> samples_fit(converted, channels),
    ensures
        count == (if converted <= 0 {
            0
        } else if converted * channels < buffer_len {
            converted * channels
        } else {
            buffer_len as int
        }),
        count == filled_samples(converted, channels, buffer_len as nat),
{
    if converted <= 0 {
        return 0;
    }
    let count: usize = sample_count(converted, channels);
    if count < buffer_len {
        count
    } else {
        buffer_len
    }
}

/// Whether sound is still to be waited for.
pub open spec fn awaits_sound(running: bool, played_samples: nat, queued_samples: nat) -> bool {
    running && played_samples < queued_samples
}

/// Whether sound is still to be waited for at the end of a file.
pub fn sound_pending(running: bool, played_samples: u64, queued_samples: u64) -> (pending: bool)
    ensures
        pending == (running && played_samples < queued_samples),
        pending == awaits_sound(running, played_samples as nat, queued_samples as nat),
{
    running && played_samples < queued_samples
}

/// A resampler that gives no more frames than the rates call for finds room for
/// all of them, with the slack to spare.
pub proof fn resampled_sound_finds_room(nb_samples: int, target_rate: int, frame_rate: int)
    requires
        0 <= nb_samples,
        0 <= target_rate,
        0 < frame_rate,
    ensures
        (resampled_frames(nb_samples, target_rate, frame_rate) - RESAMPLER_SLACK + 1) * frame_rate
            > nb_samples * target_rate,
        target_rate == frame_rate ==> resampled_frames(nb_samples, target_rate, frame_rate)
            == nb_samples + RESAMPLER_SLACK,
{
    let a = nb_samples * target_rate;
    assert(a >= 0) by (nonlinear_arith)
        requires
            0 <= nb_samples,
            0 <= target_rate,
            a == nb_samples * target_rate,
    ;
    assert((a / frame_rate + 1) * frame_rate > a) by (nonlinear_arith)
        requires
            a >= 0,
            frame_rate > 0,
    ;
    if target_rate == frame_rate {
        assert(nb_samples * frame_rate / frame_rate == nb_samples) by (nonlinear_arith)
            requires
                frame_rate > 0,
        ;
    }
}

/// The room for resampled sound is what the rates call for, to the whole frame below
/// it, and a slack of 256 frames.
pub proof fn room_is_no_larger_than_needed(nb_samples: int, target_rate: int, frame_rate: int)
    requires
        0 <= nb_samples,
        0 <= target_rate,
        0 < frame_rate,
    ensures
        (resampled_frames(nb_samples, target_rate, frame_rate) - 256) * frame_rate <= nb_samples
            * target_rate,
        (resampled_frames(nb_samples, target_rate, frame_rate) - 256 + 1) * frame_rate > nb_samples
            * target_rate,
{
    resampled_sound_finds_room(nb_samples, target_rate, frame_rate);
    let a = nb_samples * target_rate;
    assert(a >= 0) by (nonlinear_arith)
        requires
            0 <= nb_samples,
            0 <= target_rate,
            a == nb_samples * target_rate,
    ;
    assert(a / frame_rate * frame_rate <= a) by (nonlinear_arith)
        requires
            a >= 0,
            frame_rate > 0,
    ;
}

/// All sound that a resampler gives is queued, one sample for each channel of each
/// frame, as far as the buffer reaches. One that fails gives none.
pub proof fn converted_sound_is_queued(converted: i32, channels: u16, buffer_len: nat)
    ensures
        ({
            let count = filled_samples(converted, channels, buffer_len);
            &&& count <= buffer_len
            &&& converted <= 0 ==> count == 0
            &&& converted > 0 && converted * channels <= buffer_len ==> count == converted
                * channels
            &&& converted > 0 && converted * channels > buffer_len ==> count == buffer_len
        }),
{
}

/// The player waits while it runs and not all queued samples were played, and no longer.
pub proof fn sound_is_awaited_to_its_end(played_samples: nat, queued_samples: nat)
    requires
        played_samples <= queued_samples,
    ensures
        awaits_sound(true, played_samples, queued_samples) <==> played_samples != queued_samples,
        !awaits_sound(false, played_samples, queued_samples),
{
}

/// A frame's own sample rate comes first, then that of its stream. Without either there
/// is no sound.
pub proof fn frames_tell_their_rate(frame_rate: i32, stream_rate: i32)
    ensures
        frame_rate > 0 ==> told_rate(frame_rate, stream_rate) == Some(frame_rate),
        frame_rate <= 0 && stream_rate > 0 ==> told_rate(frame_rate, stream_rate) == Some(
            stream_rate,
        ),
        told_rate(frame_rate, stream_rate) is None <==> frame_rate <= 0 && stream_rate <= 0,
{
}

} // verus!
