//! Audio samples: frames, mixing and playback.
use crate::history::{push_amp, pushed, AMP_HISTORY_LEN};
use std::collections::VecDeque;
use vstd::prelude::*;

verus! {

/// Samples per second.
pub const SAMPLE_RATE: u32 = 48_000;

/// Samples of one frame.
pub const FRAME_SIZE: usize = 960;

/// Audio has 48000 samples per second, and a frame lasts 20 milliseconds.
pub proof fn lemma_frame_is_20_ms()
    ensures
        SAMPLE_RATE == 48_000,
        FRAME_SIZE == 960,
        FRAME_SIZE * 1000 == 20 * SAMPLE_RATE,
{
}

/// The full frames that `samples` hold, in order.
pub open spec fn frames_of<T>(samples: Seq<T>) -> Seq<Seq<T>> {
    Seq::new(
        samples.len() / FRAME_SIZE as nat,
        |k: int| samples.subrange(k * FRAME_SIZE, (k + 1) * FRAME_SIZE),
    )
}

/// The samples after the last full frame of `samples`.
pub open spec fn rest_of<T>(samples: Seq<T>) -> Seq<T> {
    samples.skip(samples.len() / FRAME_SIZE as nat * FRAME_SIZE)
}

/// The frames by their samples.
pub open spec fn frame_views<T>(frames: Seq<Vec<T>>) -> Seq<Seq<T>> {
    frames.map_values(|frame: Vec<T>| frame@)
}

/// Frames by their samples are as many, in the same order, and each in full.
pub proof fn lemma_frame_views_are_complete<T>(frames: Seq<Vec<T>>)
    ensures
        frame_views(frames).len() == frames.len(),
        forall|k: int| 0 <= k < frames.len() ==> #[trigger] frame_views(frames)[k] == frames[k]@,
{
}

/// Appends newly captured samples to the ones that are left over, and takes out the full frames.
pub fn take_frames<T: Copy>(buffer: &mut Vec<T>, captured: &Vec<T>) -> (frames: Vec<Vec<T>>)
    ensures
        frame_views(frames@) == frames_of(old(buffer)@ + captured@),
        final(buffer)@ == rest_of(old(buffer)@ + captured@),
        frames@.len() == (old(buffer)@ + captured@).len() / 960,
        forall|k: int|
            0 <= k < frames@.len() ==> (#[trigger] frames@[k])@ == (old(buffer)@
                + captured@).subrange(k * 960, k * 960 + 960),
        final(buffer)@ == (old(buffer)@ + captured@).skip(frames@.len() * 960int),
{
    let ghost all = buffer@ + captured@;
    let mut i: usize = 0;
    while i < captured.len()
        invariant
            i <= captured.len(),
            all.len() == old(buffer)@.len() + captured@.len(),
            all == old(buffer)@ + captured@,
            buffer@ == all.take(old(buffer)@.len() + i),
        decreases captured.len() - i,
    {
        buffer.push(captured[i]);
        i = i + 1;
        assert(buffer@ == all.take(old(buffer)@.len() + i));
    }
    assert(buffer@ == all);
    let mut frames: Vec<Vec<T>> = Vec::new();
    let mut start: usize = 0;
    while buffer.len() - start >= FRAME_SIZE
        invariant
            buffer@ == all,
            start == frames@.len() * FRAME_SIZE,
            start <= all.len(),
            forall|k: int|
                0 <= k < frames@.len() ==> (#[trigger] frames@[k])@ == all.subrange(
                    k * FRAME_SIZE,
                    (k + 1) * FRAME_SIZE,
                ),
        decreases buffer.len() - start,
    {
        let end: usize = start + FRAME_SIZE;
        let frame = vstd::slice::slice_subrange(buffer.as_slice(), start, end);
        frames.push(vstd::slice::slice_to_vec(frame));
        start = end;
    }
    let left = buffer.split_off(start);
    *buffer = left;
    proof {
        assert(frames@.len() == all.len() / FRAME_SIZE as nat);
        assert(frame_views(frames@) =~= frames_of(all));
    }
    frames
}

/// Frames, one after the other.
pub open spec fn joined<T>(frames: Seq<Seq<T>>) -> Seq<T>
    decreases frames.len(),
{
    if frames.len() == 0 {
        Seq::empty()
    } else {
        joined(frames.drop_last()) + frames.last()
    }
}

proof fn lemma_joined_frames_are_prefix<T>(samples: Seq<T>, n: nat)
    requires
        n <= samples.len() / FRAME_SIZE as nat,
    ensures
        joined(frames_of(samples).take(n as int)) == samples.take(n * FRAME_SIZE),
    decreases n,
{
    let frames = frames_of(samples);
    if n > 0 {
        lemma_joined_frames_are_prefix(samples, (n - 1) as nat);
        assert(frames.take(n as int).drop_last() == frames.take(n - 1));
        assert(samples.take((n - 1) * FRAME_SIZE) + samples.subrange(
            (n - 1) * FRAME_SIZE,
            n * FRAME_SIZE,
        ) == samples.take(n * FRAME_SIZE));
    } else {
        assert(samples.take(0) == Seq::<T>::empty());
    }
}

/// Framing loses no sample and adds none: the frames and what is left over are the samples, in
/// their order; each frame is full, and less than a frame is left over.
pub proof fn lemma_framing_keeps_samples<T>(samples: Seq<T>)
    ensures
        joined(frames_of(samples)) + rest_of(samples) == samples,
        forall|k: int|
            0 <= k < frames_of(samples).len() ==> (#[trigger] frames_of(samples)[k]).len()
                == FRAME_SIZE,
        rest_of(samples).len() < FRAME_SIZE,
{
    let n = samples.len() / FRAME_SIZE as nat;
    lemma_joined_frames_are_prefix(samples, n);
    assert(frames_of(samples).take(n as int) == frames_of(samples));
    assert(samples.take(n * FRAME_SIZE) + samples.skip(n * FRAME_SIZE) == samples);
}

/// It does not matter in which portions the samples arrive: the frames are the same.
pub proof fn lemma_portions_do_not_matter<T>(first: Seq<T>, second: Seq<T>)
    ensures
        frames_of(first + second) == frames_of(first) + frames_of(rest_of(first) + second),
        rest_of(first + second) == rest_of(rest_of(first) + second),
{
    let all = first + second;
    let n = (first.len() / FRAME_SIZE as nat) as int;
    let later = rest_of(first) + second;
    assert(later == all.skip(n * FRAME_SIZE));
    assert(later.len() == all.len() - n * FRAME_SIZE);
    let m = (later.len() / FRAME_SIZE as nat) as int;
    assert(all.len() / FRAME_SIZE as nat == n + m);
    assert forall|k: int| 0 <= k < n + m implies frames_of(all)[k] == (frames_of(first)
        + frames_of(later))[k] by {
        if k < n {
            assert(all.subrange(k * FRAME_SIZE, (k + 1) * FRAME_SIZE) == first.subrange(
                k * FRAME_SIZE,
                (k + 1) * FRAME_SIZE,
            ));
        } else {
            assert(all.subrange(k * FRAME_SIZE, (k + 1) * FRAME_SIZE) == later.subrange(
                (k - n) * FRAME_SIZE,
                (k - n + 1) * FRAME_SIZE,
            ));
        }
    }
    assert(frames_of(all) =~= frames_of(first) + frames_of(later));
    assert(rest_of(all) =~= rest_of(later));
}

/// Takes the loudness of a captured frame into the meter, and says whether the frame is sent: only
/// while the talk key is held.
pub fn meter_frame(mic_amp: &mut VecDeque<u64>, amp: u64, talking: bool) -> (send: bool)
    ensures
        final(mic_amp)@ == pushed(old(mic_amp)@, AMP_HISTORY_LEN as nat, amp),
        final(mic_amp)@ == (if old(mic_amp)@.len() < 150 {
            old(mic_amp)@.push(amp)
        } else {
            old(mic_amp)@.skip(1).push(amp)
        }),
        send == talking,
{
    push_amp(mic_amp, amp);
    talking
}

/// How many groups of `channels` samples `len` samples make; the last one may be short.
pub open spec fn group_count(len: nat, channels: nat) -> nat {
    if len == 0 {
        0
    } else {
        ((len - 1) / channels as int + 1) as nat
    }
}

/// The group number `k`: one sample for each channel, as far as there are samples.
pub open spec fn group<S>(data: Seq<S>, channels: nat, k: int) -> Seq<S> {
    data.subrange(
        k * channels,
        if (k + 1) * channels < data.len() {
            (k + 1) * channels
        } else {
            data.len() as int
        },
    )
}

/// `k` groups cover `end` samples: `k` full ones, or all of them with the last one short.
proof fn lemma_group_count(len: nat, channels: nat, k: nat, end: nat)
    requires
        channels > 0,
        end <= len,
        end == k * channels || (k > 0 && end == len && (k - 1) * channels < len <= k * channels),
    ensures
        end < len ==> k * channels == end && k < group_count(len, channels),
        end == len ==> k == group_count(len, channels),
{
    if len > 0 {
        let n: int = len - 1;
        let c = channels as int;
        let q = n / c;
        assert(q * c <= n < (q + 1) * c) by (nonlinear_arith)
            requires
                c > 0,
                n >= 0,
                q == n / c,
        ;
        if end < len {
            assert(k * channels <= n);
            assert(k <= q) by (nonlinear_arith)
                requires
                    k * c <= n,
                    n < (q + 1) * c,
                    c > 0,
                    channels == c,
            ;
        } else {
            if k == 0 {
                assert(k * channels == 0) by (nonlinear_arith)
                    requires
                        k == 0,
                ;
            }
            assert((k - 1) * c <= n < k * c) by (nonlinear_arith)
                requires
                    k > 0,
                    c > 0,
                    n == len - 1,
                    channels == c,
                    len == k * c || ((k - 1) * c < len && len <= k * c),
            ;
            assert(k - 1 == q) by (nonlinear_arith)
                requires
                    (k - 1) * c <= n < k * c,
                    q * c <= n < (q + 1) * c,
                    c > 0,
            ;
        }
    } else if k > 0 {
        assert(k * channels > 0) by (nonlinear_arith)
            requires
                k > 0,
                channels > 0,
        ;
        assert((k - 1) * channels >= 0) by (nonlinear_arith)
            requires
                k > 0,
        ;
    }
}

/// As many groups as it takes to hold all samples.
proof fn lemma_group_count_rounds_up(len: nat, channels: nat)
    requires
        channels > 0,
    ensures
        group_count(len, channels) == (len + channels - 1) / channels as int,
{
    if len > 0 {
        assert((len - 1) / channels as int + 1 == (len - 1 + channels) / channels as int)
            by (nonlinear_arith)
            requires
                channels > 0,
        ;
    } else {
        assert((channels - 1) / channels as int == 0) by (nonlinear_arith)
            requires
                channels > 0,
        ;
    }
}

/// Whether `mix` may give `out` for the group number `k`.
pub open spec fn mixes_to<S, T, F: Fn(&[S]) -> T>(
    data: Seq<S>,
    channels: nat,
    mix: F,
    k: int,
    out: T,
) -> bool {
    exists|samples: &[S]|
        samples@ == group(data, channels, k) && #[trigger] call_ensures(mix, (samples,), out)
}

/// Whether `mixed` holds what `mix` gives for each group of `data`, in order.
pub open spec fn is_mix<S, T, F: Fn(&[S]) -> T>(
    data: Seq<S>,
    channels: nat,
    mix: F,
    mixed: Seq<T>,
) -> bool {
    &&& mixed.len() == group_count(data.len(), channels)
    &&& forall|k: int|
        0 <= k < mixed.len() ==> mixes_to(data, channels, mix, k, #[trigger] mixed[k])
}

/// Mixes interleaved samples down to one for each group of `channels`.
pub fn mix_down<S, T, F: Fn(&[S]) -> T>(data: &[S], channels: usize, mix: F) -> (mixed: Vec<T>)
    requires
        channels > 0,
        forall|samples: &[S]| samples@.len() <= channels ==> call_requires(mix, (samples,)),
    ensures
        is_mix(data@, channels as nat, mix, mixed@),
        mixed@.len() == (data@.len() + channels - 1) / channels as int,
{
    let mut mixed: Vec<T> = Vec::new();
    let mut pos: usize = 0;
    assert(0 * channels == 0) by (nonlinear_arith);
    while pos < data.len()
        invariant
            channels > 0,
            pos <= data@.len(),
            pos == mixed@.len() * channels || (mixed@.len() > 0 && pos == data@.len() && (
            mixed@.len() - 1) * channels < data@.len() <= mixed@.len() * channels),
            forall|samples: &[S]| samples@.len() <= channels ==> call_requires(mix, (samples,)),
            forall|k: int|
                0 <= k < mixed@.len() ==> mixes_to(
                    data@,
                    channels as nat,
                    mix,
                    k,
                    #[trigger] mixed@[k],
                ),
        decreases data.len() - pos,
    {
        let end: usize = if data.len() - pos > channels {
            pos + channels
        } else {
            data.len()
        };
        let samples = vstd::slice::slice_subrange(data, pos, end);
        let ghost k = mixed@.len() as int;
        assert((k + 1) * channels == k * channels + channels) by (nonlinear_arith);
        assert(samples@ == group(data@, channels as nat, k));
        let one = mix(samples);
        mixed.push(one);
        assert(mixes_to(data@, channels as nat, mix, k, one));
        pos = end;
    }
    proof {
        lemma_group_count(data@.len(), channels as nat, mixed@.len(), pos as nat);
        lemma_group_count_rounds_up(data@.len(), channels as nat);
    }
    mixed
}

/// A mix has one sample for each group of `channels` samples, the last group as short as it may be,
/// and each was given by `mix` for the samples of its group, in their order and in full.
pub proof fn lemma_mix_is_of_each_group<S, T, F: Fn(&[S]) -> T>(
    data: Seq<S>,
    channels: nat,
    mix: F,
    mixed: Seq<T>,
    k: int,
)
    requires
        channels > 0,
        is_mix(data, channels, mix, mixed),
        0 <= k < mixed.len(),
    ensures
        mixed.len() == (data.len() + channels - 1) / channels as int,
        exists|samples: &[S]| #[trigger]
            call_ensures(mix, (samples,), mixed[k]) && samples@ == data.subrange(
                k * channels,
                if k * channels + channels < data.len() {
                    k * channels + channels
                } else {
                    data.len() as int
                },
            ),
{
    lemma_group_count_rounds_up(data.len(), channels);
    assert((k + 1) * channels == k * channels + channels) by (nonlinear_arith);
    assert(mixes_to(data, channels, mix, k, mixed[k]));
}

/// Interleaved samples may be mixed in portions of whole groups: the mixed portions, one after the
/// other, are a mix of the whole.
pub proof fn lemma_mix_of_portions<S, T, F: Fn(&[S]) -> T>(
    first: Seq<S>,
    second: Seq<S>,
    channels: nat,
    mix: F,
    mixed_first: Seq<T>,
    mixed_second: Seq<T>,
)
    requires
        channels > 0,
        first.len() % channels == 0,
        is_mix(first, channels, mix, mixed_first),
        is_mix(second, channels, mix, mixed_second),
    ensures
        is_mix(first + second, channels, mix, mixed_first + mixed_second),
{
    let all = first + second;
    let c = channels as int;
    let q = (first.len() / channels) as int;
    assert(first.len() == q * c) by {
        vstd::arithmetic::div_mod::lemma_fundamental_div_mod(first.len() as int, c);
        assert(c * q == q * c) by (nonlinear_arith);
    }
    assert(q >= 0) by (nonlinear_arith)
        requires
            q == first.len() as int / c,
            c > 0,
    ;
    lemma_group_count(first.len(), channels, q as nat, first.len());
    let n = group_count(second.len(), channels);
    assert(group_count(all.len(), channels) == q + n) by {
        if second.len() == 0 {
            assert(all =~= first);
        } else {
            assert((first.len() + second.len() - 1) / c == q + (second.len() - 1) / c)
                by (nonlinear_arith)
                requires
                    first.len() == q * c,
                    c > 0,
                    second.len() > 0,
            ;
        }
    }
    let mixed = mixed_first + mixed_second;
    assert forall|k: int| 0 <= k < mixed.len() implies mixes_to(
        all,
        channels,
        mix,
        k,
        #[trigger] mixed[k],
    ) by {
        assert((k + 1) * channels == k * channels + channels) by (nonlinear_arith);
        assert(k * channels >= 0) by (nonlinear_arith)
            requires
                k >= 0,
        ;
        if k < q {
            assert((k + 1) * channels <= q * c) by (nonlinear_arith)
                requires
                    k + 1 <= q,
                    c > 0,
                    channels == c,
            ;
            assert(group(all, channels, k) =~= group(first, channels, k));
            assert(mixes_to(first, channels, mix, k, mixed_first[k]));
        } else {
            let j = k - q;
            assert(k * channels == q * c + j * channels) by (nonlinear_arith)
                requires
                    k == q + j,
                    channels == c,
            ;
            assert((j + 1) * channels == j * channels + channels) by (nonlinear_arith);
            assert(j * channels >= 0) by (nonlinear_arith)
                requires
                    j >= 0,
            ;
            lemma_group_starts_inside(second.len(), channels, j);
            assert(group(all, channels, k) =~= group(second, channels, j));
            assert(mixes_to(second, channels, mix, j, mixed_second[j]));
        }
    }
}

proof fn lemma_group_starts_inside(len: nat, channels: nat, k: int)
    requires
        channels > 0,
        0 <= k < group_count(len, channels),
    ensures
        k * channels < len,
{
    let c = channels as int;
    let n = len - 1;
    assert(k * c <= n) by (nonlinear_arith)
        requires
            k <= n / c,
            c > 0,
            n >= 0,
    ;
}

/// Whether `mix` gives the same for the same samples.
pub open spec fn is_function<S, T, F: Fn(&[S]) -> T>(mix: F) -> bool {
    forall|a: &[S], b: &[S], x: T, y: T|
        a@ == b@ && #[trigger] call_ensures(mix, (a,), x) && #[trigger] call_ensures(mix, (b,), y)
            ==> x == y
}

proof fn lemma_mix_is_unique<S, T, F: Fn(&[S]) -> T>(
    data: Seq<S>,
    channels: nat,
    mix: F,
    one: Seq<T>,
    other: Seq<T>,
)
    requires
        is_function(mix),
        is_mix(data, channels, mix, one),
        is_mix(data, channels, mix, other),
    ensures
        one == other,
{
    assert forall|k: int| 0 <= k < one.len() implies one[k] == other[k] by {
        assert(mixes_to(data, channels, mix, k, one[k]));
        assert(mixes_to(data, channels, mix, k, other[k]));
    }
    assert(one =~= other);
}

/// `meter` after each of `amps` was taken into it, in order.
pub open spec fn metered(meter: Seq<u64>, amps: Seq<u64>) -> Seq<u64>
    decreases amps.len(),
{
    if amps.len() == 0 {
        meter
    } else {
        pushed(metered(meter, amps.drop_last()), AMP_HISTORY_LEN as nat, amps.last())
    }
}

proof fn lemma_metered_in_portions(meter: Seq<u64>, first: Seq<u64>, second: Seq<u64>)
    ensures
        metered(meter, first + second) == metered(metered(meter, first), second),
    decreases second.len(),
{
    if second.len() == 0 {
        assert(first + second == first);
    } else {
        lemma_metered_in_portions(meter, first, second.drop_last());
        assert((first + second).drop_last() == first + second.drop_last());
    }
}

/// A meter takes one value after the other: the newest is the last, and before it is what the meter
/// held, without the oldest where it held 150 or more.
pub proof fn lemma_meter_takes_values_in_turn(meter: Seq<u64>, amps: Seq<u64>, amp: u64)
    ensures
        metered(meter, Seq::empty()) == meter,
        metered(meter, amps.push(amp)) == (if metered(meter, amps).len() < 150 {
            metered(meter, amps).push(amp)
        } else {
            metered(meter, amps).skip(1).push(amp)
        }),
{
    assert(amps.push(amp).drop_last() =~= amps);
}

/// A meter holds the newest of the values that it held and was given, in their order.
pub proof fn lemma_meter_holds_newest(meter: Seq<u64>, amps: Seq<u64>)
    requires
        meter.len() <= 150,
    ensures
        metered(meter, amps) == (meter + amps).skip(
            if meter.len() + amps.len() > 150 {
                meter.len() + amps.len() - 150
            } else {
                0
            },
        ),
    decreases amps.len(),
{
    let all = meter + amps;
    if amps.len() > 0 {
        let front = amps.drop_last();
        lemma_meter_holds_newest(meter, front);
        assert(all.drop_last() =~= meter + front);
        assert(all =~= (meter + front).push(amps.last()));
    }
    assert(metered(meter, amps) =~= all.skip(
        if all.len() > 150 {
            all.len() - 150
        } else {
            0
        },
    ));
}

/// The frames for which the talk key was held.
pub open spec fn talked<T>(frames: Seq<Seq<T>>, held: Seq<bool>) -> Seq<Seq<T>>
    decreases frames.len(),
{
    if frames.len() == 0 {
        Seq::empty()
    } else {
        let before = talked(frames.drop_last(), held.drop_last());
        if held.last() {
            before.push(frames.last())
        } else {
            before
        }
    }
}

/// Whether `loudness` may give `amp` for the frame.
pub open spec fn is_loudness<T, L: Fn(&Vec<T>) -> u64>(
    loudness: L,
    frame: Seq<T>,
    amp: u64,
) -> bool {
    exists|samples: &Vec<T>|
        samples@ == frame && #[trigger] call_ensures(loudness, (samples,), amp)
}

/// Whether `amps` and `held` are what `loudness` and `talking` may give for the frames, in order.
pub open spec fn are_answers<T, L: Fn(&Vec<T>) -> u64, P: Fn() -> bool>(
    frames: Seq<Seq<T>>,
    loudness: L,
    talking: P,
    amps: Seq<u64>,
    held: Seq<bool>,
) -> bool {
    &&& amps.len() == frames.len()
    &&& held.len() == frames.len()
    &&& forall|k: int|
        0 <= k < frames.len() ==> is_loudness(loudness, frames[k], #[trigger] amps[k])
    &&& forall|k: int| 0 <= k < frames.len() ==> call_ensures(talking, (), #[trigger] held[k])
}

/// A frame is sent exactly where the talk key is held for it, after those sent before it.
pub proof fn lemma_held_frames_are_sent<T>(
    frames: Seq<Seq<T>>,
    held: Seq<bool>,
    frame: Seq<T>,
    down: bool,
)
    requires
        held.len() == frames.len(),
    ensures
        talked(Seq::<Seq<T>>::empty(), Seq::empty()).len() == 0,
        down ==> talked(frames.push(frame), held.push(down)) == talked(frames, held).push(frame),
        !down ==> talked(frames.push(frame), held.push(down)) == talked(frames, held),
{
    assert(frames.push(frame).drop_last() =~= frames);
    assert(held.push(down).drop_last() =~= held);
}

/// The answers are one loudness and one state of the talk key for each frame, and each loudness is
/// one that was given for that frame.
pub proof fn lemma_answers_are_of_each_frame<T, L: Fn(&Vec<T>) -> u64, P: Fn() -> bool>(
    frames: Seq<Seq<T>>,
    loudness: L,
    talking: P,
    amps: Seq<u64>,
    held: Seq<bool>,
    k: int,
)
    requires
        are_answers(frames, loudness, talking, amps, held),
        0 <= k < frames.len(),
    ensures
        amps.len() == frames.len() && held.len() == frames.len(),
        exists|samples: &Vec<T>| #[trigger]
            call_ensures(loudness, (samples,), amps[k]) && samples@ == frames[k],
        call_ensures(talking, (), held[k]),
{
    assert(is_loudness(loudness, frames[k], amps[k]));
    assert(call_ensures(talking, (), held[k]));
}

/// Takes newly captured samples: each full frame goes into the meter, and is handed out to be sent
/// where the talk key is held for it.
pub fn capture<T: Copy, L: Fn(&Vec<T>) -> u64, P: Fn() -> bool>(
    buffer: &mut Vec<T>,
    captured: &Vec<T>,
    mic_amp: &mut VecDeque<u64>,
    loudness: L,
    talking: P,
) -> (to_send: Vec<Vec<T>>)
    requires
        forall|frame: &Vec<T>| frame@.len() == FRAME_SIZE ==> call_requires(loudness, (frame,)),
        call_requires(talking, ()),
    ensures
        final(buffer)@ == rest_of(old(buffer)@ + captured@),
        exists|amps: Seq<u64>, held: Seq<bool>|
            {
                &&& #[trigger] are_answers(
                    frames_of(old(buffer)@ + captured@),
                    loudness,
                    talking,
                    amps,
                    held,
                )
                &&& final(mic_amp)@ == metered(old(mic_amp)@, amps)
                &&& frame_views(to_send@) == talked(frames_of(old(buffer)@ + captured@), held)
            },
{
    let ghost all = buffer@ + captured@;
    let frames = take_frames(buffer, captured);
    let ghost views = frames_of(all);
    let ghost meter = mic_amp@;
    let ghost mut amps: Seq<u64> = Seq::empty();
    let ghost mut held: Seq<bool> = Seq::empty();
    let mut to_send: Vec<Vec<T>> = Vec::new();
    let mut i: usize = 0;
    proof {
        lemma_framing_keeps_samples(all);
        assert(views.take(0) == Seq::<Seq<T>>::empty());
        assert(frame_views(to_send@) =~= talked(views.take(0), held));
    }
    while i < frames.len()
        invariant
            i <= frames@.len(),
            frame_views(frames@) == views,
            frames@.len() == views.len(),
            forall|k: int| 0 <= k < views.len() ==> (#[trigger] views[k]).len() == FRAME_SIZE,
            forall|frame: &Vec<T>|
                frame@.len() == FRAME_SIZE ==> call_requires(loudness, (frame,)),
            call_requires(talking, ()),
            are_answers(views.take(i as int), loudness, talking, amps, held),
            mic_amp@ == metered(meter, amps),
            frame_views(to_send@) == talked(views.take(i as int), held),
        decreases frames.len() - i,
    {
        let ghost before = views.take(i as int);
        let ghost now = views.take(i + 1);
        let ghost sent = to_send@;
        let frame = &frames[i];
        assert(views[i as int] == frame@);
        let amp = loudness(frame);
        let down = talking();
        assert(is_loudness(loudness, views[i as int], amp));
        if meter_frame(mic_amp, amp, down) {
            to_send.push(vstd::slice::slice_to_vec(frame.as_slice()));
            assert(frame_views(to_send@) =~= frame_views(sent).push(frame@));
        }
        proof {
            assert(now.drop_last() =~= before);
            let amps_before = amps;
            let held_before = held;
            amps = amps.push(amp);
            held = held.push(down);
            assert(amps.drop_last() =~= amps_before);
            assert(held.drop_last() =~= held_before);
            assert forall|k: int| 0 <= k < now.len() implies is_loudness(
                loudness,
                now[k],
                #[trigger] amps[k],
            ) by {
                if k < i {
                    assert(is_loudness(loudness, before[k], amps_before[k]));
                }
            }
            assert forall|k: int| 0 <= k < now.len() implies call_ensures(
                talking,
                (),
                #[trigger] held[k],
            ) by {
                if k < i {
                    assert(call_ensures(talking, (), held_before[k]));
                }
            }
        }
        i = i + 1;
    }
    proof {
        assert(views.take(i as int) =~= views);
        assert(are_answers(views, loudness, talking, amps, held));
    }
    to_send
}

proof fn lemma_all_or_none_talked<T>(frames: Seq<Seq<T>>, held: Seq<bool>, talking: bool)
    requires
        held.len() == frames.len(),
        forall|k: int| 0 <= k < held.len() ==> #[trigger] held[k] == talking,
    ensures
        talked(frames, held) == (if talking {
            frames
        } else {
            Seq::empty()
        }),
    decreases frames.len(),
{
    if frames.len() > 0 {
        lemma_all_or_none_talked(frames.drop_last(), held.drop_last(), talking);
        assert(frames.drop_last().push(frames.last()) =~= frames);
    } else {
        assert(frames =~= Seq::empty());
    }
}

/// The capturing side of a call: the samples that are left over, the meter, and the frames that
/// were sent.
pub struct CaptureModel<T> {
    pub left: Seq<T>,
    pub meter: Seq<u64>,
    pub sent: Seq<Seq<T>>,
}

impl<T> CaptureModel<T> {
    /// What a portion of mixed samples leads to: each full frame is metered, and sent where the
    /// talk key is held.
    pub open spec fn captured(
        self,
        mixed: Seq<T>,
        loudness: spec_fn(Seq<T>) -> u64,
        talking: bool,
    ) -> CaptureModel<T> {
        let frames = frames_of(self.left + mixed);
        CaptureModel {
            left: rest_of(self.left + mixed),
            meter: metered(self.meter, frames.map_values(loudness)),
            sent: if talking {
                self.sent + frames
            } else {
                self.sent
            },
        }
    }
}

/// What `capture` does where the loudness is a function of the frame and the talk key does not
/// change meanwhile.
pub proof fn lemma_capture_follows_model<T, L: Fn(&Vec<T>) -> u64, P: Fn() -> bool>(
    state: CaptureModel<T>,
    mixed: Seq<T>,
    loudness: L,
    talking: P,
    amps: Seq<u64>,
    held: Seq<bool>,
    amp_of: spec_fn(Seq<T>) -> u64,
    down: bool,
)
    requires
        are_answers(frames_of(state.left + mixed), loudness, talking, amps, held),
        forall|frame: &Vec<T>, amp: u64| #[trigger]
            call_ensures(loudness, (frame,), amp) ==> amp == amp_of(frame@),
        forall|answer: bool| #[trigger] call_ensures(talking, (), answer) ==> answer == down,
    ensures
        ({
            let after = state.captured(mixed, amp_of, down);
            &&& after.meter == metered(state.meter, amps)
            &&& after.sent == state.sent + talked(frames_of(state.left + mixed), held)
            &&& after.left == rest_of(state.left + mixed)
        }),
{
    let frames = frames_of(state.left + mixed);
    assert forall|k: int| 0 <= k < frames.len() implies amps[k] == amp_of(frames[k]) by {
        assert(is_loudness(loudness, frames[k], amps[k]));
    }
    assert(amps =~= frames.map_values(amp_of));
    assert forall|k: int| 0 <= k < held.len() implies #[trigger] held[k] == down by {
        assert(call_ensures(talking, (), held[k]));
    }
    lemma_all_or_none_talked(frames, held, down);
    if !down {
        assert(state.sent + Seq::<Seq<T>>::empty() =~= state.sent);
    }
}

/// It does not matter in which portions of whole groups a device delivers its interleaved samples:
/// the same frames are metered and sent, and the same samples are left over.
pub proof fn lemma_delivered_portions_do_not_matter<S, T, F: Fn(&[S]) -> T>(
    state: CaptureModel<T>,
    first: Seq<S>,
    second: Seq<S>,
    channels: nat,
    mix: F,
    mixed_first: Seq<T>,
    mixed_second: Seq<T>,
    mixed: Seq<T>,
    loudness: spec_fn(Seq<T>) -> u64,
    talking: bool,
)
    requires
        channels > 0,
        first.len() % channels == 0,
        is_function(mix),
        is_mix(first, channels, mix, mixed_first),
        is_mix(second, channels, mix, mixed_second),
        is_mix(first + second, channels, mix, mixed),
    ensures
        state.captured(mixed_first, loudness, talking).captured(mixed_second, loudness, talking)
            == state.captured(mixed, loudness, talking),
{
    lemma_mix_of_portions(first, second, channels, mix, mixed_first, mixed_second);
    lemma_mix_is_unique(first + second, channels, mix, mixed, mixed_first + mixed_second);
    let early = state.left + mixed_first;
    assert(state.left + mixed == early + mixed_second);
    lemma_portions_do_not_matter(early, mixed_second);
    let frames = frames_of(early);
    let later = frames_of(rest_of(early) + mixed_second);
    lemma_metered_in_portions(
        state.meter,
        frames.map_values(loudness),
        later.map_values(loudness),
    );
    assert((frames + later).map_values(loudness) =~= frames.map_values(loudness)
        + later.map_values(loudness));
    assert((state.sent + frames) + later == state.sent + (frames + later));
}

/// The sample that is played for group number `k`: the next ones in the buffer, then silence.
pub open spec fn played<T>(buffer: Seq<T>, silence: T, k: int) -> T {
    if k < buffer.len() {
        buffer[k]
    } else {
        silence
    }
}

/// What is left of the buffer after `n` samples were played.
pub open spec fn unplayed<T>(buffer: Seq<T>, n: nat) -> Seq<T> {
    if n < buffer.len() {
        buffer.skip(n as int)
    } else {
        Seq::empty()
    }
}

/// The number of the group that the sample number `i` belongs to.
pub open spec fn group_index(i: int, channels: nat) -> int {
    i / channels as int
}

proof fn lemma_group_of(i: int, channels: int, k: int)
    requires
        channels > 0,
        0 <= k,
        k * channels <= i < (k + 1) * channels,
    ensures
        i / channels == k,
{
    assert(i / channels == k) by (nonlinear_arith)
        requires
            channels > 0,
            0 <= k,
            k * channels <= i < (k + 1) * channels,
    ;
}

/// Fills an output buffer of interleaved samples: each group of `channels` gets the next sample of
/// the playback buffer on every channel, and silence once the buffer is empty.
pub fn fill_output<T: Copy, S: Copy, F: Fn(T) -> S>(
    buffer: &mut VecDeque<T>,
    silence: T,
    channels: usize,
    data: &mut [S],
    convert: F,
)
    requires
        channels > 0,
        forall|t: T| call_requires(convert, (t,)),
    ensures
        final(data)@.len() == old(data)@.len(),
        final(buffer)@ == unplayed(
            old(buffer)@,
            group_count(old(data)@.len(), channels as nat),
        ),
        forall|i: int|
            0 <= i < final(data)@.len() ==> call_ensures(
                convert,
                (played(old(buffer)@, silence, group_index(i, channels as nat)),),
                #[trigger] final(data)@[i],
            ),
        forall|i: int, j: int|
            0 <= i < final(data)@.len() && 0 <= j < final(data)@.len() && group_index(
                i,
                channels as nat,
            ) == group_index(j, channels as nat) ==> #[trigger] final(data)@[i]
                == #[trigger] final(data)@[j],
        forall|i: int|
            #![trigger final(data)@[i]]
            0 <= i < final(data)@.len() && i / (channels as int) < old(buffer)@.len()
                ==> call_ensures(
                convert,
                (old(buffer)@[i / (channels as int)],),
                final(data)@[i],
            ),
        forall|i: int|
            #![trigger final(data)@[i]]
            0 <= i < final(data)@.len() && i / (channels as int) >= old(buffer)@.len()
                ==> call_ensures(convert, (silence,), final(data)@[i]),
        ({
            let groups = (old(data)@.len() + channels - 1) / channels as int;
            final(buffer)@ == old(buffer)@.skip(
                if groups < old(buffer)@.len() {
                    groups
                } else {
                    old(buffer)@.len() as int
                },
            )
        }),
{
    let len: usize = data.len();
    let mut pos: usize = 0;
    let ghost mut k: nat = 0;
    let ghost queue = buffer@;
    assert(0 * channels == 0) by (nonlinear_arith);
    while pos < len
        invariant
            channels > 0,
            pos <= len,
            data@.len() == len,
            pos == k * channels || (k > 0 && pos == len && (k - 1) * channels < len <= k
                * channels),
            buffer@ == unplayed(queue, k),
            forall|t: T| call_requires(convert, (t,)),
            forall|i: int|
                0 <= i < pos ==> call_ensures(
                    convert,
                    (played(queue, silence, group_index(i, channels as nat)),),
                    #[trigger] data@[i],
                ),
            forall|i: int| 0 <= i < pos ==> #[trigger] group_index(i, channels as nat) < k,
            forall|i: int, j: int|
                0 <= i < pos && 0 <= j < pos && group_index(i, channels as nat) == group_index(
                    j,
                    channels as nat,
                ) ==> #[trigger] data@[i] == #[trigger] data@[j],
        decreases len - pos,
    {
        let t = match buffer.pop_front() {
            Some(t) => t,
            None => silence,
        };
        let s = convert(t);
        let end: usize = if len - pos > channels {
            pos + channels
        } else {
            len
        };
        let start: usize = pos;
        assert(t == played(queue, silence, k as int));
        assert((k + 1) * channels == k * channels + channels) by (nonlinear_arith);
        while pos < end
            invariant
                start <= pos <= end <= len,
                data@.len() == len,
                channels > 0,
                start == k * channels,
                end <= (k + 1) * channels,
                call_ensures(convert, (t,), s),
                t == played(queue, silence, k as int),
                forall|i: int|
                    0 <= i < start ==> call_ensures(
                        convert,
                        (played(queue, silence, group_index(i, channels as nat)),),
                        #[trigger] data@[i],
                    ),
                forall|i: int| 0 <= i < start ==> #[trigger] group_index(i, channels as nat) < k,
                forall|i: int, j: int|
                    0 <= i < start && 0 <= j < start && group_index(i, channels as nat)
                        == group_index(j, channels as nat) ==> #[trigger] data@[i]
                        == #[trigger] data@[j],
                forall|i: int| start <= i < pos ==> #[trigger] data@[i] == s,
            decreases end - pos,
        {
            data[pos] = s;
            pos = pos + 1;
        }
        proof {
            assert forall|i: int| start <= i < end implies #[trigger] group_index(
                i,
                channels as nat,
            ) == k by {
                lemma_group_of(i, channels as int, k as int);
            }
            k = k + 1;
        }
    }
    proof {
        lemma_group_count(len as nat, channels as nat, k, pos as nat);
        lemma_group_count_rounds_up(len as nat, channels as nat);
        assert(k >= queue.len() ==> buffer@ =~= queue.skip(queue.len() as int));
    }
}

/// Playback takes the queued samples one after the other, however many there are: the sample for
/// group number `k` is the one queued at `k`, silence comes only once the queue is used up, and
/// what was played and what is left are together what was queued.
pub proof fn lemma_queue_is_played_in_order<T>(buffer: Seq<T>, silence: T, n: nat)
    ensures
        forall|k: int|
            0 <= k < buffer.len() ==> #[trigger] played(buffer, silence, k) == buffer[k],
        forall|k: int| buffer.len() <= k ==> #[trigger] played(buffer, silence, k) == silence,
        n <= buffer.len() ==> Seq::new(n, |k: int| played(buffer, silence, k)) + unplayed(buffer, n)
            == buffer,
        n >= buffer.len() ==> unplayed(buffer, n).len() == 0,
{
    if n <= buffer.len() {
        assert(Seq::new(n, |k: int| played(buffer, silence, k)) + unplayed(buffer, n) =~= buffer);
    }
}

/// Playback goes on where it stopped: however the samples are asked for, they come in the order in
/// which they were queued, and silence only after them.
pub proof fn lemma_playback_continues<T>(buffer: Seq<T>, silence: T, n: nat, m: nat, k: int)
    requires
        k >= 0,
    ensures
        unplayed(unplayed(buffer, n), m) == unplayed(buffer, n + m),
        played(unplayed(buffer, n), silence, k) == played(buffer, silence, n + k),
{
    assert(unplayed(unplayed(buffer, n), m) =~= unplayed(buffer, n + m));
}

} // verus!
