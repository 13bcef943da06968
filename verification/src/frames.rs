//! Interleaved samples: frames of one sample per channel, one after the other.

use vstd::arithmetic::div_mod::{
    lemma_div_pos_is_pos, lemma_fundamental_div_mod, lemma_fundamental_div_mod_converse,
};
use vstd::prelude::*;

verus! {

/// The samples of one channel: every `channels`-th one, of the whole frames.
pub open spec fn lane<T>(samples: Seq<T>, channels: int, channel: int) -> Seq<T> {
    Seq::new((samples.len() as int / channels) as nat, |k: int| samples[k * channels + channel])
}

/// The samples with those of one channel replaced. What follows the last whole
/// frame stays.
pub open spec fn with_lane<T>(
    samples: Seq<T>,
    channels: int,
    channel: int,
    values: Seq<T>,
) -> Seq<T> {
    replaced(samples, channels, channel, values, samples.len() as int / channels)
}

/// As `with_lane`, for the first `frames` frames only.
pub open spec fn replaced<T>(
    samples: Seq<T>,
    channels: int,
    channel: int,
    values: Seq<T>,
    frames: int,
) -> Seq<T> {
    Seq::new(
        samples.len(),
        |i: int|
            if i / channels < frames && i % channels == channel {
                values[i / channels]
            } else {
                samples[i]
            },
    )
}

/// Where the sample of a frame stands.
proof fn lemma_slot(len: int, channels: int, frame: int, channel: int)
    requires
        0 <= channel < channels,
        0 <= frame < len / channels,
    ensures
        0 <= frame * channels <= frame * channels + channel < len,
        (frame * channels + channel) / channels == frame,
        (frame * channels + channel) % channels == channel,
{
    lemma_fundamental_div_mod(len, channels);
    lemma_fundamental_div_mod_converse(frame * channels + channel, channels, frame, channel);
    assert(0 <= frame * channels && frame * channels + channels <= channels * (len / channels))
        by (nonlinear_arith)
        requires
            0 <= frame < len / channels,
            0 < channels,
    ;
}

/// The slot is the only one of its frame and channel.
proof fn lemma_slot_unique(i: int, channels: int)
    requires
        0 < channels,
    ensures
        i == (i / channels) * channels + i % channels,
{
    lemma_fundamental_div_mod(i, channels);
    assert(channels * (i / channels) == (i / channels) * channels) by (nonlinear_arith);
}

/// The samples of one channel.
pub fn take_lane<T: Copy>(samples: &[T], channels: usize, channel: usize) -> (values: Vec<T>)
    requires
        channel < channels,
    ensures
        values@ == lane(samples@, channels as int, channel as int),
{
    let n: usize = samples.len();
    let frames: usize = n / channels;
    let mut values: Vec<T> = Vec::new();
    let mut k: usize = 0;
    while k < frames
        invariant
            channel < channels,
            n == samples@.len(),
            k <= frames == samples@.len() as int / channels as int,
            values@ == lane(samples@, channels as int, channel as int).take(k as int),
        decreases frames - k,
    {
        proof {
            lemma_slot(samples@.len() as int, channels as int, k as int, channel as int);
        }
        let at: usize = k * channels + channel;
        values.push(samples[at]);
        assert(lane(samples@, channels as int, channel as int).take(k + 1) =~= lane(
            samples@,
            channels as int,
            channel as int,
        ).take(k as int).push(samples@[at as int]));
        k = k + 1;
    }
    assert(values@ =~= lane(samples@, channels as int, channel as int));
    values
}

/// Replaces the samples of one channel.
pub fn put_lane<T: Copy>(samples: &mut Vec<T>, channels: usize, channel: usize, values: &Vec<T>)
    requires
        channel < channels,
        values@.len() == old(samples)@.len() as int / channels as int,
    ensures
        final(samples)@ == with_lane(old(samples)@, channels as int, channel as int, values@),
{
    let ghost before = samples@;
    let n: usize = samples.len();
    let frames: usize = values.len();
    let mut k: usize = 0;
    proof {
        let start = replaced(before, channels as int, channel as int, values@, 0);
        assert forall|i: int| 0 <= i < before.len() implies #[trigger] start[i] == before[i] by {
            lemma_div_pos_is_pos(i, channels as int);
        }
        assert(samples@ =~= start);
    }
    while k < frames
        invariant
            channel < channels,
            n == before.len(),
            k <= frames == values@.len() == before.len() as int / channels as int,
            samples@ == replaced(before, channels as int, channel as int, values@, k as int),
        decreases frames - k,
    {
        proof {
            lemma_slot(before.len() as int, channels as int, k as int, channel as int);
        }
        let at: usize = k * channels + channel;
        let ghost earlier = samples@;
        samples.set(at, values[k]);
        proof {
            let after = replaced(before, channels as int, channel as int, values@, k + 1);
            assert forall|i: int| 0 <= i < before.len() implies #[trigger] samples@[i]
                == after[i] by {
                if i / channels as int == k && i % channels as int == channel {
                    lemma_slot_unique(i, channels as int);
                }
                if i != at {
                    assert(samples@[i] == earlier[i]);
                }
            }
            assert(samples@ =~= after);
        }
        k = k + 1;
    }
}

/// What was put into a channel is what is taken from it, and the other channels
/// keep theirs.
pub proof fn law_put_then_take<T>(
    samples: Seq<T>,
    channels: int,
    channel: int,
    other: int,
    values: Seq<T>,
)
    requires
        0 <= channel < channels,
        0 <= other < channels,
        values.len() == samples.len() as int / channels,
    ensures
        lane(with_lane(samples, channels, channel, values), channels, other) == (if other
            == channel {
            values
        } else {
            lane(samples, channels, other)
        }),
{
    let put = with_lane(samples, channels, channel, values);
    let got = lane(put, channels, other);
    let expected = if other == channel {
        values
    } else {
        lane(samples, channels, other)
    };
    lemma_div_pos_is_pos(samples.len() as int, channels);
    assert forall|k: int| 0 <= k < got.len() implies #[trigger] got[k] == expected[k] by {
        lemma_slot(samples.len() as int, channels, k, other);
        assert(put[k * channels + other] == (if other == channel {
            values[k]
        } else {
            samples[k * channels + other]
        }));
    }
    assert(got =~= expected);
}

/// Putting back what was taken changes nothing.
pub proof fn law_take_then_put<T>(samples: Seq<T>, channels: int, channel: int)
    requires
        0 <= channel < channels,
    ensures
        with_lane(samples, channels, channel, lane(samples, channels, channel)) == samples,
{
    let taken = lane(samples, channels, channel);
    let put = with_lane(samples, channels, channel, taken);
    assert forall|i: int| 0 <= i < samples.len() implies #[trigger] put[i] == samples[i] by {
        lemma_slot_unique(i, channels);
        lemma_div_pos_is_pos(i, channels);
        if i / channels < samples.len() as int / channels && i % channels == channel {
            assert(taken[i / channels] == samples[(i / channels) * channels + channel]);
        }
    }
    assert(put =~= samples);
}

/// The samples of a channel, one by one: that of frame `k` stands `k` frames and
/// as many samples as the channel's number from the start. There are as many as
/// whole frames.
pub proof fn law_lane<T>(samples: Seq<T>, channels: int, channel: int, k: int)
    requires
        0 <= channel < channels,
        0 <= k < samples.len() as int / channels,
    ensures
        lane(samples, channels, channel).len() == samples.len() as int / channels,
        lane(samples, channels, channel)[k] == samples[k * channels + channel],
{
}

/// Replacing a channel changes its samples in the whole frames and no others.
pub proof fn law_replaced_samples<T>(
    samples: Seq<T>,
    channels: int,
    channel: int,
    values: Seq<T>,
    i: int,
)
    requires
        0 <= channel < channels,
        0 <= i < samples.len(),
    ensures
        with_lane(samples, channels, channel, values).len() == samples.len(),
        i / channels < samples.len() as int / channels && i % channels == channel ==> with_lane(
            samples,
            channels,
            channel,
            values,
        )[i] == values[i / channels],
        i / channels >= samples.len() as int / channels || i % channels != channel ==> with_lane(
            samples,
            channels,
            channel,
            values,
        )[i] == samples[i],
{
}

} // verus!
