//! The playback queue: when to wait, when to play, and when to fade.
//!
//! Samples stand in the queue as the bit patterns of the values that the
//! sound device takes; the mixing of a fade is left to the caller.

use std::collections::VecDeque;
use vstd::prelude::*;

verus! {

/// What the caller plays next.
#[derive(Debug, Clone, Copy, PartialEq, Eq, Structural)]
pub enum JitterStep {
    /// The last sample, weakened: `position` of the fade's length has passed.
    FadeOut { position: usize },
    Silence,
    /// A mix of the last sample and a new one, of which `position` of the fade's
    /// length has passed; the mix becomes the last sample.
    FadeIn { position: usize, sample: u32 },
    /// A new sample, which becomes the last one.
    Play { sample: u32 },
    /// The last sample as it was.
    Hold,
}

/// The state of the queue's management.
pub struct AdaptiveJitterBuffer {
    /// How many samples must wait before playing starts.
    pub min_buffer_samples: usize,
    /// How many samples may wait; older ones are dropped.
    pub max_buffer_samples: usize,
    /// Whether samples are being gathered and none is played.
    pub buffering: bool,
    /// The length of a fade, in samples.
    pub crossfade_len: usize,
    /// How far the current fade has come.
    pub fade_position: usize,
    /// Whether the current fade leads into playing.
    pub fading_in: bool,
}

/// How many samples a time span holds.
pub open spec fn samples_in(rate: u32, millis: u32) -> nat {
    (rate as nat * millis as nat) / 1000
}

fn count_samples(rate: u32, millis: u32) -> (r: usize)
    requires
        millis <= 1000,
    ensures
        r == samples_in(rate, millis),
{
    assert(rate * millis <= 0xffff_ffff * 1000) by (nonlinear_arith)
        requires
            rate <= 0xffff_ffff,
            millis <= 1000,
    ;
    let total: u64 = rate as u64 * millis as u64;
    (total / 1000) as usize
}

/// The state and the queue after the next step, and the step.
pub open spec fn step_of(b: AdaptiveJitterBuffer, queue: Seq<u32>) -> (
    AdaptiveJitterBuffer,
    Seq<u32>,
    JitterStep,
) {
    if b.buffering && queue.len() < b.min_buffer_samples {
        if b.fade_position < b.crossfade_len {
            (
                AdaptiveJitterBuffer { fade_position: (b.fade_position + 1) as usize, ..b },
                queue,
                JitterStep::FadeOut { position: b.fade_position },
            )
        } else {
            (b, queue, JitterStep::Silence)
        }
    } else {
        let started = if b.buffering {
            AdaptiveJitterBuffer { buffering: false, fade_position: 0, fading_in: true, ..b }
        } else {
            b
        };
        let kept = if queue.len() > b.max_buffer_samples {
            queue.skip(queue.len() - b.max_buffer_samples)
        } else {
            queue
        };
        if kept.len() == 0 {
            (
                AdaptiveJitterBuffer { buffering: true, fade_position: 0, ..started },
                kept,
                JitterStep::Hold,
            )
        } else if started.fading_in && started.fade_position < started.crossfade_len {
            (
                AdaptiveJitterBuffer {
                    fade_position: (started.fade_position + 1) as usize,
                    ..started
                },
                kept.skip(1),
                JitterStep::FadeIn { position: started.fade_position, sample: kept[0] },
            )
        } else {
            (
                AdaptiveJitterBuffer { fading_in: false, ..started },
                kept.skip(1),
                JitterStep::Play { sample: kept[0] },
            )
        }
    }
}

impl AdaptiveJitterBuffer {
    /// A queue for the given output rate that waits for 40 ms of sound and holds
    /// at most 200 ms, with fades of 5 ms.
    pub fn new(output_sample_rate: u32) -> (r: Self)
        ensures
            r == AdaptiveJitterBuffer::fresh(output_sample_rate, 40, 200),
    {
        Self::with_depths(output_sample_rate, 40, 200)
    }

    /// The state at the start, for the given depths in milliseconds.
    pub open spec fn fresh(rate: u32, min_ms: u32, max_ms: u32) -> AdaptiveJitterBuffer {
        AdaptiveJitterBuffer {
            min_buffer_samples: samples_in(rate, min_ms) as usize,
            max_buffer_samples: samples_in(rate, max_ms) as usize,
            buffering: true,
            crossfade_len: if samples_in(rate, 5) == 0 {
                1
            } else {
                samples_in(rate, 5) as usize
            },
            fade_position: 0,
            fading_in: false,
        }
    }

    /// A queue that waits for `min_ms` of sound and holds at most `max_ms`.
    pub fn with_depths(output_sample_rate: u32, min_ms: u32, max_ms: u32) -> (r: Self)
        requires
            min_ms <= 1000,
            max_ms <= 1000,
        ensures
            r == AdaptiveJitterBuffer::fresh(output_sample_rate, min_ms, max_ms),
    {
        let min_buf: usize = count_samples(output_sample_rate, min_ms);
        let max_buf: usize = count_samples(output_sample_rate, max_ms);
        let crossfade: usize = count_samples(output_sample_rate, 5);
        AdaptiveJitterBuffer {
            min_buffer_samples: min_buf,
            max_buffer_samples: max_buf,
            buffering: true,
            crossfade_len: if crossfade == 0 {
                1
            } else {
                crossfade
            },
            fade_position: 0,
            fading_in: false,
        }
    }

    /// Takes the next step: decides what to play and takes it from the queue.
    pub fn next_sample(&mut self, queue: &mut VecDeque<u32>) -> (r: JitterStep)
        ensures
            (*final(self), final(queue)@, r) == step_of(*old(self), old(queue)@),
    {
        let q_len: usize = queue.len();
        if self.buffering {
            if q_len >= self.min_buffer_samples {
                self.buffering = false;
                self.fade_position = 0;
                self.fading_in = true;
            } else {
                if self.fade_position < self.crossfade_len {
                    let position: usize = self.fade_position;
                    self.fade_position = self.fade_position + 1;
                    return JitterStep::FadeOut { position };
                }
                return JitterStep::Silence;
            }
        }
        let ghost all = queue@;
        assert(all.skip(0) =~= all);
        let max: usize = self.max_buffer_samples;
        while queue.len() > max
            invariant
                queue@.len() <= all.len(),
                queue@ == all.skip(all.len() - queue@.len()),
                all.len() > max ==> queue@.len() >= max,
                all.len() <= max ==> queue@ == all,
            decreases queue@.len(),
        {
            let ghost before = queue@;
            let _ = queue.pop_front();
            assert(before.skip(1) =~= all.skip(all.len() - queue@.len()));
        }
        match queue.pop_front() {
            Some(sample) => {
                if self.fading_in && self.fade_position < self.crossfade_len {
                    let position: usize = self.fade_position;
                    self.fade_position = self.fade_position + 1;
                    JitterStep::FadeIn { position, sample }
                } else {
                    self.fading_in = false;
                    JitterStep::Play { sample }
                }
            },
            None => {
                self.buffering = true;
                self.fade_position = 0;
                JitterStep::Hold
            },
        }
    }
}

/// Waiting sound never grows beyond the limit by being played, no step plays
/// more than one sample, and those that stay are the newest, in their order.
pub proof fn law_queue_keeps_newest(b: AdaptiveJitterBuffer, queue: Seq<u32>)
    ensures
        ({
            let (after, rest, step) = step_of(b, queue);
            &&& !after.buffering ==> rest.len() <= b.max_buffer_samples
            &&& rest.len() <= queue.len()
            &&& rest == queue.skip(queue.len() - rest.len())
            &&& step matches JitterStep::Play { sample } ==> rest.len() < queue.len() && sample
                == queue[queue.len() - rest.len() - 1]
            &&& step matches JitterStep::FadeIn { sample, .. } ==> rest.len() < queue.len()
                && sample == queue[queue.len() - rest.len() - 1]
        }),
{
    let (after, rest, step) = step_of(b, queue);
    assert(rest =~= queue.skip(queue.len() - rest.len()));
}

/// Nothing is taken from the queue until enough has gathered.
pub proof fn law_buffering_waits(b: AdaptiveJitterBuffer, queue: Seq<u32>)
    requires
        b.buffering,
        queue.len() < b.min_buffer_samples,
    ensures
        step_of(b, queue).1 == queue,
        step_of(b, queue).0.buffering,
        !(step_of(b, queue).2 is Play),
        !(step_of(b, queue).2 is FadeIn),
{
}

/// Once enough has gathered, sound comes: the first sample of it fades in from nothing,
/// and what comes is the oldest that is kept.
pub proof fn law_gathered_sound_begins(b: AdaptiveJitterBuffer, queue: Seq<u32>)
    requires
        b.buffering,
        b.min_buffer_samples <= queue.len() <= b.max_buffer_samples,
        queue.len() > 0,
        b.crossfade_len > 0,
    ensures
        step_of(b, queue).2 == (JitterStep::FadeIn { position: 0, sample: queue[0] }),
        step_of(b, queue).1 == queue.skip(1),
        !step_of(b, queue).0.buffering,
{
}

/// While sound comes, a queue that is not too long hands out its oldest sample at each
/// step, and plays it as it is once it has faded in; an empty one holds the last, and
/// sound has to gather again.
pub proof fn law_sound_comes_in_order(b: AdaptiveJitterBuffer, queue: Seq<u32>)
    requires
        !b.buffering,
        queue.len() <= b.max_buffer_samples,
    ensures
        queue.len() > 0 ==> {
            let (after, rest, step) = step_of(b, queue);
            &&& rest == queue.skip(1)
            &&& !after.buffering
            &&& !b.fading_in || b.fade_position >= b.crossfade_len ==> step == (JitterStep::Play {
                sample: queue[0],
            }) && !after.fading_in
            &&& b.fading_in && b.fade_position < b.crossfade_len ==> step == (JitterStep::FadeIn {
                position: b.fade_position,
                sample: queue[0],
            }) && after.fading_in && after.fade_position == b.fade_position + 1
        },
        queue.len() == 0 ==> step_of(b, queue).2 == JitterStep::Hold && step_of(b, queue).0.buffering
            && step_of(b, queue).0.fade_position == 0,
{
}

/// While sound gathers, the last one fades out over as many steps as it takes to fade in,
/// and then there is silence.
pub proof fn law_held_sound_fades_out(b: AdaptiveJitterBuffer, queue: Seq<u32>)
    requires
        b.buffering,
        queue.len() < b.min_buffer_samples,
    ensures
        b.fade_position < b.crossfade_len ==> step_of(b, queue).2 == (JitterStep::FadeOut {
            position: b.fade_position,
        }) && step_of(b, queue).0.fade_position == b.fade_position + 1,
        b.fade_position >= b.crossfade_len ==> step_of(b, queue).2 == JitterStep::Silence
            && step_of(b, queue).0 == b,
{
}

/// A fresh buffer gathers for the least time, keeps no more than the greatest, and fades
/// over five milliseconds, at the rate that it is made for.
#[verifier::rlimit(40)]
#[verifier::spinoff_prover]
pub proof fn law_fresh_buffer_counts_milliseconds(rate: u32, min_ms: u32, max_ms: u32)
    requires
        rate % 1000 == 0,
        1000 <= rate <= 1_000_000,
        min_ms <= 1000,
        max_ms <= 1000,
    ensures
        ({
            let b = AdaptiveJitterBuffer::fresh(rate, min_ms, max_ms);
            &&& b.buffering && !b.fading_in && b.fade_position == 0
            &&& b.min_buffer_samples == rate / 1000 * min_ms
            &&& b.max_buffer_samples == rate / 1000 * max_ms
            &&& b.crossfade_len == rate / 1000 * 5
        }),
{
    let k = (rate / 1000) as int;
    assert(rate == k * 1000);
    assert((k * 1000 * min_ms) / 1000 == k * min_ms && 0 <= k * min_ms <= 1_000_000)
        by (nonlinear_arith)
        requires
            0 <= k <= 1000,
            0 <= min_ms <= 1000,
    ;
    assert((k * 1000 * max_ms) / 1000 == k * max_ms && 0 <= k * max_ms <= 1_000_000)
        by (nonlinear_arith)
        requires
            0 <= k <= 1000,
            0 <= max_ms <= 1000,
    ;
    assert((k * 1000 * 5) / 1000 == k * 5) by (nonlinear_arith);
}

} // verus!
