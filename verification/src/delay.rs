//! The blocking delay, as a machine that is fed one sample at a time.
//!
//! A delay of `ms` milliseconds on a timer with a tick period of `P`
//! milliseconds waits for `ms / P` ticks. It finds them in one of two ways:
//! by polling the control/status register for the count flag, or by watching
//! the tick counter that the tick handler advances. The caller spins: while the
//! delay is not done it reads the word the delay asks for and hands it over.

use vstd::prelude::*;
use crate::counter::{elapsed_spec, next_tick_spec};
use crate::registers::{count_flag, count_flag_set};

verus! {

/// How a delay learns that a tick has passed.
#[derive(Clone, Copy, Debug, PartialEq, Eq, Structural)]
pub enum DelayStrategy {
    /// Read the control/status register and look at the count flag. Needs no
    /// interrupt, and takes the flag from anybody else who polls it.
    Polling,
    /// Read the tick counter and look for a change. Needs the tick interrupt
    /// to be enabled and its handler to run; without them the delay never
    /// ends.
    InterruptDriven,
}

/// The word a delay wants to be fed next.
#[derive(Clone, Copy, Debug, PartialEq, Eq, Structural)]
pub enum SampleSource {
    /// A fresh read of the control/status register.
    ControlStatus,
    /// The current value of the tick counter.
    TickCounter,
}

/// The number of whole tick periods in `ms` milliseconds.
pub open spec fn ticks_needed_spec(ms: u32, period_ms: u32) -> u32 {
    (ms / period_ms) as u32
}

/// The number of ticks a delay of `ms` milliseconds waits for: `ms / period_ms`,
/// rounded down. A request that is no multiple of the period gives a delay
/// that is shorter than asked for by less than one period.
pub fn ticks_needed(ms: u32, period_ms: u32) -> (ticks: u32)
    requires
        period_ms > 0,
    ensures
        ticks == ticks_needed_spec(ms, period_ms),
        ticks * period_ms <= ms < (ticks + 1) * period_ms,
{
    let ticks: u32 = ms / period_ms;
    proof {
        vstd::arithmetic::div_mod::lemma_fundamental_div_mod(ms as int, period_ms as int);
        vstd::arithmetic::div_mod::lemma_mod_bound(ms as int, period_ms as int);
        assert(ticks * period_ms == period_ms * (ms / period_ms)) by (nonlinear_arith)
            requires
                ticks == ms / period_ms,
        ;
        assert((ticks + 1) * period_ms == ticks * period_ms + period_ms) by (nonlinear_arith);
    }
    ticks
}

/// The quotient fits the counter's word: it is no larger than `ms`.
pub proof fn lemma_ticks_needed_is_quotient(ms: u32, period_ms: u32)
    requires
        period_ms > 0,
    ensures
        ticks_needed_spec(ms, period_ms) == ms / period_ms,
        ticks_needed_spec(ms, period_ms) >= 1 <==> ms >= period_ms,
{
    vstd::arithmetic::div_mod::lemma_div_pos_is_pos(ms as int, period_ms as int);
    vstd::arithmetic::div_mod::lemma_div_nonincreasing(ms as int, period_ms as int);
    if ms >= period_ms {
        vstd::arithmetic::div_mod::lemma_div_is_ordered(
            period_ms as int,
            ms as int,
            period_ms as int,
        );
        vstd::arithmetic::div_mod::lemma_div_basics(period_ms as int);
    } else {
        vstd::arithmetic::div_mod::lemma_basic_div(ms as int, period_ms as int);
    }
}

/// What a delay knows.
#[derive(Clone, Copy, Debug, PartialEq, Eq, Structural)]
pub struct DelayState {
    /// Where the ticks are looked for.
    pub strategy: DelayStrategy,
    /// The number of ticks to wait for.
    pub needed: u32,
    /// The number of ticks seen so far.
    pub observed: u32,
    /// The first counter value that was sampled: the counter as it stood when
    /// the delay began. `None` until then, and always under polling.
    pub origin: Option<u32>,
    /// The counter value that was sampled last. Means something only once
    /// `origin` is there.
    pub last_seen: u32,
}

impl DelayState {
    /// A delay that has seen nothing yet.
    pub open spec fn start(strategy: DelayStrategy, needed: u32) -> DelayState {
        DelayState { strategy, needed, observed: 0, origin: None, last_seen: 0 }
    }

    /// No count is ever beyond what is waited for.
    pub open spec fn valid(self) -> bool {
        self.observed <= self.needed
    }

    /// All ticks have been seen.
    pub open spec fn done(self) -> bool {
        self.observed >= self.needed
    }

    /// The ticks still to come.
    pub open spec fn remaining(self) -> int {
        self.needed - self.observed
    }

    /// The word to be sampled next, if any is.
    pub open spec fn wanted(self) -> Option<SampleSource> {
        if self.done() {
            None
        } else {
            match self.strategy {
                DelayStrategy::Polling => Some(SampleSource::ControlStatus),
                DelayStrategy::InterruptDriven => Some(SampleSource::TickCounter),
            }
        }
    }

    /// Whether a sample shows a tick. Under polling it does when the count
    /// flag stands in it. Under the interrupt-driven strategy the first
    /// sample only marks where the counter stood, and a later one shows a
    /// tick when it differs from the one before.
    pub open spec fn shows_tick(self, sample: u32) -> bool {
        match self.strategy {
            DelayStrategy::Polling => count_flag(sample),
            DelayStrategy::InterruptDriven => self.origin is Some && sample != self.last_seen,
        }
    }

    /// The delay after one more sample. A delay that is done takes no notice.
    pub open spec fn after_sample(self, sample: u32) -> DelayState {
        if self.done() {
            self
        } else {
            let observed = if self.shows_tick(sample) {
                (self.observed + 1) as u32
            } else {
                self.observed
            };
            match self.strategy {
                DelayStrategy::Polling => DelayState { observed, ..self },
                DelayStrategy::InterruptDriven => DelayState {
                    observed,
                    origin: if self.origin is Some {
                        self.origin
                    } else {
                        Some(sample)
                    },
                    last_seen: sample,
                    ..self
                },
            }
        }
    }

    /// The delay after a run of samples, first to last.
    pub open spec fn after_samples(self, samples: Seq<u32>) -> DelayState
        decreases samples.len(),
    {
        if samples.len() == 0 {
            self
        } else {
            self.after_samples(samples.drop_last()).after_sample(samples.last())
        }
    }
}

/// The number of samples in which the count flag stands.
pub open spec fn count_flags(samples: Seq<u32>) -> nat
    decreases samples.len(),
{
    if samples.len() == 0 {
        0
    } else {
        count_flags(samples.drop_last()) + if count_flag(samples.last()) {
            1nat
        } else {
            0nat
        }
    }
}

/// Readings of the tick counter that miss no tick: each is the one before or
/// its successor.
pub open spec fn gapless(samples: Seq<u32>) -> bool {
    forall|i: int|
        0 < i < samples.len() ==> samples[i] == samples[i - 1] || samples[i] == next_tick_spec(
            #[trigger] samples[i - 1],
        )
}

/// A delay in progress.
pub struct Delay {
    state: DelayState,
}

impl View for Delay {
    type V = DelayState;

    closed spec fn view(&self) -> DelayState {
        self.state
    }
}

impl Delay {
    #[verifier::type_invariant]
    spec fn well_formed(self) -> bool {
        self.state.valid()
    }

    /// A delay that waits for `needed` ticks and has seen none.
    pub fn new(strategy: DelayStrategy, needed: u32) -> (delay: Delay)
        ensures
            delay@ == DelayState::start(strategy, needed),
    {
        Delay { state: DelayState { strategy, needed, observed: 0, origin: None, last_seen: 0 } }
    }

    /// A delay of `ms` milliseconds on a timer that ticks every `period_ms`
    /// milliseconds.
    pub fn for_ms(strategy: DelayStrategy, ms: u32, period_ms: u32) -> (delay: Delay)
        requires
            period_ms > 0,
        ensures
            delay@ == DelayState::start(strategy, ticks_needed_spec(ms, period_ms)),
    {
        Delay::new(strategy, ticks_needed(ms, period_ms))
    }

    /// What the delay knows. The count is never beyond what is waited for.
    pub fn state(&self) -> (state: DelayState)
        ensures
            state == self@,
            state.valid(),
    {
        proof {
            use_type_invariant(self);
        }
        self.state
    }

    /// Whether every tick has been seen, so that the caller may go on.
    pub fn is_done(&self) -> (done: bool)
        ensures
            done == self@.done(),
            done == (self@.observed == self@.needed),
    {
        proof {
            use_type_invariant(self);
        }
        self.state.observed >= self.state.needed
    }

    /// The number of ticks still to come.
    pub fn remaining(&self) -> (ticks: u32)
        ensures
            ticks == self@.remaining(),
    {
        proof {
            use_type_invariant(self);
        }
        self.state.needed - self.state.observed
    }

    /// The word to read and hand to `observe`, or `None` when the delay is
    /// done and nothing must be read any more.
    pub fn wants(&self) -> (source: Option<SampleSource>)
        ensures
            source == self@.wanted(),
    {
        if self.is_done() {
            None
        } else {
            match self.state.strategy {
                DelayStrategy::Polling => Some(SampleSource::ControlStatus),
                DelayStrategy::InterruptDriven => Some(SampleSource::TickCounter),
            }
        }
    }

    /// Takes one sample of the word that `wants` names and returns whether the
    /// delay is done after it.
    pub fn observe(&mut self, sample: u32) -> (done: bool)
        ensures
            final(self)@ == old(self)@.after_sample(sample),
            done == final(self)@.done(),
    {
        proof {
            use_type_invariant(&*self);
        }
        let state: DelayState = self.state;
        if state.observed < state.needed {
            let tick: bool = match state.strategy {
                DelayStrategy::Polling => count_flag_set(sample),
                DelayStrategy::InterruptDriven => state.origin.is_some() && sample
                    != state.last_seen,
            };
            let observed: u32 = if tick {
                state.observed + 1
            } else {
                state.observed
            };
            self.state = match state.strategy {
                DelayStrategy::Polling => DelayState {
                    strategy: state.strategy,
                    needed: state.needed,
                    observed,
                    origin: state.origin,
                    last_seen: state.last_seen,
                },
                DelayStrategy::InterruptDriven => DelayState {
                    strategy: state.strategy,
                    needed: state.needed,
                    observed,
                    origin: if state.origin.is_some() {
                        state.origin
                    } else {
                        Some(sample)
                    },
                    last_seen: sample,
                },
            };
        }
        self.state.observed >= self.state.needed
    }

    /// Feeds the delay from a record of samples, first to last, as the
    /// spinning caller would, and stops as soon as the delay is done. Returns
    /// the number of samples that were taken. The samples behind that number
    /// were never looked at: a flag in them has not been used up.
    pub fn run(&mut self, samples: &[u32]) -> (taken: usize)
        ensures
            taken <= samples@.len(),
            final(self)@ == old(self)@.after_samples(samples@.take(taken as int)),
            final(self)@.done() || taken == samples@.len(),
            forall|k: int|
                0 <= k < taken ==> !(#[trigger] old(self)@.after_samples(samples@.take(k))).done(),
    {
        let mut taken: usize = 0;
        while taken < samples.len() && !self.is_done()
            invariant
                taken <= samples@.len(),
                self@ == old(self)@.after_samples(samples@.take(taken as int)),
                forall|k: int|
                    0 <= k < taken ==> !(#[trigger] old(self)@.after_samples(
                        samples@.take(k),
                    )).done(),
            decreases samples@.len() - taken,
        {
            proof {
                assert(samples@.take(taken + 1).drop_last() =~= samples@.take(taken as int));
            }
            self.observe(samples[taken]);
            taken = taken + 1;
        }
        taken
    }
}

/// A delay never counts past what it waits for, and once it is done no
/// sample changes it.
pub proof fn lemma_after_samples_valid(state: DelayState, samples: Seq<u32>)
    requires
        state.valid(),
    ensures
        state.after_samples(samples).valid(),
        state.after_samples(samples).strategy == state.strategy,
        state.after_samples(samples).needed == state.needed,
        state.after_samples(samples).observed >= state.observed,
        state.done() ==> state.after_samples(samples) == state,
    decreases samples.len(),
{
    if samples.len() > 0 {
        lemma_after_samples_valid(state, samples.drop_last());
    }
}

/// A polling delay counts count flags and nothing else: after any run of
/// control/status words it has seen as many ticks as words carried the flag,
/// up to the number it waits for. So it is done exactly when that many
/// flagged words have come, however many unflagged ones lie between them.
pub proof fn lemma_polling_counts_flags(needed: u32, samples: Seq<u32>)
    ensures
        DelayState::start(DelayStrategy::Polling, needed).after_samples(samples).observed == if count_flags(
            samples,
        ) <= needed {
            count_flags(samples)
        } else {
            needed as nat
        },
        DelayState::start(DelayStrategy::Polling, needed).after_samples(samples).done() <==> count_flags(
            samples,
        ) >= needed,
    decreases samples.len(),
{
    let start = DelayState::start(DelayStrategy::Polling, needed);
    if samples.len() > 0 {
        lemma_polling_counts_flags(needed, samples.drop_last());
        lemma_after_samples_valid(start, samples.drop_last());
    }
}

/// A polling delay of `ms` milliseconds with a tick period of `period_ms`
/// returns after exactly `ms / period_ms` observed wraps: if the caller stops
/// feeding it at the first moment it is done, the words fed until then
/// carried that many count flags, no more and no fewer.
pub proof fn lemma_polling_delay_observes_exact_wraps(
    ms: u32,
    period_ms: u32,
    samples: Seq<u32>,
    taken: int,
)
    requires
        period_ms > 0,
        0 <= taken <= samples.len(),
        DelayState::start(DelayStrategy::Polling, ticks_needed_spec(ms, period_ms)).after_samples(
            samples.take(taken),
        ).done(),
        forall|k: int|
            0 <= k < taken ==> !(#[trigger] DelayState::start(
                DelayStrategy::Polling,
                ticks_needed_spec(ms, period_ms),
            ).after_samples(samples.take(k))).done(),
    ensures
        count_flags(samples.take(taken)) == ms / period_ms,
        taken > 0 ==> count_flag(samples[taken - 1]),
{
    let needed = ticks_needed_spec(ms, period_ms);
    let start = DelayState::start(DelayStrategy::Polling, needed);
    lemma_ticks_needed_is_quotient(ms, period_ms);
    lemma_polling_counts_flags(needed, samples.take(taken));
    if taken > 0 {
        let before = samples.take(taken - 1);
        assert(samples.take(taken).drop_last() =~= before);
        lemma_polling_counts_flags(needed, before);
        assert(!start.after_samples(before).done());
    }
}

/// What an interrupt-driven delay has counted is how far the counter has come
/// since the delay began, as long as the readings miss no tick: the distance
/// from the first reading to the last one looked at, taken around the end of
/// the counter's range, is the number of ticks seen.
pub proof fn lemma_counting_tracks_counter(needed: u32, samples: Seq<u32>)
    requires
        gapless(samples),
        samples.len() > 0,
        needed > 0,
    ensures
        DelayState::start(DelayStrategy::InterruptDriven, needed).after_samples(samples).origin
            == Some(samples[0]),
        DelayState::start(DelayStrategy::InterruptDriven, needed).after_samples(samples).observed
            == elapsed_spec(
            samples[0],
            DelayState::start(DelayStrategy::InterruptDriven, needed).after_samples(
                samples,
            ).last_seen,
        ),
        !DelayState::start(DelayStrategy::InterruptDriven, needed).after_samples(samples).done()
            ==> DelayState::start(DelayStrategy::InterruptDriven, needed).after_samples(
            samples,
        ).last_seen == samples.last(),
    decreases samples.len(),
{
    let start = DelayState::start(DelayStrategy::InterruptDriven, needed);
    let before = samples.drop_last();
    if samples.len() == 1 {
        assert(before.len() == 0);
        assert(start.after_samples(before) == start);
        assert(start.after_samples(samples) == start.after_sample(samples.last()));
    } else {
        assert(gapless(before)) by {
            assert forall|i: int| 0 < i < before.len() implies before[i] == before[i - 1]
                || before[i] == next_tick_spec(#[trigger] before[i - 1]) by {
                assert(before[i] == samples[i]);
                assert(before[i - 1] == samples[i - 1]);
            }
        }
        lemma_counting_tracks_counter(needed, before);
        lemma_after_samples_valid(start, before);
        let prior = start.after_samples(before);
        let sample = samples.last();
        assert(before[0] == samples[0]);
        if !prior.done() {
            assert(prior.last_seen == before.last());
            assert(before.last() == samples[samples.len() - 2]);
            assert(sample == prior.last_seen || sample == next_tick_spec(prior.last_seen));
            if sample != prior.last_seen {
                lemma_elapsed_steps(samples[0], prior.last_seen);
            }
        }
    }
}

/// One tick more on the counter is one more in the distance, until the
/// distance starts again at zero.
proof fn lemma_elapsed_steps(start: u32, now: u32)
    ensures
        elapsed_spec(start, next_tick_spec(now)) == if elapsed_spec(start, now) == u32::MAX {
            0
        } else {
            elapsed_spec(start, now) + 1
        },
        next_tick_spec(now) != now,
{
}

/// An interrupt-driven delay of `ms` milliseconds with a tick period of
/// `period_ms` returns only when the counter has come exactly `ms / period_ms`
/// ticks from where it stood when the delay began. This holds of readings
/// that miss no tick; a reader that lets two ticks pass between two readings
/// counts them as one.
pub proof fn lemma_interrupt_delay_waits_exact_ticks(
    ms: u32,
    period_ms: u32,
    samples: Seq<u32>,
    taken: int,
)
    requires
        period_ms > 0,
        gapless(samples),
        0 <= taken <= samples.len(),
        DelayState::start(
            DelayStrategy::InterruptDriven,
            ticks_needed_spec(ms, period_ms),
        ).after_samples(samples.take(taken)).done(),
        forall|k: int|
            0 <= k < taken ==> !(#[trigger] DelayState::start(
                DelayStrategy::InterruptDriven,
                ticks_needed_spec(ms, period_ms),
            ).after_samples(samples.take(k))).done(),
    ensures
        ms < period_ms ==> taken == 0,
        ms >= period_ms ==> taken >= 2 && elapsed_spec(samples[0], samples[taken - 1]) == ms
            / period_ms,
        forall|k: int|
            1 <= k < taken ==> elapsed_spec(samples[0], #[trigger] samples[k - 1]) < ms
                / period_ms,
{
    let needed = ticks_needed_spec(ms, period_ms);
    let start = DelayState::start(DelayStrategy::InterruptDriven, needed);
    lemma_ticks_needed_is_quotient(ms, period_ms);
    assert(samples.take(0) =~= Seq::<u32>::empty());
    assert(start.after_samples(samples.take(0)) == start);
    if ms < period_ms {
        assert(start.done());
    } else {
        assert(!start.done());
        assert(taken >= 1);
        assert forall|k: int| 1 <= k <= taken implies gapless(#[trigger] samples.take(k)) by {
            let part = samples.take(k);
            assert forall|i: int| 0 < i < part.len() implies part[i] == part[i - 1] || part[i]
                == next_tick_spec(#[trigger] part[i - 1]) by {
                assert(part[i] == samples[i]);
                assert(part[i - 1] == samples[i - 1]);
            }
        }
        assert forall|k: int| 1 <= k < taken implies elapsed_spec(
            samples[0],
            #[trigger] samples[k - 1],
        ) < ms / period_ms by {
            let part = samples.take(k);
            lemma_counting_tracks_counter(needed, part);
            lemma_after_samples_valid(start, part);
            assert(!start.after_samples(part).done());
            assert(part.last() == samples[k - 1]);
            assert(part[0] == samples[0]);
        }
        let all = samples.take(taken);
        let before = samples.take(taken - 1);
        assert(all.drop_last() =~= before);
        assert(!start.after_samples(before).done());
        assert(start.after_samples(all) == start.after_samples(before).after_sample(all.last()));
        lemma_counting_tracks_counter(needed, all);
        lemma_after_samples_valid(start, before);
        assert(all[0] == samples[0]);
        assert(all.last() == samples[taken - 1]);
        assert(start.after_samples(all).last_seen == all.last());
        if taken == 1 {
            assert(before =~= Seq::<u32>::empty());
            assert(start.after_samples(before) == start);
        }
    }
}

} // verus!
