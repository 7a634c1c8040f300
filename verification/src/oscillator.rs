//! The phase accumulator: an integer position that advances by a fixed step
//! per output frame and wraps at the end of each cycle.

use vstd::prelude::*;
use crate::phase::Phase;

verus! {

/// Why an oscillator could not be configured.
#[derive(Clone, Copy, Debug, PartialEq, Eq, Structural)]
pub enum OscillatorError {
    /// A cycle must be divided into at least one tick.
    ZeroBound,
    /// The sample rate must be positive.
    ZeroSampleRate,
    /// The step per frame must be smaller than the number of ticks per cycle.
    StepTooLarge,
}

/// The state of an oscillator as mathematics sees it.
pub struct Cycle {
    /// The current position, in ticks.
    pub phase: nat,
    /// How many ticks the position advances per frame.
    pub step: nat,
    /// How many ticks make one cycle.
    pub bound: nat,
}

impl Cycle {
    /// The position lies within the cycle, and one step never covers a
    /// whole cycle.
    pub open spec fn wf(self) -> bool {
        &&& self.bound > 0
        &&& self.phase < self.bound
        &&& self.step < self.bound
    }

    /// The state `count` frames later.
    pub open spec fn after_steps(self, count: nat) -> Cycle {
        Cycle {
            phase: (self.phase + count * self.step) % self.bound,
            step: self.step,
            bound: self.bound,
        }
    }
}

/// The step, in ticks per frame, of a tone of `frequency` Hz played at
/// `sample_rate` frames per second through a cycle of `bound` ticks, with the
/// step of the base tone taken `multiplier` times.
pub open spec fn frequency_step(
    bound: nat,
    frequency: nat,
    sample_rate: nat,
    multiplier: nat,
) -> nat {
    ((bound * frequency) / sample_rate) * multiplier
}

/// An oscillator with an integer phase.
///
/// The phase is a number of ticks in `[0, bound)`. Each step adds a fixed
/// increment smaller than `bound` and, where the sum reaches `bound`,
/// subtracts `bound` once.
#[derive(Clone, Copy, Debug)]
pub struct PhaseAccumulator {
    phase: u64,
    step: u64,
    bound: u64,
}

impl View for PhaseAccumulator {
    type V = Cycle;

    closed spec fn view(&self) -> Cycle {
        Cycle { phase: self.phase as nat, step: self.step as nat, bound: self.bound as nat }
    }
}

impl PhaseAccumulator {
    /// What holds of every oscillator: its position lies within the cycle,
    /// and so does its step.
    #[verifier::type_invariant]
    pub open spec fn wf(self) -> bool {
        self@.wf()
    }

    /// An oscillator at phase zero that advances `step` ticks per frame
    /// through a cycle of `bound` ticks.
    pub fn new(bound: u64, step: u64) -> (made: Result<PhaseAccumulator, OscillatorError>)
        ensures
            bound == 0 ==> made == Err::<PhaseAccumulator, _>(OscillatorError::ZeroBound),
            bound > 0 && step >= bound ==> made == Err::<PhaseAccumulator, _>(
                OscillatorError::StepTooLarge,
            ),
            0 <= step < bound ==> made is Ok,
            made matches Ok(osc) ==> osc@ == (Cycle {
                phase: 0,
                step: step as nat,
                bound: bound as nat,
            }) && osc@.wf(),
    {
        if bound == 0 {
            Err(OscillatorError::ZeroBound)
        } else if step >= bound {
            Err(OscillatorError::StepTooLarge)
        } else {
            Ok(PhaseAccumulator { phase: 0, step, bound })
        }
    }

    /// An oscillator at phase zero for a tone of `frequency` Hz at
    /// `sample_rate` frames per second, whose step is `multiplier` times
    /// that of the base tone.
    pub fn from_frequency(
        bound: u64,
        frequency: u32,
        sample_rate: u32,
        multiplier: u32,
    ) -> (made: Result<PhaseAccumulator, OscillatorError>)
        ensures
            bound == 0 ==> made == Err::<PhaseAccumulator, _>(OscillatorError::ZeroBound),
            bound > 0 && sample_rate == 0 ==> made == Err::<PhaseAccumulator, _>(
                OscillatorError::ZeroSampleRate,
            ),
            bound > 0 && sample_rate > 0 && frequency_step(
                bound as nat,
                frequency as nat,
                sample_rate as nat,
                multiplier as nat,
            ) >= bound ==> made == Err::<PhaseAccumulator, _>(OscillatorError::StepTooLarge),
            bound > 0 && sample_rate > 0 && frequency_step(
                bound as nat,
                frequency as nat,
                sample_rate as nat,
                multiplier as nat,
            ) < bound ==> made is Ok,
            made matches Ok(osc) ==> osc@ == (Cycle {
                phase: 0,
                step: frequency_step(
                    bound as nat,
                    frequency as nat,
                    sample_rate as nat,
                    multiplier as nat,
                ),
                bound: bound as nat,
            }) && osc@.wf(),
    {
        if bound == 0 {
            return Err(OscillatorError::ZeroBound);
        }
        if sample_rate == 0 {
            return Err(OscillatorError::ZeroSampleRate);
        }
        proof {
            lemma_step_fits(bound, frequency, sample_rate, multiplier);
        }
        let base: u128 = ((bound as u128) * (frequency as u128)) / (sample_rate as u128);
        let step: u128 = base * (multiplier as u128);
        if step >= bound as u128 {
            Err(OscillatorError::StepTooLarge)
        } else {
            Ok(PhaseAccumulator { phase: 0, step: step as u64, bound })
        }
    }

    /// The current position, in ticks.
    pub fn phase(&self) -> (phase: u64)
        ensures
            phase == self@.phase,
    {
        self.phase
    }

    /// How many ticks the position advances per frame.
    pub fn increment(&self) -> (step: u64)
        ensures
            step == self@.step,
    {
        self.step
    }

    /// How many ticks make one cycle.
    pub fn bound(&self) -> (bound: u64)
        ensures
            bound == self@.bound,
            bound > 0,
    {
        proof {
            use_type_invariant(self);
        }
        self.bound
    }

    /// The current position as a fraction of a cycle.
    pub fn normalized(&self) -> (position: Phase)
        ensures
            position.spec_ticks() == self@.phase,
            position.spec_per_cycle() == self@.bound,
            position.is_normalized(),
    {
        proof {
            use_type_invariant(self);
        }
        Phase::within(self.phase, self.bound)
    }

    /// Advances the oscillator by one frame and returns the new position,
    /// in ticks.
    pub fn step(&mut self) -> (phase: u64)
        ensures
            final(self)@ == old(self)@.after_steps(1),
            final(self)@.wf(),
            phase == final(self)@.phase,
    {
        proof {
            use_type_invariant(&*self);
        }
        let room: u64 = self.bound - self.step;
        let next: u64 = if self.phase >= room {
            self.phase - room
        } else {
            self.phase + self.step
        };
        proof {
            lemma_wrap_once(self.phase as int, self.step as int, self.bound as int);
        }
        self.phase = next;
        next
    }
}

/// However many frames an oscillator plays, its position stays within the
/// cycle, and its step and bound stay what they were.
pub proof fn lemma_after_steps_in_bounds(cycle: Cycle, count: nat)
    requires
        cycle.wf(),
    ensures
        cycle.after_steps(count).wf(),
        cycle.after_steps(count).phase < cycle.bound,
        cycle.after_steps(count).step == cycle.step,
        cycle.after_steps(count).bound == cycle.bound,
{
    vstd::arithmetic::div_mod::lemma_mod_bound(
        (cycle.phase + count * cycle.step) as int,
        cycle.bound as int,
    );
}

/// Playing no frame changes nothing.
pub proof fn lemma_after_no_steps(cycle: Cycle)
    requires
        cycle.wf(),
    ensures
        cycle.after_steps(0) == cycle,
{
    assert(0 * cycle.step == 0) by (nonlinear_arith);
    vstd::arithmetic::div_mod::lemma_small_mod(cycle.phase, cycle.bound);
}

/// Playing `first` frames and then `second` frames is playing
/// `first + second` frames.
pub proof fn lemma_after_steps_compose(cycle: Cycle, first: nat, second: nat)
    requires
        cycle.wf(),
    ensures
        cycle.after_steps(first).after_steps(second) == cycle.after_steps(first + second),
{
    let bound = cycle.bound as int;
    let reached = (cycle.phase + first * cycle.step) as int;
    let further = (second * cycle.step) as int;
    assert((first + second) * cycle.step == first * cycle.step + second * cycle.step)
        by (nonlinear_arith);
    assert((reached % bound + further) % bound == (reached + further) % bound) by {
        vstd::arithmetic::div_mod::lemma_add_mod_noop_right(further, reached, bound);
    }
}

/// After as many frames as the cycle has ticks, an oscillator is back where
/// it started, whatever its step.
pub proof fn lemma_full_cycle_returns(cycle: Cycle)
    requires
        cycle.wf(),
    ensures
        cycle.after_steps(cycle.bound) == cycle,
{
    let bound = cycle.bound as int;
    assert(cycle.phase + cycle.bound * cycle.step == bound * (cycle.step as int) + cycle.phase);
    vstd::arithmetic::div_mod::lemma_mod_multiples_vanish(
        cycle.step as int,
        cycle.phase as int,
        bound,
    );
    vstd::arithmetic::div_mod::lemma_small_mod(cycle.phase, cycle.bound);
}

/// A sum of two positions below `bound` is reduced modulo `bound` by
/// subtracting `bound` at most once.
proof fn lemma_wrap_once(phase: int, step: int, bound: int)
    requires
        0 <= phase < bound,
        0 <= step < bound,
    ensures
        (phase + 1 * step) % bound == if phase + step >= bound {
            phase + step - bound
        } else {
            phase + step
        },
{
    let sum = phase + step;
    if sum >= bound {
        vstd::arithmetic::div_mod::lemma_fundamental_div_mod_converse(sum, bound, 1, sum - bound);
    } else {
        vstd::arithmetic::div_mod::lemma_small_mod(sum as nat, bound as nat);
    }
}

/// The arithmetic of `frequency_step` stays within 128 bits.
proof fn lemma_step_fits(bound: u64, frequency: u32, sample_rate: u32, multiplier: u32)
    requires
        sample_rate > 0,
    ensures
        bound * frequency <= u128::MAX,
        ((bound * frequency) / (sample_rate as int)) * multiplier <= u128::MAX,
{
    assert(bound * frequency <= 0xffff_ffff_ffff_ffff * 0xffff_ffff) by (nonlinear_arith)
        requires
            0 <= bound <= 0xffff_ffff_ffff_ffff,
            0 <= frequency <= 0xffff_ffff,
    ;
    let product = bound * frequency;
    let base = product / (sample_rate as int);
    assert(0 <= base <= product) by (nonlinear_arith)
        requires
            product >= 0,
            sample_rate > 0,
            base == product / (sample_rate as int),
    ;
    assert(base * multiplier <= 0xffff_ffff_ffff_ffff_ffff_ffff * 0xffff_ffff)
        by (nonlinear_arith)
        requires
            0 <= base <= 0xffff_ffff_ffff_ffff_ffff_ffff,
            0 <= multiplier <= 0xffff_ffff,
    ;
}

} // verus!
