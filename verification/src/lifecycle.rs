//! The order in which a stream is brought up, played and torn down.
//!
//! The control thread does the outside work; this module decides what that
//! work is. The thread performs the action it is given, reports what came
//! of it, and is given the next one.

use vstd::prelude::*;

verus! {

/// The outside steps of one run, in the order in which they are taken.
#[derive(Clone, Copy, Debug, PartialEq, Eq, Structural)]
pub enum Step {
    /// Obtain the waveform.
    Load,
    /// Bring the audio backend up.
    Initialise,
    /// Ask the backend for the settings of the output stream.
    Configure,
    /// Open the stream and hand the callback over.
    Open,
    /// Start the stream.
    Start,
    /// Let the stream play for the configured time.
    Sleep,
    /// Stop the stream.
    Stop,
    /// Close the stream.
    Close,
}

/// What came of the step that was performed last.
#[derive(Clone, Copy, Debug, PartialEq, Eq, Structural)]
pub enum Outcome {
    /// The step succeeded.
    Done,
    /// The step failed.
    Failed,
}

/// What the control thread is to do next.
#[derive(Clone, Copy, Debug, PartialEq, Eq, Structural)]
pub enum Action {
    /// Perform this step and report its outcome.
    Perform(Step),
    /// The run is complete: leave with success.
    Finish,
    /// This step failed: leave with its error, taking no further step.
    GiveUp(Step),
}

/// Where a run stands.
#[derive(Clone, Copy, Debug, PartialEq, Eq, Structural)]
pub enum Lifecycle {
    /// This step is under way.
    Running(Step),
    /// Every step has succeeded.
    Finished,
    /// This step failed, and the run ended there.
    Failed(Step),
}

impl Step {
    /// The place of the step in a run, counted from zero.
    pub open spec fn ordinal(self) -> nat {
        match self {
            Step::Load => 0,
            Step::Initialise => 1,
            Step::Configure => 2,
            Step::Open => 3,
            Step::Start => 4,
            Step::Sleep => 5,
            Step::Stop => 6,
            Step::Close => 7,
        }
    }

    /// The step that follows this one, if any.
    pub open spec fn spec_following(self) -> Option<Step> {
        match self {
            Step::Load => Some(Step::Initialise),
            Step::Initialise => Some(Step::Configure),
            Step::Configure => Some(Step::Open),
            Step::Open => Some(Step::Start),
            Step::Start => Some(Step::Sleep),
            Step::Sleep => Some(Step::Stop),
            Step::Stop => Some(Step::Close),
            Step::Close => None,
        }
    }

    /// The step that follows this one, if any.
    pub fn following(self) -> (next: Option<Step>)
        ensures
            next == self.spec_following(),
    {
        match self {
            Step::Load => Some(Step::Initialise),
            Step::Initialise => Some(Step::Configure),
            Step::Configure => Some(Step::Open),
            Step::Open => Some(Step::Start),
            Step::Start => Some(Step::Sleep),
            Step::Sleep => Some(Step::Stop),
            Step::Stop => Some(Step::Close),
            Step::Close => None,
        }
    }
}

impl Lifecycle {
    /// The state in which every run begins, and its first action.
    pub open spec fn spec_begin() -> (Lifecycle, Action) {
        (Lifecycle::Running(Step::Load), Action::Perform(Step::Load))
    }

    /// The state that follows when the step under way ends with `outcome`,
    /// and the action to take then. A run that has ended stays as it is and
    /// repeats its last word.
    pub open spec fn spec_advance(self, outcome: Outcome) -> (Lifecycle, Action) {
        match self {
            Lifecycle::Running(step) => match outcome {
                Outcome::Failed => (Lifecycle::Failed(step), Action::GiveUp(step)),
                Outcome::Done => match step.spec_following() {
                    Some(next) => (Lifecycle::Running(next), Action::Perform(next)),
                    None => (Lifecycle::Finished, Action::Finish),
                },
            },
            Lifecycle::Finished => (Lifecycle::Finished, Action::Finish),
            Lifecycle::Failed(step) => (Lifecycle::Failed(step), Action::GiveUp(step)),
        }
    }

    /// The state after the outcomes `outcomes` have been reported in turn.
    pub open spec fn after(self, outcomes: Seq<Outcome>) -> Lifecycle
        decreases outcomes.len(),
    {
        if outcomes.len() == 0 {
            self
        } else {
            self.after(outcomes.drop_last()).spec_advance(outcomes.last()).0
        }
    }

    /// The action given in answer to the outcome number `index` of
    /// `outcomes`.
    pub open spec fn answer(self, outcomes: Seq<Outcome>, index: int) -> Action {
        self.after(outcomes.take(index)).spec_advance(outcomes[index]).1
    }

    /// Whether the backend may be calling the callback: from the moment the
    /// stream is being started until the moment it has been stopped. A
    /// stream whose stop failed may still be playing.
    pub open spec fn callback_may_run(self) -> bool {
        match self {
            Lifecycle::Running(step) => step == Step::Start || step == Step::Sleep || step
                == Step::Stop,
            Lifecycle::Finished => false,
            Lifecycle::Failed(step) => step == Step::Start || step == Step::Sleep || step
                == Step::Stop,
        }
    }

    /// Whether the stream has been stopped.
    pub open spec fn stop_returned(self) -> bool {
        match self {
            Lifecycle::Running(step) => step == Step::Close,
            Lifecycle::Finished => true,
            Lifecycle::Failed(step) => step == Step::Close,
        }
    }

    /// Begins a run.
    pub fn begin() -> (first: (Lifecycle, Action))
        ensures
            first == Lifecycle::spec_begin(),
    {
        (Lifecycle::Running(Step::Load), Action::Perform(Step::Load))
    }

    /// Takes the outcome of the step under way and says what to do next.
    pub fn advance(self, outcome: Outcome) -> (next: (Lifecycle, Action))
        ensures
            next == self.spec_advance(outcome),
    {
        match self {
            Lifecycle::Running(step) => match outcome {
                Outcome::Failed => (Lifecycle::Failed(step), Action::GiveUp(step)),
                Outcome::Done => match step.following() {
                    Some(next) => (Lifecycle::Running(next), Action::Perform(next)),
                    None => (Lifecycle::Finished, Action::Finish),
                },
            },
            Lifecycle::Finished => (Lifecycle::Finished, Action::Finish),
            Lifecycle::Failed(step) => (Lifecycle::Failed(step), Action::GiveUp(step)),
        }
    }
}

/// The step that stands at place `ordinal` of a run.
pub open spec fn step_at(ordinal: nat) -> Step {
    if ordinal == 0 {
        Step::Load
    } else if ordinal == 1 {
        Step::Initialise
    } else if ordinal == 2 {
        Step::Configure
    } else if ordinal == 3 {
        Step::Open
    } else if ordinal == 4 {
        Step::Start
    } else if ordinal == 5 {
        Step::Sleep
    } else if ordinal == 6 {
        Step::Stop
    } else {
        Step::Close
    }
}

/// Whether every outcome of `outcomes` is a success.
pub open spec fn all_done(outcomes: Seq<Outcome>) -> bool {
    forall|i: int| 0 <= i < outcomes.len() ==> outcomes[i] == Outcome::Done
}

/// Where a run stands after `count` successes and nothing else.
pub open spec fn smooth_state(count: nat) -> Lifecycle {
    if count < 8 {
        Lifecycle::Running(step_at(count))
    } else {
        Lifecycle::Finished
    }
}

/// A run in which every step succeeds takes the eight steps once each, in
/// their order, and then finishes: it starts, sleeps, stops and closes the
/// stream exactly once.
pub proof fn lemma_smooth_run(outcomes: Seq<Outcome>)
    requires
        all_done(outcomes),
    ensures
        Lifecycle::spec_begin().0.after(outcomes) == smooth_state(outcomes.len()),
        forall|i: int|
            0 <= i < outcomes.len() ==> #[trigger] Lifecycle::spec_begin().0.answer(outcomes, i)
                == if i < 7 {
                Action::Perform(step_at((i + 1) as nat))
            } else {
                Action::Finish
            },
{
    let start = Lifecycle::spec_begin().0;
    lemma_smooth_run_state(outcomes);
    assert forall|i: int| 0 <= i < outcomes.len() implies #[trigger] start.answer(outcomes, i)
        == if i < 7 {
        Action::Perform(step_at((i + 1) as nat))
    } else {
        Action::Finish
    } by {
        let earlier = outcomes.take(i);
        assert(all_done(earlier));
        lemma_smooth_run_state(earlier);
    }
}

/// The state of a run in which every step so far has succeeded.
proof fn lemma_smooth_run_state(outcomes: Seq<Outcome>)
    requires
        all_done(outcomes),
    ensures
        Lifecycle::spec_begin().0.after(outcomes) == smooth_state(outcomes.len()),
    decreases outcomes.len(),
{
    if outcomes.len() > 0 {
        lemma_smooth_run_state(outcomes.drop_last());
    }
}

/// Whatever the outcomes, a step is only ever performed at its own place in
/// the run: no step is taken twice, none is taken out of order, and none is
/// taken after a failure.
pub proof fn lemma_steps_in_order(outcomes: Seq<Outcome>, index: int)
    requires
        0 <= index < outcomes.len(),
    ensures
        Lifecycle::spec_begin().0.answer(outcomes, index) matches Action::Perform(step)
            ==> step.ordinal() == index + 1 && all_done(outcomes.take(index + 1)),
{
    let start = Lifecycle::spec_begin().0;
    let earlier = outcomes.take(index);
    lemma_state_shape(earlier);
    if start.answer(outcomes, index) is Perform {
        let reached = outcomes.take(index + 1);
        assert forall|i: int| 0 <= i < reached.len() implies #[trigger] reached[i]
            == Outcome::Done by {
            if i < index {
                assert(earlier[i] == outcomes[i]);
            }
        }
    }
}

/// A run is under way only while every outcome so far was a success, and
/// the step under way is then the one whose place has been reached.
proof fn lemma_state_shape(outcomes: Seq<Outcome>)
    ensures
        Lifecycle::spec_begin().0.after(outcomes) matches Lifecycle::Running(step) ==> {
            &&& all_done(outcomes)
            &&& step.ordinal() == outcomes.len()
        },
    decreases outcomes.len(),
{
    if outcomes.len() > 0 {
        let earlier = outcomes.drop_last();
        lemma_state_shape(earlier);
        if Lifecycle::spec_begin().0.after(outcomes) is Running {
            assert forall|i: int| 0 <= i < outcomes.len() implies #[trigger] outcomes[i]
                == Outcome::Done by {
                if i < earlier.len() {
                    assert(earlier[i] == outcomes[i]);
                }
            }
        }
    }
}

/// Once the stream has been stopped the callback is never due again,
/// whatever happens afterwards.
pub proof fn lemma_silent_after_stop(state: Lifecycle, outcomes: Seq<Outcome>)
    requires
        state.stop_returned(),
    ensures
        state.after(outcomes).stop_returned(),
        !state.after(outcomes).callback_may_run(),
    decreases outcomes.len(),
{
    if outcomes.len() > 0 {
        lemma_silent_after_stop(state, outcomes.drop_last());
    }
}

/// A run that has ended, in success or in failure, stays as it ended.
pub proof fn lemma_end_is_final(state: Lifecycle, outcomes: Seq<Outcome>)
    requires
        !(state is Running),
    ensures
        state.after(outcomes) == state,
    decreases outcomes.len(),
{
    if outcomes.len() > 0 {
        lemma_end_is_final(state, outcomes.drop_last());
    }
}

} // verus!
