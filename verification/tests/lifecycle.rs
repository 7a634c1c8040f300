use wavetable_synth::lifecycle::{Action, Lifecycle, Outcome, Step};

const STEPS: [Step; 8] = [
    Step::Load,
    Step::Initialise,
    Step::Configure,
    Step::Open,
    Step::Start,
    Step::Sleep,
    Step::Stop,
    Step::Close,
];

fn run(outcomes: &[Outcome]) -> (Lifecycle, Vec<Action>) {
    let (mut state, first) = Lifecycle::begin();
    let mut actions = vec![first];
    for outcome in outcomes {
        let (next, action) = state.advance(*outcome);
        state = next;
        actions.push(action);
    }
    (state, actions)
}

#[test]
fn run_begins_with_the_load() {
    assert_eq!(
        Lifecycle::begin(),
        (Lifecycle::Running(Step::Load), Action::Perform(Step::Load))
    );
}

#[test]
fn steps_follow_in_order() {
    for pair in STEPS.windows(2) {
        assert_eq!(pair[0].following(), Some(pair[1]));
    }
    assert_eq!(Step::Close.following(), None);
}

#[test]
fn smooth_run_starts_stops_and_closes_exactly_once() {
    let (state, actions) = run(&[Outcome::Done; 8]);
    assert_eq!(state, Lifecycle::Finished);
    let mut expected: Vec<Action> = STEPS.iter().map(|s| Action::Perform(*s)).collect();
    expected.push(Action::Finish);
    assert_eq!(actions, expected);
    for step in [Step::Start, Step::Sleep, Step::Stop, Step::Close] {
        assert_eq!(actions.iter().filter(|a| **a == Action::Perform(step)).count(), 1);
    }
}

#[test]
fn finished_run_stays_finished() {
    let (state, actions) = run(&[Outcome::Done; 12]);
    assert_eq!(state, Lifecycle::Finished);
    assert_eq!(&actions[9..], &[Action::Finish; 4]);
    let (state, action) = Lifecycle::Finished.advance(Outcome::Failed);
    assert_eq!(state, Lifecycle::Finished);
    assert_eq!(action, Action::Finish);
}

#[test]
fn failure_ends_the_run_at_the_step_that_failed() {
    for (place, step) in STEPS.iter().enumerate() {
        let mut outcomes = vec![Outcome::Done; place];
        outcomes.push(Outcome::Failed);
        outcomes.push(Outcome::Done);
        outcomes.push(Outcome::Failed);
        let (state, actions) = run(&outcomes);
        assert_eq!(state, Lifecycle::Failed(*step));
        assert_eq!(actions.len(), place + 4);
        for (i, action) in actions.iter().enumerate() {
            if i <= place {
                assert_eq!(*action, Action::Perform(STEPS[i]));
            } else {
                assert_eq!(*action, Action::GiveUp(*step));
            }
        }
    }
}

#[test]
fn failed_load_never_starts_the_stream() {
    let (_, actions) = run(&[Outcome::Failed, Outcome::Done, Outcome::Done]);
    assert!(!actions.contains(&Action::Perform(Step::Start)));
    assert!(!actions.contains(&Action::Perform(Step::Open)));
}
