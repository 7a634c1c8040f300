use wavetable_synth::callback::{CallbackError, Continuation, RealtimeCallback};
use wavetable_synth::oscillator::PhaseAccumulator;
use wavetable_synth::source::{SampleSource, WaveData, Wavetable};

fn ramp(n: usize) -> Wavetable<i32> {
    Wavetable::new(n, |i, _| i as i32).unwrap()
}

#[test]
fn shared_voice_fills_every_channel_of_a_frame() {
    let osc = PhaseAccumulator::new(10, 1).unwrap();
    let mut callback = RealtimeCallback::shared(ramp(10), osc, 2, -1).unwrap();
    assert_eq!(callback.channels(), 2);
    let mut buffer = [0i32; 6];
    assert_eq!(callback.fill(&mut buffer, 3), Continuation::Continue);
    assert_eq!(buffer, [1, 1, 2, 2, 3, 3]);
}

#[test]
fn frame_and_channel_map_to_frame_times_channels_plus_channel() {
    let frames = 7usize;
    let channels = 3usize;
    let steps = [1u64, 3, 5];
    let oscillators: Vec<PhaseAccumulator> =
        steps.iter().map(|s| PhaseAccumulator::new(200, *s).unwrap()).collect();
    let mut callback = RealtimeCallback::per_channel(ramp(200), oscillators, -1).unwrap();
    assert_eq!(callback.channels(), channels);
    let mut buffer = vec![-7i32; frames * channels];
    assert_eq!(callback.fill(&mut buffer, frames), Continuation::Continue);
    for frame in 0..frames {
        for channel in 0..channels {
            let phase = ((frame as u64 + 1) * steps[channel]) % 200;
            assert_eq!(buffer[frame * channels + channel], phase as i32);
        }
    }
}

#[test]
fn detuned_stereo_pair_is_played_side_by_side() {
    let left = PhaseAccumulator::new(200, 1).unwrap();
    let right = PhaseAccumulator::new(200, 3).unwrap();
    let mut callback = RealtimeCallback::per_channel(ramp(200), vec![left, right], -1).unwrap();
    let mut buffer = vec![0i32; 400];
    assert_eq!(callback.fill(&mut buffer, 200), Continuation::Continue);
    assert_eq!(buffer[2 * 49], 50);
    assert_eq!(buffer[2 * 49 + 1], 150);
    assert_eq!(buffer[2 * 199], 0);
    assert_eq!(buffer[2 * 199 + 1], 0);
}

#[test]
fn buffers_follow_one_another_without_a_seam() {
    let make = || {
        let left = PhaseAccumulator::new(200, 1).unwrap();
        let right = PhaseAccumulator::new(200, 3).unwrap();
        RealtimeCallback::per_channel(ramp(200), vec![left, right], -1).unwrap()
    };
    let mut whole = make();
    let mut long = vec![0i32; 2 * 192];
    assert_eq!(whole.fill(&mut long, 192), Continuation::Continue);
    let mut pieces = make();
    let mut joined: Vec<i32> = Vec::new();
    for _ in 0..3 {
        let mut buffer = vec![0i32; 2 * 64];
        assert_eq!(pieces.fill(&mut buffer, 64), Continuation::Continue);
        joined.extend_from_slice(&buffer);
    }
    assert_eq!(joined, long);
}

#[test]
fn source_is_read_at_the_position_after_the_step() {
    let wave = WaveData::new(vec![(0, 0.0f32), (1, 0.5), (2, -0.5), (3, 1.0)]).unwrap();
    let osc = PhaseAccumulator::new(100, 26).unwrap();
    let mut callback =
        RealtimeCallback::shared(SampleSource::External(wave), osc, 1, 0.0).unwrap();
    let mut buffer = [9.0f32; 5];
    assert_eq!(callback.fill(&mut buffer, 5), Continuation::Continue);
    // positions 0.26, 0.52, 0.78, 0.04, 0.30
    assert_eq!(buffer, [0.5, -0.5, 1.0, 0.0, 0.5]);
}

#[test]
fn empty_buffer_of_no_frames_is_filled() {
    let osc = PhaseAccumulator::new(10, 1).unwrap();
    let mut callback = RealtimeCallback::shared(ramp(10), osc, 2, -1).unwrap();
    let mut nothing: [i32; 0] = [];
    assert_eq!(callback.fill(&mut nothing, 0), Continuation::Continue);
    let mut buffer = [0i32; 2];
    assert_eq!(callback.fill(&mut buffer, 1), Continuation::Continue);
    assert_eq!(buffer, [1, 1]);
}

#[test]
fn buffer_of_the_wrong_length_gets_silence_and_stop() {
    let osc = PhaseAccumulator::new(10, 1).unwrap();
    let mut callback = RealtimeCallback::shared(ramp(10), osc, 2, -1).unwrap();
    let mut buffer = [5i32; 5];
    assert_eq!(callback.fill(&mut buffer, 3), Continuation::Stop);
    assert_eq!(buffer, [-1; 5]);
    let mut right_size = [5i32; 6];
    assert_eq!(callback.fill(&mut right_size, 3), Continuation::Stop);
    assert_eq!(right_size, [-1; 6]);
}

#[test]
fn frame_count_that_overflows_gets_silence_and_stop() {
    let osc = PhaseAccumulator::new(10, 1).unwrap();
    let mut callback = RealtimeCallback::shared(ramp(10), osc, 2, -1).unwrap();
    let mut buffer = [5i32; 4];
    assert_eq!(callback.fill(&mut buffer, usize::MAX), Continuation::Stop);
    assert_eq!(buffer, [-1; 4]);
}

#[test]
fn stopped_callback_plays_silence() {
    let osc = PhaseAccumulator::new(10, 1).unwrap();
    let mut callback = RealtimeCallback::shared(ramp(10), osc, 2, -1).unwrap();
    let mut buffer = [0i32; 4];
    assert_eq!(callback.fill(&mut buffer, 2), Continuation::Continue);
    assert_eq!(buffer, [1, 1, 2, 2]);
    callback.request_stop();
    assert_eq!(callback.fill(&mut buffer, 2), Continuation::Stop);
    assert_eq!(buffer, [-1; 4]);
}

#[test]
fn callback_needs_a_channel() {
    let osc = PhaseAccumulator::new(10, 1).unwrap();
    assert_eq!(
        RealtimeCallback::shared(ramp(10), osc, 0, -1).err(),
        Some(CallbackError::NoChannels)
    );
    assert_eq!(
        RealtimeCallback::per_channel(ramp(10), vec![], -1).err(),
        Some(CallbackError::NoChannels)
    );
}
