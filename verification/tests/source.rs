use wavetable_synth::phase::Phase;
use wavetable_synth::source::{MonoSample, SampleSource, SourceError, WaveData, Wavetable};

fn sine(i: usize, n: usize) -> f32 {
    (i as f64 / n as f64 * std::f64::consts::PI * 2.0).sin() as f32
}

fn at(ticks: u64, per_cycle: u64) -> Phase {
    Phase::new(ticks, per_cycle).unwrap()
}

fn four_points() -> WaveData<f32> {
    WaveData::new(vec![(0, 0.0), (1, 0.5), (2, -0.5), (3, 1.0)]).unwrap()
}

#[test]
fn phase_needs_a_positive_denominator() {
    assert!(Phase::new(0, 0).is_none());
    assert!(Phase::new(5, 0).is_none());
    let phase = Phase::new(5, 3).unwrap();
    assert_eq!(phase.ticks(), 5);
    assert_eq!(phase.per_cycle(), 3);
}

#[test]
fn index_is_the_scaled_position_rounded_down() {
    assert_eq!(at(24, 100).index_in(4), 0);
    assert_eq!(at(25, 100).index_in(4), 1);
    assert_eq!(at(26, 100).index_in(4), 1);
    assert_eq!(at(99, 100).index_in(4), 3);
    assert_eq!(at(0, 100).index_in(4), 0);
    assert_eq!(at(1, 3).index_in(200), 66);
}

#[test]
fn index_wraps_beyond_the_first_cycle() {
    assert_eq!(at(100, 100).index_in(4), 0);
    assert_eq!(at(126, 100).index_in(4), 1);
    assert_eq!(at(799, 100).index_in(4), 3);
}

#[test]
fn index_does_not_overflow() {
    assert_eq!(at(u64::MAX, u64::MAX).index_in(usize::MAX), 0);
    assert_eq!(at(u64::MAX - 1, u64::MAX).index_in(10), 9);
    assert_eq!(at(u64::MAX, 1).index_in(7), ((u64::MAX as u128 * 7) % 7) as usize);
}

#[test]
fn sine_table_holds_one_cycle() {
    for n in [1usize, 2, 3, 7, 64, 200, 1024] {
        let table = Wavetable::new(n, |i, n| sine(i, n)).unwrap();
        assert_eq!(table.len(), n);
        for i in 0..n {
            let expected = (2.0 * std::f64::consts::PI * i as f64 / n as f64).sin();
            let got = table.value_at(at(i as u64, n as u64)) as f64;
            assert!((got - expected).abs() < 1e-6);
        }
    }
}

#[test]
fn table_takes_each_sample_from_its_own_index() {
    let table = Wavetable::new(5, |i, n| i * 10 + n).unwrap();
    for i in 0..5u64 {
        assert_eq!(table.value_at(at(i, 5)), i as usize * 10 + 5);
    }
}

#[test]
fn empty_table_is_refused() {
    assert_eq!(Wavetable::new(0, |i, n| sine(i, n)).err(), Some(SourceError::EmptyTable));
    assert_eq!(Wavetable::<f32>::from_samples(vec![]).err(), Some(SourceError::EmptyTable));
}

#[test]
fn table_from_samples_keeps_their_order() {
    let table = Wavetable::from_samples(vec![7, 8, 9]).unwrap();
    assert_eq!(table.len(), 3);
    assert_eq!(table.value_at(at(0, 3)), 7);
    assert_eq!(table.value_at(at(1, 3)), 8);
    assert_eq!(table.value_at(at(2, 3)), 9);
}

#[test]
fn empty_sequence_is_refused() {
    assert_eq!(WaveData::<f32>::new(vec![]).err(), Some(SourceError::EmptySequence));
}

#[test]
fn external_sequence_is_read_below_the_position() {
    let wave = four_points();
    assert_eq!(wave.len(), 4);
    assert_eq!(wave.value_at(at(24, 100)), 0.0);
    assert_eq!(wave.value_at(at(26, 100)), 0.5);
    assert_eq!(wave.value_at(at(50, 100)), -0.5);
    assert_eq!(wave.value_at(at(99, 100)), 1.0);
}

#[test]
fn external_sequence_plays_amplitudes_not_indices() {
    let wave = WaveData::new(vec![(40, 1), (30, 2), (20, 3), (10, 4)]).unwrap();
    assert_eq!(wave.value_at(at(0, 4)), 1);
    assert_eq!(wave.value_at(at(1, 4)), 2);
    assert_eq!(wave.value_at(at(2, 4)), 3);
    assert_eq!(wave.value_at(at(3, 4)), 4);
}

#[test]
fn value_repeats_every_cycle() {
    let wave = four_points();
    let table = Wavetable::new(200, |i, n| sine(i, n)).unwrap();
    for ticks in 0..100u64 {
        let base = wave.value_at(at(ticks, 100));
        let sine_base = table.value_at(at(ticks, 100));
        for k in [1u64, 2, 3, 10, 1_000_000] {
            assert_eq!(wave.value_at(at(ticks + k * 100, 100)), base);
            assert_eq!(table.value_at(at(ticks + k * 100, 100)), sine_base);
        }
    }
}

#[test]
fn either_source_answers_through_one_type() {
    let synthesized: SampleSource<f32> =
        SampleSource::Synthesized(Wavetable::from_samples(vec![0.25, 0.75]).unwrap());
    let external: SampleSource<f32> = SampleSource::External(four_points());
    assert_eq!(synthesized.len(), 2);
    assert_eq!(external.len(), 4);
    assert_eq!(synthesized.value_at(at(49, 100)), 0.25);
    assert_eq!(synthesized.value_at(at(50, 100)), 0.75);
    assert_eq!(external.value_at(at(26, 100)), 0.5);
}
