//! Sample sources: one cycle of a waveform, read by position.

use vstd::prelude::*;
use crate::phase::{lemma_table_index_periodic, table_index, Phase};

verus! {

/// Why a sample source could not be built.
#[derive(Clone, Copy, Debug, PartialEq, Eq, Structural)]
pub enum SourceError {
    /// A synthesized table must hold at least one sample.
    EmptyTable,
    /// A supplied waveform must hold at least one point.
    EmptySequence,
}

/// The amplitude that a cycle of `amplitudes` has at the position
/// `ticks / per_cycle`: the entry at or just below the position, with no
/// interpolation.
pub open spec fn amplitude_at<A>(amplitudes: Seq<A>, ticks: int, per_cycle: int) -> A {
    amplitudes[table_index(ticks, per_cycle, amplitudes.len() as int)]
}

/// One voice: a waveform that can be read at any position of its cycle.
pub trait MonoSample {
    /// What the waveform is made of.
    type Amplitude: Copy;

    /// The amplitudes of one cycle, in order.
    spec fn amplitudes(&self) -> Seq<Self::Amplitude>;

    /// How many amplitudes one cycle holds; never zero.
    fn len(&self) -> (length: usize)
        ensures
            length == self.amplitudes().len(),
            length > 0,
    ;

    /// The amplitude at `phase`.
    fn value_at(&self, phase: Phase) -> (amplitude: Self::Amplitude)
        ensures
            self.amplitudes().len() > 0,
            amplitude == amplitude_at(
                self.amplitudes(),
                phase.spec_ticks() as int,
                phase.spec_per_cycle() as int,
            ),
    ;
}

/// A synthesized waveform: a table of one cycle, filled once and never
/// changed afterwards.
#[derive(Debug)]
pub struct Wavetable<A> {
    data: Vec<A>,
}

impl<A> View for Wavetable<A> {
    type V = Seq<A>;

    closed spec fn view(&self) -> Seq<A> {
        self.data@
    }
}

impl<A> Wavetable<A> {
    /// What holds of every table: it has at least one sample.
    #[verifier::type_invariant]
    pub open spec fn wf(self) -> bool {
        self@.len() > 0
    }
}

impl<A: Copy> Wavetable<A> {
    /// A table of `table_size` samples, the sample at index `i` being what
    /// `generator` gives for `(i, table_size)`. A table of no samples is
    /// refused.
    pub fn new<F: Fn(usize, usize) -> A>(table_size: usize, generator: F) -> (made: Result<
        Wavetable<A>,
        SourceError,
    >)
        requires
            forall|i: usize| i < table_size ==> call_requires(generator, (i, table_size)),
        ensures
            table_size == 0 <==> made is Err,
            made matches Err(error) ==> error == SourceError::EmptyTable,
            made matches Ok(table) ==> {
                &&& table@.len() == table_size
                &&& forall|i: int|
                    0 <= i < table_size ==> call_ensures(
                        generator,
                        (i as usize, table_size),
                        #[trigger] table@[i],
                    )
            },
    {
        if table_size == 0 {
            return Err(SourceError::EmptyTable);
        }
        let mut data: Vec<A> = Vec::with_capacity(table_size);
        let mut i: usize = 0;
        while i < table_size
            invariant
                i <= table_size,
                data@.len() == i,
                forall|k: usize| k < table_size ==> call_requires(generator, (k, table_size)),
                forall|k: int|
                    0 <= k < i ==> call_ensures(
                        generator,
                        (k as usize, table_size),
                        #[trigger] data@[k],
                    ),
            decreases table_size - i,
        {
            let sample = generator(i, table_size);
            data.push(sample);
            i += 1;
        }
        Ok(Wavetable { data })
    }

    /// A table that holds `samples`. A table of no samples is refused.
    pub fn from_samples(samples: Vec<A>) -> (made: Result<Wavetable<A>, SourceError>)
        ensures
            samples@.len() == 0 <==> made is Err,
            made matches Err(error) ==> error == SourceError::EmptyTable,
            made matches Ok(table) ==> table@ == samples@,
    {
        if samples.len() == 0 {
            Err(SourceError::EmptyTable)
        } else {
            Ok(Wavetable { data: samples })
        }
    }
}

impl<A: Copy> MonoSample for Wavetable<A> {
    type Amplitude = A;

    open spec fn amplitudes(&self) -> Seq<A> {
        self@
    }

    fn len(&self) -> (length: usize) {
        proof {
            use_type_invariant(self);
        }
        self.data.len()
    }

    fn value_at(&self, phase: Phase) -> (amplitude: A) {
        proof {
            use_type_invariant(self);
        }
        let data_pos = phase.index_in(self.data.len());
        self.data[data_pos]
    }
}

/// A waveform supplied from outside: the points of one cycle, each an index
/// and an amplitude. Only the amplitudes are played.
#[derive(Debug)]
pub struct WaveData<A> {
    points: Vec<(u64, A)>,
}

impl<A> View for WaveData<A> {
    type V = Seq<(u64, A)>;

    closed spec fn view(&self) -> Seq<(u64, A)> {
        self.points@
    }
}

impl<A> WaveData<A> {
    /// What holds of every waveform: it has at least one point.
    #[verifier::type_invariant]
    pub open spec fn wf(self) -> bool {
        self@.len() > 0
    }
}

impl<A: Copy> WaveData<A> {
    /// The waveform made of `points`, in their order. A waveform of no
    /// points is refused.
    pub fn new(points: Vec<(u64, A)>) -> (made: Result<WaveData<A>, SourceError>)
        ensures
            points@.len() == 0 <==> made is Err,
            made matches Err(error) ==> error == SourceError::EmptySequence,
            made matches Ok(wave) ==> wave@ == points@,
    {
        if points.len() == 0 {
            Err(SourceError::EmptySequence)
        } else {
            Ok(WaveData { points })
        }
    }
}

impl<A: Copy> MonoSample for WaveData<A> {
    type Amplitude = A;

    open spec fn amplitudes(&self) -> Seq<A> {
        Seq::new(self@.len(), |i: int| self@[i].1)
    }

    fn len(&self) -> (length: usize) {
        proof {
            use_type_invariant(self);
        }
        self.points.len()
    }

    fn value_at(&self, phase: Phase) -> (amplitude: A) {
        proof {
            use_type_invariant(self);
        }
        let data_pos = phase.index_in(self.points.len());
        self.points[data_pos].1
    }
}

/// Either kind of source, chosen once when the voice is set up.
#[derive(Debug)]
pub enum SampleSource<A> {
    /// A table computed by the program.
    Synthesized(Wavetable<A>),
    /// A waveform loaded from outside.
    External(WaveData<A>),
}

impl<A: Copy> MonoSample for SampleSource<A> {
    type Amplitude = A;

    open spec fn amplitudes(&self) -> Seq<A> {
        match self {
            SampleSource::Synthesized(table) => table.amplitudes(),
            SampleSource::External(wave) => wave.amplitudes(),
        }
    }

    fn len(&self) -> (length: usize) {
        match self {
            SampleSource::Synthesized(table) => table.len(),
            SampleSource::External(wave) => wave.len(),
        }
    }

    fn value_at(&self, phase: Phase) -> (amplitude: A) {
        match self {
            SampleSource::Synthesized(table) => table.value_at(phase),
            SampleSource::External(wave) => wave.value_at(phase),
        }
    }
}

/// A waveform repeats every cycle: positions that differ by a whole number
/// of cycles have the same amplitude.
pub proof fn lemma_value_at_periodic<A>(amplitudes: Seq<A>, ticks: int, per_cycle: int, cycles: int)
    requires
        amplitudes.len() > 0,
        per_cycle > 0,
    ensures
        amplitude_at(amplitudes, ticks + cycles * per_cycle, per_cycle) == amplitude_at(
            amplitudes,
            ticks,
            per_cycle,
        ),
{
    lemma_table_index_periodic(ticks, per_cycle, amplitudes.len() as int, cycles);
}

} // verus!
