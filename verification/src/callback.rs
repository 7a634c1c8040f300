//! The routine that the audio backend calls for every buffer.

use vstd::prelude::*;
use crate::oscillator::{
    lemma_after_no_steps, lemma_after_steps_compose, lemma_after_steps_in_bounds, Cycle,
    PhaseAccumulator,
};
use crate::source::{amplitude_at, MonoSample};

verus! {

/// What the backend is told after a buffer has been filled.
#[derive(Clone, Copy, Debug, PartialEq, Eq, Structural)]
pub enum Continuation {
    /// Call again for the next buffer.
    Continue,
    /// Do not call again.
    Stop,
}

/// Why a callback could not be set up.
#[derive(Clone, Copy, Debug, PartialEq, Eq, Structural)]
pub enum CallbackError {
    /// A stream has at least one channel.
    NoChannels,
}

/// A callback as mathematics sees it.
pub struct Voicing<A> {
    /// One cycle of the waveform that is played.
    pub amplitudes: Seq<A>,
    /// The oscillators: a single one that all channels share, or one for
    /// each channel.
    pub voices: Seq<Cycle>,
    /// How many channels each frame has.
    pub channels: nat,
    /// The amplitude that stands for no sound.
    pub silence: A,
    /// Whether the callback has asked the backend to stop.
    pub stopped: bool,
}

impl<A> Voicing<A> {
    /// There is at least one channel, the channels share one oscillator or
    /// have one each, and every oscillator is within its cycle.
    pub open spec fn wf(self) -> bool {
        &&& self.channels > 0
        &&& (self.voices.len() == 1 || self.voices.len() == self.channels)
        &&& forall|i: int| 0 <= i < self.voices.len() ==> (#[trigger] self.voices[i]).wf()
    }

    /// The oscillator that drives `channel`.
    pub open spec fn voice_of(self, channel: int) -> Cycle {
        if self.voices.len() == 1 {
            self.voices[0]
        } else {
            self.voices[channel]
        }
    }

    /// The amplitude that `channel` gets in the frame number `frame` of the
    /// next buffer: the oscillator is advanced first and read afterwards.
    pub open spec fn sample(self, frame: int, channel: int) -> A {
        let cycle = self.voice_of(channel).after_steps((frame + 1) as nat);
        amplitude_at(self.amplitudes, cycle.phase as int, cycle.bound as int)
    }

    /// The interleaved contents of a buffer of `frames` frames: frame by
    /// frame, and within a frame channel by channel.
    pub open spec fn rendered(self, frames: nat) -> Seq<A> {
        Seq::new(
            frames * self.channels,
            |i: int| self.sample(i / (self.channels as int), i % (self.channels as int)),
        )
    }

    /// Whether a buffer of `length` slots can take `frames` frames.
    pub open spec fn accepts(self, length: nat, frames: nat) -> bool {
        !self.stopped && frames * self.channels == length
    }

    /// The callback after it has played `frames` frames.
    pub open spec fn after_frames(self, frames: nat) -> Voicing<A> {
        Voicing {
            amplitudes: self.amplitudes,
            voices: Seq::new(self.voices.len(), |i: int| self.voices[i].after_steps(frames)),
            channels: self.channels,
            silence: self.silence,
            stopped: self.stopped,
        }
    }

    /// The callback after it has asked to stop.
    pub open spec fn halted(self) -> Voicing<A> {
        Voicing {
            amplitudes: self.amplitudes,
            voices: self.voices,
            channels: self.channels,
            silence: self.silence,
            stopped: true,
        }
    }
}

/// The per-buffer routine together with everything it owns: the sample
/// source and the oscillators. Nothing else holds a reference to them once
/// the callback has been built.
#[derive(Debug)]
pub struct RealtimeCallback<S: MonoSample> {
    source: S,
    voices: Vec<PhaseAccumulator>,
    channels: usize,
    silence: S::Amplitude,
    stopped: bool,
}

impl<S: MonoSample> View for RealtimeCallback<S> {
    type V = Voicing<S::Amplitude>;

    closed spec fn view(&self) -> Voicing<S::Amplitude> {
        Voicing {
            amplitudes: self.source.amplitudes(),
            voices: Seq::new(self.voices@.len(), |i: int| self.voices@[i]@),
            channels: self.channels as nat,
            silence: self.silence,
            stopped: self.stopped,
        }
    }
}

impl<S: MonoSample> RealtimeCallback<S> {
    /// What holds of every callback: its layout is sound.
    #[verifier::type_invariant]
    pub open spec fn wf(self) -> bool {
        self@.wf()
    }

    /// A callback in which every channel of a frame gets the same
    /// amplitude, that of one shared oscillator.
    pub fn shared(
        source: S,
        oscillator: PhaseAccumulator,
        channels: usize,
        silence: S::Amplitude,
    ) -> (made: Result<RealtimeCallback<S>, CallbackError>)
        ensures
            channels == 0 <==> made is Err,
            made matches Err(error) ==> error == CallbackError::NoChannels,
            made matches Ok(callback) ==> callback@ == (Voicing {
                amplitudes: source.amplitudes(),
                voices: seq![oscillator@],
                channels: channels as nat,
                silence,
                stopped: false,
            }) && callback@.wf(),
    {
        if channels == 0 {
            return Err(CallbackError::NoChannels);
        }
        let mut voices: Vec<PhaseAccumulator> = Vec::with_capacity(1);
        proof {
            use_type_invariant(&oscillator);
        }
        voices.push(oscillator);
        let callback = RealtimeCallback { source, voices, channels, silence, stopped: false };
        assert(callback@.voices =~= seq![oscillator@]);
        Ok(callback)
    }

    /// A callback in which each channel has an oscillator of its own, the
    /// first of `oscillators` driving the first channel and so on.
    pub fn per_channel(
        source: S,
        oscillators: Vec<PhaseAccumulator>,
        silence: S::Amplitude,
    ) -> (made: Result<RealtimeCallback<S>, CallbackError>)
        ensures
            oscillators@.len() == 0 <==> made is Err,
            made matches Err(error) ==> error == CallbackError::NoChannels,
            made matches Ok(callback) ==> callback@ == (Voicing {
                amplitudes: source.amplitudes(),
                voices: Seq::new(oscillators@.len(), |i: int| oscillators@[i]@),
                channels: oscillators@.len(),
                silence,
                stopped: false,
            }) && callback@.wf(),
    {
        let channels = oscillators.len();
        if channels == 0 {
            return Err(CallbackError::NoChannels);
        }
        let mut voices: Vec<PhaseAccumulator> = Vec::with_capacity(channels);
        let mut i: usize = 0;
        while i < channels
            invariant
                i <= channels,
                channels == oscillators@.len(),
                voices@.len() == i,
                forall|k: int| 0 <= k < i ==> voices@[k] == oscillators@[k],
                forall|k: int| 0 <= k < i ==> (#[trigger] voices@[k])@.wf(),
            decreases channels - i,
        {
            let oscillator = oscillators[i];
            proof {
                use_type_invariant(&oscillator);
            }
            voices.push(oscillator);
            i += 1;
        }
        let callback = RealtimeCallback { source, voices, channels, silence, stopped: false };
        assert(callback@.voices =~= Seq::new(oscillators@.len(), |i: int| oscillators@[i]@));
        Ok(callback)
    }

    /// Asks the callback to stop: from now on it plays silence and tells
    /// the backend not to call again.
    pub fn request_stop(&mut self)
        ensures
            final(self)@ == old(self)@.halted(),
            final(self)@.wf(),
    {
        proof {
            use_type_invariant(&*self);
        }
        self.stopped = true;
    }

    /// How many channels each frame has.
    pub fn channels(&self) -> (channels: usize)
        ensures
            channels == self@.channels,
            channels > 0,
    {
        proof {
            use_type_invariant(self);
        }
        self.channels
    }

    /// Fills `buffer` with the next `frames` frames.
    ///
    /// For each frame the oscillators advance by one step and the source is
    /// read at the position reached; the amplitudes of a frame lie side by
    /// side, channel after channel. A buffer whose length is not `frames`
    /// times the number of channels, or a callback that was asked to stop,
    /// gives silence and the request to stop.
    pub fn fill(&mut self, buffer: &mut [S::Amplitude], frames: usize) -> (signal: Continuation)
        ensures
            final(self)@.wf(),
            old(self)@.accepts(old(buffer)@.len(), frames as nat) ==> {
                &&& signal == Continuation::Continue
                &&& final(self)@ == old(self)@.after_frames(frames as nat)
                &&& final(buffer)@ == old(self)@.rendered(frames as nat)
            },
            !old(self)@.accepts(old(buffer)@.len(), frames as nat) ==> {
                &&& signal == Continuation::Stop
                &&& final(self)@ == old(self)@.halted()
                &&& final(buffer)@ == Seq::new(old(buffer)@.len(), |i: int| old(self)@.silence)
            },
    {
        proof {
            use_type_invariant(&*self);
        }
        let length = buffer.len();
        let fits = match frames.checked_mul(self.channels) {
            Some(slots) => slots == length,
            None => false,
        };
        if self.stopped || !fits {
            self.stopped = true;
            mute(buffer, self.silence);
            return Continuation::Stop;
        }
        if self.voices.len() == 1 {
            self.fill_shared(buffer, frames);
        } else {
            self.fill_per_channel(buffer, frames);
        }
        Continuation::Continue
    }

    /// `fill` for a callback whose channels share one oscillator.
    fn fill_shared(&mut self, buffer: &mut [S::Amplitude], frames: usize)
        requires
            old(self)@.wf(),
            old(self)@.voices.len() == 1,
            frames * old(self)@.channels == old(buffer)@.len(),
        ensures
            final(self)@ == old(self)@.after_frames(frames as nat),
            final(buffer)@ == old(self)@.rendered(frames as nat),
    {
        let ghost before = self@;
        let channels = self.channels;
        let mut frame: usize = 0;
        let mut idx: usize = 0;
        proof {
            lemma_after_no_steps(before.voices[0]);
        }
        while frame < frames
            invariant
                frame <= frames,
                idx == frame * channels,
                buffer@.len() == frames * channels,
                before.wf(),
                before.voices.len() == 1,
                channels == before.channels,
                self.channels == channels,
                self.silence == before.silence,
                self.stopped == before.stopped,
                self.source.amplitudes() == before.amplitudes,
                self.voices@.len() == 1,
                self.voices@[0]@ == before.voices[0].after_steps(frame as nat),
                forall|i: int|
                    0 <= i < idx ==> buffer@[i] == before.sample(
                        i / (channels as int),
                        i % (channels as int),
                    ),
            decreases frames - frame,
        {
            let mut voice = self.voices[0];
            voice.step();
            replace_at(&mut self.voices, 0, voice);
            let sample = self.source.value_at(voice.normalized());
            proof {
                lemma_after_steps_compose(before.voices[0], frame as nat, 1);
                assert(frame * channels + channels == (frame + 1) * channels) by (nonlinear_arith);
                assert((frame + 1) * channels <= frames * channels) by (nonlinear_arith)
                    requires
                        frame < frames,
                ;
            }
            let mut channel: usize = 0;
            while channel < channels
                invariant
                    channel <= channels,
                    frame < frames,
                    idx == frame * channels + channel,
                    (frame + 1) * channels <= frames * channels,
                    frame * channels + channels == (frame + 1) * channels,
                    buffer@.len() == frames * channels,
                    channels == before.channels,
                    before.voices.len() == 1,
                    sample == before.sample(frame as int, 0),
                    forall|i: int|
                        0 <= i < idx ==> buffer@[i] == before.sample(
                            i / (channels as int),
                            i % (channels as int),
                        ),
                decreases channels - channel,
            {
                proof {
                    vstd::arithmetic::div_mod::lemma_fundamental_div_mod_converse(
                        idx as int,
                        channels as int,
                        frame as int,
                        channel as int,
                    );
                }
                buffer[idx] = sample;
                idx += 1;
                channel += 1;
            }
            frame += 1;
        }
        assert(buffer@ =~= before.rendered(frames as nat));
        assert(self@.voices =~= before.after_frames(frames as nat).voices);
    }

    /// `fill` for a callback in which each channel has its own oscillator.
    fn fill_per_channel(&mut self, buffer: &mut [S::Amplitude], frames: usize)
        requires
            old(self)@.wf(),
            old(self)@.voices.len() == old(self)@.channels,
            frames * old(self)@.channels == old(buffer)@.len(),
        ensures
            final(self)@ == old(self)@.after_frames(frames as nat),
            final(buffer)@ == old(self)@.rendered(frames as nat),
    {
        let ghost before = self@;
        let channels = self.channels;
        let mut frame: usize = 0;
        let mut idx: usize = 0;
        proof {
            assert forall|c: int| 0 <= c < channels implies (#[trigger] self.voices@[c])@
                == before.voices[c].after_steps(0) by {
                lemma_after_no_steps(before.voices[c]);
            }
        }
        while frame < frames
            invariant
                frame <= frames,
                idx == frame * channels,
                buffer@.len() == frames * channels,
                before.wf(),
                before.voices.len() == channels,
                channels == before.channels,
                self.channels == channels,
                self.silence == before.silence,
                self.stopped == before.stopped,
                self.source.amplitudes() == before.amplitudes,
                self.voices@.len() == channels,
                forall|c: int|
                    0 <= c < channels ==> (#[trigger] self.voices@[c])@
                        == before.voices[c].after_steps(frame as nat),
                forall|i: int|
                    0 <= i < idx ==> buffer@[i] == before.sample(
                        i / (channels as int),
                        i % (channels as int),
                    ),
            decreases frames - frame,
        {
            proof {
                assert(frame * channels + channels == (frame + 1) * channels) by (nonlinear_arith);
                assert((frame + 1) * channels <= frames * channels) by (nonlinear_arith)
                    requires
                        frame < frames,
                ;
            }
            let mut channel: usize = 0;
            while channel < channels
                invariant
                    channel <= channels,
                    frame < frames,
                    idx == frame * channels + channel,
                    (frame + 1) * channels <= frames * channels,
                    frame * channels + channels == (frame + 1) * channels,
                    buffer@.len() == frames * channels,
                    before.wf(),
                    before.voices.len() == channels,
                    channels == before.channels,
                    self.channels == channels,
                    self.silence == before.silence,
                    self.stopped == before.stopped,
                    self.source.amplitudes() == before.amplitudes,
                    self.voices@.len() == channels,
                    forall|c: int|
                        0 <= c < channel ==> (#[trigger] self.voices@[c])@
                            == before.voices[c].after_steps((frame + 1) as nat),
                    forall|c: int|
                        channel <= c < channels ==> (#[trigger] self.voices@[c])@
                            == before.voices[c].after_steps(frame as nat),
                    forall|i: int|
                        0 <= i < idx ==> buffer@[i] == before.sample(
                            i / (channels as int),
                            i % (channels as int),
                        ),
                decreases channels - channel,
            {
                let mut voice = self.voices[channel];
                voice.step();
                replace_at(&mut self.voices, channel, voice);
                let sample = self.source.value_at(voice.normalized());
                proof {
                    lemma_after_steps_compose(before.voices[channel as int], frame as nat, 1);
                    vstd::arithmetic::div_mod::lemma_fundamental_div_mod_converse(
                        idx as int,
                        channels as int,
                        frame as int,
                        channel as int,
                    );
                }
                buffer[idx] = sample;
                idx += 1;
                channel += 1;
            }
            frame += 1;
        }
        assert(buffer@ =~= before.rendered(frames as nat));
        assert(self@.voices =~= before.after_frames(frames as nat).voices);
    }
}

/// A buffer of `frames` frames holds `frames` times the number of channels
/// amplitudes, and the amplitude of `channel` in `frame` lies at position
/// `frame * channels + channel`.
pub proof fn lemma_rendered_is_interleaved<A>(
    voicing: Voicing<A>,
    frames: nat,
    frame: nat,
    channel: nat,
)
    requires
        voicing.wf(),
        frame < frames,
        channel < voicing.channels,
    ensures
        voicing.rendered(frames).len() == frames * voicing.channels,
        frame * voicing.channels + channel < frames * voicing.channels,
        voicing.rendered(frames)[(frame * voicing.channels + channel) as int] == voicing.sample(
            frame as int,
            channel as int,
        ),
{
    let channels = voicing.channels as int;
    let position = frame * channels + channel;
    assert((frame + 1) * channels <= frames * channels) by (nonlinear_arith)
        requires
            frame < frames,
            channels > 0,
    ;
    assert((frame + 1) * channels == frame * channels + channels) by (nonlinear_arith);
    assert(0 <= frame * channels) by (nonlinear_arith)
        requires
            channels > 0,
    ;
    vstd::arithmetic::div_mod::lemma_fundamental_div_mod_converse(
        position,
        channels,
        frame as int,
        channel as int,
    );
}

/// Where one oscillator is shared, all channels of a frame hold the same
/// amplitude.
pub proof fn lemma_shared_channels_agree<A>(voicing: Voicing<A>, frame: nat, left: nat, right: nat)
    requires
        voicing.wf(),
        voicing.voices.len() == 1,
        left < voicing.channels,
        right < voicing.channels,
    ensures
        voicing.sample(frame as int, left as int) == voicing.sample(frame as int, right as int),
{
}

/// Buffers follow one another without a seam: what a callback plays in
/// frame `frame` after it has played `played` frames is what it would have
/// played in frame `played + frame` of one long buffer.
pub proof fn lemma_buffers_continue<A>(voicing: Voicing<A>, played: nat, frame: nat, channel: nat)
    requires
        voicing.wf(),
        channel < voicing.channels,
    ensures
        voicing.after_frames(played).wf(),
        voicing.after_frames(played).sample(frame as int, channel as int) == voicing.sample(
            (played + frame) as int,
            channel as int,
        ),
{
    let later = voicing.after_frames(played);
    assert forall|i: int| 0 <= i < later.voices.len() implies (#[trigger] later.voices[i]).wf() by {
        lemma_after_steps_in_bounds(voicing.voices[i], played);
    }
    let voice = voicing.voice_of(channel as int);
    lemma_after_steps_in_bounds(voice, played);
    lemma_after_steps_compose(voice, played, frame + 1);
}

/// Puts `item` in the place of the item at `index`.
fn replace_at<T: Copy>(items: &mut Vec<T>, index: usize, item: T)
    requires
        index < old(items)@.len(),
    ensures
        final(items)@ == old(items)@.update(index as int, item),
    no_unwind
{
    items[index] = item;
}

/// Writes `silence` into every slot of `buffer`.
fn mute<A: Copy>(buffer: &mut [A], silence: A)
    ensures
        final(buffer)@ == Seq::new(old(buffer)@.len(), |i: int| silence),
{
    let length = buffer.len();
    let mut i: usize = 0;
    while i < length
        invariant
            i <= length,
            buffer@.len() == length,
            forall|k: int| 0 <= k < i ==> buffer@[k] == silence,
        decreases length - i,
    {
        buffer[i] = silence;
        i += 1;
    }
    assert(buffer@ =~= Seq::new(length as nat, |i: int| silence));
}

} // verus!
