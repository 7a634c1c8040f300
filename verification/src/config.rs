//! The fixed settings of one stream.

use vstd::prelude::*;

verus! {

/// Why a set of stream settings was refused.
#[derive(Clone, Copy, Debug, PartialEq, Eq, Structural)]
pub enum ConfigError {
    /// A stream has at least one channel.
    NoChannels,
    /// The backend counts channels in a signed 32-bit number.
    TooManyChannels,
    /// The sample rate must be positive.
    ZeroSampleRate,
    /// A buffer holds at least one frame.
    EmptyBuffer,
    /// The backend counts the playing time, in milliseconds, in a signed
    /// 32-bit number.
    DurationTooLong,
}

/// The largest number that the backend takes for a count of channels or of
/// milliseconds.
pub const BACKEND_MAX: u32 = 0x7fff_ffff;

/// The settings of a stream as mathematics sees them.
pub struct Settings {
    /// How many channels each frame has.
    pub channels: nat,
    /// How many frames are played per second.
    pub sample_rate: nat,
    /// How many frames the backend asks for at a time.
    pub frames_per_buffer: nat,
    /// How long the stream plays, in seconds.
    pub seconds: nat,
}

impl Settings {
    /// The reason for which these settings are refused, if there is one.
    /// Where several apply, the first in this order is given.
    pub open spec fn fault(self) -> Option<ConfigError> {
        if self.channels == 0 {
            Some(ConfigError::NoChannels)
        } else if self.channels > BACKEND_MAX {
            Some(ConfigError::TooManyChannels)
        } else if self.sample_rate == 0 {
            Some(ConfigError::ZeroSampleRate)
        } else if self.frames_per_buffer == 0 {
            Some(ConfigError::EmptyBuffer)
        } else if self.seconds * 1000 > BACKEND_MAX {
            Some(ConfigError::DurationTooLong)
        } else {
            None
        }
    }
}

/// Channel count, sample rate, buffer size and playing time of a stream,
/// fixed for as long as the stream lives.
#[derive(Clone, Copy, Debug)]
pub struct StreamConfig {
    channels: u32,
    sample_rate: u32,
    frames_per_buffer: u32,
    seconds: u32,
}

impl View for StreamConfig {
    type V = Settings;

    closed spec fn view(&self) -> Settings {
        Settings {
            channels: self.channels as nat,
            sample_rate: self.sample_rate as nat,
            frames_per_buffer: self.frames_per_buffer as nat,
            seconds: self.seconds as nat,
        }
    }
}

impl StreamConfig {
    /// What holds of every configuration: nothing is wrong with it.
    #[verifier::type_invariant]
    pub open spec fn wf(self) -> bool {
        self@.fault() is None
    }

    /// The settings given, or the reason for which they are refused.
    pub fn new(
        channels: u32,
        sample_rate: u32,
        frames_per_buffer: u32,
        seconds: u32,
    ) -> (made: Result<StreamConfig, ConfigError>)
        ensures
            match (Settings {
                channels: channels as nat,
                sample_rate: sample_rate as nat,
                frames_per_buffer: frames_per_buffer as nat,
                seconds: seconds as nat,
            }).fault() {
                Some(error) => made == Err::<StreamConfig, _>(error),
                None => made matches Ok(config) && config@ == (Settings {
                    channels: channels as nat,
                    sample_rate: sample_rate as nat,
                    frames_per_buffer: frames_per_buffer as nat,
                    seconds: seconds as nat,
                }) && config@.fault() is None,
            },
    {
        if channels == 0 {
            Err(ConfigError::NoChannels)
        } else if channels > BACKEND_MAX {
            Err(ConfigError::TooManyChannels)
        } else if sample_rate == 0 {
            Err(ConfigError::ZeroSampleRate)
        } else if frames_per_buffer == 0 {
            Err(ConfigError::EmptyBuffer)
        } else if seconds > BACKEND_MAX / 1000 {
            Err(ConfigError::DurationTooLong)
        } else {
            Ok(StreamConfig { channels, sample_rate, frames_per_buffer, seconds })
        }
    }

    /// How many channels each frame has: at least one, and no more than the
    /// backend can count.
    pub fn channels(&self) -> (channels: u32)
        ensures
            channels == self@.channels,
            0 < channels <= BACKEND_MAX,
    {
        proof {
            use_type_invariant(self);
        }
        self.channels
    }

    /// How many frames are played per second; never zero.
    pub fn sample_rate(&self) -> (sample_rate: u32)
        ensures
            sample_rate == self@.sample_rate,
            sample_rate > 0,
    {
        proof {
            use_type_invariant(self);
        }
        self.sample_rate
    }

    /// How many frames the backend asks for at a time; never zero.
    pub fn frames_per_buffer(&self) -> (frames: u32)
        ensures
            frames == self@.frames_per_buffer,
            frames > 0,
    {
        proof {
            use_type_invariant(self);
        }
        self.frames_per_buffer
    }

    /// How long the stream plays, in seconds.
    pub fn seconds(&self) -> (seconds: u32)
        ensures
            seconds == self@.seconds,
    {
        self.seconds
    }

    /// How long the stream plays, in milliseconds.
    pub fn sleep_millis(&self) -> (millis: u32)
        ensures
            millis == self@.seconds * 1000,
            millis <= BACKEND_MAX,
    {
        proof {
            use_type_invariant(self);
        }
        self.seconds * 1000
    }
}

} // verus!
