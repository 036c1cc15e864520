//! Public audio device information: what a device supports, and the
//! settings recommended for it.
use crate::text::{chars_of, decimal, decimal_chars, push_chars};
use vstd::prelude::*;
use vstd::string::*;

verus! {

/// Information about an available audio device
///
/// This is a simplified public representation of audio device capabilities.
/// External users can query available audio devices and select one by device_id.
#[derive(Debug, Clone, PartialEq)]
pub struct AudioInfo {
    /// Device identifier (used to start the audio device)
    pub device_id: i32,
    /// Human-readable device name
    pub name: String,
    /// Maximum supported sample rate in Hz
    pub max_sample_rate: u32,
    /// Supported channel counts (1=mono, 2=stereo, etc)
    pub supported_channels: Vec<u32>,
}

impl AudioInfo {
    /// Returns a string representation of the sample rate
    pub fn sample_rate_string(&self) -> (s: String)
        ensures
            s@ == decimal(self.max_sample_rate as nat) + " Hz"@,
    {
        let digits = decimal_chars(self.max_sample_rate as u64);
        let mut s = String::new();
        push_chars(&mut s, digits.as_slice());
        let unit = chars_of(" Hz");
        push_chars(&mut s, unit.as_slice());
        assert(s@ =~= decimal(self.max_sample_rate as nat) + " Hz"@);
        s
    }

    /// Checks if the audio device supports a specific sample rate
    pub fn supports_sample_rate(&self, sample_rate: u32) -> (b: bool)
        ensures
            b == (sample_rate <= self.max_sample_rate),
    {
        sample_rate <= self.max_sample_rate
    }

    /// Checks if the audio device supports a specific channel count
    pub fn supports_channels(&self, channels: u32) -> (b: bool)
        ensures
            b == self.supported_channels@.contains(channels),
    {
        let mut i: usize = 0;
        while i < self.supported_channels.len()
            invariant
                i <= self.supported_channels@.len(),
                forall|j: int| 0 <= j < i ==> self.supported_channels@[j] != channels,
            decreases self.supported_channels@.len() - i,
        {
            if self.supported_channels[i] == channels {
                assert(self.supported_channels@[i as int] == channels);
                return true;
            }
            i = i + 1;
        }
        false
    }

    /// Returns the recommended sample rate (highest supported)
    pub fn recommended_sample_rate(&self) -> (r: u32)
        ensures
            r == self.max_sample_rate,
    {
        self.max_sample_rate
    }

    /// Returns the recommended channel count (stereo if supported, else mono)
    pub fn recommended_channels(&self) -> (r: u32)
        ensures
            r == (if self.supported_channels@.contains(2) {
                2u32
            } else {
                1u32
            }),
    {
        if self.supports_channels(2) {
            2
        } else {
            1
        }
    }
}

/// The settings an audio device was started with.
#[derive(Debug, Clone, Copy)]
pub struct AudioSettings {
    pub sample_rate: u32,
    pub channels: u32,
    pub buffer_size: u32,
}

} // verus!
