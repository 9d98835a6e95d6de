//! What a source and sink of sound offers.

use vstd::prelude::*;

verus! {

/// A microphone and a loudspeaker. What they do is the adapter's own.
pub trait MediaAdapter: Send + Sync {
    /// Reads the given number of samples from the microphone, to be sent.
    fn read_mic(&mut self, target_8k_samples: usize) -> Vec<i16>;

    /// Writes received samples to the loudspeaker.
    fn write_spk(&mut self, samples_8k: &[i16]);

    /// Whether the device still works.
    fn is_healthy(&self) -> bool;

    /// Silences the microphone, or stops silencing it.
    fn set_mute(&mut self, muted: bool);

    /// Sets the gains of microphone and loudspeaker, each given by the bits of
    /// a number of single precision.
    fn update_gains(&mut self, mic_bits: u32, spk_bits: u32);
}

} // verus!
