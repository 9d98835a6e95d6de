//! Sound without a device.

use vstd::prelude::*;

use super::adapter::MediaAdapter;

verus! {

/// The level of every sample that a microphone without a device reads: loud
/// enough for a server to take it for speech.
pub const PSEUDO_NOISE: i16 = 1000;

/// Reads a constant signal and discards what is written.
pub struct HeadlessAdapter {
    is_muted: bool,
}

impl HeadlessAdapter {
    /// Whether the microphone is silenced.
    pub closed spec fn muted(&self) -> bool {
        self.is_muted
    }

    /// An adapter that is not silenced.
    pub fn new() -> (r: Self)
        ensures
            !r.muted(),
    {
        Self { is_muted: false }
    }
}

/// The samples that the microphone reads.
pub open spec fn headless_samples(muted: bool, n: nat) -> Seq<i16> {
    Seq::new(
        n,
        |i: int|
            if muted {
                0i16
            } else {
                PSEUDO_NOISE
            },
    )
}

impl MediaAdapter for HeadlessAdapter {
    fn read_mic(&mut self, target_8k_samples: usize) -> (r: Vec<i16>)
        ensures
            r@ == headless_samples(old(self).muted(), target_8k_samples as nat),
            *final(self) == *old(self),
    {
        let r: Vec<i16> = if self.is_muted {
            vec![0; target_8k_samples]
        } else {
            vec![PSEUDO_NOISE; target_8k_samples]
        };
        assert(r@ =~= headless_samples(self.muted(), target_8k_samples as nat));
        r
    }

    fn write_spk(&mut self, _samples_8k: &[i16])
        ensures
            *final(self) == *old(self),
    {
    }

    fn is_healthy(&self) -> (r: bool)
        ensures
            r,
    {
        true
    }

    fn set_mute(&mut self, muted: bool)
        ensures
            final(self).muted() == muted,
    {
        self.is_muted = muted;
    }

    fn update_gains(&mut self, _mic_bits: u32, _spk_bits: u32)
        ensures
            *final(self) == *old(self),
    {
    }
}

/// Without a device the microphone reads as many samples as are asked for: all
/// of the same level while it is open, and silence while it is silenced.
pub proof fn samples_are_level_or_silent(muted: bool, n: nat, i: int)
    requires
        0 <= i < n,
    ensures
        headless_samples(muted, n).len() == n,
        headless_samples(muted, n)[i] == (if muted {
            0i16
        } else {
            1000i16
        }),
{
}

/// Silenced, the microphone stays silent until it is opened again, and the other
/// way round; whatever is written or set meanwhile, and however often it is
/// read.
pub proof fn silence_lasts(
    set: &mut HeadlessAdapter,
    muted: bool,
    written: &mut HeadlessAdapter,
    heard: &[i16],
    gained: &mut HeadlessAdapter,
    mic: u32,
    spk: u32,
    read: &mut HeadlessAdapter,
    n: usize,
    r: Vec<i16>,
)
    requires
        call_ensures(<HeadlessAdapter as MediaAdapter>::set_mute, (set, muted), ()),
        *old(written) == *final(set),
        call_ensures(<HeadlessAdapter as MediaAdapter>::write_spk, (written, heard), ()),
        *old(gained) == *final(written),
        call_ensures(<HeadlessAdapter as MediaAdapter>::update_gains, (gained, mic, spk), ()),
        *old(read) == *final(gained),
        call_ensures(<HeadlessAdapter as MediaAdapter>::read_mic, (read, n), r),
    ensures
        r@.len() == n,
        forall|i: int|
            0 <= i < n ==> #[trigger] r@[i] == (if muted {
                0i16
            } else {
                1000i16
            }),
        *final(read) == *final(set),
{
}

} // verus!
