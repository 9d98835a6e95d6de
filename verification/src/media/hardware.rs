//! What is decided about a device: how it is configured and when it is read.

use vstd::prelude::*;

verus! {

/// The sample rate that is asked for first.
pub const PREFERRED_RATE: u32 = 16000;

/// A range of configurations that an input device supports.
#[derive(Debug, Clone, Copy, PartialEq, Eq, Structural)]
pub struct InputRange {
    pub channels: u16,
    pub min_rate: u32,
    pub max_rate: u32,
}

/// Which configuration of an input device is taken.
#[derive(Debug, Clone, Copy, PartialEq, Eq, Structural)]
pub enum InputChoice {
    /// The range at this index, at the preferred rate.
    Preferred(usize),
    /// The range at this index, at its highest rate.
    Highest(usize),
    /// The device's own default.
    DeviceDefault,
}

/// Whether a range has one channel and holds the preferred rate.
pub open spec fn is_preferred(r: InputRange) -> bool {
    r.channels == 1 && r.min_rate <= PREFERRED_RATE <= r.max_rate
}

/// Whether a range has one channel.
pub open spec fn is_mono(r: InputRange) -> bool {
    r.channels == 1
}

/// Whether `choice` is right for `ranges`: the first range of one channel that
/// holds the preferred rate; without one the first of one channel; without one
/// the default.
pub open spec fn is_choice(ranges: Seq<InputRange>, choice: InputChoice) -> bool {
    match choice {
        InputChoice::Preferred(i) => {
            &&& i < ranges.len()
            &&& is_preferred(ranges[i as int])
            &&& forall|j: int| 0 <= j < i ==> !is_preferred(#[trigger] ranges[j])
        },
        InputChoice::Highest(i) => {
            &&& i < ranges.len()
            &&& is_mono(ranges[i as int])
            &&& forall|j: int| 0 <= j < i ==> !is_mono(#[trigger] ranges[j])
            &&& forall|j: int| 0 <= j < ranges.len() ==> !is_preferred(#[trigger] ranges[j])
        },
        InputChoice::DeviceDefault => forall|j: int|
            0 <= j < ranges.len() ==> !is_mono(#[trigger] ranges[j]),
    }
}

/// Chooses the configuration of an input device among the ranges that it
/// supports.
pub fn choose_input(ranges: &[InputRange]) -> (choice: InputChoice)
    ensures
        is_choice(ranges@, choice),
{
    let mut i: usize = 0;
    while i < ranges.len()
        invariant
            i <= ranges.len(),
            forall|j: int| 0 <= j < i ==> !is_preferred(#[trigger] ranges@[j]),
        decreases ranges.len() - i,
    {
        let r = ranges[i];
        if r.channels == 1 && r.min_rate <= PREFERRED_RATE && r.max_rate >= PREFERRED_RATE {
            return InputChoice::Preferred(i);
        }
        i += 1;
    }
    let mut i: usize = 0;
    while i < ranges.len()
        invariant
            i <= ranges.len(),
            forall|j: int| 0 <= j < ranges@.len() ==> !is_preferred(#[trigger] ranges@[j]),
            forall|j: int| 0 <= j < i ==> !is_mono(#[trigger] ranges@[j]),
        decreases ranges.len() - i,
    {
        if ranges[i].channels == 1 {
            return InputChoice::Highest(i);
        }
        i += 1;
    }
    InputChoice::DeviceDefault
}

/// The choice is the only right one.
pub proof fn choice_is_unique(ranges: Seq<InputRange>, a: InputChoice, b: InputChoice)
    requires
        is_choice(ranges, a),
        is_choice(ranges, b),
    ensures
        a == b,
{
    match (a, b) {
        (InputChoice::Preferred(i), InputChoice::Preferred(j)) => {
            if i < j {
                assert(!is_preferred(ranges[i as int]));
            } else if j < i {
                assert(!is_preferred(ranges[j as int]));
            }
        },
        (InputChoice::Highest(i), InputChoice::Highest(j)) => {
            if i < j {
                assert(!is_mono(ranges[i as int]));
            } else if j < i {
                assert(!is_mono(ranges[j as int]));
            }
        },
        (InputChoice::Preferred(i), _) => {
            assert(is_preferred(ranges[i as int]));
        },
        (_, InputChoice::Preferred(j)) => {
            assert(is_preferred(ranges[j as int]));
        },
        (InputChoice::Highest(i), _) => {
            assert(is_mono(ranges[i as int]));
        },
        (_, InputChoice::Highest(j)) => {
            assert(is_mono(ranges[j as int]));
        },
        _ => {},
    }
}

/// What a read of the microphone does with the samples that wait.
#[derive(Debug, Clone, Copy, PartialEq, Eq, Structural)]
pub enum MicRead {
    /// Discard all that wait and hand out silence.
    Silence,
    /// Hand out nothing, and let them wait.
    Nothing,
    /// Take one frame and hand it out.
    Frame,
}

/// What a read of the microphone does: silence while it is silenced, nothing
/// until a whole frame waits.
pub fn plan_mic_read(muted: bool, waiting: usize, frame: usize) -> (r: MicRead)
    ensures
        r == (if muted {
            MicRead::Silence
        } else if waiting < frame {
            MicRead::Nothing
        } else {
            MicRead::Frame
        }),
{
    if muted {
        MicRead::Silence
    } else if waiting < frame {
        MicRead::Nothing
    } else {
        MicRead::Frame
    }
}

/// The choice is the first range of one channel that holds 16 kHz, at that rate;
/// without one the first range of one channel, at its highest rate; without one
/// the default of the device.
pub proof fn the_first_fitting_range_is_chosen(ranges: &[InputRange], choice: InputChoice)
    requires
        call_ensures(choose_input, (ranges,), choice),
    ensures
        ({
            let fits = |i: int|
                0 <= i < ranges@.len() && ranges@[i].channels == 1 && ranges@[i].min_rate <= 16_000
                    && 16_000 <= ranges@[i].max_rate;
            let mono = |i: int| 0 <= i < ranges@.len() && ranges@[i].channels == 1;
            match choice {
                InputChoice::Preferred(k) => fits(k as int) && forall|j: int|
                    0 <= j < k ==> !#[trigger] fits(j),
                InputChoice::Highest(k) => mono(k as int) && (forall|j: int|
                    0 <= j < k ==> !#[trigger] mono(j)) && (forall|j: int| !#[trigger] fits(j)),
                InputChoice::DeviceDefault => forall|j: int| !#[trigger] mono(j),
            }
        }),
{
    assert forall|j: int| 0 <= j < ranges@.len() implies #[trigger] is_preferred(ranges@[j]) == (
    ranges@[j].channels == 1 && ranges@[j].min_rate <= 16_000 && 16_000 <= ranges@[j].max_rate) by {
    }
}

/// While the microphone is silenced, silence is handed out and what waits is
/// discarded; otherwise a frame is handed out once it is whole, and nothing
/// before.
pub proof fn the_microphone_waits_for_a_frame(
    muted: bool,
    waiting: usize,
    frame: usize,
    r: MicRead,
)
    requires
        call_ensures(plan_mic_read, (muted, waiting, frame), r),
    ensures
        muted <==> r == MicRead::Silence,
        !muted ==> (r == MicRead::Frame <==> frame <= waiting),
        !muted ==> (r == MicRead::Nothing <==> waiting < frame),
{
}

} // verus!
