//! Control of the media of a call, and the packets that carry it.

use vstd::prelude::*;

use crate::sip::copy_bytes;
use crate::utils::text_of;
use crate::{EventView, UacEvent};

verus! {

/// Stands in the queue of keys where no key waits.
pub const NO_EVENT: u8 = 255;

/// The payload type of telephone events.
pub const EVENT_PAYLOAD_TYPE: u8 = 101;

/// The bytes before the payload of a packet.
pub const HEADER_LEN: usize = 12;

/// The samples in one packet of sound.
pub const FRAME_SAMPLES: usize = 160;

/// The bits of the gain 1.0.
pub const DEFAULT_MIC_GAIN_BITS: u32 = 0x3F80_0000;

/// The bits of the gain 1.2.
pub const DEFAULT_SPEAKER_GAIN_BITS: u32 = 0x3F99_999A;

/// The controls and counters that the signalling shares with the media worker.
#[derive(Debug)]
pub struct RtpEngine {
    pub is_running: bool,
    pub rx_count: u64,
    pub tx_count: u64,
    pub headless_mode: bool,
    pub mic_gain_bits: u32,
    pub speaker_gain_bits: u32,
    pub dtmf_queue: u8,
    pub is_muted: bool,
}

/// The number of the telephone event of a key, or `NO_EVENT`.
pub open spec fn dtmf_event_of(key: char) -> u8 {
    if '0' <= key <= '9' {
        (key as int - '0' as int) as u8
    } else if key == '*' {
        10
    } else if key == '#' {
        11
    } else if 'A' <= key <= 'D' {
        (12 + (key as int - 'A' as int)) as u8
    } else {
        NO_EVENT
    }
}

/// The number of the telephone event of a key, or `NO_EVENT`.
pub fn dtmf_event(key: char) -> (event: u8)
    ensures
        event == dtmf_event_of(key),
{
    if '0' <= key && key <= '9' {
        key as u8 - '0' as u8
    } else if key == '*' {
        10
    } else if key == '#' {
        11
    } else if 'A' <= key && key <= 'D' {
        12 + (key as u8 - 'A' as u8)
    } else {
        NO_EVENT
    }
}

impl RtpEngine {
    /// Whether the queue holds a key that there is, or none.
    pub open spec fn wf(self) -> bool {
        self.dtmf_queue < 16 || self.dtmf_queue == NO_EVENT
    }

    /// The controls before a call.
    pub fn new(headless: bool) -> (r: Self)
        ensures
            r.wf(),
            r == (RtpEngine {
                is_running: false,
                rx_count: 0,
                tx_count: 0,
                headless_mode: headless,
                mic_gain_bits: DEFAULT_MIC_GAIN_BITS,
                speaker_gain_bits: DEFAULT_SPEAKER_GAIN_BITS,
                dtmf_queue: NO_EVENT,
                is_muted: false,
            }),
    {
        RtpEngine {
            is_running: false,
            rx_count: 0,
            tx_count: 0,
            headless_mode: headless,
            mic_gain_bits: DEFAULT_MIC_GAIN_BITS,
            speaker_gain_bits: DEFAULT_SPEAKER_GAIN_BITS,
            dtmf_queue: NO_EVENT,
            is_muted: false,
        }
    }

    /// Sets the gains.
    pub fn update_gains(&mut self, mic_bits: u32, spk_bits: u32)
        ensures
            *final(self) == (RtpEngine {
                mic_gain_bits: mic_bits,
                speaker_gain_bits: spk_bits,
                ..*old(self)
            }),
    {
        self.mic_gain_bits = mic_bits;
        self.speaker_gain_bits = spk_bits;
    }

    /// Silences the microphone, or stops silencing it.
    pub fn set_mute(&mut self, muted: bool)
        ensures
            *final(self) == (RtpEngine { is_muted: muted, ..*old(self) }),
    {
        self.is_muted = muted;
    }

    /// Queues a key in place of the one that waits. What is no key changes
    /// nothing.
    pub fn trigger_dtmf(&mut self, key: char)
        ensures
            *final(self) == (RtpEngine {
                dtmf_queue: if dtmf_event_of(key) != NO_EVENT {
                    dtmf_event_of(key)
                } else {
                    old(self).dtmf_queue
                },
                ..*old(self)
            }),
            old(self).wf() ==> final(self).wf(),
    {
        let event: u8 = dtmf_event(key);
        if event != NO_EVENT {
            self.dtmf_queue = event;
        }
    }

    /// Takes the key that waits out of the queue.
    pub fn take_dtmf(&mut self) -> (r: Option<u8>)
        ensures
            *final(self) == (RtpEngine { dtmf_queue: NO_EVENT, ..*old(self) }),
            final(self).wf(),
            r == (if old(self).dtmf_queue != NO_EVENT {
                Some(old(self).dtmf_queue)
            } else {
                None
            }),
    {
        let event: u8 = self.dtmf_queue;
        self.dtmf_queue = NO_EVENT;
        if event != NO_EVENT {
            Some(event)
        } else {
            None
        }
    }

    /// Marks the media as running. Returns whether a worker has to be started,
    /// which is so where none was running.
    pub fn start(&mut self) -> (r: bool)
        ensures
            *final(self) == (RtpEngine { is_running: true, ..*old(self) }),
            r == !old(self).is_running,
    {
        let was_running = self.is_running;
        self.is_running = true;
        !was_running
    }

    /// Asks the worker to stop.
    pub fn stop(&mut self)
        ensures
            *final(self) == (RtpEngine { is_running: false, ..*old(self) }),
    {
        self.is_running = false;
    }

    /// Sets the counters back to zero. Nothing else does: that it is done when
    /// a call ends is up to the caller.
    pub fn reset_stats(&mut self)
        ensures
            *final(self) == (RtpEngine { rx_count: 0, tx_count: 0, ..*old(self) }),
    {
        self.rx_count = 0;
        self.tx_count = 0;
    }

    /// Counts a packet that was received.
    pub fn count_received(&mut self)
        ensures
            *final(self) == (RtpEngine {
                rx_count: old(self).rx_count.wrapping_add(1),
                ..*old(self)
            }),
    {
        self.rx_count = self.rx_count.wrapping_add(1);
    }

    /// Counts a packet that was sent.
    pub fn count_sent(&mut self)
        ensures
            *final(self) == (RtpEngine {
                tx_count: old(self).tx_count.wrapping_add(1),
                ..*old(self)
            }),
    {
        self.tx_count = self.tx_count.wrapping_add(1);
    }

    /// What the user is told where the worker panicked, with the message where
    /// it is text. Once that is told, the media is to be stopped.
    pub fn worker_panicked(message: Option<&str>) -> (r: UacEvent)
        ensures
            r@ == EventView::Error(
                "☠️ RTP Panicked: "@ + match message {
                    Some(text) => text@,
                    None => "Unknown panic"@,
                },
            ),
    {
        let mut text = "☠️ RTP Panicked: ".to_string();
        match message {
            Some(m) => text.append(m),
            None => text.append("Unknown panic"),
        }
        UacEvent::Error(text)
    }
}

/// How sound is coded.
#[derive(Debug, Clone, Copy, PartialEq, Eq, Structural)]
pub enum Codec {
    Pcmu,
    Pcma,
}

impl Codec {
    /// The codec that a preference names. Anything but `PCMU` is `PCMA`.
    pub open spec fn preferred_of(name: Option<Seq<char>>) -> Codec {
        if name == Some("PCMU"@) {
            Codec::Pcmu
        } else {
            Codec::Pcma
        }
    }

    /// The codec that a preference names. Anything but `PCMU` is `PCMA`.
    pub fn preferred(name: &Option<String>) -> (r: Codec)
        ensures
            r == Self::preferred_of(text_of(*name)),
    {
        match name {
            Some(name) => {
                if *name == "PCMU".to_string() {
                    Codec::Pcmu
                } else {
                    Codec::Pcma
                }
            },
            None => Codec::Pcma,
        }
    }

    /// The payload type of the codec.
    pub open spec fn payload_type_of(self) -> u8 {
        match self {
            Codec::Pcmu => 0,
            Codec::Pcma => 8,
        }
    }

    /// The payload type of the codec.
    pub fn payload_type(self) -> (r: u8)
        ensures
            r == self.payload_type_of(),
    {
        match self {
            Codec::Pcmu => 0,
            Codec::Pcma => 8,
        }
    }
}

/// A packet: what its header says, and its payload.
#[derive(Debug, PartialEq, Eq)]
pub struct RtpFrame {
    pub payload_type: u8,
    pub sequence: u16,
    pub timestamp: u32,
    pub ssrc: u32,
    pub payload: Vec<u8>,
}

/// What an `RtpFrame` holds.
#[verifier::ext_equal]
pub struct FrameView {
    pub payload_type: u8,
    pub sequence: u16,
    pub timestamp: u32,
    pub ssrc: u32,
    pub payload: Seq<u8>,
}

impl View for RtpFrame {
    type V = FrameView;

    open spec fn view(&self) -> FrameView {
        FrameView {
            payload_type: self.payload_type,
            sequence: self.sequence,
            timestamp: self.timestamp,
            ssrc: self.ssrc,
            payload: self.payload@,
        }
    }
}

impl RtpFrame {
    /// The same packet once more.
    pub fn copy(&self) -> (r: RtpFrame)
        ensures
            r@ == self@,
    {
        RtpFrame {
            payload_type: self.payload_type,
            sequence: self.sequence,
            timestamp: self.timestamp,
            ssrc: self.ssrc,
            payload: copy_bytes(&self.payload),
        }
    }
}

/// What the packets hold.
pub open spec fn frame_views(frames: Seq<RtpFrame>) -> Seq<FrameView> {
    Seq::new(frames.len(), |i: int| frames[i]@)
}

/// The stream of packets that a source of sound sends.
#[derive(Debug, Clone, Copy, PartialEq, Eq, Structural)]
pub struct MediaSession {
    pub codec: Codec,
    pub sequence: u16,
    pub timestamp: u32,
    pub ssrc: u32,
}

/// The packets in which one key is sent.
pub const BURST_LEN: usize = 5;

/// How much longer each of them says that the key lasted.
pub const EVENT_STEP: u16 = 160;

/// The volume of a key.
pub const EVENT_VOLUME: u8 = 10;

/// Marks the last packet of a key.
pub const END_OF_EVENT: u8 = 0x80;

/// How long the packet at `i` says that the key lasted.
pub open spec fn event_duration(i: int) -> int {
    EVENT_STEP * (i + 1)
}

/// The payload of the packet at `i` of a key.
pub open spec fn event_payload(event: u8, i: int) -> Seq<u8> {
    seq![
        event,
        (if i == BURST_LEN - 1 {
            END_OF_EVENT + EVENT_VOLUME
        } else {
            EVENT_VOLUME as int
        }) as u8,
        (event_duration(i) / 256) as u8,
        (event_duration(i) % 256) as u8,
    ]
}

/// The sequence number `n` packets behind `sequence`.
pub open spec fn later(sequence: u16, n: int) -> u16 {
    ((sequence + n) % 0x1_0000) as u16
}

/// The packets in which a session sends a key.
pub open spec fn burst_of(session: MediaSession, event: u8) -> Seq<FrameView> {
    Seq::new(
        BURST_LEN as nat,
        |i: int|
            FrameView {
                payload_type: EVENT_PAYLOAD_TYPE,
                sequence: later(session.sequence, i),
                timestamp: session.timestamp,
                ssrc: session.ssrc,
                payload: event_payload(event, i),
            },
    )
}

/// A session behind `packets` packets and `samples` samples more.
pub open spec fn advanced(session: MediaSession, packets: int, samples: int) -> MediaSession {
    MediaSession {
        sequence: later(session.sequence, packets),
        timestamp: ((session.timestamp + samples) % 0x1_0000_0000) as u32,
        ..session
    }
}

impl MediaSession {
    /// The packets in which a key is sent. They bear one timestamp; the next
    /// packet is later by as long as the key lasted.
    pub fn dtmf_burst(&mut self, event: u8) -> (frames: Vec<RtpFrame>)
        ensures
            frame_views(frames@) == burst_of(*old(self), event),
            *final(self) == advanced(
                *old(self),
                BURST_LEN as int,
                event_duration(BURST_LEN - 1),
            ),
    {
        let mut frames: Vec<RtpFrame> = Vec::new();
        let mut duration: u16 = EVENT_STEP;
        let mut i: usize = 0;
        while i < BURST_LEN
            invariant
                i <= BURST_LEN,
                duration == (if i < BURST_LEN {
                    event_duration(i as int)
                } else {
                    event_duration(BURST_LEN - 1)
                }),
                frame_views(frames@) == burst_of(*old(self), event).take(i as int),
                *self == (MediaSession {
                    sequence: later(old(self).sequence, i as int),
                    ..*old(self)
                }),
            decreases BURST_LEN - i,
        {
            let mut payload: Vec<u8> = Vec::new();
            payload.push(event);
            if i == BURST_LEN - 1 {
                payload.push(END_OF_EVENT + EVENT_VOLUME);
            } else {
                payload.push(EVENT_VOLUME);
            }
            payload.push((duration / 256) as u8);
            payload.push((duration % 256) as u8);
            assert(payload@ =~= event_payload(event, i as int));
            let frame = RtpFrame {
                payload_type: EVENT_PAYLOAD_TYPE,
                sequence: self.sequence,
                timestamp: self.timestamp,
                ssrc: self.ssrc,
                payload,
            };
            let ghost before = frame_views(frames@);
            assert(frame@ =~= burst_of(*old(self), event)[i as int]);
            frames.push(frame);
            assert(frame_views(frames@) =~= before.push(frame@));
            if i < BURST_LEN - 1 {
                duration += EVENT_STEP;
            }
            self.sequence = self.sequence.wrapping_add(1);
            i += 1;
            assert(frame_views(frames@) =~= burst_of(*old(self), event).take(i as int));
        }
        self.timestamp = self.timestamp.wrapping_add(duration as u32);
        assert(burst_of(*old(self), event).take(BURST_LEN as int) =~= burst_of(
            *old(self),
            event,
        ));
        frames
    }

    /// The packet of coded sound. No sound makes no packet.
    pub fn audio_frame(&mut self, payload: Vec<u8>) -> (r: Option<RtpFrame>)
        ensures
            payload@.len() == 0 ==> r is None && *final(self) == *old(self),
            payload@.len() > 0 ==> {
                &&& r matches Some(frame)
                &&& frame@ == (FrameView {
                    payload_type: old(self).codec.payload_type_of(),
                    sequence: old(self).sequence,
                    timestamp: old(self).timestamp,
                    ssrc: old(self).ssrc,
                    payload: payload@,
                })
                &&& *final(self) == advanced(*old(self), 1, FRAME_SAMPLES as int)
            },
    {
        if payload.is_empty() {
            return None;
        }
        let frame = RtpFrame {
            payload_type: self.codec.payload_type(),
            sequence: self.sequence,
            timestamp: self.timestamp,
            ssrc: self.ssrc,
            payload,
        };
        self.sequence = self.sequence.wrapping_add(1);
        self.timestamp = self.timestamp.wrapping_add(FRAME_SAMPLES as u32);
        Some(frame)
    }
}

/// Two keys that there are have two events, each of them below sixteen.
pub proof fn keys_are_told_apart(a: char, b: char)
    requires
        dtmf_event_of(a) != NO_EVENT,
        dtmf_event_of(b) != NO_EVENT,
    ensures
        dtmf_event_of(a) < 16,
        dtmf_event_of(a) == dtmf_event_of(b) ==> a == b,
{
}

/// The packets of a key are one event: of one kind and one timestamp, with
/// sequence numbers in a row and durations that grow, and only the last of
/// them ends it.
pub proof fn burst_is_one_event(session: MediaSession, event: u8, i: int, j: int)
    requires
        0 <= i < j < BURST_LEN,
    ensures
        ({
            let a = burst_of(session, event)[i];
            let b = burst_of(session, event)[j];
            &&& a.payload_type == b.payload_type == EVENT_PAYLOAD_TYPE
            &&& a.payload[0] == b.payload[0] == event
            &&& a.timestamp == b.timestamp
            &&& a.ssrc == b.ssrc
            &&& b.sequence == later(a.sequence, j - i)
            &&& a.payload[2] * 256 + a.payload[3] == event_duration(i) < event_duration(j)
                == b.payload[2] * 256 + b.payload[3]
            &&& a.payload[1] < END_OF_EVENT
            &&& b.payload[1] >= END_OF_EVENT <==> j == BURST_LEN - 1
        }),
{
}

/// The packets of a session are numbered in a row: a packet of sound behind a
/// key follows the last packet of the key, and begins when the key has ended.
pub proof fn sound_follows_key(session: MediaSession, event: u8)
    ensures
        ({
            let last = burst_of(session, event)[BURST_LEN - 1];
            let next = advanced(session, BURST_LEN as int, event_duration(BURST_LEN - 1));
            &&& next.sequence == later(last.sequence, 1)
            &&& next.timestamp == (last.timestamp + event_duration(BURST_LEN - 1)) % 0x1_0000_0000
            &&& next.ssrc == last.ssrc
        }),
{
}

/// The keys in the order of their events.
pub open spec fn keypad() -> Seq<char> {
    "0123456789*#ABCD"@
}

/// Every key of the keypad has the event of its place, and nothing else has
/// one.
pub proof fn keys_have_the_events_of_their_places(key: char, i: int)
    ensures
        keypad().len() == 16,
        0 <= i < 16 ==> dtmf_event_of(keypad()[i]) == i,
        !keypad().contains(key) ==> dtmf_event_of(key) == 255,
{
    reveal_strlit("0123456789*#ABCD");
    let keys = keypad();
    assert(0 <= i < 16 ==> dtmf_event_of(keys[i]) == i);
    if !keys.contains(key) && dtmf_event_of(key) != 255 {
        assert(keys[dtmf_event_of(key) as int] == key);
    }
}

/// What the packets say of themselves: the packets of a key are telephone
/// events, and those of sound bear the number of their codec.
pub proof fn packets_say_what_they_carry(session: MediaSession, event: u8, i: int)
    requires
        0 <= i < 5,
    ensures
        burst_of(session, event).len() == 5,
        burst_of(session, event)[i].payload_type == 101,
        burst_of(session, event)[i].payload.len() == 4,
        burst_of(session, event)[i].payload[0] == event,
        burst_of(session, event)[i].payload[2] * 256 + burst_of(session, event)[i].payload[3]
            == 160 * (i + 1),
        Codec::Pcmu.payload_type_of() == 0,
        Codec::Pcma.payload_type_of() == 8,
{
}

/// A key that is pressed is taken once, and as the key that it is; what is no key
/// leaves the one that waits. Neither touches anything else.
pub proof fn a_pressed_key_is_taken_once(
    pressed: &mut RtpEngine,
    key: char,
    taken: &mut RtpEngine,
    r: Option<u8>,
    again: &mut RtpEngine,
    r2: Option<u8>,
)
    requires
        call_ensures(RtpEngine::trigger_dtmf, (pressed, key), ()),
        *old(taken) == *final(pressed),
        call_ensures(RtpEngine::take_dtmf, (taken,), r),
        *old(again) == *final(taken),
        call_ensures(RtpEngine::take_dtmf, (again,), r2),
    ensures
        forall|i: int| 0 <= i < 16 && #[trigger] keypad()[i] == key ==> r == Some(i as u8),
        !keypad().contains(key) ==> *final(pressed) == *old(pressed) && (r is None <==> old(
            pressed,
        ).dtmf_queue == 255),
        r2 is None,
        *final(taken) == (RtpEngine { dtmf_queue: 255, ..*old(pressed) }),
{
    assert forall|i: int| 0 <= i < 16 && #[trigger] keypad()[i] == key implies r == Some(
        i as u8,
    ) by {
        keys_have_the_events_of_their_places(key, i);
    }
    keys_have_the_events_of_their_places(key, 0);
}

/// One worker runs at a time: whoever starts the media has to start one only
/// where none runs, and again once it was stopped.
pub proof fn one_worker_runs_at_a_time(
    first: &mut RtpEngine,
    r1: bool,
    second: &mut RtpEngine,
    r2: bool,
    stopped: &mut RtpEngine,
    third: &mut RtpEngine,
    r3: bool,
)
    requires
        call_ensures(RtpEngine::start, (first,), r1),
        *old(second) == *final(first),
        call_ensures(RtpEngine::start, (second,), r2),
        *old(stopped) == *final(second),
        call_ensures(RtpEngine::stop, (stopped,), ()),
        *old(third) == *final(stopped),
        call_ensures(RtpEngine::start, (third,), r3),
    ensures
        r1 == !old(first).is_running,
        !r2,
        r3,
        *final(first) == (RtpEngine { is_running: true, ..*old(first) }),
        *final(stopped) == (RtpEngine { is_running: false, ..*old(first) }),
{
}

/// Each control is set to what is given, and leaves the others alone.
pub proof fn controls_are_set_one_by_one(
    gains: &mut RtpEngine,
    mic: u32,
    spk: u32,
    mute: &mut RtpEngine,
    muted: bool,
)
    requires
        call_ensures(RtpEngine::update_gains, (gains, mic, spk), ()),
        call_ensures(RtpEngine::set_mute, (mute, muted), ()),
    ensures
        final(gains).mic_gain_bits == mic,
        final(gains).speaker_gain_bits == spk,
        *final(gains) == (RtpEngine {
            mic_gain_bits: final(gains).mic_gain_bits,
            speaker_gain_bits: final(gains).speaker_gain_bits,
            ..*old(gains)
        }),
        final(mute).is_muted == muted,
        *final(mute) == (RtpEngine { is_muted: muted, ..*old(mute) }),
{
}

/// Packets are counted one by one, each on its side, and no counter is touched
/// otherwise; set back, both are zero.
pub proof fn packets_are_counted_on_their_side(
    received: &mut RtpEngine,
    sent: &mut RtpEngine,
    reset: &mut RtpEngine,
)
    requires
        call_ensures(RtpEngine::count_received, (received,), ()),
        call_ensures(RtpEngine::count_sent, (sent,), ()),
        call_ensures(RtpEngine::reset_stats, (reset,), ()),
    ensures
        old(received).rx_count < u64::MAX ==> final(received).rx_count == old(received).rx_count
            + 1,
        *final(received) == (RtpEngine { rx_count: final(received).rx_count, ..*old(received) }),
        old(sent).tx_count < u64::MAX ==> final(sent).tx_count == old(sent).tx_count + 1,
        *final(sent) == (RtpEngine { tx_count: final(sent).tx_count, ..*old(sent) }),
        *final(reset) == (RtpEngine { rx_count: 0, tx_count: 0, ..*old(reset) }),
{
}

/// Before a call nothing runs, nothing was counted, no key waits and the
/// microphone is open, at a gain of 1.0; the loudspeaker is at 1.2.
pub proof fn the_controls_before_a_call(headless: bool, r: RtpEngine)
    requires
        call_ensures(RtpEngine::new, (headless,), r),
    ensures
        !r.is_running && !r.is_muted && r.headless_mode == headless,
        r.rx_count == 0 && r.tx_count == 0,
        r.dtmf_queue == 255,
        r.mic_gain_bits == 0x3f80_0000,
        r.speaker_gain_bits == 0x3f99_999a,
{
}

/// A panic is told with its message, where that is text.
pub proof fn a_panic_is_told(message: Option<&str>, r: UacEvent)
    requires
        call_ensures(RtpEngine::worker_panicked, (message,), r),
    ensures
        r@ == EventView::Error(
            "☠️ RTP Panicked: "@ + (if message is Some {
                message->0@
            } else {
                "Unknown panic"@
            }),
        ),
{
}

/// Coded sound makes the packet that a session sends next, with the sound as it
/// is; without sound there is none, and the session stays as it is.
pub proof fn coded_sound_makes_a_packet(
    session: &mut MediaSession,
    payload: Vec<u8>,
    r: Option<RtpFrame>,
)
    requires
        call_ensures(MediaSession::audio_frame, (session, payload), r),
    ensures
        r is Some <==> payload@.len() > 0,
        r is None ==> *final(session) == *old(session),
        r matches Some(frame) ==> {
            &&& frame.payload@ == payload@
            &&& frame.payload_type == (if old(session).codec == Codec::Pcmu {
                0
            } else {
                8int
            })
            &&& frame.sequence == old(session).sequence
            &&& frame.timestamp == old(session).timestamp
            &&& frame.ssrc == old(session).ssrc
            &&& final(session).sequence as int == (old(session).sequence + 1) % 65_536
            &&& final(session).timestamp as int == (old(session).timestamp + 160) % 4_294_967_296
            &&& final(session).ssrc == old(session).ssrc
            &&& final(session).codec == old(session).codec
        },
{
    if let Some(frame) = r {
        assert(frame.payload@ == frame@.payload);
    }
}

/// A codec is preferred by its name; any other name, and none, is `PCMA`.
pub proof fn a_codec_is_preferred_by_name(name: &Option<String>, r: Codec)
    requires
        call_ensures(Codec::preferred, (name,), r),
    ensures
        r == Codec::Pcmu <==> *name is Some && name->0@ == "PCMU"@,
{
}

} // verus!
