//! The worker that carries the media of a call: from an event to the next
//! things to do.
//!
//! Whoever runs the worker does what it says, in order. The last thing that it
//! says asks for the next event.

use vstd::prelude::*;

use crate::ambient::{random_u16, random_u32};
use crate::rtp_engine::{
    advanced, burst_of, event_duration, frame_views, later, Codec, FrameView, MediaSession,
    RtpFrame, BURST_LEN, EVENT_PAYLOAD_TYPE, FRAME_SAMPLES, HEADER_LEN, NO_EVENT,
};
use crate::utils::text_of;
use crate::{EventView, UacEvent};

verus! {

/// How long to wait before a device that failed is set up again.
pub const BOOT_RETRY_MILLIS: u64 = 1000;

/// How long to wait before the streams are set up again.
pub const REBUILD_MILLIS: u64 = 150;

/// How long to wait between two packets of a key.
pub const EVENT_GAP_MILLIS: u64 = 20;

/// What chance gives to a stream: where its numbers begin, and its name.
#[derive(Debug, Clone, Copy, PartialEq, Eq, Structural)]
pub struct StreamStart {
    pub sequence: u16,
    pub timestamp: u32,
    pub ssrc: u32,
}

/// What was found out.
#[derive(Debug)]
pub enum WorkerEvent {
    /// Whether the media is to run.
    Wanted { running: bool },
    /// The adapter works. The preferred codec may have a name.
    AdapterReady { preferred: Option<String> },
    /// The adapter could not be set up.
    AdapterFailed { reason: String },
    /// Whether the media is to run and the adapter still works.
    Alive { running: bool, healthy: bool },
    /// The controls, and the key that waited or `NO_EVENT`.
    Controls { mic_gain_bits: u32, speaker_gain_bits: u32, muted: bool, dtmf: u8 },
    /// A packet came.
    Packet { data: Vec<u8> },
    /// No packet waits.
    NoPacket,
    /// The microphone was read.
    MicRead { samples: Vec<i16> },
    /// Samples were coded.
    Coded { payload: Vec<u8> },
    /// The streams ended; whether the media is still to run.
    StreamsEnded { running: bool },
}

/// What to do.
#[derive(Debug, PartialEq, Eq)]
pub enum WorkerAction {
    /// Tell the user.
    Emit(UacEvent),
    /// Wait.
    Sleep { millis: u64 },
    /// Make the encoder and the decoder of the codec.
    SetCodec { codec: Codec },
    /// Begin the rhythm of the packets anew.
    ResetPacer,
    /// Wait for the next beat of that rhythm.
    WaitPacer,
    /// Hand the gains to the adapter.
    UpdateGains { mic_gain_bits: u32, speaker_gain_bits: u32 },
    /// Silence the microphone, or stop silencing it.
    SetMute { muted: bool },
    /// Send a packet of a key.
    SendEvent { frame: RtpFrame },
    /// Send a packet of sound, and count it where it could be sent.
    SendVoice { frame: RtpFrame },
    /// Count a packet that was received.
    CountReceived,
    /// Decode sound and write it to the loudspeaker.
    Play { voice: Vec<u8> },
    /// Ask for `Wanted`.
    AskWanted,
    /// Set the adapter up; ask for `AdapterReady` or `AdapterFailed`.
    BootAdapter { headless: bool },
    /// Ask for `Alive`.
    AskAlive,
    /// Take the controls and the waiting key; ask for `Controls`.
    TakeControls,
    /// Ask for `Packet` or `NoPacket`.
    Receive,
    /// Read so many samples; ask for `MicRead`.
    ReadMic { samples: usize },
    /// Code samples; ask for `Coded`.
    Encode { samples: Vec<i16> },
    /// Ask for `StreamsEnded`.
    AskStillWanted,
    /// There is nothing left to do.
    Finish,
}

/// What a `WorkerAction` says.
pub enum WorkerActionView {
    Emit(EventView),
    Sleep { millis: u64 },
    SetCodec { codec: Codec },
    ResetPacer,
    WaitPacer,
    UpdateGains { mic_gain_bits: u32, speaker_gain_bits: u32 },
    SetMute { muted: bool },
    SendEvent { frame: FrameView },
    SendVoice { frame: FrameView },
    CountReceived,
    Play { voice: Seq<u8> },
    AskWanted,
    BootAdapter { headless: bool },
    AskAlive,
    TakeControls,
    Receive,
    ReadMic { samples: usize },
    Encode { samples: Seq<i16> },
    AskStillWanted,
    Finish,
}

impl View for WorkerAction {
    type V = WorkerActionView;

    open spec fn view(&self) -> WorkerActionView {
        match self {
            WorkerAction::Emit(event) => WorkerActionView::Emit(event@),
            WorkerAction::Sleep { millis } => WorkerActionView::Sleep { millis: *millis },
            WorkerAction::SetCodec { codec } => WorkerActionView::SetCodec { codec: *codec },
            WorkerAction::ResetPacer => WorkerActionView::ResetPacer,
            WorkerAction::WaitPacer => WorkerActionView::WaitPacer,
            WorkerAction::UpdateGains { mic_gain_bits, speaker_gain_bits } => {
                WorkerActionView::UpdateGains {
                    mic_gain_bits: *mic_gain_bits,
                    speaker_gain_bits: *speaker_gain_bits,
                }
            },
            WorkerAction::SetMute { muted } => WorkerActionView::SetMute { muted: *muted },
            WorkerAction::SendEvent { frame } => WorkerActionView::SendEvent { frame: frame@ },
            WorkerAction::SendVoice { frame } => WorkerActionView::SendVoice { frame: frame@ },
            WorkerAction::CountReceived => WorkerActionView::CountReceived,
            WorkerAction::Play { voice } => WorkerActionView::Play { voice: voice@ },
            WorkerAction::AskWanted => WorkerActionView::AskWanted,
            WorkerAction::BootAdapter { headless } => WorkerActionView::BootAdapter {
                headless: *headless,
            },
            WorkerAction::AskAlive => WorkerActionView::AskAlive,
            WorkerAction::TakeControls => WorkerActionView::TakeControls,
            WorkerAction::Receive => WorkerActionView::Receive,
            WorkerAction::ReadMic { samples } => WorkerActionView::ReadMic { samples: *samples },
            WorkerAction::Encode { samples } => WorkerActionView::Encode { samples: samples@ },
            WorkerAction::AskStillWanted => WorkerActionView::AskStillWanted,
            WorkerAction::Finish => WorkerActionView::Finish,
        }
    }
}

/// What actions say.
pub open spec fn worker_action_views(actions: Seq<WorkerAction>) -> Seq<WorkerActionView> {
    Seq::new(actions.len(), |i: int| actions[i]@)
}

/// What the worker knows.
#[derive(Debug, Clone, Copy, PartialEq, Eq, Structural)]
pub struct MediaWorker {
    pub headless: bool,
    pub session: MediaSession,
}

/// A worker with what it said.
#[verifier::ext_equal]
pub struct WorkerStep {
    pub worker: MediaWorker,
    pub actions: Seq<WorkerActionView>,
}

/// The sound in a received packet: what stands behind the header, unless the
/// packet is too short or carries a telephone event.
pub open spec fn voice_in(data: Seq<u8>) -> Option<Seq<u8>> {
    if data.len() > HEADER_LEN && (data[1] & 0x7f) != EVENT_PAYLOAD_TYPE {
        Some(data.skip(HEADER_LEN as int))
    } else {
        None
    }
}

/// What is said when the adapter is set up.
pub open spec fn boot_text(headless: bool) -> Seq<char> {
    if headless {
        "👻 Booting Virtual DSP (Headless Mode)"@
    } else {
        "🎤 Booting Hardware Audio Engine..."@
    }
}

/// A session that begins where chance says.
pub open spec fn begun(codec: Codec, start: StreamStart) -> MediaSession {
    MediaSession {
        codec,
        sequence: start.sequence,
        timestamp: start.timestamp,
        ssrc: start.ssrc,
    }
}

/// Packets of a key, each with the pause behind it.
pub open spec fn paced(frames: Seq<FrameView>) -> Seq<WorkerActionView>
    decreases frames.len(),
{
    if frames.len() == 0 {
        seq![]
    } else {
        paced(frames.drop_last()).push(WorkerActionView::SendEvent { frame: frames.last() }).push(
            WorkerActionView::Sleep { millis: EVENT_GAP_MILLIS },
        )
    }
}

/// The packet of sound that a session sends.
pub open spec fn voice_frame(session: MediaSession, payload: Seq<u8>) -> FrameView {
    FrameView {
        payload_type: session.codec.payload_type_of(),
        sequence: session.sequence,
        timestamp: session.timestamp,
        ssrc: session.ssrc,
        payload,
    }
}

/// The same worker, which says this.
pub open spec fn says(w: MediaWorker, actions: Seq<WorkerActionView>) -> WorkerStep {
    WorkerStep { worker: w, actions }
}

/// The worker with another session, which says this.
pub open spec fn goes_on(
    w: MediaWorker,
    session: MediaSession,
    actions: Seq<WorkerActionView>,
) -> WorkerStep {
    WorkerStep { worker: MediaWorker { session, ..w }, actions }
}

/// The rules of the worker. The adapter is set up until it works; then, beat
/// by beat, a key is sent, or all packets that came are taken and one is sent.
/// When the adapter fails the streams are set up again, until the media is not
/// to run any more.
pub open spec fn worker_step(w: MediaWorker, event: WorkerEvent, start: StreamStart) -> WorkerStep {
    match event {
        WorkerEvent::Wanted { running } => if running {
            says(
                w,
                seq![
                    WorkerActionView::Emit(EventView::Log(boot_text(w.headless))),
                    WorkerActionView::BootAdapter { headless: w.headless },
                ],
            )
        } else {
            says(w, seq![WorkerActionView::Finish])
        },
        WorkerEvent::AdapterFailed { reason } => says(
            w,
            seq![
                WorkerActionView::Emit(EventView::Log("⚠️ Hardware Init Fail: "@ + reason@)),
                WorkerActionView::Sleep { millis: BOOT_RETRY_MILLIS },
                WorkerActionView::AskWanted,
            ],
        ),
        WorkerEvent::AdapterReady { preferred } => {
            let codec = Codec::preferred_of(text_of(preferred));
            goes_on(
                w,
                begun(codec, start),
                seq![
                    WorkerActionView::SetCodec { codec },
                    WorkerActionView::ResetPacer,
                    WorkerActionView::AskAlive,
                ],
            )
        },
        WorkerEvent::Alive { running, healthy } => if running && healthy {
            says(w, seq![WorkerActionView::WaitPacer, WorkerActionView::TakeControls])
        } else {
            says(w, seq![WorkerActionView::AskStillWanted])
        },
        WorkerEvent::StreamsEnded { running } => if running {
            says(
                w,
                seq![
                    WorkerActionView::Emit(
                        EventView::Log("🔄 Route Change Detected! Rebuilding streams..."@),
                    ),
                    WorkerActionView::Sleep { millis: REBUILD_MILLIS },
                    WorkerActionView::AskWanted,
                ],
            )
        } else {
            says(w, seq![WorkerActionView::AskWanted])
        },
        WorkerEvent::Controls { mic_gain_bits, speaker_gain_bits, muted, dtmf } => {
            let set = seq![
                WorkerActionView::UpdateGains { mic_gain_bits, speaker_gain_bits },
                WorkerActionView::SetMute { muted },
            ];
            if dtmf != NO_EVENT {
                goes_on(
                    w,
                    advanced(w.session, BURST_LEN as int, event_duration(BURST_LEN - 1)),
                    (set + paced(burst_of(w.session, dtmf))).push(WorkerActionView::AskAlive),
                )
            } else {
                says(w, set.push(WorkerActionView::Receive))
            }
        },
        WorkerEvent::Packet { data } => says(
            w,
            (if data@.len() > HEADER_LEN {
                seq![WorkerActionView::CountReceived]
            } else {
                seq![]
            }) + (match voice_in(data@) {
                Some(voice) => seq![WorkerActionView::Play { voice }],
                None => seq![],
            }) + seq![WorkerActionView::Receive],
        ),
        WorkerEvent::NoPacket => says(
            w,
            seq![WorkerActionView::ReadMic { samples: FRAME_SAMPLES }],
        ),
        WorkerEvent::MicRead { samples } => if samples@.len() == FRAME_SAMPLES {
            says(w, seq![WorkerActionView::Encode { samples: samples@ }])
        } else {
            says(w, seq![WorkerActionView::AskAlive])
        },
        WorkerEvent::Coded { payload } => if payload@.len() > 0 {
            goes_on(
                w,
                advanced(w.session, 1, FRAME_SAMPLES as int),
                seq![
                    WorkerActionView::SendVoice { frame: voice_frame(w.session, payload@) },
                    WorkerActionView::AskAlive,
                ],
            )
        } else {
            says(w, seq![WorkerActionView::AskAlive])
        },
    }
}

fn say(out: &mut Vec<WorkerAction>, action: WorkerAction)
    ensures
        worker_action_views(final(out)@) == worker_action_views(old(out)@).push(action@),
{
    let ghost before = worker_action_views(out@);
    out.push(action);
    assert(worker_action_views(out@) =~= before.push(action@));
}

fn nothing_said() -> (out: Vec<WorkerAction>)
    ensures
        worker_action_views(out@) == Seq::<WorkerActionView>::empty(),
{
    let out: Vec<WorkerAction> = Vec::new();
    assert(worker_action_views(out@) =~= Seq::<WorkerActionView>::empty());
    out
}

/// Says the packets of a key, each with the pause behind it.
fn say_paced(out: &mut Vec<WorkerAction>, frames: Vec<RtpFrame>)
    ensures
        worker_action_views(final(out)@) == worker_action_views(old(out)@) + paced(
            frame_views(frames@),
        ),
{
    let ghost before = worker_action_views(out@);
    let ghost all = frame_views(frames@);
    assert(all.take(0) =~= Seq::<FrameView>::empty());
    assert(before + Seq::<WorkerActionView>::empty() =~= before);
    let mut i: usize = 0;
    while i < frames.len()
        invariant
            i <= frames.len(),
            all == frame_views(frames@),
            worker_action_views(out@) == before + paced(all.take(i as int)),
        decreases frames.len() - i,
    {
        let frame = frames[i].copy();
        assert(all.take(i + 1).drop_last() =~= all.take(i as int));
        assert(all.take(i + 1).last() == frame@);
        say(out, WorkerAction::SendEvent { frame });
        say(out, WorkerAction::Sleep { millis: EVENT_GAP_MILLIS });
        i += 1;
        assert(worker_action_views(out@) =~= before + paced(all.take(i as int)));
    }
    assert(all.take(all.len() as int) =~= all);
}

impl MediaWorker {
    /// A worker before its first stream. The first event that it takes is
    /// `Wanted`.
    pub fn new(headless: bool) -> (r: Self)
        ensures
            r == (MediaWorker {
                headless,
                session: MediaSession { codec: Codec::Pcma, sequence: 0, timestamp: 0, ssrc: 0 },
            }),
    {
        MediaWorker {
            headless,
            session: MediaSession { codec: Codec::Pcma, sequence: 0, timestamp: 0, ssrc: 0 },
        }
    }

    /// Takes note of an event, and says what to do. What chance has to give to
    /// a stream is drawn here.
    pub fn step(&mut self, event: WorkerEvent) -> (out: Vec<WorkerAction>)
        ensures
            exists|start: StreamStart|
                #[trigger] worker_step(*old(self), event, start) == (WorkerStep {
                    worker: *final(self),
                    actions: worker_action_views(out@),
                }),
    {
        let start = StreamStart {
            sequence: random_u16(),
            timestamp: random_u32(),
            ssrc: random_u32(),
        };
        self.step_with(event, start)
    }

    /// Takes note of an event, and says what to do, where a stream that begins
    /// now begins as `start` says.
    pub fn step_with(&mut self, event: WorkerEvent, start: StreamStart) -> (out: Vec<WorkerAction>)
        ensures
            worker_step(*old(self), event, start) == (WorkerStep {
                worker: *final(self),
                actions: worker_action_views(out@),
            }),
    {
        let mut out = nothing_said();
        match event {
            WorkerEvent::Wanted { running } => {
                if running {
                    if self.headless {
                        say(
                            &mut out,
                            WorkerAction::Emit(
                                UacEvent::Log("👻 Booting Virtual DSP (Headless Mode)".to_string()),
                            ),
                        );
                    } else {
                        say(
                            &mut out,
                            WorkerAction::Emit(
                                UacEvent::Log("🎤 Booting Hardware Audio Engine...".to_string()),
                            ),
                        );
                    }
                    say(&mut out, WorkerAction::BootAdapter { headless: self.headless });
                } else {
                    say(&mut out, WorkerAction::Finish);
                }
            },
            WorkerEvent::AdapterFailed { reason } => {
                let mut text = "⚠️ Hardware Init Fail: ".to_string();
                text.append(reason.as_str());
                say(&mut out, WorkerAction::Emit(UacEvent::Log(text)));
                say(&mut out, WorkerAction::Sleep { millis: BOOT_RETRY_MILLIS });
                say(&mut out, WorkerAction::AskWanted);
            },
            WorkerEvent::AdapterReady { preferred } => {
                let codec = Codec::preferred(&preferred);
                self.session =
                MediaSession {
                    codec,
                    sequence: start.sequence,
                    timestamp: start.timestamp,
                    ssrc: start.ssrc,
                };
                say(&mut out, WorkerAction::SetCodec { codec });
                say(&mut out, WorkerAction::ResetPacer);
                say(&mut out, WorkerAction::AskAlive);
            },
            WorkerEvent::Alive { running, healthy } => {
                if running && healthy {
                    say(&mut out, WorkerAction::WaitPacer);
                    say(&mut out, WorkerAction::TakeControls);
                } else {
                    say(&mut out, WorkerAction::AskStillWanted);
                }
            },
            WorkerEvent::StreamsEnded { running } => {
                if running {
                    say(
                        &mut out,
                        WorkerAction::Emit(
                            UacEvent::Log(
                                "🔄 Route Change Detected! Rebuilding streams...".to_string(),
                            ),
                        ),
                    );
                    say(&mut out, WorkerAction::Sleep { millis: REBUILD_MILLIS });
                }
                say(&mut out, WorkerAction::AskWanted);
            },
            WorkerEvent::Controls { mic_gain_bits, speaker_gain_bits, muted, dtmf } => {
                say(&mut out, WorkerAction::UpdateGains { mic_gain_bits, speaker_gain_bits });
                say(&mut out, WorkerAction::SetMute { muted });
                if dtmf != NO_EVENT {
                    let frames = self.session.dtmf_burst(dtmf);
                    say_paced(&mut out, frames);
                    say(&mut out, WorkerAction::AskAlive);
                } else {
                    say(&mut out, WorkerAction::Receive);
                }
            },
            WorkerEvent::Packet { data } => {
                if data.len() > HEADER_LEN {
                    say(&mut out, WorkerAction::CountReceived);
                    if (data[1] & 0x7f) != EVENT_PAYLOAD_TYPE {
                        let voice = tail_of(&data, HEADER_LEN);
                        say(&mut out, WorkerAction::Play { voice });
                    }
                }
                say(&mut out, WorkerAction::Receive);
                assert(worker_action_views(out@) =~= worker_step(
                    *old(self),
                    event,
                    start,
                ).actions);
            },
            WorkerEvent::NoPacket => {
                say(&mut out, WorkerAction::ReadMic { samples: FRAME_SAMPLES });
            },
            WorkerEvent::MicRead { samples } => {
                if samples.len() == FRAME_SAMPLES {
                    say(&mut out, WorkerAction::Encode { samples });
                } else {
                    say(&mut out, WorkerAction::AskAlive);
                }
            },
            WorkerEvent::Coded { payload } => {
                if let Some(frame) = self.session.audio_frame(payload) {
                    say(&mut out, WorkerAction::SendVoice { frame });
                }
                say(&mut out, WorkerAction::AskAlive);
            },
        }
        out
    }
}

/// The bytes of `data` from `from` on.
fn tail_of(data: &Vec<u8>, from: usize) -> (r: Vec<u8>)
    requires
        from <= data.len(),
    ensures
        r@ == data@.skip(from as int),
{
    let mut r: Vec<u8> = Vec::new();
    let mut i: usize = from;
    while i < data.len()
        invariant
            from <= i <= data.len(),
            r@ == data@.subrange(from as int, i as int),
        decreases data.len() - i,
    {
        r.push(data[i]);
        i += 1;
        assert(r@ =~= data@.subrange(from as int, i as int));
    }
    assert(r@ =~= data@.skip(from as int));
    r
}

/// Whether an action asks for the next event, or ends the worker.
pub open spec fn is_question(action: WorkerActionView) -> bool {
    match action {
        WorkerActionView::AskWanted => true,
        WorkerActionView::BootAdapter { .. } => true,
        WorkerActionView::AskAlive => true,
        WorkerActionView::TakeControls => true,
        WorkerActionView::Receive => true,
        WorkerActionView::ReadMic { .. } => true,
        WorkerActionView::Encode { .. } => true,
        WorkerActionView::AskStillWanted => true,
        WorkerActionView::Finish => true,
        _ => false,
    }
}

proof fn lemma_paced(frames: Seq<FrameView>)
    ensures
        paced(frames).len() == 2 * frames.len(),
        forall|i: int| 0 <= i < paced(frames).len() ==> !is_question(#[trigger] paced(frames)[i]),
        packets_in(paced(frames)) == frames,
    decreases frames.len(),
{
    if frames.len() > 0 {
        let head = frames.drop_last();
        lemma_paced(head);
        let sent = paced(head).push(WorkerActionView::SendEvent { frame: frames.last() });
        assert(paced(frames).drop_last() =~= sent);
        assert(sent.drop_last() =~= paced(head));
        assert(packets_in(sent) == head.push(frames.last()));
        assert(paced(frames).last() == WorkerActionView::Sleep { millis: EVENT_GAP_MILLIS });
        assert(packets_in(paced(frames)) == packets_in(sent));
        assert(head.push(frames.last()) =~= frames);
    } else {
        assert(frames =~= seq![]);
        assert(packets_in(paced(frames)) =~= frames);
    }
}

/// The packets that actions send.
pub open spec fn packets_in(actions: Seq<WorkerActionView>) -> Seq<FrameView>
    decreases actions.len(),
{
    if actions.len() == 0 {
        seq![]
    } else {
        let before = packets_in(actions.drop_last());
        match actions.last() {
            WorkerActionView::SendEvent { frame } => before.push(frame),
            WorkerActionView::SendVoice { frame } => before.push(frame),
            _ => before,
        }
    }
}

/// Every step ends in a question, and asks no other.
pub proof fn one_question_each_step(w: MediaWorker, event: WorkerEvent, start: StreamStart)
    ensures
        ({
            let said = worker_step(w, event, start).actions;
            &&& said.len() > 0
            &&& is_question(said.last())
            &&& forall|i: int| 0 <= i < said.len() - 1 ==> !is_question(#[trigger] said[i])
        }),
{
    if let WorkerEvent::Controls { dtmf, .. } = event {
        lemma_paced(burst_of(w.session, dtmf));
    }
}

proof fn lemma_no_packets(actions: Seq<WorkerActionView>)
    requires
        forall|i: int|
            0 <= i < actions.len() ==> !(#[trigger] actions[i] is SendEvent)
                && !(actions[i] is SendVoice),
    ensures
        packets_in(actions) == Seq::<FrameView>::empty(),
    decreases actions.len(),
{
    if actions.len() > 0 {
        assert(!(actions[actions.len() - 1] is SendEvent));
        assert forall|i: int| 0 <= i < actions.drop_last().len() implies !(
        #[trigger] actions.drop_last()[i] is SendEvent) && !(actions.drop_last()[i] is SendVoice) by {
            assert(actions.drop_last()[i] == actions[i]);
        }
        lemma_no_packets(actions.drop_last());
    }
}

proof fn lemma_packets_add(a: Seq<WorkerActionView>, b: Seq<WorkerActionView>)
    ensures
        packets_in(a + b) == packets_in(a) + packets_in(b),
    decreases b.len(),
{
    if b.len() == 0 {
        assert(a + b =~= a);
        assert(packets_in(a) + packets_in(b) =~= packets_in(a));
    } else {
        lemma_packets_add(a, b.drop_last());
        assert((a + b).drop_last() =~= a + b.drop_last());
        assert((a + b).last() == b.last());
        assert(packets_in(a + b) =~= packets_in(a) + packets_in(b));
    }
}

/// The packets of a stream are numbered in a row and bear its name: those that
/// a step sends follow the ones sent before, and the next step goes on behind
/// them. Only a stream that is set up begins anew.
pub proof fn packets_are_numbered_in_a_row(
    w: MediaWorker,
    event: WorkerEvent,
    start: StreamStart,
    i: int,
)
    requires
        !(event is AdapterReady),
    ensures
        ({
            let next = worker_step(w, event, start);
            let sent = packets_in(next.actions);
            &&& 0 <= i < sent.len() ==> {
                &&& sent[i].sequence == later(w.session.sequence, i)
                &&& sent[i].ssrc == w.session.ssrc
                &&& sent[i].timestamp == w.session.timestamp
            }
            &&& next.worker.session.sequence == later(w.session.sequence, sent.len() as int)
            &&& next.worker.session.ssrc == w.session.ssrc
            &&& next.worker.session.codec == w.session.codec
            &&& sent.len() == 0 ==> next.worker == w
        }),
{
    let next = worker_step(w, event, start);
    match event {
        WorkerEvent::Controls { mic_gain_bits, speaker_gain_bits, muted, dtmf } => {
            let set = seq![
                WorkerActionView::UpdateGains { mic_gain_bits, speaker_gain_bits },
                WorkerActionView::SetMute { muted },
            ];
            lemma_no_packets(set);
            if dtmf != NO_EVENT {
                let keys = paced(burst_of(w.session, dtmf));
                lemma_paced(burst_of(w.session, dtmf));
                lemma_packets_add(set, keys);
                assert(next.actions.drop_last() =~= set + keys);
                assert(packets_in(next.actions) =~= burst_of(w.session, dtmf));
            } else {
                lemma_no_packets(next.actions);
            }
        },
        WorkerEvent::Coded { payload } => {
            if payload@.len() > 0 {
                let sent = seq![
                    WorkerActionView::SendVoice { frame: voice_frame(w.session, payload@) },
                ];
                assert(next.actions.drop_last() =~= sent);
                assert(sent.drop_last() =~= seq![]);
                assert(packets_in(sent.drop_last()) == Seq::<FrameView>::empty());
                assert(packets_in(sent) =~= seq![voice_frame(w.session, payload@)]);
                assert(packets_in(next.actions) == packets_in(sent));
            } else {
                lemma_no_packets(next.actions);
            }
        },
        _ => {
            lemma_no_packets(next.actions);
        },
    }
}

/// What of the second byte of a packet is its payload type.
proof fn lemma_payload_type(b: u8)
    ensures
        b & 0x7f == b % 128,
{
    assert(b & 0x7f == b % 128) by (bit_vector);
}

/// The sound of a received packet is played as it came, whatever codec the
/// packet says and whatever else its header holds. A telephone event is counted
/// and not played.
pub proof fn received_sound_is_played(
    w: MediaWorker,
    header: Seq<u8>,
    payload: Seq<u8>,
    data: Vec<u8>,
    start: StreamStart,
)
    requires
        header.len() == 12,
        payload.len() > 0,
        data@ == header + payload,
    ensures
        ({
            let next = worker_step(w, WorkerEvent::Packet { data }, start);
            &&& next.worker == w
            &&& header[1] % 128 != 101 ==> next.actions == seq![
                WorkerActionView::CountReceived,
                WorkerActionView::Play { voice: payload },
                WorkerActionView::Receive,
            ]
            &&& header[1] % 128 == 101 ==> next.actions == seq![
                WorkerActionView::CountReceived,
                WorkerActionView::Receive,
            ]
        }),
{
    lemma_payload_type(header[1]);
    assert(data@[1] == header[1]);
    assert(data@.skip(12) =~= payload);
}

/// What either codec sends, a worker of any codec plays, with the marker bit or
/// without.
pub proof fn sound_of_either_codec_is_played(
    w: MediaWorker,
    sender: MediaWorker,
    header: Seq<u8>,
    payload: Seq<u8>,
    coded: Vec<u8>,
    data: Vec<u8>,
    start: StreamStart,
)
    requires
        coded@ == payload,
        payload.len() > 0,
        header.len() == 12,
        data@ == header + payload,
        ({
            let sent = worker_step(sender, WorkerEvent::Coded { payload: coded }, start).actions[0];
            header[1] % 128 == sent->SendVoice_frame.payload_type
        }),
    ensures
        worker_step(w, WorkerEvent::Packet { data }, start).actions == seq![
            WorkerActionView::CountReceived,
            WorkerActionView::Play { voice: payload },
            WorkerActionView::Receive,
        ],
{
    received_sound_is_played(w, header, payload, data, start);
}

/// A packet without payload is passed over, and the next one is asked for.
pub proof fn a_packet_without_payload_is_passed_over(
    w: MediaWorker,
    data: Vec<u8>,
    start: StreamStart,
)
    requires
        data@.len() <= 12,
    ensures
        worker_step(w, WorkerEvent::Packet { data }, start) == (WorkerStep {
            worker: w,
            actions: seq![WorkerActionView::Receive],
        }),
{
}

/// Once no packet waits, twenty milliseconds of sound are read from the
/// microphone. A whole frame is coded, and what is coded is sent: as it is,
/// under the payload type of the codec, numbered behind the last packet. The
/// next one is a frame later. Anything less is not sent.
pub proof fn the_microphone_is_sent(
    w: MediaWorker,
    samples: Vec<i16>,
    payload: Vec<u8>,
    start: StreamStart,
)
    ensures
        worker_step(w, WorkerEvent::NoPacket, start) == (WorkerStep {
            worker: w,
            actions: seq![WorkerActionView::ReadMic { samples: 160 }],
        }),
        worker_step(w, WorkerEvent::MicRead { samples }, start) == (WorkerStep {
            worker: w,
            actions: if samples@.len() == 160 {
                seq![WorkerActionView::Encode { samples: samples@ }]
            } else {
                seq![WorkerActionView::AskAlive]
            },
        }),
        payload@.len() == 0 ==> worker_step(w, WorkerEvent::Coded { payload }, start) == (
        WorkerStep { worker: w, actions: seq![WorkerActionView::AskAlive] }),
        payload@.len() > 0 ==> ({
            let next = worker_step(w, WorkerEvent::Coded { payload }, start);
            let frame = next.actions[0]->SendVoice_frame;
            &&& next.actions == seq![
                WorkerActionView::SendVoice { frame },
                WorkerActionView::AskAlive,
            ]
            &&& frame.payload_type == (match w.session.codec {
                Codec::Pcmu => 0u8,
                Codec::Pcma => 8u8,
            })
            &&& frame.sequence == w.session.sequence
            &&& frame.timestamp == w.session.timestamp
            &&& frame.ssrc == w.session.ssrc
            &&& frame.payload == payload@
            &&& next.worker.headless == w.headless
            &&& next.worker.session.codec == w.session.codec
            &&& next.worker.session.ssrc == w.session.ssrc
            &&& next.worker.session.sequence as int == (w.session.sequence + 1) % 65_536
            &&& next.worker.session.timestamp as int == (w.session.timestamp + 160)
                % 4_294_967_296
        }),
{
}

/// The adapter is set up as the worker was made, and again until it works;
/// when the media is not to run, the worker ends.
pub proof fn the_adapter_is_set_up_while_it_is_wanted(
    w: MediaWorker,
    reason: String,
    start: StreamStart,
)
    ensures
        worker_step(w, WorkerEvent::Wanted { running: true }, start) == (WorkerStep {
            worker: w,
            actions: seq![
                WorkerActionView::Emit(
                    EventView::Log(
                        if w.headless {
                            "👻 Booting Virtual DSP (Headless Mode)"@
                        } else {
                            "🎤 Booting Hardware Audio Engine..."@
                        },
                    ),
                ),
                WorkerActionView::BootAdapter { headless: w.headless },
            ],
        }),
        worker_step(w, WorkerEvent::Wanted { running: false }, start) == (WorkerStep {
            worker: w,
            actions: seq![WorkerActionView::Finish],
        }),
        worker_step(w, WorkerEvent::AdapterFailed { reason }, start) == (WorkerStep {
            worker: w,
            actions: seq![
                WorkerActionView::Emit(EventView::Log("⚠️ Hardware Init Fail: "@ + reason@)),
                WorkerActionView::Sleep { millis: 1000 },
                WorkerActionView::AskWanted,
            ],
        }),
{
}

/// A stream begins with the codec that is preferred by name, `PCMU` or else the
/// other one, and with numbers drawn by chance.
pub proof fn a_stream_begins_with_the_preferred_codec(
    w: MediaWorker,
    preferred: Option<String>,
    start: StreamStart,
)
    ensures
        ({
            let next = worker_step(w, WorkerEvent::AdapterReady { preferred }, start);
            let codec = next.worker.session.codec;
            &&& codec == Codec::Pcmu <==> preferred is Some && preferred->0@ == "PCMU"@
            &&& next.actions == seq![
                WorkerActionView::SetCodec { codec },
                WorkerActionView::ResetPacer,
                WorkerActionView::AskAlive,
            ]
            &&& next.worker.headless == w.headless
            &&& next.worker.session.sequence == start.sequence
            &&& next.worker.session.timestamp == start.timestamp
            &&& next.worker.session.ssrc == start.ssrc
        }),
{
}

/// While the media is to run and the adapter works, the worker goes on beat by
/// beat; otherwise the streams end. They are set up again where the media is
/// still to run.
pub proof fn the_streams_last_while_all_is_well(
    w: MediaWorker,
    running: bool,
    healthy: bool,
    start: StreamStart,
)
    ensures
        worker_step(w, WorkerEvent::Alive { running, healthy }, start) == (WorkerStep {
            worker: w,
            actions: if running && healthy {
                seq![WorkerActionView::WaitPacer, WorkerActionView::TakeControls]
            } else {
                seq![WorkerActionView::AskStillWanted]
            },
        }),
        worker_step(w, WorkerEvent::StreamsEnded { running }, start) == (WorkerStep {
            worker: w,
            actions: if running {
                seq![
                    WorkerActionView::Emit(
                        EventView::Log("🔄 Route Change Detected! Rebuilding streams..."@),
                    ),
                    WorkerActionView::Sleep { millis: 150 },
                    WorkerActionView::AskWanted,
                ]
            } else {
                seq![WorkerActionView::AskWanted]
            },
        }),
{
}

proof fn lemma_paced_at(frames: Seq<FrameView>, i: int)
    requires
        0 <= i < frames.len(),
    ensures
        paced(frames).len() == 2 * frames.len(),
        paced(frames)[2 * i] == (WorkerActionView::SendEvent { frame: frames[i] }),
        paced(frames)[2 * i + 1] == (WorkerActionView::Sleep { millis: EVENT_GAP_MILLIS }),
    decreases frames.len(),
{
    lemma_paced(frames.drop_last());
    if i < frames.len() - 1 {
        lemma_paced_at(frames.drop_last(), i);
    }
}

/// The controls are handed to the adapter as they are. Without a key, packets
/// are received next.
pub proof fn the_controls_reach_the_adapter(
    w: MediaWorker,
    mic_gain_bits: u32,
    speaker_gain_bits: u32,
    muted: bool,
    dtmf: u8,
    start: StreamStart,
)
    ensures
        ({
            let next = worker_step(
                w,
                WorkerEvent::Controls { mic_gain_bits, speaker_gain_bits, muted, dtmf },
                start,
            );
            &&& next.actions[0] == WorkerActionView::UpdateGains {
                mic_gain_bits,
                speaker_gain_bits,
            }
            &&& next.actions[1] == WorkerActionView::SetMute { muted }
            &&& dtmf == 255 ==> {
                &&& next.worker == w
                &&& next.actions.len() == 3
                &&& next.actions[2] == WorkerActionView::Receive
            }
        }),
{
    if dtmf != NO_EVENT {
        lemma_paced(burst_of(w.session, dtmf));
    }
}

/// A key is sent in five packets, twenty milliseconds apart, with nothing in
/// between: each says the key and how long it has lasted, twenty milliseconds
/// more than the one before, and the last says that it ended. They are numbered
/// in a row under one timestamp; the sound behind them begins when the key has
/// ended.
pub proof fn a_key_is_sent_in_five_packets(
    w: MediaWorker,
    mic_gain_bits: u32,
    speaker_gain_bits: u32,
    muted: bool,
    dtmf: u8,
    start: StreamStart,
    i: int,
)
    requires
        dtmf != 255,
        0 <= i < 5,
    ensures
        ({
            let next = worker_step(
                w,
                WorkerEvent::Controls { mic_gain_bits, speaker_gain_bits, muted, dtmf },
                start,
            );
            let frame = next.actions[2 + 2 * i]->SendEvent_frame;
            &&& next.actions.len() == 13
            &&& next.actions[2 + 2 * i] == WorkerActionView::SendEvent { frame }
            &&& next.actions[3 + 2 * i] == WorkerActionView::Sleep { millis: 20 }
            &&& next.actions[12] == WorkerActionView::AskAlive
            &&& frame.payload_type == 101
            &&& frame.sequence as int == (w.session.sequence + i) % 65_536
            &&& frame.timestamp == w.session.timestamp
            &&& frame.ssrc == w.session.ssrc
            &&& frame.payload.len() == 4
            &&& frame.payload[0] == dtmf
            &&& frame.payload[1] == (if i == 4 {
                138u8
            } else {
                10u8
            })
            &&& frame.payload[2] * 256 + frame.payload[3] == 160 * (i + 1)
            &&& next.worker.headless == w.headless
            &&& next.worker.session.codec == w.session.codec
            &&& next.worker.session.ssrc == w.session.ssrc
            &&& next.worker.session.sequence as int == (w.session.sequence + 5) % 65_536
            &&& next.worker.session.timestamp as int == (w.session.timestamp + 800)
                % 4_294_967_296
        }),
{
    let frames = burst_of(w.session, dtmf);
    lemma_paced_at(frames, i);
    let next = worker_step(
        w,
        WorkerEvent::Controls { mic_gain_bits, speaker_gain_bits, muted, dtmf },
        start,
    );
    assert(next.actions[2 + 2 * i] == paced(frames)[2 * i]);
    assert(next.actions[3 + 2 * i] == paced(frames)[2 * i + 1]);
    assert(next.actions[2 + 2 * i]->SendEvent_frame == frames[i]);
}

/// A worker is headless as it was made.
pub proof fn a_worker_begins_as_it_was_made(headless: bool, r: MediaWorker)
    requires
        call_ensures(MediaWorker::new, (headless,), r),
    ensures
        r.headless == headless,
{
}

} // verus!
