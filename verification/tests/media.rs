use telecom_client::media::hardware::{
    choose_input, plan_mic_read, InputChoice, InputRange, MicRead,
};
use telecom_client::media::{HeadlessAdapter, MediaAdapter};
use telecom_client::rtp_engine::{
    dtmf_event, Codec, MediaSession, RtpEngine, DEFAULT_MIC_GAIN_BITS, DEFAULT_SPEAKER_GAIN_BITS,
    NO_EVENT,
};
use telecom_client::worker::{MediaWorker, StreamStart, WorkerAction, WorkerEvent};
use telecom_client::UacEvent;

fn range(channels: u16, min_rate: u32, max_rate: u32) -> InputRange {
    InputRange { channels, min_rate, max_rate }
}

const START: StreamStart = StreamStart { sequence: 65534, timestamp: 4294967295, ssrc: 77 };

#[test]
fn headless_reads_noise_or_silence() {
    let mut adapter = HeadlessAdapter::new();
    assert_eq!(adapter.read_mic(3), vec![1000, 1000, 1000]);
    adapter.set_mute(true);
    assert_eq!(adapter.read_mic(2), vec![0, 0]);
    adapter.update_gains(0, 0);
    adapter.write_spk(&[1, 2]);
    adapter.set_mute(false);
    assert_eq!(adapter.read_mic(1), vec![1000]);
    assert!(adapter.read_mic(0).is_empty());
    assert!(adapter.is_healthy());
}

#[test]
fn the_input_is_chosen_by_rank() {
    let stereo = range(2, 8000, 48000);
    let fast = range(1, 44100, 48000);
    let good = range(1, 16000, 16000);
    assert_eq!(choose_input(&[stereo, fast, good, good]), InputChoice::Preferred(2));
    assert_eq!(choose_input(&[stereo, fast, fast]), InputChoice::Highest(1));
    assert_eq!(choose_input(&[range(1, 8000, 15999)]), InputChoice::Highest(0));
    assert_eq!(choose_input(&[stereo]), InputChoice::DeviceDefault);
    assert_eq!(choose_input(&[]), InputChoice::DeviceDefault);
}

#[test]
fn a_read_waits_for_a_whole_frame() {
    assert_eq!(plan_mic_read(true, 1000, 320), MicRead::Silence);
    assert_eq!(plan_mic_read(false, 319, 320), MicRead::Nothing);
    assert_eq!(plan_mic_read(false, 320, 320), MicRead::Frame);
}

#[test]
fn default_gains_are_these() {
    assert_eq!(f32::from_bits(DEFAULT_MIC_GAIN_BITS), 1.0);
    assert_eq!(f32::from_bits(DEFAULT_SPEAKER_GAIN_BITS), 1.2);
    let engine = RtpEngine::new(true);
    assert_eq!(engine.mic_gain_bits, 1.0f32.to_bits());
    assert_eq!(engine.speaker_gain_bits, 1.2f32.to_bits());
    assert!(engine.headless_mode && !engine.is_running && !engine.is_muted);
    assert_eq!((engine.rx_count, engine.tx_count, engine.dtmf_queue), (0, 0, 255));
}

#[test]
fn keys_have_their_events() {
    let keys = "0123456789*#ABCD";
    for (i, key) in keys.chars().enumerate() {
        assert_eq!(dtmf_event(key) as usize, i);
    }
    for key in ['a', 'E', ' ', '\u{660}', '\u{130}', '/'] {
        assert_eq!(dtmf_event(key), NO_EVENT);
    }
}

#[test]
fn controls_are_kept() {
    let mut engine = RtpEngine::new(false);
    engine.trigger_dtmf('x');
    assert_eq!(engine.take_dtmf(), None);
    engine.trigger_dtmf('5');
    engine.trigger_dtmf('#');
    engine.trigger_dtmf('x');
    assert_eq!(engine.take_dtmf(), Some(11));
    assert_eq!(engine.take_dtmf(), None);
    engine.update_gains(5, 6);
    engine.set_mute(true);
    assert_eq!((engine.mic_gain_bits, engine.speaker_gain_bits, engine.is_muted), (5, 6, true));
    assert!(engine.start());
    assert!(!engine.start());
    assert!(engine.is_running);
    engine.stop();
    assert!(engine.start());
    engine.count_received();
    engine.count_sent();
    engine.count_sent();
    assert_eq!((engine.rx_count, engine.tx_count), (1, 2));
    engine.reset_stats();
    assert_eq!((engine.rx_count, engine.tx_count), (0, 0));
    engine.rx_count = u64::MAX;
    engine.count_received();
    assert_eq!(engine.rx_count, 0);
}

#[test]
fn a_panic_stops_the_media() {
    let mut engine = RtpEngine::new(false);
    engine.start();
    assert_eq!(
        RtpEngine::worker_panicked(Some("boom")),
        UacEvent::Error("☠️ RTP Panicked: boom".to_string())
    );
    assert!(engine.is_running);
    engine.stop();
    assert!(!engine.is_running);
    assert_eq!(
        RtpEngine::worker_panicked(None),
        UacEvent::Error("☠️ RTP Panicked: Unknown panic".to_string())
    );
}

#[test]
fn codecs_are_named() {
    assert_eq!(Codec::preferred(&Some("PCMU".to_string())), Codec::Pcmu);
    assert_eq!(Codec::preferred(&Some("pcmu".to_string())), Codec::Pcma);
    assert_eq!(Codec::preferred(&None), Codec::Pcma);
    assert_eq!((Codec::Pcmu.payload_type(), Codec::Pcma.payload_type()), (0, 8));
}

#[test]
fn a_key_is_five_packets() {
    let mut session =
        MediaSession { codec: Codec::Pcmu, sequence: 65534, timestamp: 4294967295, ssrc: 77 };
    let frames = session.dtmf_burst(7);
    let sequences: Vec<u16> = frames.iter().map(|f| f.sequence).collect();
    assert_eq!(sequences, vec![65534, 65535, 0, 1, 2]);
    let payloads: Vec<Vec<u8>> = frames.iter().map(|f| f.payload.clone()).collect();
    assert_eq!(
        payloads,
        vec![
            vec![7, 10, 0, 160],
            vec![7, 10, 1, 64],
            vec![7, 10, 1, 224],
            vec![7, 10, 2, 128],
            vec![7, 138, 3, 32],
        ]
    );
    assert!(frames
        .iter()
        .all(|f| f.payload_type == 101 && f.timestamp == 4294967295 && f.ssrc == 77));
    assert_eq!((session.sequence, session.timestamp), (3, 799));
    let next = session.audio_frame(vec![1, 2]).unwrap();
    assert_eq!((next.payload_type, next.sequence, next.timestamp), (0, 3, 799));
    assert_eq!((session.sequence, session.timestamp), (4, 959));
    assert_eq!(session.audio_frame(vec![]), None);
    assert_eq!((session.sequence, session.timestamp), (4, 959));
}

#[test]
fn the_worker_boots_until_the_adapter_works() {
    let mut w = MediaWorker::new(false);
    assert_eq!(
        w.step_with(WorkerEvent::Wanted { running: true }, START),
        vec![
            WorkerAction::Emit(UacEvent::Log("🎤 Booting Hardware Audio Engine...".into())),
            WorkerAction::BootAdapter { headless: false },
        ]
    );
    assert_eq!(
        w.step_with(WorkerEvent::AdapterFailed { reason: "No input device".into() }, START),
        vec![
            WorkerAction::Emit(UacEvent::Log("⚠️ Hardware Init Fail: No input device".into())),
            WorkerAction::Sleep { millis: 1000 },
            WorkerAction::AskWanted,
        ]
    );
    assert_eq!(
        w.step_with(WorkerEvent::AdapterReady { preferred: Some("PCMU".into()) }, START),
        vec![
            WorkerAction::SetCodec { codec: Codec::Pcmu },
            WorkerAction::ResetPacer,
            WorkerAction::AskAlive,
        ]
    );
    assert_eq!(w.session.sequence, 65534);
    assert_eq!(
        w.step_with(WorkerEvent::Wanted { running: false }, START),
        vec![WorkerAction::Finish]
    );
    let mut w = MediaWorker::new(true);
    assert_eq!(
        w.step_with(WorkerEvent::Wanted { running: true }, START)[0],
        WorkerAction::Emit(UacEvent::Log("👻 Booting Virtual DSP (Headless Mode)".into()))
    );
}

#[test]
fn the_worker_sends_and_receives_on_each_beat() {
    let mut w = MediaWorker::new(true);
    w.step_with(WorkerEvent::AdapterReady { preferred: None }, START);
    assert_eq!(
        w.step(WorkerEvent::Alive { running: true, healthy: true }),
        vec![WorkerAction::WaitPacer, WorkerAction::TakeControls]
    );
    let controls = |dtmf: u8| WorkerEvent::Controls {
        mic_gain_bits: 1,
        speaker_gain_bits: 2,
        muted: true,
        dtmf,
    };
    assert_eq!(
        w.step(controls(255)),
        vec![
            WorkerAction::UpdateGains { mic_gain_bits: 1, speaker_gain_bits: 2 },
            WorkerAction::SetMute { muted: true },
            WorkerAction::Receive,
        ]
    );
    let mut packet = vec![0x80, 0x88];
    packet.extend_from_slice(&[0; 10]);
    assert_eq!(
        w.step(WorkerEvent::Packet { data: packet.clone() }),
        vec![WorkerAction::Receive]
    );
    packet.push(42);
    assert_eq!(
        w.step(WorkerEvent::Packet { data: packet.clone() }),
        vec![
            WorkerAction::CountReceived,
            WorkerAction::Play { voice: vec![42] },
            WorkerAction::Receive,
        ]
    );
    packet[1] = 0x80 | 101;
    assert_eq!(
        w.step(WorkerEvent::Packet { data: packet }),
        vec![WorkerAction::CountReceived, WorkerAction::Receive]
    );
    assert_eq!(w.step(WorkerEvent::NoPacket), vec![WorkerAction::ReadMic { samples: 160 }]);
    assert_eq!(
        w.step(WorkerEvent::MicRead { samples: vec![5; 159] }),
        vec![WorkerAction::AskAlive]
    );
    assert_eq!(
        w.step(WorkerEvent::MicRead { samples: vec![5; 160] }),
        vec![WorkerAction::Encode { samples: vec![5; 160] }]
    );
    assert_eq!(w.step(WorkerEvent::Coded { payload: vec![] }), vec![WorkerAction::AskAlive]);
    let said = w.step(WorkerEvent::Coded { payload: vec![9] });
    match &said[..] {
        [WorkerAction::SendVoice { frame }, WorkerAction::AskAlive] => {
            assert_eq!((frame.payload_type, frame.sequence, frame.ssrc), (8, 65534, 77));
            assert_eq!(frame.payload, vec![9]);
        }
        other => panic!("{:?}", other),
    }
    let said = w.step(controls(3));
    assert_eq!(said.len(), 13);
    assert!(matches!(&said[2], WorkerAction::SendEvent { frame } if frame.sequence == 65535));
    assert_eq!(said[3], WorkerAction::Sleep { millis: 20 });
    assert!(matches!(&said[10], WorkerAction::SendEvent { frame } if frame.sequence == 3));
    assert_eq!(said[12], WorkerAction::AskAlive);
}

#[test]
fn the_worker_rebuilds_while_it_is_wanted() {
    let mut w = MediaWorker::new(true);
    assert_eq!(
        w.step(WorkerEvent::Alive { running: true, healthy: false }),
        vec![WorkerAction::AskStillWanted]
    );
    assert_eq!(
        w.step(WorkerEvent::Alive { running: false, healthy: true }),
        vec![WorkerAction::AskStillWanted]
    );
    assert_eq!(
        w.step(WorkerEvent::StreamsEnded { running: true }),
        vec![
            WorkerAction::Emit(UacEvent::Log(
                "🔄 Route Change Detected! Rebuilding streams...".into()
            )),
            WorkerAction::Sleep { millis: 150 },
            WorkerAction::AskWanted,
        ]
    );
    assert_eq!(
        w.step(WorkerEvent::StreamsEnded { running: false }),
        vec![WorkerAction::AskWanted]
    );
}

#[test]
fn drawn_streams_begin_anywhere() {
    let mut names = Vec::new();
    for _ in 0..4 {
        let mut w = MediaWorker::new(true);
        w.step(WorkerEvent::AdapterReady { preferred: None });
        names.push((w.session.sequence, w.session.timestamp, w.session.ssrc));
    }
    assert!(names.iter().any(|n| *n != names[0]));
}
