//! Client side of a SIP telephone: signalling, media control and NAT discovery.

use vstd::prelude::*;

pub mod action;
mod ambient;
pub mod auth;
pub mod dialogue;
pub mod engine;
pub mod laws;
pub mod media;
pub mod rtp_engine;
pub mod sdp;
pub mod session;
pub mod sip;
pub mod stun;
pub mod telemetry;
pub mod text;
pub mod utils;
pub mod worker;

verus! {

/// What the client tells its user.
#[derive(Debug, Clone, PartialEq, Eq)]
pub enum UacEvent {
    Log(String),
    CallStateChanged(CallState),
    MediaActive,
    RtpStats { rx_cnt: u64, tx_cnt: u64 },
    Error(String),
    CallIdGenerated(String),
    IncomingCall { from: String, call_id: String },
}

/// What a `UacEvent` says.
pub enum EventView {
    Log(Seq<char>),
    CallStateChanged(CallState),
    MediaActive,
    RtpStats { rx_cnt: u64, tx_cnt: u64 },
    Error(Seq<char>),
    CallIdGenerated(Seq<char>),
    IncomingCall { from: Seq<char>, call_id: Seq<char> },
}

impl View for UacEvent {
    type V = EventView;

    open spec fn view(&self) -> EventView {
        match self {
            UacEvent::Log(text) => EventView::Log(text@),
            UacEvent::CallStateChanged(state) => EventView::CallStateChanged(*state),
            UacEvent::MediaActive => EventView::MediaActive,
            UacEvent::RtpStats { rx_cnt, tx_cnt } => EventView::RtpStats {
                rx_cnt: *rx_cnt,
                tx_cnt: *tx_cnt,
            },
            UacEvent::Error(text) => EventView::Error(text@),
            UacEvent::CallIdGenerated(id) => EventView::CallIdGenerated(id@),
            UacEvent::IncomingCall { from, call_id } => EventView::IncomingCall {
                from: from@,
                call_id: call_id@,
            },
        }
    }
}

/// Where the client stands.
#[derive(Debug, Clone, Copy, PartialEq, Eq, Structural)]
pub enum CallState {
    Idle,
    /// Trying to register.
    Registering,
    /// Registered with success.
    Registered,
    /// The credentials were refused.
    AuthFailed,
    Dialing,
    Ringing,
    /// A call waits to be accepted or rejected.
    Incoming,
    Connected,
    Terminated,
}

/// What the user asks of the client.
#[derive(Debug)]
pub enum ClientCommand {
    Register { target_ip: String, target_port: u16, user: String, password: String },
    StartCall { target_ip: String, target_port: u16, to_user: String, from_user: String },
    AcceptCall,
    RejectCall,
    EndCall,
    /// The gains are given by the bits of numbers of single precision.
    UpdateSettings { mic_gain_bits: u32, speaker_gain_bits: u32, enable_aec: bool },
    SendDtmf { key: char },
    SetMute { muted: bool },
}

} // verus!
