//! What the engine is told, and what it wants done.

use vstd::prelude::*;

use crate::sip::{
    header_views, Answered, Endpoint, EndpointView, Header, HeaderView, IncomingRequest,
    IncomingResponse, ReplyKind, RequestView, SipRequest,
};
use crate::telemetry::{RecordView, TelemetryRecord};
use crate::utils::text_of;
use crate::{EventView, UacEvent};

verus! {

/// Something that happened. Where a request may be sent in answer, `branch`
/// names its transaction.
#[derive(Debug)]
pub enum EngineInput {
    /// The address of the device in its network is known.
    LocalIp { ip: String },
    /// The socket of the signalling is bound, to the port of SIP or to any.
    SipBound { port: u16, ephemeral: bool },
    /// The socket of the signalling could not be bound.
    SipBindFailed { reason: String },
    /// The socket of the media is bound.
    RtpBound { port: u16 },
    /// The socket of the media could not be bound.
    RtpBindFailed { reason: String },
    /// The discovery of the public address ended, with an address or without.
    StunDone { public: Option<(String, u16)> },
    /// The user wants to register with the server at `target`.
    Register {
        target: Endpoint,
        target_ip: String,
        user: String,
        password: String,
        branch: String,
    },
    /// The user wants to call. `lan_ip` is the address from which the target
    /// is reached, where that could be found out; `at` is the time in
    /// nanoseconds.
    StartCall {
        target: Endpoint,
        target_ip: String,
        target_port: u16,
        to_user: String,
        from_user: String,
        lan_ip: Option<String>,
        branch: String,
        at: u64,
    },
    /// The user accepts the call that waits. `ok_to` is the `To` header of the
    /// answer that is prepared for it.
    AcceptCall { ok_to: Option<String> },
    /// The user rejects the call that waits.
    RejectCall,
    /// The user hangs up.
    EndCall { branch: String },
    /// The user sets the gains.
    UpdateSettings { mic_gain_bits: u32, speaker_gain_bits: u32 },
    /// The user presses a key.
    SendDtmf { key: char },
    /// The user silences the microphone, or stops silencing it.
    SetMute { muted: bool },
    /// A request came.
    Request { request: IncomingRequest, src: Endpoint },
    /// A response came.
    Response { response: IncomingResponse, src: Endpoint, branch: String },
    /// The target of the media turned out to be a socket address.
    MediaResolved { target: String },
    /// It is time to send again what was not answered; `at` is the time in
    /// nanoseconds.
    RetransmitTick { at: u64 },
    /// It is time to keep the way through the network open.
    KeepaliveTick,
    /// It is time to report the counters of the media.
    StatsTick { rx: u64, tx: u64 },
}

/// What has to be found out before a command of the user becomes an input of
/// the same name: whether `address` is a socket address, a branch for the
/// request that may be sent, and what else the input holds.
#[derive(Debug)]
pub enum CommandPlan {
    /// The command comes to nothing.
    Nothing,
    Register { address: String, target_ip: String, user: String, password: String },
    StartCall {
        address: String,
        target_ip: String,
        target_port: u16,
        to_user: String,
        from_user: String,
    },
    AcceptCall,
    RejectCall,
    EndCall,
    UpdateSettings { mic_gain_bits: u32, speaker_gain_bits: u32 },
    SendDtmf { key: char },
    SetMute { muted: bool },
}

/// What a `CommandPlan` says.
pub enum PlanView {
    Nothing,
    Register {
        address: Seq<char>,
        target_ip: Seq<char>,
        user: Seq<char>,
        password: Seq<char>,
    },
    StartCall {
        address: Seq<char>,
        target_ip: Seq<char>,
        target_port: u16,
        to_user: Seq<char>,
        from_user: Seq<char>,
    },
    AcceptCall,
    RejectCall,
    EndCall,
    UpdateSettings { mic_gain_bits: u32, speaker_gain_bits: u32 },
    SendDtmf { key: char },
    SetMute { muted: bool },
}

impl View for CommandPlan {
    type V = PlanView;

    open spec fn view(&self) -> PlanView {
        match self {
            CommandPlan::Nothing => PlanView::Nothing,
            CommandPlan::Register { address, target_ip, user, password } => PlanView::Register {
                address: address@,
                target_ip: target_ip@,
                user: user@,
                password: password@,
            },
            CommandPlan::StartCall { address, target_ip, target_port, to_user, from_user } => {
                PlanView::StartCall {
                    address: address@,
                    target_ip: target_ip@,
                    target_port: *target_port,
                    to_user: to_user@,
                    from_user: from_user@,
                }
            },
            CommandPlan::AcceptCall => PlanView::AcceptCall,
            CommandPlan::RejectCall => PlanView::RejectCall,
            CommandPlan::EndCall => PlanView::EndCall,
            CommandPlan::UpdateSettings { mic_gain_bits, speaker_gain_bits } => {
                PlanView::UpdateSettings {
                    mic_gain_bits: *mic_gain_bits,
                    speaker_gain_bits: *speaker_gain_bits,
                }
            },
            CommandPlan::SendDtmf { key } => PlanView::SendDtmf { key: *key },
            CommandPlan::SetMute { muted } => PlanView::SetMute { muted: *muted },
        }
    }
}

/// What chance and the clock have to give: a number for a call, a number for a
/// tag, and the time in seconds.
#[derive(Debug, Clone, Copy)]
pub struct Draws {
    pub call_no: u32,
    pub tag_no: u16,
    pub now: i64,
}

/// Something to do.
#[derive(Debug, PartialEq, Eq)]
pub enum Action {
    /// Tell the user.
    Emit(UacEvent),
    /// Send a request.
    SendRequest { request: SipRequest, to: Endpoint },
    /// Answer a request: take the answer that is prepared for it, set its `To`
    /// header where a value is given, put the headers behind its own, and set
    /// its body where one is given.
    SendReply {
        answered: Answered,
        kind: ReplyKind,
        to_header: Option<String>,
        headers: Vec<Header>,
        body: Option<Vec<u8>>,
        to: Endpoint,
    },
    /// Send bytes as they are.
    SendRaw { bytes: Vec<u8>, to: Endpoint },
    /// Keep a record for the observer.
    Telemetry(TelemetryRecord),
    /// Read the text as a socket address, and where it is one, report it.
    ResolveMedia { target: String },
    /// Start the media towards the target.
    StartMedia { target: String },
    /// Stop the media.
    StopMedia,
    /// Wait a whole interval before the next `RetransmitTick`.
    ResetRetransmit,
    /// Set the gains of the media.
    UpdateGains { mic_gain_bits: u32, speaker_gain_bits: u32 },
    /// Send a key with the media.
    TriggerDtmf { key: char },
    /// Silence the microphone, or stop silencing it.
    SetMute { muted: bool },
}

/// What an `Action` says.
pub enum ActionView {
    Emit(EventView),
    SendRequest { request: RequestView, to: EndpointView },
    SendReply {
        answered: Answered,
        kind: ReplyKind,
        to_header: Option<Seq<char>>,
        headers: Seq<HeaderView>,
        body: Option<Seq<u8>>,
        to: EndpointView,
    },
    SendRaw { bytes: Seq<u8>, to: EndpointView },
    Telemetry(RecordView),
    ResolveMedia { target: Seq<char> },
    StartMedia { target: Seq<char> },
    StopMedia,
    ResetRetransmit,
    UpdateGains { mic_gain_bits: u32, speaker_gain_bits: u32 },
    TriggerDtmf { key: char },
    SetMute { muted: bool },
}

/// The view of optional bytes.
pub open spec fn bytes_of(b: Option<Vec<u8>>) -> Option<Seq<u8>> {
    match b {
        Some(b) => Some(b@),
        None => None,
    }
}

impl View for Action {
    type V = ActionView;

    open spec fn view(&self) -> ActionView {
        match self {
            Action::Emit(event) => ActionView::Emit(event@),
            Action::SendRequest { request, to } => ActionView::SendRequest {
                request: request@,
                to: to@,
            },
            Action::SendReply { answered, kind, to_header, headers, body, to } => {
                ActionView::SendReply {
                    answered: *answered,
                    kind: *kind,
                    to_header: text_of(*to_header),
                    headers: header_views(headers@),
                    body: bytes_of(*body),
                    to: to@,
                }
            },
            Action::SendRaw { bytes, to } => ActionView::SendRaw { bytes: bytes@, to: to@ },
            Action::Telemetry(record) => ActionView::Telemetry(record@),
            Action::ResolveMedia { target } => ActionView::ResolveMedia { target: target@ },
            Action::StartMedia { target } => ActionView::StartMedia { target: target@ },
            Action::StopMedia => ActionView::StopMedia,
            Action::ResetRetransmit => ActionView::ResetRetransmit,
            Action::UpdateGains { mic_gain_bits, speaker_gain_bits } => ActionView::UpdateGains {
                mic_gain_bits: *mic_gain_bits,
                speaker_gain_bits: *speaker_gain_bits,
            },
            Action::TriggerDtmf { key } => ActionView::TriggerDtmf { key: *key },
            Action::SetMute { muted } => ActionView::SetMute { muted: *muted },
        }
    }
}

/// What actions say.
pub open spec fn action_views(actions: Seq<Action>) -> Seq<ActionView> {
    Seq::new(actions.len(), |i: int| actions[i]@)
}

/// Puts an action behind the others.
pub fn push_action(actions: &mut Vec<Action>, action: Action)
    ensures
        action_views(final(actions)@) == action_views(old(actions)@).push(action@),
{
    let ghost before = action_views(actions@);
    actions.push(action);
    assert(action_views(actions@) =~= before.push(action@));
}

} // verus!
