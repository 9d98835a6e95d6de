//! The rules of the signalling: from a session and an input to the next
//! session and the actions to take.

use vstd::prelude::*;
use vstd::utf8::encode_utf8;

use crate::action::{ActionView, Draws, EngineInput, PlanView};
use crate::auth::{auth_header_of, challenge_of};
use crate::sdp::sdp_text;
use crate::sip::{
    contact_value, cseq_value, header, numbered, tagged_to, tagged_user_at, user_at, via_value,
    Answered, Asked, EndpointView, HeaderName, HeaderView, IncomingRequest, IncomingResponse,
    Method, ReplyKind, RequestView,
};
use crate::telemetry::RecordView;
use crate::text::{after_prefix, decimal, split_at, trimmed, u16_of};
use crate::utils::{lossy_text, rtp_target_in, text_of};
use crate::{CallState, ClientCommand, EventView};

verus! {

/// How long an invitation goes unanswered before it is given up, in
/// nanoseconds.
pub const INVITE_TIMEOUT: u64 = 5_000_000_000;

/// How often an invitation is sent again, in milliseconds.
pub const RETRANSMIT_INTERVAL_MILLIS: u64 = 500;

/// How often the counters of the media are looked at, in milliseconds.
pub const STATS_INTERVAL_MILLIS: u64 = 1000;

/// How often the way through the network is kept open, in milliseconds.
pub const KEEPALIVE_INTERVAL_MILLIS: u64 = 15_000;

/// The packets that have to arrive before the media counts as active.
pub const ACTIVE_THRESHOLD: u64 = 10;

/// What the engine knows.
#[verifier::ext_equal]
pub struct SessionView {
    pub state: CallState,
    /// The port of the signalling on this device.
    pub sip_port: u16,
    /// The port of the media on this device.
    pub rtp_port: u16,
    /// The address of the device as others see it.
    pub public_ip: Seq<char>,
    pub public_port: u16,
    /// The address that is told to the other side.
    pub contact_ip: Seq<char>,
    pub contact_port: u16,
    /// Whom requests go to.
    pub target: Option<EndpointView>,
    pub call_id: Seq<char>,
    pub from_tag: Seq<char>,
    pub to_tag: Seq<char>,
    pub cseq: i32,
    /// The user of the last registration that was asked for, or nothing.
    pub user: Seq<char>,
    pub password: Seq<char>,
    /// Whether that registration succeeded.
    pub is_registered: bool,
    /// The invitation that is sent again until it is answered.
    pub last_invite: Option<RequestView>,
    pub invite_sent_at: Option<u64>,
    /// The body of the invitation that waits to be accepted or rejected.
    pub pending: Option<Seq<u8>>,
    /// Whom that invitation came from.
    pub remote: Option<EndpointView>,
    pub media_reported: bool,
}

/// The state between calls: registered where a user registered with success,
/// idle elsewhere.
pub open spec fn resting(s: SessionView) -> CallState {
    if s.is_registered && s.user.len() > 0 {
        CallState::Registered
    } else {
        CallState::Idle
    }
}

/// A session with the actions that led to it.
#[verifier::ext_equal]
pub struct Step {
    pub session: SessionView,
    pub actions: Seq<ActionView>,
}

/// A session, and nothing done yet.
pub open spec fn at(s: SessionView) -> Step {
    Step { session: s, actions: seq![] }
}

impl Step {
    /// Then do this.
    pub open spec fn act(self, action: ActionView) -> Step {
        Step { actions: self.actions.push(action), ..self }
    }

    /// Then tell the user.
    pub open spec fn emit(self, event: EventView) -> Step {
        self.act(ActionView::Emit(event))
    }

    /// Then write into the user's log.
    pub open spec fn log(self, text: Seq<char>) -> Step {
        self.emit(EventView::Log(text))
    }

    /// Then be in this session.
    pub open spec fn with(self, s: SessionView) -> Step {
        Step { session: s, ..self }
    }

    /// Then be in this state, and tell the user where that is another.
    pub open spec fn enter(self, state: CallState) -> Step {
        if self.session.state != state {
            self.with(SessionView { state, ..self.session }).emit(
                EventView::CallStateChanged(state),
            )
        } else {
            self
        }
    }

    /// Then the call is over.
    pub open spec fn over(self) -> Step {
        self.enter(CallState::Terminated).enter(resting(self.session))
    }

    /// Then there is no registration, and the client is in this state.
    pub open spec fn unregistered(self, state: CallState) -> Step {
        self.with(SessionView { is_registered: false, ..self.session }).enter(state)
    }

    /// Then keep a record.
    pub open spec fn record(
        self,
        event: Seq<char>,
        message: Seq<char>,
        call_id: Seq<char>,
        attributes: Seq<(Seq<char>, Seq<char>)>,
    ) -> Step {
        self.act(
            ActionView::Telemetry(
                RecordView { severity: "INFO"@, event, message, call_id, attributes },
            ),
        )
    }

    /// Then find out whether the target of the media, where there is one, is a
    /// socket address.
    pub open spec fn resolve(self, target: Option<Seq<char>>) -> Step {
        match target {
            Some(target) => self.act(ActionView::ResolveMedia { target }),
            None => self,
        }
    }

    /// Then send a request.
    pub open spec fn send(self, request: RequestView, to: EndpointView) -> Step {
        self.act(ActionView::SendRequest { request, to })
    }
}

// Headers that are the same in several messages.

pub open spec fn via_of(s: SessionView, branch: Seq<char>) -> HeaderView {
    header(HeaderName::Via, via_value(s.contact_ip, s.contact_port, branch))
}

pub open spec fn contact_of(s: SessionView, user: Seq<char>) -> HeaderView {
    header(HeaderName::Contact, contact_value(user, s.contact_ip, s.contact_port))
}

pub open spec fn mobile_contact_of(s: SessionView) -> HeaderView {
    contact_of(s, "mobile"@)
}

pub open spec fn call_id_of(s: SessionView) -> HeaderView {
    header(HeaderName::CallId, s.call_id)
}

pub open spec fn cseq_of(s: SessionView, method: Method) -> HeaderView {
    header(HeaderName::CSeq, cseq_value(s.cseq, method.word()))
}

pub open spec fn user_agent() -> HeaderView {
    header(HeaderName::UserAgent, "Sentiric-Mobile-UAC/4.0"@)
}

pub open spec fn no_content() -> HeaderView {
    header(HeaderName::ContentLength, "0"@)
}

pub open spec fn sdp_content() -> HeaderView {
    header(HeaderName::ContentType, "application/sdp"@)
}

pub open spec fn expires() -> HeaderView {
    header(HeaderName::Expires, "3600"@)
}

// Before the first call.

pub open spec fn local_ip_step(s: SessionView, ip: Seq<char>) -> Step {
    at(SessionView { public_ip: ip, contact_ip: ip, ..s }).log("🔍 Discovered Local IP: "@ + ip)
}

pub open spec fn sip_bound_step(s: SessionView, port: u16, ephemeral: bool) -> Step {
    at(SessionView { sip_port: port, public_port: port, contact_port: port, ..s }).log(
        if ephemeral {
            "🔌 SIP bound to Ephemeral Port"@
        } else {
            "🔌 SIP bound to Port 5060"@
        },
    )
}

pub open spec fn stun_step(s: SessionView, public: Option<(Seq<char>, u16)>) -> Step {
    match public {
        Some((ip, port)) => at(
            SessionView {
                public_ip: ip,
                public_port: port,
                contact_ip: ip,
                contact_port: port,
                ..s
            },
        ).log("🌍 Proactive STUN Success: NAT IP is "@ + ip + ":"@ + decimal(port as nat)),
        None => at(s).log("⚠️ STUN Timeout, falling back to Local IP"@),
    }
}

// Commands of the user.

/// Whether a registration is taken on.
pub open spec fn may_register(s: SessionView) -> bool {
    s.state == CallState::Idle || s.state == CallState::AuthFailed
}

/// Whether a call is taken on, going out or coming in.
pub open spec fn may_call(s: SessionView) -> bool {
    s.state == CallState::Idle || s.state == CallState::Registered
}

/// What has to be found out before a command can be taken note of.
pub open spec fn plan_of(s: SessionView, command: ClientCommand) -> PlanView {
    match command {
        ClientCommand::Register { target_ip, target_port, user, password } => if may_register(s) {
            PlanView::Register {
                address: target_ip@ + ":"@ + decimal(target_port as nat),
                target_ip: target_ip@,
                user: user@,
                password: password@,
            }
        } else {
            PlanView::Nothing
        },
        ClientCommand::StartCall { target_ip, target_port, to_user, from_user } => if may_call(s) {
            PlanView::StartCall {
                address: target_ip@ + ":"@ + decimal(target_port as nat),
                target_ip: target_ip@,
                target_port,
                to_user: to_user@,
                from_user: from_user@,
            }
        } else {
            PlanView::Nothing
        },
        ClientCommand::AcceptCall => PlanView::AcceptCall,
        ClientCommand::RejectCall => PlanView::RejectCall,
        ClientCommand::EndCall => PlanView::EndCall,
        ClientCommand::UpdateSettings { mic_gain_bits, speaker_gain_bits, .. } => {
            PlanView::UpdateSettings { mic_gain_bits, speaker_gain_bits }
        },
        ClientCommand::SendDtmf { key } => PlanView::SendDtmf { key },
        ClientCommand::SetMute { muted } => PlanView::SetMute { muted },
    }
}

/// The first registration, without credentials.
pub open spec fn register_request(
    s: SessionView,
    target_ip: Seq<char>,
    branch: Seq<char>,
) -> RequestView {
    RequestView {
        method: Method::Register,
        uri: "sip:"@ + target_ip,
        headers: seq![
            via_of(s, branch),
            header(HeaderName::From, tagged_user_at(s.user, target_ip, s.from_tag)),
            header(HeaderName::To, user_at(s.user, target_ip)),
            call_id_of(s),
            cseq_of(s, Method::Register),
            contact_of(s, s.user),
            expires(),
            no_content(),
        ],
        body: seq![],
    }
}

#[verifier::opaque]
pub open spec fn register_step(
    s: SessionView,
    target: EndpointView,
    target_ip: Seq<char>,
    user: Seq<char>,
    password: Seq<char>,
    branch: Seq<char>,
    d: Draws,
) -> Step {
    if may_register(s) {
        let s1 = SessionView {
            target: Some(target),
            user,
            password,
            is_registered: false,
            call_id: numbered("reg-"@, d.call_no as nat),
            from_tag: numbered("tag-"@, d.tag_no as nat),
            cseq: 1,
            ..s
        };
        at(s1).send(register_request(s1, target_ip, branch), target).log(
            "⬆️ Initial REGISTER sent (No Auth)"@,
        ).enter(CallState::Registering)
    } else {
        at(s)
    }
}

/// Whether an address belongs to a private network, by how its text begins.
pub open spec fn is_private(ip: Seq<char>) -> bool {
    ||| after_prefix(ip, "100."@) is Some
    ||| after_prefix(ip, "10."@) is Some
    ||| after_prefix(ip, "192.168."@) is Some
    ||| after_prefix(ip, "172."@) is Some
}

/// The invitation.
pub open spec fn invite_request(
    s: SessionView,
    target_ip: Seq<char>,
    target_port: u16,
    to_user: Seq<char>,
    from_user: Seq<char>,
    branch: Seq<char>,
    now: i64,
) -> RequestView {
    RequestView {
        method: Method::Invite,
        uri: "sip:"@ + to_user + "@"@ + target_ip + ":"@ + decimal(target_port as nat),
        headers: seq![
            via_of(s, branch),
            header(HeaderName::From, tagged_user_at(from_user, target_ip, s.from_tag)),
            header(HeaderName::To, user_at(to_user, target_ip)),
            call_id_of(s),
            cseq_of(s, Method::Invite),
            contact_of(s, from_user),
            sdp_content(),
            user_agent(),
            header(HeaderName::Allow, "INVITE, ACK, BYE, CANCEL, OPTIONS"@),
        ],
        body: encode_utf8(sdp_text(now, s.contact_ip, s.rtp_port)),
    }
}

/// A call gets an identifier and tells the address at which it can be reached:
/// the one in the private network where the target is in one, the public one
/// elsewhere.
#[verifier::opaque]
pub open spec fn start_call_step(
    s: SessionView,
    target: EndpointView,
    target_ip: Seq<char>,
    target_port: u16,
    to_user: Seq<char>,
    from_user: Seq<char>,
    lan_ip: Option<Seq<char>>,
    branch: Seq<char>,
    sent_at: u64,
    d: Draws,
) -> Step {
    if may_call(s) {
        let s1 = SessionView {
            target: Some(target),
            call_id: numbered("uac-"@, d.call_no as nat),
            from_tag: numbered("tag-"@, d.tag_no as nat),
            cseq: 1,
            contact_ip: s.public_ip,
            contact_port: s.public_port,
            ..s
        };
        let named = at(s1).emit(EventView::CallIdGenerated(s1.call_id));
        let reached = match lan_ip {
            Some(ip) if is_private(target_ip) => named.with(
                SessionView { contact_ip: ip, contact_port: s.sip_port, ..s1 },
            ).log("🛡️ VPN/LAN Detected. STUN bypassed -> SDP set to "@ + ip),
            _ => named,
        };
        let s2 = reached.session;
        let invite = invite_request(
            s2,
            target_ip,
            target_port,
            to_user,
            from_user,
            branch,
            d.now,
        );
        reached.log("⬆️ INVITE sent"@).record(
            "SIP_PACKET_SENT"@,
            "INVITE sent"@,
            s2.call_id,
            seq![("sip.method"@, "INVITE"@)],
        ).send(invite, target).with(
            SessionView { last_invite: Some(invite), invite_sent_at: Some(sent_at), ..s2 },
        ).act(ActionView::ResetRetransmit).enter(CallState::Dialing)
    } else {
        at(s)
    }
}

/// The tag that an answer gives to its `To`, where it has none yet.
pub open spec fn tag_given(s: SessionView, to: Option<Seq<char>>, d: Draws) -> SessionView {
    let tag = numbered("tag-"@, d.tag_no as nat);
    if tagged_to(to, tag) is Some {
        SessionView { to_tag: tag, ..s }
    } else {
        s
    }
}

#[verifier::opaque]
pub open spec fn accept_step(s: SessionView, ok_to: Option<Seq<char>>, d: Draws) -> Step {
    let s0 = SessionView { pending: None, ..s };
    match (s.pending, s.remote) {
        (Some(body), Some(remote)) => {
            let s1 = tag_given(s0, ok_to, d);
            let sdp = encode_utf8(sdp_text(d.now, s1.contact_ip, s1.rtp_port));
            at(s0).log("⬆️ Sending 200 OK (Accepting Call)"@).resolve(
                rtp_target_in(lossy_text(body), remote.host),
            ).with(s1).act(
                ActionView::SendReply {
                    answered: Answered::Pending,
                    kind: ReplyKind::Success,
                    to_header: tagged_to(ok_to, numbered("tag-"@, d.tag_no as nat)),
                    headers: seq![
                        mobile_contact_of(s1),
                        sdp_content(),
                        header(HeaderName::ContentLength, decimal(sdp.len())),
                    ],
                    body: Some(sdp),
                    to: remote,
                },
            ).enter(CallState::Connected)
        },
        _ => at(s0),
    }
}

#[verifier::opaque]
pub open spec fn reject_step(s: SessionView) -> Step {
    let s0 = SessionView { pending: None, ..s };
    match (s.pending, s.remote) {
        (Some(_), Some(remote)) => at(s0).log("⬆️ Sending 603 Decline"@).act(
            ActionView::SendReply {
                answered: Answered::Pending,
                kind: ReplyKind::Decline,
                to_header: None,
                headers: seq![no_content()],
                body: None,
                to: remote,
            },
        ).enter(resting(s0)),
        _ => at(s0),
    }
}

/// Whether there is something to hang up.
pub open spec fn is_engaged(s: SessionView) -> bool {
    s.state != CallState::Idle && s.state != CallState::Registered && s.state
        != CallState::Registering
}

pub open spec fn bye_request(s: SessionView, target: EndpointView, branch: Seq<char>) -> RequestView {
    RequestView {
        method: Method::Bye,
        uri: "sip:"@ + target.addr,
        headers: seq![
            via_of(s, branch),
            header(HeaderName::From, "<sip:mobile@sentiric>;tag="@ + s.from_tag),
            header(HeaderName::To, s.to_tag),
            call_id_of(s),
            cseq_of(s, Method::Bye),
            mobile_contact_of(s),
            no_content(),
        ],
        body: seq![],
    }
}

/// A session whose next request is numbered one higher.
pub open spec fn next_request(s: SessionView) -> SessionView {
    SessionView { cseq: (s.cseq + 1) as i32, ..s }
}

#[verifier::opaque]
pub open spec fn end_call_step(s: SessionView, branch: Seq<char>) -> Step {
    let s0 = SessionView { last_invite: None, ..s };
    if is_engaged(s) {
        let left = match s.target {
            Some(target) => {
                let s1 = next_request(s0);
                at(s1).log("⬆️ BYE sent"@).send(bye_request(s1, target, branch), target)
            },
            None => at(s0),
        };
        let ended = left.act(ActionView::StopMedia).over();
        ended.with(SessionView { media_reported: false, ..ended.session })
    } else {
        at(s0)
    }
}

// Requests of the other side.

/// The text, or none of it.
pub open spec fn text_or_empty(t: Option<Seq<char>>) -> Seq<char> {
    match t {
        Some(t) => t,
        None => seq![],
    }
}

/// A call that comes in rings where none is going on, and is refused as busy
/// elsewhere.
pub open spec fn invited_step(
    s: SessionView,
    request: IncomingRequest,
    src: EndpointView,
    d: Draws,
) -> Step {
    if may_call(s) {
        let from = text_or_empty(text_of(request.from));
        let call_id = text_or_empty(text_of(request.call_id));
        let to = text_of(request.ringing_to);
        let s1 = tag_given(
            SessionView {
                pending: Some(request.body@),
                remote: Some(src),
                call_id,
                target: Some(src),
                ..s
            },
            to,
            d,
        );
        at(s1).act(
            ActionView::SendReply {
                answered: Answered::Received,
                kind: ReplyKind::Ringing,
                to_header: tagged_to(to, numbered("tag-"@, d.tag_no as nat)),
                headers: seq![no_content()],
                body: None,
                to: src,
            },
        ).enter(CallState::Incoming).emit(EventView::IncomingCall { from, call_id }).record(
            "SIP_INBOUND_INVITE"@,
            "Incoming call received"@,
            call_id,
            seq![("from"@, from)],
        )
    } else {
        at(s).act(
            ActionView::SendReply {
                answered: Answered::Received,
                kind: ReplyKind::BusyHere,
                to_header: None,
                headers: seq![no_content()],
                body: None,
                to: src,
            },
        )
    }
}

pub open spec fn hung_up_step(s: SessionView, src: EndpointView) -> Step {
    let ended = at(s).log("🏁 Server closed connection (BYE)."@).record(
        "REMOTE_HANGUP"@,
        "Received BYE from Server"@,
        s.call_id,
        seq![],
    ).act(
        ActionView::SendReply {
            answered: Answered::Received,
            kind: ReplyKind::Success,
            to_header: None,
            headers: seq![mobile_contact_of(s), user_agent(), no_content()],
            body: None,
            to: src,
        },
    ).log("⬆️ 200 OK (For BYE) sent"@).act(ActionView::StopMedia).over();
    ended.with(SessionView { media_reported: false, last_invite: None, ..ended.session })
}

#[verifier::opaque]
pub open spec fn request_step(
    s: SessionView,
    request: IncomingRequest,
    src: EndpointView,
    d: Draws,
) -> Step {
    match request.asked {
        Asked::Invite => invited_step(s, request, src, d),
        Asked::Bye => hung_up_step(s, src),
        Asked::Other => at(s),
    }
}

// Responses of the other side.

/// What one parameter of a `Via` says of the address from which the request
/// was seen to come.
pub open spec fn read_via_part(before: (Seq<char>, u16), part: Seq<char>) -> (Seq<char>, u16) {
    if let Some(ip) = after_prefix(trimmed(part), "received="@) {
        (ip, before.1)
    } else if let Some(port) = after_prefix(trimmed(part), "rport="@) {
        match u16_of(port) {
            Some(port) => (before.0, port),
            None => before,
        }
    } else {
        before
    }
}

/// What the parameters of a `Via` say of it, the later ones before the
/// earlier.
pub open spec fn read_via_parts(parts: Seq<Seq<char>>, before: (Seq<char>, u16)) -> (
    Seq<char>,
    u16,
)
    decreases parts.len(),
{
    if parts.len() == 0 {
        before
    } else {
        read_via_part(read_via_parts(parts.drop_last(), before), parts.last())
    }
}

/// The address from which the other side saw a request come, by the `Via` of
/// its response, where nothing else than `ip` and `port` was known before.
pub open spec fn public_addr_in(via: Seq<char>, ip: Seq<char>, port: u16) -> (Seq<char>, u16) {
    read_via_parts(split_at(via, ';'), (ip, port))
}

/// Whether an answer to a request is awaited.
pub open spec fn awaits(s: SessionView) -> bool {
    s.state == CallState::Dialing || s.state == CallState::Registering
}

/// While an answer is awaited, a provisional response stops the invitation
/// from being sent again, and any response shows the public address.
pub open spec fn progress(st: Step, r: IncomingResponse) -> Step {
    let s = st.session;
    if r.status_code >= 100 && awaits(s) {
        let s1 = if r.status_code < 200 {
            SessionView { last_invite: None, invite_sent_at: None, ..s }
        } else {
            s
        };
        match text_of(r.via) {
            Some(via) => {
                let (ip, port) = public_addr_in(via, s.contact_ip, s.contact_port);
                if ip != s.contact_ip || port != s.contact_port {
                    st.with(SessionView { contact_ip: ip, contact_port: port, ..s1 }).log(
                        "🌍 Reactive NAT Update: "@ + ip + ":"@ + decimal(port as nat),
                    )
                } else {
                    st.with(s1)
                }
            },
            None => st.with(s1),
        }
    } else {
        st
    }
}

/// The method of the request that is awaiting its answer.
pub open spec fn awaited_method(s: SessionView) -> Method {
    if s.state == CallState::Registering {
        Method::Register
    } else {
        Method::Invite
    }
}

/// The request once more, with the answer to a challenge.
pub open spec fn authorized_request(
    s: SessionView,
    host: Seq<char>,
    authorization: Seq<char>,
    branch: Seq<char>,
) -> RequestView {
    let method = awaited_method(s);
    RequestView {
        method,
        uri: "sip:"@ + host,
        headers: seq![
            via_of(s, branch),
            header(HeaderName::From, tagged_user_at(s.user, host, s.from_tag)),
            header(HeaderName::To, user_at(s.user, host)),
            call_id_of(s),
            cseq_of(s, method),
            contact_of(s, s.user),
        ] + (if s.state == CallState::Registering {
            seq![expires()]
        } else {
            seq![]
        }) + seq![header(HeaderName::Authorization, authorization), no_content()],
        body: seq![],
    }
}

/// The answer to the challenge in a response, where it holds one.
pub open spec fn answer_to(s: SessionView, r: IncomingResponse) -> Option<Seq<char>> {
    match (s.target, text_of(r.www_authenticate)) {
        (Some(target), Some(challenge)) => auth_header_of(
            s.user,
            s.password,
            awaited_method(s).word(),
            "sip:"@ + target.host,
            challenge,
        ),
        _ => None,
    }
}

/// Whether a response challenges a request that is awaiting its answer.
pub open spec fn challenges(s: SessionView, r: IncomingResponse) -> bool {
    r.status_code == 401 && awaits(s) && r.www_authenticate is Some
}

/// A challenge is answered where it can be, and ends the attempt where not.
pub open spec fn challenged(st: Step, r: IncomingResponse, branch: Seq<char>) -> Step {
    let s = st.session;
    if challenges(s, r) {
        match (s.target, answer_to(s, r)) {
            (Some(target), Some(authorization)) => {
                let s1 = next_request(s);
                st.with(s1).send(
                    authorized_request(s1, target.host, authorization, branch),
                    target,
                ).log("🔑 Sent 401 Challenge Response for "@ + awaited_method(s).word())
            },
            _ => st.enter(CallState::AuthFailed),
        }
    } else {
        st
    }
}

/// An accepted registration succeeds.
pub open spec fn registered(st: Step, r: IncomingResponse) -> Step {
    if r.status_code == 200 && st.session.state == CallState::Registering {
        st.with(SessionView { is_registered: true, ..st.session }).enter(CallState::Registered).log(
            "✅ Registered successfully to network!"@,
        )
    } else {
        st
    }
}

pub open spec fn ringing(st: Step, r: IncomingResponse) -> Step {
    if r.status_code == 180 || r.status_code == 183 {
        st.enter(CallState::Ringing)
    } else {
        st
    }
}

pub open spec fn ack_request(
    s: SessionView,
    from: Option<Seq<char>>,
    src: EndpointView,
    branch: Seq<char>,
) -> RequestView {
    RequestView {
        method: Method::Ack,
        uri: "sip:"@ + src.addr,
        headers: seq![via_of(s, branch)] + (match from {
            Some(from) => seq![header(HeaderName::From, from)],
            None => seq![],
        }) + seq![
            header(HeaderName::To, s.to_tag),
            call_id_of(s),
            cseq_of(s, Method::Ack),
            mobile_contact_of(s),
            user_agent(),
            no_content(),
        ],
        body: seq![],
    }
}

/// Whether a response refuses a request, and is no challenge.
pub open spec fn refuses(r: IncomingResponse) -> bool {
    r.status_code >= 400 && r.status_code != 401
}

/// Where a refused registration leaves the client: with refused credentials
/// where the server forbids it, idle elsewhere.
pub open spec fn unregistered_state(r: IncomingResponse) -> CallState {
    if r.status_code == 403 {
        CallState::AuthFailed
    } else {
        CallState::Idle
    }
}

/// An answered call is acknowledged and its media started. A refused
/// registration fails, and any other refusal ends the call.
pub open spec fn answered(
    st: Step,
    r: IncomingResponse,
    src: EndpointView,
    branch: Seq<char>,
) -> Step {
    let s = st.session;
    if r.status_code == 200 && (s.state == CallState::Dialing || s.state == CallState::Ringing) {
        let s1 = SessionView {
            last_invite: None,
            to_tag: match text_of(r.to) {
                Some(to) => to,
                None => s.to_tag,
            },
            ..s
        };
        let located = st.with(s1).resolve(rtp_target_in(lossy_text(r.body@), src.host));
        let acknowledged = match s1.target {
            Some(target) => located.log("⬆️ ACK sent"@).send(
                ack_request(s1, text_of(r.from), src, branch),
                target,
            ),
            None => located,
        };
        acknowledged.enter(CallState::Connected)
    } else if refuses(r) {
        let told = st.log("❌ Server rejected with "@ + decimal(r.status_code as nat));
        let ended = if s.state == CallState::Registering {
            told.enter(CallState::Terminated).unregistered(unregistered_state(r))
        } else {
            told.over()
        };
        ended.with(SessionView { last_invite: None, ..ended.session })
    } else {
        st
    }
}

#[verifier::opaque]
pub open spec fn response_step(
    s: SessionView,
    r: IncomingResponse,
    src: EndpointView,
    branch: Seq<char>,
) -> Step {
    answered(
        ringing(registered(challenged(progress(at(s), r), r, branch), r), r),
        r,
        src,
        branch,
    )
}

pub open spec fn media_resolved_step(s: SessionView, target: Seq<char>) -> Step {
    at(s).record(
        "SDP_PARSED"@,
        "Media target locked"@,
        s.call_id,
        seq![("target"@, target)],
    ).act(ActionView::StartMedia { target })
}

// The clock.

/// How long ago `then` was, and nothing where it is to come.
pub open spec fn elapsed(then: u64, now: u64) -> int {
    if now >= then {
        now - then
    } else {
        0
    }
}

/// An invitation that was not answered is sent again, until it is given up.
#[verifier::opaque]
pub open spec fn retransmit_step(s: SessionView, now: u64) -> Step {
    match (s.last_invite, s.target, s.invite_sent_at) {
        (Some(invite), Some(target), Some(sent_at)) => if elapsed(sent_at, now) > INVITE_TIMEOUT {
            at(SessionView { last_invite: None, ..s }).log("⏱️ Connection Timeout!"@).over()
        } else {
            at(s).send(invite, target)
        },
        _ => at(s),
    }
}

/// Two empty lines.
pub open spec fn keepalive() -> Seq<u8> {
    seq![13u8, 10u8, 13u8, 10u8]
}

pub open spec fn keepalive_step(s: SessionView) -> Step {
    match s.target {
        Some(target) if s.state == CallState::Registered || s.state == CallState::Connected => at(
            s,
        ).act(ActionView::SendRaw { bytes: keepalive(), to: target }),
        _ => at(s),
    }
}

/// The counters are reported once anything was counted; that the media is
/// active is reported once in a call.
#[verifier::opaque]
pub open spec fn stats_step(s: SessionView, rx: u64, tx: u64) -> Step {
    if rx > 0 || tx > 0 {
        let told = at(s).emit(EventView::RtpStats { rx_cnt: rx, tx_cnt: tx });
        if !s.media_reported && rx > ACTIVE_THRESHOLD {
            told.with(SessionView { media_reported: true, ..s }).emit(EventView::MediaActive)
        } else {
            told
        }
    } else {
        at(s)
    }
}

/// The rules as a whole.
pub open spec fn step_of(s: SessionView, input: EngineInput, d: Draws) -> Step {
    match input {
        EngineInput::LocalIp { ip } => local_ip_step(s, ip@),
        EngineInput::SipBound { port, ephemeral } => sip_bound_step(s, port, ephemeral),
        EngineInput::SipBindFailed { reason } => at(s).emit(
            EventView::Error("SIP Bind Fail: "@ + reason@),
        ),
        EngineInput::RtpBound { port } => at(SessionView { rtp_port: port, ..s }),
        EngineInput::RtpBindFailed { reason } => at(s).emit(
            EventView::Error("RTP Bind Fail: "@ + reason@),
        ),
        EngineInput::StunDone { public } => stun_step(
            s,
            match public {
                Some((ip, port)) => Some((ip@, port)),
                None => None,
            },
        ),
        EngineInput::Register { target, target_ip, user, password, branch } => register_step(
            s,
            target@,
            target_ip@,
            user@,
            password@,
            branch@,
            d,
        ),
        EngineInput::StartCall {
            target,
            target_ip,
            target_port,
            to_user,
            from_user,
            lan_ip,
            branch,
            at,
        } => start_call_step(
            s,
            target@,
            target_ip@,
            target_port,
            to_user@,
            from_user@,
            text_of(lan_ip),
            branch@,
            at,
            d,
        ),
        EngineInput::AcceptCall { ok_to } => accept_step(s, text_of(ok_to), d),
        EngineInput::RejectCall => reject_step(s),
        EngineInput::EndCall { branch } => end_call_step(s, branch@),
        EngineInput::UpdateSettings { mic_gain_bits, speaker_gain_bits } => at(s).act(
            ActionView::UpdateGains { mic_gain_bits, speaker_gain_bits },
        ),
        EngineInput::SendDtmf { key } => at(s).act(ActionView::TriggerDtmf { key }).log(
            "🎹 In-Band DTMF Injecting: "@.push(key),
        ),
        EngineInput::SetMute { muted } => at(s).act(ActionView::SetMute { muted }).log(
            "🔇 Mic state changed: "@ + (if muted {
                "MUTED"@
            } else {
                "UNMUTED"@
            }),
        ),
        EngineInput::Request { request, src } => request_step(s, request, src@, d),
        EngineInput::Response { response, src, branch } => response_step(
            s,
            response,
            src@,
            branch@,
        ),
        EngineInput::MediaResolved { target } => media_resolved_step(s, target@),
        EngineInput::RetransmitTick { at } => retransmit_step(s, at),
        EngineInput::KeepaliveTick => keepalive_step(s),
        EngineInput::StatsTick { rx, tx } => stats_step(s, rx, tx),
    }
}

/// What holds of every session: whatever awaits an answer has a target, an
/// invitation that is sent again was sent at some time, and a call that waits
/// to be accepted came from somewhere. A call that is over is left at once.
/// The client is registered only after a registration that succeeded. While it
/// registers, none did yet, and it is not idle while a user is registered.
pub open spec fn is_sound(s: SessionView) -> bool {
    &&& awaits(s) ==> s.target is Some
    &&& s.last_invite is Some ==> s.target is Some && s.invite_sent_at is Some
    &&& s.pending is Some ==> s.remote is Some
    &&& s.state == CallState::Incoming ==> s.pending is Some
    &&& s.state != CallState::Terminated
    &&& s.state == CallState::Registered ==> s.is_registered
    &&& s.state == CallState::Registering ==> !s.is_registered
    &&& s.state == CallState::Idle ==> !s.is_registered || s.user.len() == 0
}

/// Whether an input makes the engine send a request that is numbered one
/// higher than the last.
pub open spec fn numbers_request(s: SessionView, input: EngineInput) -> bool {
    match input {
        EngineInput::EndCall { .. } => is_engaged(s) && s.target is Some,
        EngineInput::Response { response, .. } => {
            &&& challenges(s, response)
            &&& s.target is Some
            &&& challenge_of(response.www_authenticate->0@) is Some
        },
        _ => false,
    }
}

/// Whether there is a number for the request that an input asks for.
pub open spec fn has_number(s: SessionView, input: EngineInput) -> bool {
    numbers_request(s, input) ==> s.cseq < i32::MAX
}

proof fn lemma_progress_sound(st: Step, r: IncomingResponse)
    requires
        is_sound(st.session),
    ensures
        is_sound(progress(st, r).session),
{
}

proof fn lemma_challenged_sound(st: Step, r: IncomingResponse, branch: Seq<char>)
    requires
        is_sound(st.session),
    ensures
        is_sound(challenged(st, r, branch).session),
{
}

proof fn lemma_answered_sound(
    st: Step,
    r: IncomingResponse,
    src: EndpointView,
    branch: Seq<char>,
)
    requires
        is_sound(st.session),
    ensures
        is_sound(answered(st, r, src, branch).session),
{
}

proof fn lemma_response_sound(
    s: SessionView,
    r: IncomingResponse,
    src: EndpointView,
    branch: Seq<char>,
)
    requires
        is_sound(s),
    ensures
        is_sound(response_step(s, r, src, branch).session),
{
    reveal(response_step);
    let a = progress(at(s), r);
    lemma_progress_sound(at(s), r);
    let b = challenged(a, r, branch);
    lemma_challenged_sound(a, r, branch);
    let c = ringing(registered(b, r), r);
    assert(is_sound(c.session));
    lemma_answered_sound(c, r, src, branch);
}

proof fn lemma_request_sound(s: SessionView, r: IncomingRequest, src: EndpointView, d: Draws)
    requires
        is_sound(s),
    ensures
        is_sound(request_step(s, r, src, d).session),
{
    reveal(request_step);
}

proof fn lemma_start_call_sound(
    s: SessionView,
    target: EndpointView,
    target_ip: Seq<char>,
    target_port: u16,
    to_user: Seq<char>,
    from_user: Seq<char>,
    lan_ip: Option<Seq<char>>,
    branch: Seq<char>,
    sent_at: u64,
    d: Draws,
)
    requires
        is_sound(s),
    ensures
        is_sound(
            start_call_step(
                s,
                target,
                target_ip,
                target_port,
                to_user,
                from_user,
                lan_ip,
                branch,
                sent_at,
                d,
            ).session,
        ),
{
    reveal(start_call_step);
}

proof fn lemma_accept_sound(s: SessionView, ok_to: Option<Seq<char>>, d: Draws)
    requires
        is_sound(s),
    ensures
        is_sound(accept_step(s, ok_to, d).session),
{
    reveal(accept_step);
}

proof fn lemma_end_call_sound(s: SessionView, branch: Seq<char>)
    requires
        is_sound(s),
    ensures
        is_sound(end_call_step(s, branch).session),
{
    reveal(end_call_step);
}

proof fn lemma_register_sound(
    s: SessionView,
    target: EndpointView,
    target_ip: Seq<char>,
    user: Seq<char>,
    password: Seq<char>,
    branch: Seq<char>,
    d: Draws,
)
    requires
        is_sound(s),
    ensures
        is_sound(register_step(s, target, target_ip, user, password, branch, d).session),
{
    reveal(register_step);
}

/// Every session that the engine reaches is sound.
pub proof fn soundness_is_kept(s: SessionView, input: EngineInput, d: Draws)
    requires
        is_sound(s),
    ensures
        is_sound(step_of(s, input, d).session),
{
    match input {
        EngineInput::Register { target, target_ip, user, password, branch } => {
            lemma_register_sound(s, target@, target_ip@, user@, password@, branch@, d);
        },
        EngineInput::StartCall {
            target,
            target_ip,
            target_port,
            to_user,
            from_user,
            lan_ip,
            branch,
            at,
        } => {
            let lan = text_of(lan_ip);
            lemma_start_call_sound(
                s,
                target@,
                target_ip@,
                target_port,
                to_user@,
                from_user@,
                lan,
                branch@,
                at,
                d,
            );
        },
        EngineInput::AcceptCall { ok_to } => {
            lemma_accept_sound(s, text_of(ok_to), d);
        },
        EngineInput::RejectCall => {
            reveal(reject_step);
        },
        EngineInput::EndCall { branch } => {
            lemma_end_call_sound(s, branch@);
        },
        EngineInput::Request { request, src } => {
            lemma_request_sound(s, request, src@, d);
        },
        EngineInput::Response { response, src, branch } => {
            lemma_response_sound(s, response, src@, branch@);
        },
        EngineInput::RetransmitTick { .. } => {
            reveal(retransmit_step);
        },
        EngineInput::StatsTick { .. } => {
            reveal(stats_step);
        },
        _ => {},
    }
}

} // verus!
