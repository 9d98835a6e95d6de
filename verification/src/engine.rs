//! The engine of the signalling.

use vstd::prelude::*;

use crate::action::{
    action_views, bytes_of, push_action, Action, ActionView, CommandPlan, Draws, EngineInput,
};
use crate::ambient::{random_u16, random_u32, unix_time};
use crate::auth::{challenge, challenge_of, generate_auth_header};
use crate::sdp::session_description;
use crate::session::{
    accept_step, ack_request, answered, authorized_request, awaited_method, bye_request,
    challenged, challenges, contact_of, end_call_step, has_number, hung_up_step,
    invite_request, invited_step, is_engaged, is_private, is_sound, keepalive, keepalive_step,
    local_ip_step, may_call, may_register, media_resolved_step, mobile_contact_of, no_content,
    plan_of, progress, public_addr_in, read_via_parts, register_request, register_step,
    reject_step, request_step, response_step, resting, retransmit_step, sdp_content,
    sip_bound_step, soundness_is_kept, start_call_step, stats_step, step_of, stun_step, tag_given,
    user_agent, via_of, SessionView, Step, ACTIVE_THRESHOLD, INVITE_TIMEOUT,
};
use crate::sip::{
    endpoint_of, header, header_views, make_contact, make_cseq, make_numbered, make_tagged_to,
    make_tagged_user_at, make_user_at, make_via, no_headers, numbered, push_header, request_of,
    tagged_to, Answered, Asked, Endpoint, HeaderName, IncomingRequest, IncomingResponse, Method,
    ReplyKind, SipRequest,
};
use crate::telemetry::{pair_texts, TelemetryRecord};
use crate::text::{
    chars_of, decimal, parse_u16, push_decimal, split, split_at, string_of, strip_prefix, texts,
    trim,
};
use crate::utils::{extract_rtp_target, text_of};
use crate::{CallState, ClientCommand, EventView, UacEvent};

verus! {

/// The address from which the other side saw a request come, by the `Via` of
/// its response: `fallback_ip` and `fallback_port` as far as that says nothing.
pub fn extract_public_addr_from_via(via: &str, fallback_ip: &str, fallback_port: u16) -> (r: (
    String,
    u16,
))
    ensures
        (r.0@, r.1) == public_addr_in(via@, fallback_ip@, fallback_port),
{
    let chars = chars_of(via);
    let parts = split(chars.as_slice(), ';');
    let mut ip: String = fallback_ip.to_string();
    let mut port: u16 = fallback_port;
    let mut i: usize = 0;
    while i < parts.len()
        invariant
            i <= parts.len(),
            texts(parts@) == split_at(via@, ';'),
            (ip@, port) == read_via_parts(
                split_at(via@, ';').take(i as int),
                (fallback_ip@, fallback_port),
            ),
        decreases parts.len() - i,
    {
        proof {
            let seen = split_at(via@, ';').take(i + 1);
            assert(seen.drop_last() =~= split_at(via@, ';').take(i as int));
            assert(seen.last() == texts(parts@)[i as int]);
        }
        let part = trim(parts[i]);
        if let Some(rest) = strip_prefix(part, "received=") {
            ip = string_of(rest);
        } else if let Some(rest) = strip_prefix(part, "rport=") {
            if let Some(p) = parse_u16(rest) {
                port = p;
            }
        }
        i += 1;
    }
    assert(split_at(via@, ';').take(split_at(via@, ';').len() as int) =~= split_at(via@, ';'));
    (ip, port)
}

/// The signalling of one client: what it knows of its registration and its
/// call.
#[derive(Debug)]
pub struct SipEngine {
    state: CallState,
    sip_port: u16,
    rtp_port: u16,
    public_ip: String,
    public_port: u16,
    contact_ip: String,
    contact_port: u16,
    target: Option<Endpoint>,
    call_id: String,
    from_tag: String,
    to_tag: String,
    cseq: i32,
    user: String,
    password: String,
    is_registered: bool,
    last_invite: Option<SipRequest>,
    invite_sent_at: Option<u64>,
    pending: Option<Vec<u8>>,
    remote: Option<Endpoint>,
    media_reported: bool,
}

impl View for SipEngine {
    type V = SessionView;

    closed spec fn view(&self) -> SessionView {
        SessionView {
            state: self.state,
            sip_port: self.sip_port,
            rtp_port: self.rtp_port,
            public_ip: self.public_ip@,
            public_port: self.public_port,
            contact_ip: self.contact_ip@,
            contact_port: self.contact_port,
            target: endpoint_of(self.target),
            call_id: self.call_id@,
            from_tag: self.from_tag@,
            to_tag: self.to_tag@,
            cseq: self.cseq,
            user: self.user@,
            password: self.password@,
            is_registered: self.is_registered,
            last_invite: request_of(self.last_invite),
            invite_sent_at: self.invite_sent_at,
            pending: bytes_of(self.pending),
            remote: endpoint_of(self.remote),
            media_reported: self.media_reported,
        }
    }
}

/// Where a step stands: the session, and what is to be done so far.
spec fn so_far(engine: SipEngine, out: Seq<Action>) -> Step {
    Step { session: engine@, actions: action_views(out) }
}

/// No actions yet.
fn no_actions() -> (out: Vec<Action>)
    ensures
        action_views(out@) == Seq::<ActionView>::empty(),
{
    let out: Vec<Action> = Vec::new();
    assert(action_views(out@) =~= Seq::<ActionView>::empty());
    out
}

fn emit(out: &mut Vec<Action>, event: UacEvent)
    ensures
        action_views(final(out)@) == action_views(old(out)@).push(ActionView::Emit(event@)),
{
    push_action(out, Action::Emit(event));
}

fn log(out: &mut Vec<Action>, text: String)
    ensures
        action_views(final(out)@) == action_views(old(out)@).push(
            ActionView::Emit(EventView::Log(text@)),
        ),
{
    emit(out, UacEvent::Log(text));
}

impl SipEngine {
    /// What holds between two steps.
    pub open spec fn wf(self) -> bool {
        is_sound(self@)
    }

    /// An engine that knows nothing yet.
    pub fn new() -> (r: Self)
        ensures
            r.wf(),
            r@ == (SessionView {
                state: CallState::Idle,
                sip_port: 0,
                rtp_port: 0,
                public_ip: seq![],
                public_port: 0,
                contact_ip: seq![],
                contact_port: 0,
                target: None,
                call_id: seq![],
                from_tag: seq![],
                to_tag: seq![],
                cseq: 0,
                user: seq![],
                password: seq![],
                is_registered: false,
                last_invite: None,
                invite_sent_at: None,
                pending: None,
                remote: None,
                media_reported: false,
            }),
    {
        SipEngine {
            state: CallState::Idle,
            sip_port: 0,
            rtp_port: 0,
            public_ip: String::new(),
            public_port: 0,
            contact_ip: String::new(),
            contact_port: 0,
            target: None,
            call_id: String::new(),
            from_tag: String::new(),
            to_tag: String::new(),
            cseq: 0,
            user: String::new(),
            password: String::new(),
            is_registered: false,
            last_invite: None,
            invite_sent_at: None,
            pending: None,
            remote: None,
            media_reported: false,
        }
    }

    /// Where the client stands.
    pub fn state(&self) -> (r: CallState)
        ensures
            r == self@.state,
    {
        self.state
    }

    /// Whether a registration is taken on.
    pub fn accepts_registration(&self) -> (r: bool)
        ensures
            r == may_register(self@),
    {
        self.state == CallState::Idle || self.state == CallState::AuthFailed
    }

    /// Whether a call is taken on, going out or coming in.
    pub fn accepts_call(&self) -> (r: bool)
        ensures
            r == may_call(self@),
    {
        self.state == CallState::Idle || self.state == CallState::Registered
    }

    /// Enters a state, and tells the user where that is another.
    fn change_state(&mut self, out: &mut Vec<Action>, new_state: CallState)
        ensures
            so_far(*final(self), final(out)@) == so_far(*old(self), old(out)@).enter(new_state),
    {
        if self.state != new_state {
            self.state = new_state;
            emit(out, UacEvent::CallStateChanged(new_state));
        }
    }

    /// The state between calls.
    fn resting_state(&self) -> (r: CallState)
        ensures
            r == resting(self@),
    {
        if self.is_registered && !self.user.as_str().is_empty() {
            CallState::Registered
        } else {
            CallState::Idle
        }
    }

    /// Ends the call.
    fn end(&mut self, out: &mut Vec<Action>)
        ensures
            so_far(*final(self), final(out)@) == so_far(*old(self), old(out)@).over(),
    {
        let rest = self.resting_state();
        self.change_state(out, CallState::Terminated);
        self.change_state(out, rest);
    }

    fn via(&self, branch: &str) -> (r: String)
        ensures
            header(HeaderName::Via, r@) == via_of(self@, branch@),
    {
        make_via(self.contact_ip.as_str(), self.contact_port, branch)
    }

    fn contact(&self, user: &str) -> (r: String)
        ensures
            header(HeaderName::Contact, r@) == contact_of(self@, user@),
    {
        make_contact(user, self.contact_ip.as_str(), self.contact_port)
    }

    fn record(
        &self,
        out: &mut Vec<Action>,
        event: &str,
        message: &str,
        call_id: &str,
        attributes: Vec<(String, String)>,
    )
        ensures
            so_far(*self, final(out)@) == so_far(*self, old(out)@).record(
                event@,
                message@,
                call_id@,
                pair_texts(attributes@),
            ),
    {
        push_action(
            out,
            Action::Telemetry(
                TelemetryRecord {
                    severity: "INFO".to_string(),
                    event: event.to_string(),
                    message: message.to_string(),
                    call_id: call_id.to_string(),
                    attributes,
                },
            ),
        );
    }

    fn resolve(&self, out: &mut Vec<Action>, target: Option<String>)
        ensures
            so_far(*self, final(out)@) == so_far(*self, old(out)@).resolve(text_of(target)),
    {
        if let Some(target) = target {
            push_action(out, Action::ResolveMedia { target });
        }
    }

    fn local_ip(&mut self, ip: String) -> (out: Vec<Action>)
        ensures
            so_far(*final(self), out@) == local_ip_step(old(self)@, ip@),
    {
        let mut out = no_actions();
        let mut text = "🔍 Discovered Local IP: ".to_string();
        text.append(ip.as_str());
        self.public_ip = ip.clone();
        self.contact_ip = ip;
        log(&mut out, text);
        out
    }

    fn sip_bound(&mut self, port: u16, ephemeral: bool) -> (out: Vec<Action>)
        ensures
            so_far(*final(self), out@) == sip_bound_step(old(self)@, port, ephemeral),
    {
        let mut out = no_actions();
        self.sip_port = port;
        self.public_port = port;
        self.contact_port = port;
        if ephemeral {
            log(&mut out, "🔌 SIP bound to Ephemeral Port".to_string());
        } else {
            log(&mut out, "🔌 SIP bound to Port 5060".to_string());
        }
        out
    }

    fn stun_done(&mut self, public: Option<(String, u16)>) -> (out: Vec<Action>)
        ensures
            so_far(*final(self), out@) == stun_step(
                old(self)@,
                match public {
                    Some((ip, port)) => Some((ip@, port)),
                    None => None,
                },
            ),
    {
        let mut out = no_actions();
        match public {
            Some((ip, port)) => {
                let mut text = "🌍 Proactive STUN Success: NAT IP is ".to_string();
                text.append(ip.as_str());
                text.append(":");
                push_decimal(&mut text, port as u64);
                self.public_ip = ip.clone();
                self.public_port = port;
                self.contact_ip = ip;
                self.contact_port = port;
                log(&mut out, text);
            },
            None => {
                log(&mut out, "⚠️ STUN Timeout, falling back to Local IP".to_string());
            },
        }
        out
    }

    fn register_packet(&self, target_ip: &str, branch: &str) -> (r: SipRequest)
        ensures
            r@ == register_request(self@, target_ip@, branch@),
    {
        let mut uri = "sip:".to_string();
        uri.append(target_ip);
        let mut headers = no_headers();
        push_header(&mut headers, HeaderName::Via, self.via(branch));
        push_header(
            &mut headers,
            HeaderName::From,
            make_tagged_user_at(self.user.as_str(), target_ip, self.from_tag.as_str()),
        );
        push_header(&mut headers, HeaderName::To, make_user_at(self.user.as_str(), target_ip));
        push_header(&mut headers, HeaderName::CallId, self.call_id.clone());
        push_header(&mut headers, HeaderName::CSeq, make_cseq(self.cseq, Method::Register));
        push_header(&mut headers, HeaderName::Contact, self.contact(self.user.as_str()));
        push_header(&mut headers, HeaderName::Expires, "3600".to_string());
        push_header(&mut headers, HeaderName::ContentLength, "0".to_string());
        SipRequest { method: Method::Register, uri, headers, body: Vec::new() }
    }

    fn register(
        &mut self,
        target: Endpoint,
        target_ip: String,
        user: String,
        password: String,
        branch: String,
        d: Draws,
    ) -> (out: Vec<Action>)
        ensures
            so_far(*final(self), out@) == register_step(
                old(self)@,
                target@,
                target_ip@,
                user@,
                password@,
                branch@,
                d,
            ),
    {
        proof {
            reveal(register_step);
        }
        let mut out = no_actions();
        if !self.accepts_registration() {
            return out;
        }
        self.target = Some(target.copy());
        self.user = user;
        self.password = password;
        self.is_registered = false;
        self.call_id = make_numbered("reg-", d.call_no);
        self.from_tag = make_numbered("tag-", d.tag_no as u32);
        self.cseq = 1;
        let request = self.register_packet(target_ip.as_str(), branch.as_str());
        push_action(&mut out, Action::SendRequest { request, to: target });
        log(&mut out, "⬆️ Initial REGISTER sent (No Auth)".to_string());
        self.change_state(&mut out, CallState::Registering);
        out
    }

    fn invite_packet(
        &self,
        target_ip: &str,
        target_port: u16,
        to_user: &str,
        from_user: &str,
        branch: &str,
        now: i64,
    ) -> (r: SipRequest)
        ensures
            r@ == invite_request(
                self@,
                target_ip@,
                target_port,
                to_user@,
                from_user@,
                branch@,
                now,
            ),
    {
        let mut uri = "sip:".to_string();
        uri.append(to_user);
        uri.append("@");
        uri.append(target_ip);
        uri.append(":");
        push_decimal(&mut uri, target_port as u64);
        let mut headers = no_headers();
        push_header(&mut headers, HeaderName::Via, self.via(branch));
        push_header(
            &mut headers,
            HeaderName::From,
            make_tagged_user_at(from_user, target_ip, self.from_tag.as_str()),
        );
        push_header(&mut headers, HeaderName::To, make_user_at(to_user, target_ip));
        push_header(&mut headers, HeaderName::CallId, self.call_id.clone());
        push_header(&mut headers, HeaderName::CSeq, make_cseq(self.cseq, Method::Invite));
        push_header(&mut headers, HeaderName::Contact, self.contact(from_user));
        push_header(&mut headers, HeaderName::ContentType, "application/sdp".to_string());
        push_header(&mut headers, HeaderName::UserAgent, "Sentiric-Mobile-UAC/4.0".to_string());
        push_header(
            &mut headers,
            HeaderName::Allow,
            "INVITE, ACK, BYE, CANCEL, OPTIONS".to_string(),
        );
        let sdp = session_description(now, self.contact_ip.as_str(), self.rtp_port);
        SipRequest { method: Method::Invite, uri, headers, body: sdp.as_str().as_bytes_vec() }
    }
}

/// Whether an address belongs to a private network, by how its text begins.
fn in_private_network(ip: &str) -> (r: bool)
    ensures
        r == is_private(ip@),
{
    let chars = chars_of(ip);
    let s = chars.as_slice();
    strip_prefix(s, "100.").is_some() || strip_prefix(s, "10.").is_some() || strip_prefix(
        s,
        "192.168.",
    ).is_some() || strip_prefix(s, "172.").is_some()
}

impl SipEngine {
    fn start_call(
        &mut self,
        target: Endpoint,
        target_ip: String,
        target_port: u16,
        to_user: String,
        from_user: String,
        lan_ip: Option<String>,
        branch: String,
        sent_at: u64,
        d: Draws,
    ) -> (out: Vec<Action>)
        ensures
            so_far(*final(self), out@) == start_call_step(
                old(self)@,
                target@,
                target_ip@,
                target_port,
                to_user@,
                from_user@,
                text_of(lan_ip),
                branch@,
                sent_at,
                d,
            ),
    {
        proof {
            reveal(start_call_step);
        }
        let mut out = no_actions();
        if !self.accepts_call() {
            return out;
        }
        self.target = Some(target.copy());
        self.call_id = make_numbered("uac-", d.call_no);
        emit(&mut out, UacEvent::CallIdGenerated(self.call_id.clone()));
        self.from_tag = make_numbered("tag-", d.tag_no as u32);
        self.cseq = 1;
        self.contact_ip = self.public_ip.clone();
        self.contact_port = self.public_port;
        if let Some(ip) = lan_ip {
            if in_private_network(target_ip.as_str()) {
                let mut text = "🛡️ VPN/LAN Detected. STUN bypassed -> SDP set to ".to_string();
                text.append(ip.as_str());
                self.contact_ip = ip;
                self.contact_port = self.sip_port;
                log(&mut out, text);
            }
        }
        let invite = self.invite_packet(
            target_ip.as_str(),
            target_port,
            to_user.as_str(),
            from_user.as_str(),
            branch.as_str(),
            d.now,
        );
        log(&mut out, "⬆️ INVITE sent".to_string());
        let attributes: Vec<(String, String)> = vec![
            ("sip.method".to_string(), "INVITE".to_string()),
        ];
        assert(pair_texts(attributes@) =~= seq![("sip.method"@, "INVITE"@)]);
        self.record(
            &mut out,
            "SIP_PACKET_SENT",
            "INVITE sent",
            self.call_id.as_str(),
            attributes,
        );
        push_action(&mut out, Action::SendRequest { request: invite.copy(), to: target });
        self.last_invite = Some(invite);
        self.invite_sent_at = Some(sent_at);
        push_action(&mut out, Action::ResetRetransmit);
        self.change_state(&mut out, CallState::Dialing);
        out
    }

    /// Gives a tag to the `To` of an answer, where it has none yet.
    fn tag(&mut self, to: &Option<String>, d: Draws) -> (r: Option<String>)
        ensures
            final(self)@ == tag_given(old(self)@, text_of(*to), d),
            text_of(r) == tagged_to(text_of(*to), numbered("tag-"@, d.tag_no as nat)),
    {
        let tag = make_numbered("tag-", d.tag_no as u32);
        let r = make_tagged_to(to, tag.as_str());
        if r.is_some() {
            self.to_tag = tag;
        }
        r
    }

    fn accept_call(&mut self, ok_to: Option<String>, d: Draws) -> (out: Vec<Action>)
        ensures
            so_far(*final(self), out@) == accept_step(old(self)@, text_of(ok_to), d),
    {
        proof {
            reveal(accept_step);
        }
        let mut out = no_actions();
        let pending = self.pending.take();
        let remote = match &self.remote {
            Some(remote) => Some(remote.copy()),
            None => None,
        };
        if let (Some(body), Some(remote)) = (pending, remote) {
            log(&mut out, "⬆️ Sending 200 OK (Accepting Call)".to_string());
            let media = extract_rtp_target(body.as_slice(), remote.host.as_str());
            self.resolve(&mut out, media);
            let to_header = self.tag(&ok_to, d);
            let sdp = session_description(d.now, self.contact_ip.as_str(), self.rtp_port);
            let bytes = sdp.as_str().as_bytes_vec();
            let mut length = String::new();
            push_decimal(&mut length, bytes.len() as u64);
            assert(length@ =~= decimal(bytes@.len()));
            let mut headers = no_headers();
            push_header(&mut headers, HeaderName::Contact, self.contact("mobile"));
            push_header(&mut headers, HeaderName::ContentType, "application/sdp".to_string());
            push_header(&mut headers, HeaderName::ContentLength, length);
            assert(header_views(headers@) == seq![
                mobile_contact_of(self@),
                sdp_content(),
                header(HeaderName::ContentLength, decimal(bytes@.len())),
            ]);
            push_action(
                &mut out,
                Action::SendReply {
                    answered: Answered::Pending,
                    kind: ReplyKind::Success,
                    to_header,
                    headers,
                    body: Some(bytes),
                    to: remote,
                },
            );
            self.change_state(&mut out, CallState::Connected);
        }
        out
    }

    fn reject_call(&mut self) -> (out: Vec<Action>)
        ensures
            so_far(*final(self), out@) == reject_step(old(self)@),
    {
        proof {
            reveal(reject_step);
        }
        let mut out = no_actions();
        let pending = self.pending.take();
        let remote = match &self.remote {
            Some(remote) => Some(remote.copy()),
            None => None,
        };
        if let (Some(_), Some(remote)) = (pending, remote) {
            log(&mut out, "⬆️ Sending 603 Decline".to_string());
            let mut headers = no_headers();
            push_header(&mut headers, HeaderName::ContentLength, "0".to_string());
            push_action(
                &mut out,
                Action::SendReply {
                    answered: Answered::Pending,
                    kind: ReplyKind::Decline,
                    to_header: None,
                    headers,
                    body: None,
                    to: remote,
                },
            );
            let rest = self.resting_state();
            self.change_state(&mut out, rest);
        }
        out
    }

    fn bye_packet(&self, target: &Endpoint, branch: &str) -> (r: SipRequest)
        ensures
            r@ == bye_request(self@, target@, branch@),
    {
        let mut uri = "sip:".to_string();
        uri.append(target.addr.as_str());
        let mut from = "<sip:mobile@sentiric>;tag=".to_string();
        from.append(self.from_tag.as_str());
        let mut headers = no_headers();
        push_header(&mut headers, HeaderName::Via, self.via(branch));
        push_header(&mut headers, HeaderName::From, from);
        push_header(&mut headers, HeaderName::To, self.to_tag.clone());
        push_header(&mut headers, HeaderName::CallId, self.call_id.clone());
        push_header(&mut headers, HeaderName::CSeq, make_cseq(self.cseq, Method::Bye));
        push_header(&mut headers, HeaderName::Contact, self.contact("mobile"));
        push_header(&mut headers, HeaderName::ContentLength, "0".to_string());
        SipRequest { method: Method::Bye, uri, headers, body: Vec::new() }
    }

    /// Whom requests go to.
    fn target_copy(&self) -> (r: Option<Endpoint>)
        ensures
            endpoint_of(r) == self@.target,
    {
        match &self.target {
            Some(target) => Some(target.copy()),
            None => None,
        }
    }

    fn end_call(&mut self, branch: String) -> (out: Vec<Action>)
        requires
            is_engaged(old(self)@) && old(self)@.target is Some ==> old(self)@.cseq < i32::MAX,
        ensures
            so_far(*final(self), out@) == end_call_step(old(self)@, branch@),
    {
        proof {
            reveal(end_call_step);
        }
        let mut out = no_actions();
        self.last_invite = None;
        if self.state != CallState::Idle && self.state != CallState::Registered && self.state
            != CallState::Registering {
            if let Some(target) = self.target_copy() {
                self.cseq = self.cseq + 1;
                let bye = self.bye_packet(&target, branch.as_str());
                log(&mut out, "⬆️ BYE sent".to_string());
                push_action(&mut out, Action::SendRequest { request: bye, to: target });
            }
            push_action(&mut out, Action::StopMedia);
            self.end(&mut out);
            self.media_reported = false;
        }
        out
    }

    fn refuse_as_busy(&self, src: Endpoint) -> (out: Vec<Action>)
        ensures
            action_views(out@) == seq![
                ActionView::SendReply {
                    answered: Answered::Received,
                    kind: ReplyKind::BusyHere,
                    to_header: None,
                    headers: seq![no_content()],
                    body: None,
                    to: src@,
                },
            ],
    {
        let mut out = no_actions();
        let mut headers = no_headers();
        push_header(&mut headers, HeaderName::ContentLength, "0".to_string());
        push_action(
            &mut out,
            Action::SendReply {
                answered: Answered::Received,
                kind: ReplyKind::BusyHere,
                to_header: None,
                headers,
                body: None,
                to: src,
            },
        );
        out
    }

    fn invited(&mut self, request: IncomingRequest, src: Endpoint, d: Draws) -> (out: Vec<Action>)
        ensures
            so_far(*final(self), out@) == invited_step(old(self)@, request, src@, d),
    {
        if !self.accepts_call() {
            return self.refuse_as_busy(src);
        }
        let mut out = no_actions();
        let from = match request.from {
            Some(from) => from,
            None => String::new(),
        };
        let call_id = match request.call_id {
            Some(call_id) => call_id,
            None => String::new(),
        };
        self.pending = Some(request.body);
        self.remote = Some(src.copy());
        self.call_id = call_id.clone();
        self.target = Some(src.copy());
        let to_header = self.tag(&request.ringing_to, d);
        let mut headers = no_headers();
        push_header(&mut headers, HeaderName::ContentLength, "0".to_string());
        assert(header_views(headers@) == seq![no_content()]);
        push_action(
            &mut out,
            Action::SendReply {
                answered: Answered::Received,
                kind: ReplyKind::Ringing,
                to_header,
                headers,
                body: None,
                to: src,
            },
        );
        self.change_state(&mut out, CallState::Incoming);
        let attributes: Vec<(String, String)> = vec![("from".to_string(), from.clone())];
        assert(pair_texts(attributes@) =~= seq![("from"@, from@)]);
        emit(&mut out, UacEvent::IncomingCall { from, call_id: call_id.clone() });
        self.record(
            &mut out,
            "SIP_INBOUND_INVITE",
            "Incoming call received",
            call_id.as_str(),
            attributes,
        );
        out
    }

    fn hung_up(&mut self, src: Endpoint) -> (out: Vec<Action>)
        ensures
            so_far(*final(self), out@) == hung_up_step(old(self)@, src@),
    {
        let mut out = no_actions();
        log(&mut out, "🏁 Server closed connection (BYE).".to_string());
        let attributes: Vec<(String, String)> = Vec::new();
        assert(pair_texts(attributes@) =~= seq![]);
        self.record(
            &mut out,
            "REMOTE_HANGUP",
            "Received BYE from Server",
            self.call_id.as_str(),
            attributes,
        );
        let mut headers = no_headers();
        push_header(&mut headers, HeaderName::Contact, self.contact("mobile"));
        push_header(&mut headers, HeaderName::UserAgent, "Sentiric-Mobile-UAC/4.0".to_string());
        push_header(&mut headers, HeaderName::ContentLength, "0".to_string());
        assert(header_views(headers@) == seq![
            mobile_contact_of(self@),
            user_agent(),
            no_content(),
        ]);
        push_action(
            &mut out,
            Action::SendReply {
                answered: Answered::Received,
                kind: ReplyKind::Success,
                to_header: None,
                headers,
                body: None,
                to: src,
            },
        );
        log(&mut out, "⬆️ 200 OK (For BYE) sent".to_string());
        push_action(&mut out, Action::StopMedia);
        self.end(&mut out);
        self.media_reported = false;
        self.last_invite = None;
        out
    }

    fn request(&mut self, request: IncomingRequest, src: Endpoint, d: Draws) -> (out: Vec<Action>)
        ensures
            so_far(*final(self), out@) == request_step(old(self)@, request, src@, d),
    {
        proof {
            reveal(request_step);
        }
        match request.asked {
            Asked::Invite => self.invited(request, src, d),
            Asked::Bye => self.hung_up(src),
            Asked::Other => no_actions(),
        }
    }

    fn progress(&mut self, out: &mut Vec<Action>, r: &IncomingResponse)
        ensures
            so_far(*final(self), final(out)@) == progress(so_far(*old(self), old(out)@), *r),
    {
        if r.status_code >= 100 && (self.state == CallState::Dialing || self.state
            == CallState::Registering) {
            if r.status_code < 200 {
                self.last_invite = None;
                self.invite_sent_at = None;
            }
            if let Some(via) = &r.via {
                let (ip, port) = extract_public_addr_from_via(
                    via.as_str(),
                    self.contact_ip.as_str(),
                    self.contact_port,
                );
                if ip != self.contact_ip || port != self.contact_port {
                    let mut text = "🌍 Reactive NAT Update: ".to_string();
                    text.append(ip.as_str());
                    text.append(":");
                    push_decimal(&mut text, port as u64);
                    log(out, text);
                    self.contact_ip = ip;
                    self.contact_port = port;
                }
            }
        }
    }

    fn authorized_packet(&self, host: &str, authorization: String, branch: &str) -> (r: SipRequest)
        ensures
            r@ == authorized_request(self@, host@, authorization@, branch@),
    {
        let method = self.method_awaited();
        let mut uri = "sip:".to_string();
        uri.append(host);
        let mut headers = no_headers();
        push_header(&mut headers, HeaderName::Via, self.via(branch));
        push_header(
            &mut headers,
            HeaderName::From,
            make_tagged_user_at(self.user.as_str(), host, self.from_tag.as_str()),
        );
        push_header(&mut headers, HeaderName::To, make_user_at(self.user.as_str(), host));
        push_header(&mut headers, HeaderName::CallId, self.call_id.clone());
        push_header(&mut headers, HeaderName::CSeq, make_cseq(self.cseq, method));
        push_header(&mut headers, HeaderName::Contact, self.contact(self.user.as_str()));
        if self.state == CallState::Registering {
            push_header(&mut headers, HeaderName::Expires, "3600".to_string());
        }
        push_header(&mut headers, HeaderName::Authorization, authorization);
        push_header(&mut headers, HeaderName::ContentLength, "0".to_string());
        let r = SipRequest { method, uri, headers, body: Vec::new() };
        assert(r@.headers =~= authorized_request(
            self@,
            host@,
            authorization@,
            branch@,
        ).headers);
        r
    }

    /// The method of the request that is awaiting its answer.
    fn method_awaited(&self) -> (r: Method)
        ensures
            r == awaited_method(self@),
    {
        if self.state == CallState::Registering {
            Method::Register
        } else {
            Method::Invite
        }
    }

    fn challenged(&mut self, out: &mut Vec<Action>, r: &IncomingResponse, branch: &str)
        requires
            challenges(old(self)@, *r) && old(self)@.target is Some && challenge_of(
                r.www_authenticate->0@,
            ) is Some ==> old(self)@.cseq < i32::MAX,
        ensures
            so_far(*final(self), final(out)@) == challenged(
                so_far(*old(self), old(out)@),
                *r,
                branch@,
            ),
    {
        if r.status_code == 401 && (self.state == CallState::Registering || self.state
            == CallState::Dialing) {
            if let Some(www_auth) = &r.www_authenticate {
                if let Some(target) = self.target_copy() {
                    let method = self.method_awaited();
                    let mut uri = "sip:".to_string();
                    uri.append(target.host.as_str());
                    let answer = generate_auth_header(
                        self.user.as_str(),
                        self.password.as_str(),
                        method.as_word(),
                        uri.as_str(),
                        www_auth.as_str(),
                    );
                    if let Some(authorization) = answer {
                        self.cseq = self.cseq + 1;
                        let request = self.authorized_packet(
                            target.host.as_str(),
                            authorization,
                            branch,
                        );
                        push_action(out, Action::SendRequest { request, to: target });
                        let mut text = "🔑 Sent 401 Challenge Response for ".to_string();
                        text.append(method.as_word());
                        log(out, text);
                        return ;
                    }
                }
                self.change_state(out, CallState::AuthFailed);
            }
        }
    }

    fn ack_packet(&self, from: &Option<String>, src: &Endpoint, branch: &str) -> (r: SipRequest)
        ensures
            r@ == ack_request(self@, text_of(*from), src@, branch@),
    {
        let mut uri = "sip:".to_string();
        uri.append(src.addr.as_str());
        let mut headers = no_headers();
        push_header(&mut headers, HeaderName::Via, self.via(branch));
        if let Some(from) = from {
            push_header(&mut headers, HeaderName::From, from.clone());
        }
        push_header(&mut headers, HeaderName::To, self.to_tag.clone());
        push_header(&mut headers, HeaderName::CallId, self.call_id.clone());
        push_header(&mut headers, HeaderName::CSeq, make_cseq(self.cseq, Method::Ack));
        push_header(&mut headers, HeaderName::Contact, self.contact("mobile"));
        push_header(&mut headers, HeaderName::UserAgent, "Sentiric-Mobile-UAC/4.0".to_string());
        push_header(&mut headers, HeaderName::ContentLength, "0".to_string());
        let r = SipRequest { method: Method::Ack, uri, headers, body: Vec::new() };
        assert(r@.headers =~= ack_request(self@, text_of(*from), src@, branch@).headers);
        r
    }

    fn answered(&mut self, out: &mut Vec<Action>, r: &IncomingResponse, src: &Endpoint, branch: &str)
        ensures
            so_far(*final(self), final(out)@) == answered(
                so_far(*old(self), old(out)@),
                *r,
                src@,
                branch@,
            ),
    {
        if r.status_code == 200 && (self.state == CallState::Dialing || self.state
            == CallState::Ringing) {
            self.last_invite = None;
            if let Some(to) = &r.to {
                self.to_tag = to.clone();
            }
            let media = extract_rtp_target(r.body.as_slice(), src.host.as_str());
            self.resolve(out, media);
            if let Some(target) = self.target_copy() {
                let ack = self.ack_packet(&r.from, src, branch);
                log(out, "⬆️ ACK sent".to_string());
                push_action(out, Action::SendRequest { request: ack, to: target });
            }
            self.change_state(out, CallState::Connected);
        } else if r.status_code >= 400 && r.status_code != 401 {
            let mut text = "❌ Server rejected with ".to_string();
            push_decimal(&mut text, r.status_code as u64);
            log(out, text);
            if self.state == CallState::Registering {
                self.change_state(out, CallState::Terminated);
                self.is_registered = false;
                let failed = if r.status_code == 403 {
                    CallState::AuthFailed
                } else {
                    CallState::Idle
                };
                self.change_state(out, failed);
            } else {
                self.end(out);
            }
            self.last_invite = None;
        }
    }

    fn response(&mut self, r: IncomingResponse, src: Endpoint, branch: String) -> (out: Vec<Action>)
        requires
            challenges(old(self)@, r) && old(self)@.target is Some && challenge_of(
                r.www_authenticate->0@,
            ) is Some ==> old(self)@.cseq < i32::MAX,
        ensures
            so_far(*final(self), out@) == response_step(old(self)@, r, src@, branch@),
    {
        proof {
            reveal(response_step);
        }
        let mut out = no_actions();
        self.progress(&mut out, &r);
        self.challenged(&mut out, &r, branch.as_str());
        if r.status_code == 200 && self.state == CallState::Registering {
            self.is_registered = true;
            self.change_state(&mut out, CallState::Registered);
            log(&mut out, "✅ Registered successfully to network!".to_string());
        }
        if r.status_code == 180 || r.status_code == 183 {
            self.change_state(&mut out, CallState::Ringing);
        }
        self.answered(&mut out, &r, &src, branch.as_str());
        out
    }

    fn media_resolved(&self, target: String) -> (out: Vec<Action>)
        ensures
            so_far(*self, out@) == media_resolved_step(self@, target@),
    {
        let mut out = no_actions();
        let attributes: Vec<(String, String)> = vec![("target".to_string(), target.clone())];
        assert(pair_texts(attributes@) =~= seq![("target"@, target@)]);
        self.record(
            &mut out,
            "SDP_PARSED",
            "Media target locked",
            self.call_id.as_str(),
            attributes,
        );
        push_action(&mut out, Action::StartMedia { target });
        out
    }

    fn retransmit(&mut self, now: u64) -> (out: Vec<Action>)
        ensures
            so_far(*final(self), out@) == retransmit_step(old(self)@, now),
    {
        proof {
            reveal(retransmit_step);
        }
        let mut out = no_actions();
        let invite = match &self.last_invite {
            Some(invite) => Some(invite.copy()),
            None => None,
        };
        if let (Some(invite), Some(target), Some(sent_at)) = (
            invite,
            self.target_copy(),
            self.invite_sent_at,
        ) {
            if now >= sent_at && now - sent_at > INVITE_TIMEOUT {
                self.last_invite = None;
                log(&mut out, "⏱️ Connection Timeout!".to_string());
                self.end(&mut out);
            } else {
                push_action(&mut out, Action::SendRequest { request: invite, to: target });
            }
        }
        out
    }

    fn keep_alive(&self) -> (out: Vec<Action>)
        ensures
            so_far(*self, out@) == keepalive_step(self@),
    {
        let mut out = no_actions();
        if self.state == CallState::Registered || self.state == CallState::Connected {
            if let Some(target) = self.target_copy() {
                let bytes: Vec<u8> = vec![13, 10, 13, 10];
                assert(bytes@ =~= keepalive());
                push_action(&mut out, Action::SendRaw { bytes, to: target });
            }
        }
        out
    }

    fn stats(&mut self, rx: u64, tx: u64) -> (out: Vec<Action>)
        ensures
            so_far(*final(self), out@) == stats_step(old(self)@, rx, tx),
    {
        proof {
            reveal(stats_step);
        }
        let mut out = no_actions();
        if rx > 0 || tx > 0 {
            emit(&mut out, UacEvent::RtpStats { rx_cnt: rx, tx_cnt: tx });
            if !self.media_reported && rx > ACTIVE_THRESHOLD {
                self.media_reported = true;
                emit(&mut out, UacEvent::MediaActive);
            }
        }
        out
    }

    /// Whether there is a number for the request that an input asks for.
    pub fn can_step(&self, input: &EngineInput) -> (r: bool)
        ensures
            r == has_number(self@, *input),
    {
        if self.cseq < i32::MAX {
            return true;
        }
        match input {
            EngineInput::EndCall { .. } => {
                !(self.state != CallState::Idle && self.state != CallState::Registered
                    && self.state != CallState::Registering && self.target.is_some())
            },
            EngineInput::Response { response, .. } => {
                let awaits = self.state == CallState::Dialing || self.state
                    == CallState::Registering;
                match &response.www_authenticate {
                    Some(www_auth) => !(response.status_code == 401 && awaits
                        && self.target.is_some() && challenge(www_auth.as_str()).is_some()),
                    None => true,
                }
            },
            _ => true,
        }
    }

    /// Takes one step: takes note of `input`, and returns what is to be done.
    /// What chance and the clock have to give is drawn here.
    pub fn step(&mut self, input: EngineInput) -> (out: Vec<Action>)
        requires
            old(self).wf(),
            has_number(old(self)@, input),
        ensures
            final(self).wf(),
            exists|d: Draws|
                #[trigger] step_of(old(self)@, input, d) == (Step {
                    session: final(self)@,
                    actions: action_views(out@),
                }),
    {
        let d = Draws { call_no: random_u32(), tag_no: random_u16(), now: unix_time() };
        self.step_with(input, d)
    }

    /// Takes one step: takes note of `input`, and returns what is to be done,
    /// where chance and the clock give `d`.
    pub fn step_with(&mut self, input: EngineInput, d: Draws) -> (out: Vec<Action>)
        requires
            old(self).wf(),
            has_number(old(self)@, input),
        ensures
            final(self).wf(),
            step_of(old(self)@, input, d) == (Step {
                session: final(self)@,
                actions: action_views(out@),
            }),
    {
        proof {
            soundness_is_kept(self@, input, d);
        }
        match input {
            EngineInput::LocalIp { ip } => self.local_ip(ip),
            EngineInput::SipBound { port, ephemeral } => self.sip_bound(port, ephemeral),
            EngineInput::SipBindFailed { reason } => {
                let mut out = no_actions();
                let mut text = "SIP Bind Fail: ".to_string();
                text.append(reason.as_str());
                emit(&mut out, UacEvent::Error(text));
                out
            },
            EngineInput::RtpBound { port } => {
                self.rtp_port = port;
                no_actions()
            },
            EngineInput::RtpBindFailed { reason } => {
                let mut out = no_actions();
                let mut text = "RTP Bind Fail: ".to_string();
                text.append(reason.as_str());
                emit(&mut out, UacEvent::Error(text));
                out
            },
            EngineInput::StunDone { public } => self.stun_done(public),
            EngineInput::Register { target, target_ip, user, password, branch } => self.register(
                target,
                target_ip,
                user,
                password,
                branch,
                d,
            ),
            EngineInput::StartCall {
                target,
                target_ip,
                target_port,
                to_user,
                from_user,
                lan_ip,
                branch,
                at,
            } => self.start_call(
                target,
                target_ip,
                target_port,
                to_user,
                from_user,
                lan_ip,
                branch,
                at,
                d,
            ),
            EngineInput::AcceptCall { ok_to } => self.accept_call(ok_to, d),
            EngineInput::RejectCall => self.reject_call(),
            EngineInput::EndCall { branch } => self.end_call(branch),
            EngineInput::UpdateSettings { mic_gain_bits, speaker_gain_bits } => {
                let mut out = no_actions();
                push_action(&mut out, Action::UpdateGains { mic_gain_bits, speaker_gain_bits });
                out
            },
            EngineInput::SendDtmf { key } => {
                let mut out = no_actions();
                push_action(&mut out, Action::TriggerDtmf { key });
                let mut text = "🎹 In-Band DTMF Injecting: ".to_string();
                text.push(key);
                log(&mut out, text);
                out
            },
            EngineInput::SetMute { muted } => {
                let mut out = no_actions();
                push_action(&mut out, Action::SetMute { muted });
                let mut text = "🔇 Mic state changed: ".to_string();
                if muted {
                    text.append("MUTED");
                } else {
                    text.append("UNMUTED");
                }
                log(&mut out, text);
                out
            },
            EngineInput::Request { request, src } => self.request(request, src, d),
            EngineInput::Response { response, src, branch } => self.response(
                response,
                src,
                branch,
            ),
            EngineInput::MediaResolved { target } => self.media_resolved(target),
            EngineInput::RetransmitTick { at } => self.retransmit(at),
            EngineInput::KeepaliveTick => self.keep_alive(),
            EngineInput::StatsTick { rx, tx } => self.stats(rx, tx),
        }
    }

    /// Decides on a command of the user: what has to be found out before it
    /// can be taken note of. A registration and a call out of turn come to
    /// nothing.
    pub fn plan(&self, command: ClientCommand) -> (r: CommandPlan)
        ensures
            r@ == plan_of(self@, command),
    {
        match command {
            ClientCommand::Register { target_ip, target_port, user, password } => {
                if self.accepts_registration() {
                    let address = socket_address(target_ip.as_str(), target_port);
                    CommandPlan::Register { address, target_ip, user, password }
                } else {
                    CommandPlan::Nothing
                }
            },
            ClientCommand::StartCall { target_ip, target_port, to_user, from_user } => {
                if self.accepts_call() {
                    let address = socket_address(target_ip.as_str(), target_port);
                    CommandPlan::StartCall { address, target_ip, target_port, to_user, from_user }
                } else {
                    CommandPlan::Nothing
                }
            },
            ClientCommand::AcceptCall => CommandPlan::AcceptCall,
            ClientCommand::RejectCall => CommandPlan::RejectCall,
            ClientCommand::EndCall => CommandPlan::EndCall,
            ClientCommand::UpdateSettings { mic_gain_bits, speaker_gain_bits, .. } => {
                CommandPlan::UpdateSettings { mic_gain_bits, speaker_gain_bits }
            },
            ClientCommand::SendDtmf { key } => CommandPlan::SendDtmf { key },
            ClientCommand::SetMute { muted } => CommandPlan::SetMute { muted },
        }
    }
}

/// The text of a socket address.
fn socket_address(ip: &str, port: u16) -> (r: String)
    ensures
        r@ == ip@ + ":"@ + decimal(port as nat),
{
    let mut r = ip.to_string();
    r.append(":");
    push_decimal(&mut r, port as u64);
    r
}

} // verus!
