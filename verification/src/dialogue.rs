//! What the client says in a dialogue, message by message: which user is named
//! where, which tag belongs to whom, and what the other side can rely on.

use vstd::prelude::*;
use vstd::utf8::encode_utf8;

use crate::action::{ActionView, CommandPlan, Draws, EngineInput};
use crate::auth::{challenge_of, md5_of};
use crate::engine::SipEngine;
use crate::sdp::sdp_text;
use crate::session::{
    accept_step, at, challenged, end_call_step, has_number, plan_of, progress, public_addr_in,
    read_via_part, read_via_parts, register_step, registered, reject_step, request_step,
    response_step, retransmit_step, ringing, start_call_step, stats_step, step_of, SessionView,
};
use crate::sip::{
    Answered, Asked, Endpoint, HeaderName, HeaderView, IncomingRequest, IncomingResponse, Method,
    ReplyKind,
};
use crate::telemetry::RecordView;
use crate::text::{
    after_prefix, decimal, hex_of_bytes, hexadecimal, holds, is_blank, is_white_space, lacks,
    lemma_after_own_prefix, lemma_split_one, lemma_split_two, lemma_trimmed_around, signed_decimal,
    split_at, trimmed, u16_of,
};
use crate::utils::{lossy_text, rtp_target_in, text_of};
use crate::{CallState, ClientCommand, EventView};

verus! {

/// Whether headers hold this one, and no other of its name.
pub open spec fn bears(headers: Seq<HeaderView>, name: HeaderName, value: Seq<char>) -> bool {
    exists|k: int|
        0 <= k < headers.len() && #[trigger] headers[k] == (HeaderView { name, value })
            && stands_alone(headers, k)
}

/// Whether no other header has the name of the one at `k`.
pub open spec fn stands_alone(headers: Seq<HeaderView>, k: int) -> bool {
    forall|j: int|
        0 <= j < headers.len() && j != k ==> (#[trigger] headers[j]).name != headers[k].name
}

/// Whether headers hold none of this name.
pub open spec fn bears_no(headers: Seq<HeaderView>, name: HeaderName) -> bool {
    forall|j: int| 0 <= j < headers.len() ==> (#[trigger] headers[j]).name != name
}

proof fn lemma_bears(headers: Seq<HeaderView>, k: int, name: HeaderName, value: Seq<char>)
    requires
        0 <= k < headers.len(),
        headers[k].name == name,
        headers[k].value == value,
        stands_alone(headers, k),
    ensures
        bears(headers, name, value),
{
    assert(headers[k] == (HeaderView { name, value }));
}

/// The tag that a number drawn by chance gives.
pub open spec fn drawn_tag(d: Draws) -> Seq<char> {
    "tag-"@ + hexadecimal(d.tag_no as nat)
}

/// The MD5 digest of a text, in base sixteen.
pub open spec fn digest(text: Seq<char>) -> Seq<char> {
    hex_of_bytes(md5_of(encode_utf8(text)))
}

/// A registration that is taken on asks the server in the name of the user,
/// without credentials; the client remembers them for the challenge, and waits.
pub proof fn a_registration_is_asked_in_the_name_of_the_user(
    s: SessionView,
    target: Endpoint,
    target_ip: String,
    user: String,
    password: String,
    branch: String,
    d: Draws,
)
    requires
        s.state == CallState::Idle || s.state == CallState::AuthFailed,
    ensures
        ({
            let next = step_of(
                s,
                EngineInput::Register { target, target_ip, user, password, branch },
                d,
            );
            let r = next.actions[0]->request;
            let tag = drawn_tag(d);
            let call_id = "reg-"@ + hexadecimal(d.call_no as nat);
            &&& next.actions == seq![
                ActionView::SendRequest { request: r, to: target@ },
                ActionView::Emit(EventView::Log("⬆️ Initial REGISTER sent (No Auth)"@)),
                ActionView::Emit(EventView::CallStateChanged(CallState::Registering)),
            ]
            &&& r.method == Method::Register
            &&& r.uri == "sip:"@ + target_ip@
            &&& r.body.len() == 0
            &&& r.headers.len() == 8
            &&& bears(
                r.headers,
                HeaderName::Via,
                "SIP/2.0/UDP "@ + s.contact_ip + ":"@ + decimal(s.contact_port as nat)
                    + ";branch="@ + branch@ + ";rport"@,
            )
            &&& bears(
                r.headers,
                HeaderName::From,
                "<sip:"@ + user@ + "@"@ + target_ip@ + ">"@ + ";tag="@ + tag,
            )
            &&& bears(r.headers, HeaderName::To, "<sip:"@ + user@ + "@"@ + target_ip@ + ">"@)
            &&& bears(r.headers, HeaderName::CallId, call_id)
            &&& bears(r.headers, HeaderName::CSeq, signed_decimal(1) + " "@ + "REGISTER"@)
            &&& bears(
                r.headers,
                HeaderName::Contact,
                "<sip:"@ + user@ + "@"@ + s.contact_ip + ":"@ + decimal(s.contact_port as nat)
                    + ">"@,
            )
            &&& bears(r.headers, HeaderName::Expires, "3600"@)
            &&& bears(r.headers, HeaderName::ContentLength, "0"@)
            &&& next.session == (SessionView {
                state: CallState::Registering,
                target: Some(target@),
                user: user@,
                password: password@,
                is_registered: false,
                call_id,
                from_tag: tag,
                cseq: 1,
                ..s
            })
        }),
{
    reveal(register_step);
    let next = step_of(s, EngineInput::Register { target, target_ip, user, password, branch }, d);
    let r = next.actions[0]->request;
    let h = r.headers;
    assert(next.actions =~= seq![
        ActionView::SendRequest { request: r, to: target@ },
        ActionView::Emit(EventView::Log("⬆️ Initial REGISTER sent (No Auth)"@)),
        ActionView::Emit(EventView::CallStateChanged(CallState::Registering)),
    ]);
    lemma_bears(h, 0, HeaderName::Via, h[0].value);
    lemma_bears(h, 1, HeaderName::From, h[1].value);
    lemma_bears(h, 2, HeaderName::To, h[2].value);
    lemma_bears(h, 3, HeaderName::CallId, h[3].value);
    lemma_bears(h, 4, HeaderName::CSeq, h[4].value);
    lemma_bears(h, 5, HeaderName::Contact, h[5].value);
    lemma_bears(h, 6, HeaderName::Expires, h[6].value);
    lemma_bears(h, 7, HeaderName::ContentLength, h[7].value);
}

/// A digest challenge to a registration or a call is answered with the
/// credentials of the user: the response is made of the name, the realm and the
/// password, of the nonce, and of the method and the address that are asked
/// for. The request goes to the same server, in the same call, numbered one
/// higher, and the client goes on waiting.
pub proof fn a_challenge_is_answered_with_the_password(
    s: SessionView,
    response: IncomingResponse,
    src: Endpoint,
    branch: String,
    d: Draws,
)
    requires
        s.state == CallState::Registering || s.state == CallState::Dialing,
        s.target is Some,
        s.cseq < i32::MAX,
        response.status_code == 401,
        response.www_authenticate is Some,
        challenge_of(response.www_authenticate->0@) is Some,
    ensures
        ({
            let next = step_of(s, EngineInput::Response { response, src, branch }, d);
            let n = next.session;
            let (realm, nonce) = challenge_of(response.www_authenticate->0@)->0;
            let registering = s.state == CallState::Registering;
            let method = if registering {
                "REGISTER"@
            } else {
                "INVITE"@
            };
            let host = s.target->0.host;
            let uri = "sip:"@ + host;
            let ha1 = digest(s.user + ":"@ + realm + ":"@ + s.password);
            let ha2 = digest(method + ":"@ + uri);
            let answer = digest(ha1 + ":"@ + nonce + ":"@ + ha2);
            let sent = next.actions.len() - 2;
            let r = next.actions[sent]->request;
            &&& 0 <= sent <= 1
            &&& sent == 1 ==> next.actions[0] == ActionView::Emit(
                EventView::Log(
                    "🌍 Reactive NAT Update: "@ + n.contact_ip + ":"@ + decimal(
                        n.contact_port as nat,
                    ),
                ),
            )
            &&& next.actions[sent] == ActionView::SendRequest { request: r, to: s.target->0 }
            &&& next.actions[sent + 1] == ActionView::Emit(
                EventView::Log("🔑 Sent 401 Challenge Response for "@ + method),
            )
            &&& r.method == (if registering {
                Method::Register
            } else {
                Method::Invite
            })
            &&& r.uri == uri
            &&& r.body.len() == 0
            &&& r.headers.len() == (if registering {
                9int
            } else {
                8
            })
            &&& bears(
                r.headers,
                HeaderName::Authorization,
                "Digest username=\""@ + s.user + "\", realm=\""@ + realm + "\", nonce=\""@ + nonce
                    + "\", uri=\""@ + uri + "\", response=\""@ + answer + "\", algorithm=MD5"@,
            )
            &&& bears(
                r.headers,
                HeaderName::Via,
                "SIP/2.0/UDP "@ + n.contact_ip + ":"@ + decimal(n.contact_port as nat)
                    + ";branch="@ + branch@ + ";rport"@,
            )
            &&& bears(
                r.headers,
                HeaderName::From,
                "<sip:"@ + s.user + "@"@ + host + ">"@ + ";tag="@ + s.from_tag,
            )
            &&& bears(r.headers, HeaderName::To, "<sip:"@ + s.user + "@"@ + host + ">"@)
            &&& bears(r.headers, HeaderName::CallId, s.call_id)
            &&& bears(r.headers, HeaderName::CSeq, signed_decimal(s.cseq + 1) + " "@ + method)
            &&& bears(
                r.headers,
                HeaderName::Contact,
                "<sip:"@ + s.user + "@"@ + n.contact_ip + ":"@ + decimal(n.contact_port as nat)
                    + ">"@,
            )
            &&& registering ==> bears(r.headers, HeaderName::Expires, "3600"@)
            &&& bears(r.headers, HeaderName::ContentLength, "0"@)
            &&& n == (SessionView {
                cseq: (s.cseq + 1) as i32,
                contact_ip: n.contact_ip,
                contact_port: n.contact_port,
                ..s
            })
        }),
{
    reveal(response_step);
    let next = step_of(s, EngineInput::Response { response, src, branch }, d);
    let a = progress(at(s), response);
    assert(a.session.state == s.state && a.session.target == s.target);
    let b = challenged(a, response, branch@);
    assert(next == b);
    assert(a.actions.len() <= 1);
    let r = next.actions[next.actions.len() - 2]->request;
    let h = r.headers;
    lemma_bears(h, 0, HeaderName::Via, h[0].value);
    lemma_bears(h, 1, HeaderName::From, h[1].value);
    lemma_bears(h, 2, HeaderName::To, h[2].value);
    lemma_bears(h, 3, HeaderName::CallId, h[3].value);
    lemma_bears(h, 4, HeaderName::CSeq, h[4].value);
    lemma_bears(h, 5, HeaderName::Contact, h[5].value);
    if s.state == CallState::Registering {
        lemma_bears(h, 6, HeaderName::Expires, h[6].value);
        lemma_bears(h, 7, HeaderName::Authorization, h[7].value);
        lemma_bears(h, 8, HeaderName::ContentLength, h[8].value);
    } else {
        lemma_bears(h, 6, HeaderName::Authorization, h[6].value);
        lemma_bears(h, 7, HeaderName::ContentLength, h[7].value);
    }
}

/// A command is planned as the user gave it: nobody is mistaken for another. A
/// registration or a call out of turn comes to nothing, and no other command
/// does.
pub proof fn a_plan_keeps_what_the_user_said(s: SessionView, command: ClientCommand)
    ensures
        ({
            let plan = plan_of(s, command);
            match command {
                ClientCommand::Register { target_ip, target_port, user, password } => {
                    if s.state == CallState::Idle || s.state == CallState::AuthFailed {
                        &&& plan is Register
                        &&& plan->Register_address == target_ip@ + ":"@ + decimal(
                            target_port as nat,
                        )
                        &&& plan->Register_target_ip == target_ip@
                        &&& plan->user == user@
                        &&& plan->password == password@
                    } else {
                        plan is Nothing
                    }
                },
                ClientCommand::StartCall { target_ip, target_port, to_user, from_user } => {
                    if s.state == CallState::Idle || s.state == CallState::Registered {
                        &&& plan is StartCall
                        &&& plan->StartCall_address == target_ip@ + ":"@ + decimal(
                            target_port as nat,
                        )
                        &&& plan->StartCall_target_ip == target_ip@
                        &&& plan->target_port == target_port
                        &&& plan->to_user == to_user@
                        &&& plan->from_user == from_user@
                    } else {
                        plan is Nothing
                    }
                },
                ClientCommand::AcceptCall => plan is AcceptCall,
                ClientCommand::RejectCall => plan is RejectCall,
                ClientCommand::EndCall => plan is EndCall,
                ClientCommand::UpdateSettings { mic_gain_bits, speaker_gain_bits, .. } => {
                    &&& plan is UpdateSettings
                    &&& plan->mic_gain_bits == mic_gain_bits
                    &&& plan->speaker_gain_bits == speaker_gain_bits
                },
                ClientCommand::SendDtmf { key } => plan is SendDtmf && plan->key == key,
                ClientCommand::SetMute { muted } => plan is SetMute && plan->muted == muted,
            }
        }),
{
}

/// The plan that the engine hands out says the same: the call goes to the user
/// that was named as called, and comes from the one named as caller; and a
/// registration is for the user with the password.
pub proof fn a_planned_call_names_both_users(
    engine: &SipEngine,
    command: ClientCommand,
    r: CommandPlan,
)
    requires
        call_ensures(SipEngine::plan, (engine, command), r),
    ensures
        r matches CommandPlan::StartCall { address, target_ip, target_port, to_user, from_user }
            ==> {
            &&& command is StartCall
            &&& to_user@ == command->to_user@
            &&& from_user@ == command->from_user@
            &&& target_ip@ == command->StartCall_target_ip@
            &&& target_port == command->StartCall_target_port
            &&& address@ == target_ip@ + ":"@ + decimal(target_port as nat)
        },
        r matches CommandPlan::Register { address, target_ip, user, password } ==> {
            &&& command is Register
            &&& user@ == command->user@
            &&& password@ == command->password@
            &&& target_ip@ == command->Register_target_ip@
            &&& address@ == target_ip@ + ":"@ + decimal(command->Register_target_port as nat)
        },
        r is Nothing <==> (command is StartCall && engine@.state != CallState::Idle
            && engine@.state != CallState::Registered) || (command is Register && engine@.state
            != CallState::Idle && engine@.state != CallState::AuthFailed),
{
}

/// Whether the text of an address begins as those of private networks do.
pub open spec fn begins_privately(ip: Seq<char>) -> bool {
    ||| "10."@.is_prefix_of(ip)
    ||| "100."@.is_prefix_of(ip)
    ||| "172."@.is_prefix_of(ip)
    ||| "192.168."@.is_prefix_of(ip)
}

proof fn lemma_begins(s: Seq<char>, p: Seq<char>)
    ensures
        (after_prefix(s, p) is Some) == p.is_prefix_of(s),
{
    if p.len() <= s.len() {
        assert(s.take(p.len() as int) == s.subrange(0, p.len() as int));
    }
}

/// A call that is taken on invites the called user in the name of the caller,
/// under an identifier that is told, and offers the own media. It tells the
/// address in the private network where the target is in one and that address is
/// known, and the public address elsewhere. The invitation is kept, so that it
/// can be sent again.
pub proof fn a_call_invites_the_called_user(
    s: SessionView,
    target: Endpoint,
    target_ip: String,
    target_port: u16,
    to_user: String,
    from_user: String,
    lan_ip: Option<String>,
    branch: String,
    sent_at: u64,
    d: Draws,
)
    requires
        s.state == CallState::Idle || s.state == CallState::Registered,
    ensures
        ({
            let next = step_of(
                s,
                EngineInput::StartCall {
                    target,
                    target_ip,
                    target_port,
                    to_user,
                    from_user,
                    lan_ip,
                    branch,
                    at: sent_at,
                },
                d,
            );
            let near = begins_privately(target_ip@) && lan_ip is Some;
            let ip = if near {
                lan_ip->0@
            } else {
                s.public_ip
            };
            let port = if near {
                s.sip_port
            } else {
                s.public_port
            };
            let tag = drawn_tag(d);
            let call_id = "uac-"@ + hexadecimal(d.call_no as nat);
            let r = next.session.last_invite->0;
            &&& next.actions == seq![
                ActionView::Emit(EventView::CallIdGenerated(call_id)),
            ] + (if near {
                seq![
                    ActionView::Emit(
                        EventView::Log(
                            "🛡️ VPN/LAN Detected. STUN bypassed -> SDP set to "@ + ip,
                        ),
                    ),
                ]
            } else {
                seq![]
            }) + seq![
                ActionView::Emit(EventView::Log("⬆️ INVITE sent"@)),
                ActionView::Telemetry(
                    RecordView {
                        severity: "INFO"@,
                        event: "SIP_PACKET_SENT"@,
                        message: "INVITE sent"@,
                        call_id,
                        attributes: seq![("sip.method"@, "INVITE"@)],
                    },
                ),
                ActionView::SendRequest { request: r, to: target@ },
                ActionView::ResetRetransmit,
                ActionView::Emit(EventView::CallStateChanged(CallState::Dialing)),
            ]
            &&& r.method == Method::Invite
            &&& r.uri == "sip:"@ + to_user@ + "@"@ + target_ip@ + ":"@ + decimal(
                target_port as nat,
            )
            &&& r.body == encode_utf8(sdp_text(d.now, ip, s.rtp_port))
            &&& r.headers.len() == 9
            &&& bears(
                r.headers,
                HeaderName::Via,
                "SIP/2.0/UDP "@ + ip + ":"@ + decimal(port as nat) + ";branch="@ + branch@
                    + ";rport"@,
            )
            &&& bears(
                r.headers,
                HeaderName::From,
                "<sip:"@ + from_user@ + "@"@ + target_ip@ + ">"@ + ";tag="@ + tag,
            )
            &&& bears(r.headers, HeaderName::To, "<sip:"@ + to_user@ + "@"@ + target_ip@ + ">"@)
            &&& bears(r.headers, HeaderName::CallId, call_id)
            &&& bears(r.headers, HeaderName::CSeq, signed_decimal(1) + " "@ + "INVITE"@)
            &&& bears(
                r.headers,
                HeaderName::Contact,
                "<sip:"@ + from_user@ + "@"@ + ip + ":"@ + decimal(port as nat) + ">"@,
            )
            &&& bears(r.headers, HeaderName::ContentType, "application/sdp"@)
            &&& bears(r.headers, HeaderName::UserAgent, "Sentiric-Mobile-UAC/4.0"@)
            &&& bears(r.headers, HeaderName::Allow, "INVITE, ACK, BYE, CANCEL, OPTIONS"@)
            &&& next.session == (SessionView {
                state: CallState::Dialing,
                target: Some(target@),
                call_id,
                from_tag: tag,
                cseq: 1,
                contact_ip: ip,
                contact_port: port,
                last_invite: Some(r),
                invite_sent_at: Some(sent_at),
                ..s
            })
        }),
{
    reveal(start_call_step);
    lemma_begins(target_ip@, "100."@);
    lemma_begins(target_ip@, "10."@);
    lemma_begins(target_ip@, "192.168."@);
    lemma_begins(target_ip@, "172."@);
    let next = step_of(
        s,
        EngineInput::StartCall {
            target,
            target_ip,
            target_port,
            to_user,
            from_user,
            lan_ip,
            branch,
            at: sent_at,
        },
        d,
    );
    let r = next.session.last_invite->0;
    let h = r.headers;
    lemma_bears(h, 0, HeaderName::Via, h[0].value);
    lemma_bears(h, 1, HeaderName::From, h[1].value);
    lemma_bears(h, 2, HeaderName::To, h[2].value);
    lemma_bears(h, 3, HeaderName::CallId, h[3].value);
    lemma_bears(h, 4, HeaderName::CSeq, h[4].value);
    lemma_bears(h, 5, HeaderName::Contact, h[5].value);
    lemma_bears(h, 6, HeaderName::ContentType, h[6].value);
    lemma_bears(h, 7, HeaderName::UserAgent, h[7].value);
    lemma_bears(h, 8, HeaderName::Allow, h[8].value);
}

/// What a call that was commanded says, whoever found out the rest: it goes to
/// the user and the host of the command, in the name of its caller.
pub proof fn a_commanded_call_goes_where_it_was_sent(
    s: SessionView,
    command: ClientCommand,
    input: EngineInput,
    d: Draws,
)
    requires
        s.state == CallState::Idle || s.state == CallState::Registered,
        command is StartCall,
        input is StartCall,
        ({
            let plan = plan_of(s, command);
            &&& input->StartCall_target_ip@ == plan->StartCall_target_ip
            &&& input->target_port == plan->target_port
            &&& input->to_user@ == plan->to_user
            &&& input->from_user@ == plan->from_user
        }),
    ensures
        ({
            let r = step_of(s, input, d).session.last_invite->0;
            let ip = command->StartCall_target_ip@;
            &&& step_of(s, input, d).actions.contains(
                ActionView::SendRequest { request: r, to: input->StartCall_target@ },
            )
            &&& r.method == Method::Invite
            &&& r.uri == "sip:"@ + command->to_user@ + "@"@ + ip + ":"@ + decimal(
                command->StartCall_target_port as nat,
            )
            &&& bears(r.headers, HeaderName::To, "<sip:"@ + command->to_user@ + "@"@ + ip + ">"@)
            &&& bears(
                r.headers,
                HeaderName::From,
                "<sip:"@ + command->from_user@ + "@"@ + ip + ">"@ + ";tag="@ + drawn_tag(d),
            )
        }),
{
    if let EngineInput::StartCall {
        target,
        target_ip,
        target_port,
        to_user,
        from_user,
        lan_ip,
        branch,
        at: sent_at,
    } = input {
        a_call_invites_the_called_user(
            s,
            target,
            target_ip,
            target_port,
            to_user,
            from_user,
            lan_ip,
            branch,
            sent_at,
            d,
        );
        let actions = step_of(s, input, d).actions;
        let r = step_of(s, input, d).session.last_invite->0;
        let sent = ActionView::SendRequest { request: r, to: target@ };
        assert(actions[actions.len() - 3] == sent);
    }
}

/// The same for a registration: it asks the host of the command for its user,
/// and remembers its password.
pub proof fn a_commanded_registration_goes_where_it_was_sent(
    s: SessionView,
    command: ClientCommand,
    input: EngineInput,
    d: Draws,
)
    requires
        s.state == CallState::Idle || s.state == CallState::AuthFailed,
        command is Register,
        input is Register,
        ({
            let plan = plan_of(s, command);
            &&& input->Register_target_ip@ == plan->Register_target_ip
            &&& input->user@ == plan->user
            &&& input->password@ == plan->password
        }),
    ensures
        ({
            let next = step_of(s, input, d);
            let r = next.actions[0]->request;
            let ip = command->Register_target_ip@;
            &&& next.actions[0] == ActionView::SendRequest {
                request: r,
                to: input->Register_target@,
            }
            &&& r.method == Method::Register
            &&& r.uri == "sip:"@ + ip
            &&& bears(r.headers, HeaderName::To, "<sip:"@ + command->user@ + "@"@ + ip + ">"@)
            &&& next.session.user == command->user@
            &&& next.session.password == command->password@
        }),
{
    if let EngineInput::Register { target, target_ip, user, password, branch } = input {
        a_registration_is_asked_in_the_name_of_the_user(
            s,
            target,
            target_ip,
            user,
            password,
            branch,
            d,
        );
    }
}

/// Out of turn, a registration and a call leave everything as it is.
pub proof fn out_of_turn_nothing_is_done(s: SessionView, input: EngineInput, d: Draws)
    requires
        ({
            ||| input is Register && s.state != CallState::Idle && s.state != CallState::AuthFailed
            ||| input is StartCall && s.state != CallState::Idle && s.state
                != CallState::Registered
        }),
    ensures
        step_of(s, input, d).session == s,
        step_of(s, input, d).actions.len() == 0,
{
    reveal(register_step);
    reveal(start_call_step);
}

/// Whether a `To` has a tag.
pub open spec fn is_tagged(to: Seq<char>) -> bool {
    exists|a: Seq<char>, b: Seq<char>| to == #[trigger] (a + ";tag="@ + b)
}

proof fn lemma_is_tagged(to: Seq<char>)
    ensures
        is_tagged(to) == holds(to, ";tag="@),
{
    reveal_strlit(";tag=");
    let mark = ";tag="@;
    if holds(to, mark) {
        let i = choose|i: int|
            0 <= i <= to.len() - mark.len() && #[trigger] to.subrange(i, i + mark.len()) == mark;
        assert(to.subrange(i, i + 5) == mark);
        assert forall|j: int| 0 <= j < 5 implies to[i + j] == mark[j] by {
            assert(to.subrange(i, i + 5)[j] == to[i + j]);
        }
        assert(to =~= to.take(i) + mark + to.skip(i + 5));
    }
    if is_tagged(to) {
        let (a, b) = choose|a: Seq<char>, b: Seq<char>| to == #[trigger] (a + ";tag="@ + b);
        let i = a.len() as int;
        assert(to.subrange(i, i + mark.len()) =~= mark);
    }
}

/// The `To` of an answer of the client, where the prepared answer has `to`:
/// tagged by the client where it has no tag yet.
pub open spec fn own_to(to: Option<Seq<char>>, d: Draws) -> Option<Seq<char>> {
    if to is Some && !is_tagged(to->0) {
        Some(trimmed(to->0) + ";tag="@ + drawn_tag(d))
    } else {
        None
    }
}

/// The tag of the other side in the dialogue, behind an answer of the client.
pub open spec fn own_tag(s: SessionView, to: Option<Seq<char>>, d: Draws) -> Seq<char> {
    if to is Some && !is_tagged(to->0) {
        drawn_tag(d)
    } else {
        s.to_tag
    }
}

/// A call that comes in while the client is at rest rings at its caller, with a
/// tagged `To`, and is announced to the user. It waits for the decision.
pub proof fn a_call_that_comes_in_rings(
    s: SessionView,
    request: IncomingRequest,
    src: Endpoint,
    d: Draws,
)
    requires
        s.state == CallState::Idle || s.state == CallState::Registered,
        request.asked == Asked::Invite,
    ensures
        ({
            let next = step_of(s, EngineInput::Request { request, src }, d);
            let from = if request.from is Some {
                request.from->0@
            } else {
                seq![]
            };
            let call_id = if request.call_id is Some {
                request.call_id->0@
            } else {
                seq![]
            };
            let to = text_of(request.ringing_to);
            let headers = next.actions[0]->headers;
            &&& next.actions == seq![
                ActionView::SendReply {
                    answered: Answered::Received,
                    kind: ReplyKind::Ringing,
                    to_header: own_to(to, d),
                    headers,
                    body: None,
                    to: src@,
                },
                ActionView::Emit(EventView::CallStateChanged(CallState::Incoming)),
                ActionView::Emit(EventView::IncomingCall { from, call_id }),
                ActionView::Telemetry(
                    RecordView {
                        severity: "INFO"@,
                        event: "SIP_INBOUND_INVITE"@,
                        message: "Incoming call received"@,
                        call_id,
                        attributes: seq![("from"@, from)],
                    },
                ),
            ]
            &&& headers.len() == 1
            &&& bears(headers, HeaderName::ContentLength, "0"@)
            &&& next.session == (SessionView {
                state: CallState::Incoming,
                pending: Some(request.body@),
                remote: Some(src@),
                target: Some(src@),
                call_id,
                to_tag: own_tag(s, to, d),
                ..s
            })
        }),
{
    reveal(request_step);
    if request.ringing_to is Some {
        lemma_is_tagged(request.ringing_to->0@);
    }
    let next = step_of(s, EngineInput::Request { request, src }, d);
    let h = next.actions[0]->headers;
    lemma_bears(h, 0, HeaderName::ContentLength, h[0].value);
}

/// A call that comes in at any other time is refused as busy, and nothing else
/// happens.
pub proof fn a_call_that_comes_in_between_is_refused(
    s: SessionView,
    request: IncomingRequest,
    src: Endpoint,
    d: Draws,
)
    requires
        s.state != CallState::Idle,
        s.state != CallState::Registered,
        request.asked == Asked::Invite,
    ensures
        ({
            let next = step_of(s, EngineInput::Request { request, src }, d);
            let headers = next.actions[0]->headers;
            &&& next.session == s
            &&& next.actions == seq![
                ActionView::SendReply {
                    answered: Answered::Received,
                    kind: ReplyKind::BusyHere,
                    to_header: None,
                    headers,
                    body: None,
                    to: src@,
                },
            ]
            &&& headers.len() == 1
            &&& bears(headers, HeaderName::ContentLength, "0"@)
        }),
{
    reveal(request_step);
    let next = step_of(s, EngineInput::Request { request, src }, d);
    let h = next.actions[0]->headers;
    lemma_bears(h, 0, HeaderName::ContentLength, h[0].value);
}

/// What tells the user of the state `after`, who knew of `before`.
pub open spec fn entered(before: CallState, after: CallState) -> Seq<ActionView> {
    if before == after {
        seq![]
    } else {
        seq![ActionView::Emit(EventView::CallStateChanged(after))]
    }
}

/// A call that the user accepts is answered to its caller: with a tagged `To`,
/// with the address of the client, and with an offer of its media whose length
/// is told. The media that the invitation names is looked up, and the client is
/// connected.
pub proof fn an_accepted_call_is_answered_with_media(
    s: SessionView,
    ok_to: Option<String>,
    d: Draws,
)
    requires
        s.pending is Some,
        s.remote is Some,
    ensures
        ({
            let next = step_of(s, EngineInput::AcceptCall { ok_to }, d);
            let to = text_of(ok_to);
            let offer = encode_utf8(sdp_text(d.now, s.contact_ip, s.rtp_port));
            let media = rtp_target_in(lossy_text(s.pending->0), s.remote->0.host);
            let answer = next.actions[if media is Some {
                2
            } else {
                1
            }];
            let headers = answer->headers;
            &&& next.actions == seq![
                ActionView::Emit(EventView::Log("⬆️ Sending 200 OK (Accepting Call)"@)),
            ] + (if media is Some {
                seq![ActionView::ResolveMedia { target: media->0 }]
            } else {
                seq![]
            }) + seq![
                ActionView::SendReply {
                    answered: Answered::Pending,
                    kind: ReplyKind::Success,
                    to_header: own_to(to, d),
                    headers,
                    body: Some(offer),
                    to: s.remote->0,
                },
            ] + entered(s.state, CallState::Connected)
            &&& headers.len() == 3
            &&& bears(
                headers,
                HeaderName::Contact,
                "<sip:"@ + "mobile"@ + "@"@ + s.contact_ip + ":"@ + decimal(s.contact_port as nat)
                    + ">"@,
            )
            &&& bears(headers, HeaderName::ContentType, "application/sdp"@)
            &&& bears(headers, HeaderName::ContentLength, decimal(offer.len()))
            &&& next.session == (SessionView {
                state: CallState::Connected,
                pending: None,
                to_tag: own_tag(s, to, d),
                ..s
            })
        }),
{
    reveal(accept_step);
    if ok_to is Some {
        lemma_is_tagged(ok_to->0@);
    }
    let next = step_of(s, EngineInput::AcceptCall { ok_to }, d);
    let k: int = if rtp_target_in(lossy_text(s.pending->0), s.remote->0.host) is Some {
        2
    } else {
        1
    };
    let h = next.actions[k]->headers;
    lemma_bears(h, 0, HeaderName::Contact, h[0].value);
    lemma_bears(h, 1, HeaderName::ContentType, h[1].value);
    lemma_bears(h, 2, HeaderName::ContentLength, h[2].value);
}

/// Where the client rests: registered where a user registered with success, and
/// idle elsewhere.
pub open spec fn rest(s: SessionView) -> CallState {
    if s.is_registered && s.user.len() > 0 {
        CallState::Registered
    } else {
        CallState::Idle
    }
}

/// A call that the user rejects is declined to its caller, and the client is at
/// rest.
pub proof fn a_rejected_call_is_declined(s: SessionView, d: Draws)
    requires
        s.pending is Some,
        s.remote is Some,
    ensures
        ({
            let next = step_of(s, EngineInput::RejectCall, d);
            let headers = next.actions[1]->headers;
            &&& next.actions == seq![
                ActionView::Emit(EventView::Log("⬆️ Sending 603 Decline"@)),
                ActionView::SendReply {
                    answered: Answered::Pending,
                    kind: ReplyKind::Decline,
                    to_header: None,
                    headers,
                    body: None,
                    to: s.remote->0,
                },
            ] + entered(s.state, rest(s))
            &&& headers.len() == 1
            &&& bears(headers, HeaderName::ContentLength, "0"@)
            &&& next.session == (SessionView { state: rest(s), pending: None, ..s })
        }),
{
    reveal(reject_step);
    let next = step_of(s, EngineInput::RejectCall, d);
    let h = next.actions[1]->headers;
    lemma_bears(h, 0, HeaderName::ContentLength, h[0].value);
}

/// Where no call waits, there is nothing to accept or to reject.
pub proof fn without_a_call_there_is_nothing_to_decide(
    s: SessionView,
    ok_to: Option<String>,
    d: Draws,
)
    requires
        s.pending is None,
    ensures
        step_of(s, EngineInput::AcceptCall { ok_to }, d).session == s,
        step_of(s, EngineInput::AcceptCall { ok_to }, d).actions.len() == 0,
        step_of(s, EngineInput::RejectCall, d).session == s,
        step_of(s, EngineInput::RejectCall, d).actions.len() == 0,
{
    reveal(accept_step);
    reveal(reject_step);
}

/// What tells the user that a call is over.
pub open spec fn told_over(s: SessionView) -> Seq<ActionView> {
    seq![
        ActionView::Emit(EventView::CallStateChanged(CallState::Terminated)),
        ActionView::Emit(EventView::CallStateChanged(rest(s))),
    ]
}

/// The user hangs up: the other side is told within the dialogue, by a request
/// numbered one higher, with the tags and the identifier of the call; the media
/// stops, and the client is at rest.
pub proof fn hanging_up_is_said_within_the_dialogue(s: SessionView, branch: String, d: Draws)
    requires
        s.state != CallState::Idle,
        s.state != CallState::Registered,
        s.state != CallState::Registering,
        s.state != CallState::Terminated,
        s.target is Some,
        s.cseq < i32::MAX,
    ensures
        ({
            let next = step_of(s, EngineInput::EndCall { branch }, d);
            let r = next.actions[1]->request;
            &&& next.actions == seq![
                ActionView::Emit(EventView::Log("⬆️ BYE sent"@)),
                ActionView::SendRequest { request: r, to: s.target->0 },
                ActionView::StopMedia,
            ] + told_over(s)
            &&& r.method == Method::Bye
            &&& r.uri == "sip:"@ + s.target->0.addr
            &&& r.body.len() == 0
            &&& r.headers.len() == 7
            &&& bears(
                r.headers,
                HeaderName::Via,
                "SIP/2.0/UDP "@ + s.contact_ip + ":"@ + decimal(s.contact_port as nat)
                    + ";branch="@ + branch@ + ";rport"@,
            )
            &&& bears(r.headers, HeaderName::From, "<sip:mobile@sentiric>;tag="@ + s.from_tag)
            &&& bears(r.headers, HeaderName::To, s.to_tag)
            &&& bears(r.headers, HeaderName::CallId, s.call_id)
            &&& bears(r.headers, HeaderName::CSeq, signed_decimal(s.cseq + 1) + " "@ + "BYE"@)
            &&& bears(
                r.headers,
                HeaderName::Contact,
                "<sip:"@ + "mobile"@ + "@"@ + s.contact_ip + ":"@ + decimal(s.contact_port as nat)
                    + ">"@,
            )
            &&& bears(r.headers, HeaderName::ContentLength, "0"@)
            &&& next.session == (SessionView {
                state: rest(s),
                cseq: (s.cseq + 1) as i32,
                last_invite: None,
                media_reported: false,
                ..s
            })
        }),
{
    reveal(end_call_step);
    let next = step_of(s, EngineInput::EndCall { branch }, d);
    let r = next.actions[1]->request;
    let h = r.headers;
    lemma_bears(h, 0, HeaderName::Via, h[0].value);
    lemma_bears(h, 1, HeaderName::From, h[1].value);
    lemma_bears(h, 2, HeaderName::To, h[2].value);
    lemma_bears(h, 3, HeaderName::CallId, h[3].value);
    lemma_bears(h, 4, HeaderName::CSeq, h[4].value);
    lemma_bears(h, 5, HeaderName::Contact, h[5].value);
    lemma_bears(h, 6, HeaderName::ContentLength, h[6].value);
}

/// Where there is nothing to hang up, only the invitation is not sent again;
/// where nobody is known to be told, the media stops all the same.
pub proof fn hanging_up_without_a_call(s: SessionView, branch: String, d: Draws)
    requires
        s.state != CallState::Terminated,
    ensures
        ({
            let next = step_of(s, EngineInput::EndCall { branch }, d);
            let at_rest = s.state == CallState::Idle || s.state == CallState::Registered || s.state
                == CallState::Registering;
            &&& at_rest ==> next.session == (SessionView { last_invite: None, ..s })
                && next.actions.len() == 0
            &&& !at_rest && s.target is None ==> {
                &&& next.session == (SessionView {
                    state: rest(s),
                    last_invite: None,
                    media_reported: false,
                    ..s
                })
                &&& next.actions == seq![ActionView::StopMedia] + told_over(s)
            }
        }),
{
    reveal(end_call_step);
}

/// The other side hangs up: it is answered, the media stops, and the client is
/// at rest. The user and the observer are told.
pub proof fn a_hang_up_of_the_other_side_is_answered(
    s: SessionView,
    request: IncomingRequest,
    src: Endpoint,
    d: Draws,
)
    requires
        s.state != CallState::Terminated,
        request.asked == Asked::Bye,
    ensures
        ({
            let next = step_of(s, EngineInput::Request { request, src }, d);
            let headers = next.actions[2]->headers;
            &&& next.actions == seq![
                ActionView::Emit(EventView::Log("🏁 Server closed connection (BYE)."@)),
                ActionView::Telemetry(
                    RecordView {
                        severity: "INFO"@,
                        event: "REMOTE_HANGUP"@,
                        message: "Received BYE from Server"@,
                        call_id: s.call_id,
                        attributes: seq![],
                    },
                ),
                ActionView::SendReply {
                    answered: Answered::Received,
                    kind: ReplyKind::Success,
                    to_header: None,
                    headers,
                    body: None,
                    to: src@,
                },
                ActionView::Emit(EventView::Log("⬆️ 200 OK (For BYE) sent"@)),
                ActionView::StopMedia,
            ] + told_over(s)
            &&& headers.len() == 3
            &&& bears(
                headers,
                HeaderName::Contact,
                "<sip:"@ + "mobile"@ + "@"@ + s.contact_ip + ":"@ + decimal(s.contact_port as nat)
                    + ">"@,
            )
            &&& bears(headers, HeaderName::UserAgent, "Sentiric-Mobile-UAC/4.0"@)
            &&& bears(headers, HeaderName::ContentLength, "0"@)
            &&& next.session == (SessionView {
                state: rest(s),
                last_invite: None,
                media_reported: false,
                ..s
            })
        }),
{
    reveal(request_step);
    let next = step_of(s, EngineInput::Request { request, src }, d);
    let h = next.actions[2]->headers;
    lemma_bears(h, 0, HeaderName::Contact, h[0].value);
    lemma_bears(h, 1, HeaderName::UserAgent, h[1].value);
    lemma_bears(h, 2, HeaderName::ContentLength, h[2].value);
}

/// Any other request is passed over.
pub proof fn other_requests_are_passed_over(
    s: SessionView,
    request: IncomingRequest,
    src: Endpoint,
    d: Draws,
)
    requires
        request.asked == Asked::Other,
    ensures
        step_of(s, EngineInput::Request { request, src }, d).session == s,
        step_of(s, EngineInput::Request { request, src }, d).actions.len() == 0,
{
    reveal(request_step);
}

/// Whether an answer to a registration or an invitation is awaited.
pub open spec fn is_waiting(s: SessionView) -> bool {
    s.state == CallState::Dialing || s.state == CallState::Registering
}

/// The address that the client tells behind a response: the one that the
/// response shows, while an answer is awaited, and the same as before elsewhere.
pub open spec fn shown_address(s: SessionView, r: IncomingResponse) -> (Seq<char>, u16) {
    if r.status_code >= 100 && is_waiting(s) && r.via is Some {
        public_addr_in(r.via->0@, s.contact_ip, s.contact_port)
    } else {
        (s.contact_ip, s.contact_port)
    }
}

/// What tells the user of a new address.
pub open spec fn told_address(s: SessionView, r: IncomingResponse) -> Seq<ActionView> {
    let (ip, port) = shown_address(s, r);
    if ip != s.contact_ip || port != s.contact_port {
        seq![
            ActionView::Emit(
                EventView::Log("🌍 Reactive NAT Update: "@ + ip + ":"@ + decimal(port as nat)),
            ),
        ]
    } else {
        seq![]
    }
}

/// The session with the address that a response shows.
pub open spec fn with_address(s: SessionView, r: IncomingResponse) -> SessionView {
    SessionView { contact_ip: shown_address(s, r).0, contact_port: shown_address(s, r).1, ..s }
}

/// A provisional response to what is awaited stops the repetition of the
/// invitation; ringing is told.
pub proof fn a_provisional_response_is_waited_for(
    s: SessionView,
    response: IncomingResponse,
    src: Endpoint,
    branch: String,
    d: Draws,
)
    requires
        is_waiting(s),
        100 <= response.status_code < 200,
    ensures
        ({
            let next = step_of(s, EngineInput::Response { response, src, branch }, d);
            let rings = response.status_code == 180 || response.status_code == 183;
            &&& next.session == (SessionView {
                last_invite: None,
                invite_sent_at: None,
                state: if rings {
                    CallState::Ringing
                } else {
                    s.state
                },
                ..with_address(s, response)
            })
            &&& next.actions == told_address(s, response) + (if rings {
                seq![ActionView::Emit(EventView::CallStateChanged(CallState::Ringing))]
            } else {
                seq![]
            })
        }),
{
    reveal(response_step);
    let a = progress(at(s), response);
    assert(challenged(a, response, branch@) == a);
    assert(registered(a, response) == a);
}

/// A registration that the server accepts succeeds, and that is told.
pub proof fn an_accepted_registration_succeeds(
    s: SessionView,
    response: IncomingResponse,
    src: Endpoint,
    branch: String,
    d: Draws,
)
    requires
        s.state == CallState::Registering,
        response.status_code == 200,
    ensures
        ({
            let next = step_of(s, EngineInput::Response { response, src, branch }, d);
            &&& next.session == (SessionView {
                state: CallState::Registered,
                is_registered: true,
                ..with_address(s, response)
            })
            &&& next.actions == told_address(s, response) + seq![
                ActionView::Emit(EventView::CallStateChanged(CallState::Registered)),
                ActionView::Emit(EventView::Log("✅ Registered successfully to network!"@)),
            ]
        }),
{
    reveal(response_step);
    let a = progress(at(s), response);
    assert(challenged(a, response, branch@) == a);
}

/// A call that the other side accepts is acknowledged within the dialogue, with
/// the `To` of the answer; the media that the answer names is looked up, and
/// the client is connected.
pub proof fn an_accepted_invitation_is_acknowledged(
    s: SessionView,
    response: IncomingResponse,
    src: Endpoint,
    branch: String,
    d: Draws,
)
    requires
        s.state == CallState::Dialing || s.state == CallState::Ringing,
        s.target is Some,
        response.status_code == 200,
    ensures
        ({
            let next = step_of(s, EngineInput::Response { response, src, branch }, d);
            let n = next.session;
            let to = if response.to is Some {
                response.to->0@
            } else {
                s.to_tag
            };
            let media = rtp_target_in(lossy_text(response.body@), src@.host);
            let r = next.actions[next.actions.len() - 2]->request;
            &&& n == (SessionView {
                state: CallState::Connected,
                last_invite: None,
                to_tag: to,
                ..with_address(s, response)
            })
            &&& next.actions == told_address(s, response) + (if media is Some {
                seq![ActionView::ResolveMedia { target: media->0 }]
            } else {
                seq![]
            }) + seq![
                ActionView::Emit(EventView::Log("⬆️ ACK sent"@)),
                ActionView::SendRequest { request: r, to: s.target->0 },
                ActionView::Emit(EventView::CallStateChanged(CallState::Connected)),
            ]
            &&& r.method == Method::Ack
            &&& r.uri == "sip:"@ + src@.addr
            &&& r.body.len() == 0
            &&& r.headers.len() == (if response.from is Some {
                8int
            } else {
                7
            })
            &&& bears(
                r.headers,
                HeaderName::Via,
                "SIP/2.0/UDP "@ + n.contact_ip + ":"@ + decimal(n.contact_port as nat)
                    + ";branch="@ + branch@ + ";rport"@,
            )
            &&& response.from is Some ==> bears(
                r.headers,
                HeaderName::From,
                response.from->0@,
            )
            &&& bears(r.headers, HeaderName::To, to)
            &&& bears(r.headers, HeaderName::CallId, s.call_id)
            &&& bears(r.headers, HeaderName::CSeq, signed_decimal(s.cseq as int) + " "@ + "ACK"@)
            &&& bears(
                r.headers,
                HeaderName::Contact,
                "<sip:"@ + "mobile"@ + "@"@ + n.contact_ip + ":"@ + decimal(n.contact_port as nat)
                    + ">"@,
            )
            &&& bears(r.headers, HeaderName::UserAgent, "Sentiric-Mobile-UAC/4.0"@)
            &&& bears(r.headers, HeaderName::ContentLength, "0"@)
        }),
{
    reveal(response_step);
    let next = step_of(s, EngineInput::Response { response, src, branch }, d);
    let a = progress(at(s), response);
    assert(a.session == with_address(s, response));
    assert(a.actions =~= told_address(s, response));
    assert(ringing(registered(challenged(a, response, branch@), response), response) == a);
    let r = next.actions[next.actions.len() - 2]->request;
    let h = r.headers;
    lemma_bears(h, 0, HeaderName::Via, h[0].value);
    let k: int = if response.from is Some {
        1
    } else {
        0
    };
    if response.from is Some {
        lemma_bears(h, 1, HeaderName::From, h[1].value);
    }
    lemma_bears(h, k + 1, HeaderName::To, h[k + 1].value);
    lemma_bears(h, k + 2, HeaderName::CallId, h[k + 2].value);
    lemma_bears(h, k + 3, HeaderName::CSeq, h[k + 3].value);
    lemma_bears(h, k + 4, HeaderName::Contact, h[k + 4].value);
    lemma_bears(h, k + 5, HeaderName::UserAgent, h[k + 5].value);
    lemma_bears(h, k + 6, HeaderName::ContentLength, h[k + 6].value);
}

/// Where nobody is known to be told, an answered call is connected without an
/// acknowledgement.
pub proof fn an_accepted_invitation_of_nobody(
    s: SessionView,
    response: IncomingResponse,
    src: Endpoint,
    branch: String,
    d: Draws,
)
    requires
        s.state == CallState::Ringing,
        s.target is None,
        response.status_code == 200,
    ensures
        ({
            let next = step_of(s, EngineInput::Response { response, src, branch }, d);
            let media = rtp_target_in(lossy_text(response.body@), src@.host);
            &&& next.session == (SessionView {
                state: CallState::Connected,
                last_invite: None,
                to_tag: if response.to is Some {
                    response.to->0@
                } else {
                    s.to_tag
                },
                ..s
            })
            &&& next.actions == (if media is Some {
                seq![ActionView::ResolveMedia { target: media->0 }]
            } else {
                seq![]
            }) + entered(s.state, CallState::Connected)
        }),
{
    reveal(response_step);
}

/// A refusal is told and ends what was asked for: a registration fails, with
/// refused credentials where it is forbidden; anything else is over, and the
/// client is at rest.
pub proof fn a_refusal_is_told_and_ends_the_matter(
    s: SessionView,
    response: IncomingResponse,
    src: Endpoint,
    branch: String,
    d: Draws,
)
    requires
        s.state != CallState::Terminated,
        response.status_code >= 400,
        response.status_code != 401,
    ensures
        ({
            let next = step_of(s, EngineInput::Response { response, src, branch }, d);
            let registering = s.state == CallState::Registering;
            let last = if !registering {
                rest(s)
            } else if response.status_code == 403 {
                CallState::AuthFailed
            } else {
                CallState::Idle
            };
            &&& next.session == (SessionView {
                state: last,
                is_registered: s.is_registered && !registering,
                last_invite: None,
                ..with_address(s, response)
            })
            &&& next.actions == told_address(s, response) + seq![
                ActionView::Emit(
                    EventView::Log(
                        "❌ Server rejected with "@ + decimal(response.status_code as nat),
                    ),
                ),
                ActionView::Emit(EventView::CallStateChanged(CallState::Terminated)),
                ActionView::Emit(EventView::CallStateChanged(last)),
            ]
        }),
{
    reveal(response_step);
    let a = progress(at(s), response);
    assert(a.session == with_address(s, response));
    assert(a.actions =~= told_address(s, response));
    assert(ringing(registered(challenged(a, response, branch@), response), response) == a);
}

/// A challenge that cannot be answered fails: nothing is sent, and the user
/// learns that the credentials were not accepted. One that says nothing at all
/// is waited out.
pub proof fn a_challenge_that_cannot_be_answered_fails(
    s: SessionView,
    response: IncomingResponse,
    src: Endpoint,
    branch: String,
    d: Draws,
)
    requires
        is_waiting(s),
        response.status_code == 401,
        response.www_authenticate is Some ==> challenge_of(response.www_authenticate->0@) is None,
    ensures
        ({
            let next = step_of(s, EngineInput::Response { response, src, branch }, d);
            if response.www_authenticate is Some {
                &&& next.session == (SessionView {
                    state: CallState::AuthFailed,
                    ..with_address(s, response)
                })
                &&& next.actions == told_address(s, response) + seq![
                    ActionView::Emit(EventView::CallStateChanged(CallState::AuthFailed)),
                ]
            } else {
                &&& next.session == with_address(s, response)
                &&& next.actions == told_address(s, response)
            }
        }),
{
    reveal(response_step);
    let a = progress(at(s), response);
    assert(a.session == with_address(s, response));
    assert(a.actions =~= told_address(s, response));
}

/// What is neither awaited nor ringing nor a refusal is passed over, but for the
/// address that it shows while an answer is awaited.
pub proof fn other_responses_are_passed_over(
    s: SessionView,
    response: IncomingResponse,
    src: Endpoint,
    branch: String,
    d: Draws,
)
    requires
        ({
            let code = response.status_code;
            if is_waiting(s) {
                code < 100 || 200 < code < 400
            } else {
                &&& code < 400 || code == 401
                &&& code != 180 && code != 183
                &&& !(code == 200 && s.state == CallState::Ringing)
            }
        }),
    ensures
        ({
            let next = step_of(s, EngineInput::Response { response, src, branch }, d);
            &&& next.session == with_address(s, response)
            &&& next.actions == told_address(s, response)
        }),
{
    reveal(response_step);
    let a = progress(at(s), response);
    assert(a.session == with_address(s, response));
    assert(a.actions =~= told_address(s, response));
}

/// Ringing is told whenever it is heard, and once.
pub proof fn ringing_is_told(
    s: SessionView,
    response: IncomingResponse,
    src: Endpoint,
    branch: String,
    d: Draws,
)
    requires
        !is_waiting(s),
        response.status_code == 180 || response.status_code == 183,
    ensures
        ({
            let next = step_of(s, EngineInput::Response { response, src, branch }, d);
            &&& next.session == (SessionView { state: CallState::Ringing, ..s })
            &&& next.actions == (if s.state == CallState::Ringing {
                seq![]
            } else {
                seq![ActionView::Emit(EventView::CallStateChanged(CallState::Ringing))]
            })
        }),
{
    reveal(response_step);
}

/// What is said in an answered call belongs to the dialogue of its invitation:
/// the acknowledgement and the end bear the identifier of the invitation and the
/// `To` of the answer, the end names the tag under which the caller invited, and
/// both go to whom the invitation went.
pub proof fn an_answered_call_is_one_dialogue(
    s: SessionView,
    call: EngineInput,
    d: Draws,
    answer: IncomingResponse,
    src: Endpoint,
    ack_branch: String,
    bye_branch: String,
)
    requires
        s.state == CallState::Idle || s.state == CallState::Registered,
        call is StartCall,
        answer.status_code == 200,
        answer.to is Some,
    ensures
        ({
            let dialed = step_of(s, call, d);
            let answered = step_of(
                dialed.session,
                EngineInput::Response { response: answer, src, branch: ack_branch },
                d,
            );
            let ended = step_of(
                answered.session,
                EngineInput::EndCall { branch: bye_branch },
                d,
            );
            let invite = dialed.session.last_invite->0;
            let ack = answered.actions[answered.actions.len() - 2]->request;
            let bye = ended.actions[1]->request;
            let target = call->StartCall_target@;
            let call_id = "uac-"@ + hexadecimal(d.call_no as nat);
            let from = "<sip:"@ + call->from_user@ + "@"@ + call->StartCall_target_ip@ + ">"@;
            &&& dialed.actions.contains(ActionView::SendRequest { request: invite, to: target })
            &&& answered.actions.contains(ActionView::SendRequest { request: ack, to: target })
            &&& ended.actions[1] == ActionView::SendRequest { request: bye, to: target }
            &&& invite.method == Method::Invite && ack.method == Method::Ack && bye.method
                == Method::Bye
            &&& bears(invite.headers, HeaderName::CallId, call_id)
            &&& bears(ack.headers, HeaderName::CallId, call_id)
            &&& bears(bye.headers, HeaderName::CallId, call_id)
            &&& bears(ack.headers, HeaderName::To, answer.to->0@)
            &&& bears(bye.headers, HeaderName::To, answer.to->0@)
            &&& bears(invite.headers, HeaderName::From, from + ";tag="@ + drawn_tag(d))
            &&& bears(
                bye.headers,
                HeaderName::From,
                "<sip:mobile@sentiric>;tag="@ + drawn_tag(d),
            )
            &&& bears(invite.headers, HeaderName::CSeq, signed_decimal(1) + " "@ + "INVITE"@)
            &&& bears(ack.headers, HeaderName::CSeq, signed_decimal(1) + " "@ + "ACK"@)
            &&& bears(bye.headers, HeaderName::CSeq, signed_decimal(2) + " "@ + "BYE"@)
            &&& ended.session.state == rest(s)
        }),
{
    if let EngineInput::StartCall {
        target,
        target_ip,
        target_port,
        to_user,
        from_user,
        lan_ip,
        branch,
        at: sent_at,
    } = call {
        a_call_invites_the_called_user(
            s,
            target,
            target_ip,
            target_port,
            to_user,
            from_user,
            lan_ip,
            branch,
            sent_at,
            d,
        );
        let dialed = step_of(s, call, d);
        assert(dialed.actions[dialed.actions.len() - 3] == ActionView::SendRequest {
            request: dialed.session.last_invite->0,
            to: target@,
        });
        an_accepted_invitation_is_acknowledged(dialed.session, answer, src, ack_branch, d);
        let answered = step_of(
            dialed.session,
            EngineInput::Response { response: answer, src, branch: ack_branch },
            d,
        );
        let ack = answered.actions[answered.actions.len() - 2];
        assert(ack == ActionView::SendRequest { request: ack->request, to: target@ });
        hanging_up_is_said_within_the_dialogue(answered.session, bye_branch, d);
    }
}

/// The same for any call that was dialed and perhaps rang: what ends it bears
/// the `To` of the answer, the identifier and the tag of the call.
pub proof fn an_answered_call_ends_as_it_was_answered(
    s: SessionView,
    answer: IncomingResponse,
    src: Endpoint,
    ack_branch: String,
    bye_branch: String,
    d: Draws,
)
    requires
        s.state == CallState::Dialing || s.state == CallState::Ringing,
        s.target is Some,
        s.cseq < i32::MAX,
        answer.status_code == 200,
        answer.to is Some,
    ensures
        ({
            let answered = step_of(
                s,
                EngineInput::Response { response: answer, src, branch: ack_branch },
                d,
            );
            let ended = step_of(
                answered.session,
                EngineInput::EndCall { branch: bye_branch },
                d,
            );
            let bye = ended.actions[1]->request;
            &&& ended.actions[1] == ActionView::SendRequest { request: bye, to: s.target->0 }
            &&& bye.method == Method::Bye
            &&& bears(bye.headers, HeaderName::To, answer.to->0@)
            &&& bears(bye.headers, HeaderName::CallId, s.call_id)
            &&& bears(
                bye.headers,
                HeaderName::From,
                "<sip:mobile@sentiric>;tag="@ + s.from_tag,
            )
        }),
{
    an_accepted_invitation_is_acknowledged(s, answer, src, ack_branch, d);
    let answered = step_of(
        s,
        EngineInput::Response { response: answer, src, branch: ack_branch },
        d,
    );
    hanging_up_is_said_within_the_dialogue(answered.session, bye_branch, d);
}

/// While an invitation is unanswered it is sent again, the same to the same
/// target, for five seconds, and given up thereafter.
pub proof fn an_invitation_is_given_up_after_five_seconds(s: SessionView, now: u64, d: Draws)
    requires
        s.state != CallState::Terminated,
    ensures
        ({
            let next = step_of(s, EngineInput::RetransmitTick { at: now }, d);
            let runs = s.last_invite is Some && s.target is Some && s.invite_sent_at is Some;
            let sent_at = s.invite_sent_at->0;
            &&& !runs ==> next.session == s && next.actions.len() == 0
            &&& runs && now <= sent_at + 5_000_000_000 ==> {
                &&& next.session == s
                &&& next.actions == seq![
                    ActionView::SendRequest { request: s.last_invite->0, to: s.target->0 },
                ]
            }
            &&& runs && now > sent_at + 5_000_000_000 ==> {
                &&& next.session == (SessionView { state: rest(s), last_invite: None, ..s })
                &&& next.actions == seq![
                    ActionView::Emit(EventView::Log("⏱️ Connection Timeout!"@)),
                ] + told_over(s)
            }
        }),
{
    reveal(retransmit_step);
}

/// The way through the network is kept open by two empty lines to the target,
/// while the client is registered or in a call, and only then.
pub proof fn the_way_is_kept_open(s: SessionView, d: Draws)
    ensures
        ({
            let next = step_of(s, EngineInput::KeepaliveTick, d);
            &&& next.session == s
            &&& next.actions == (if s.target is Some && (s.state == CallState::Registered
                || s.state == CallState::Connected) {
                seq![
                    ActionView::SendRaw {
                        bytes: seq![0x0du8, 0x0au8, 0x0du8, 0x0au8],
                        to: s.target->0,
                    },
                ]
            } else {
                seq![]
            })
        }),
{
}

/// The counters are told as they are, once one of them counted; the media is
/// told active with the eleventh packet that came, where it was not yet.
pub proof fn the_counters_are_told(s: SessionView, rx: u64, tx: u64, d: Draws)
    ensures
        ({
            let next = step_of(s, EngineInput::StatsTick { rx, tx }, d);
            let active = rx >= 11 && !s.media_reported;
            &&& next.session == (SessionView { media_reported: s.media_reported || active, ..s })
            &&& next.actions == (if rx == 0 && tx == 0 {
                seq![]
            } else {
                seq![ActionView::Emit(EventView::RtpStats { rx_cnt: rx, tx_cnt: tx })]
            }) + (if active {
                seq![ActionView::Emit(EventView::MediaActive)]
            } else {
                seq![]
            })
        }),
{
    reveal(stats_step);
}

/// The media goes to the address that was found out, and the observer learns
/// which.
pub proof fn the_media_goes_to_the_address_found(s: SessionView, target: String, d: Draws)
    ensures
        ({
            let next = step_of(s, EngineInput::MediaResolved { target }, d);
            &&& next.session == s
            &&& next.actions == seq![
                ActionView::Telemetry(
                    RecordView {
                        severity: "INFO"@,
                        event: "SDP_PARSED"@,
                        message: "Media target locked"@,
                        call_id: s.call_id,
                        attributes: seq![("target"@, target@)],
                    },
                ),
                ActionView::StartMedia { target: target@ },
            ]
        }),
{
}

/// What the user sets is handed to the media as it was given, and changes
/// nothing else.
pub proof fn settings_are_handed_on(s: SessionView, input: EngineInput, d: Draws)
    requires
        input is UpdateSettings || input is SendDtmf || input is SetMute,
    ensures
        step_of(s, input, d).session == s,
        ({
            let actions = step_of(s, input, d).actions;
            match input {
                EngineInput::UpdateSettings { mic_gain_bits, speaker_gain_bits } => actions == seq![
                    ActionView::UpdateGains { mic_gain_bits, speaker_gain_bits },
                ],
                EngineInput::SendDtmf { key } => actions == seq![
                    ActionView::TriggerDtmf { key },
                    ActionView::Emit(
                        EventView::Log("🎹 In-Band DTMF Injecting: "@ + seq![key]),
                    ),
                ],
                EngineInput::SetMute { muted } => actions == seq![
                    ActionView::SetMute { muted },
                    ActionView::Emit(
                        EventView::Log(
                            "🔇 Mic state changed: "@ + (if muted {
                                "MUTED"@
                            } else {
                                "UNMUTED"@
                            }),
                        ),
                    ),
                ],
                _ => false,
            }
        }),
{
    if let EngineInput::SendDtmf { key } = input {
        assert("🎹 In-Band DTMF Injecting: "@ + seq![key] =~= "🎹 In-Band DTMF Injecting: "@.push(
            key,
        ));
    }
}

/// Before the first call the client learns its addresses. What it tells others
/// is the public address where that was discovered, and the one in its own
/// network where not; the user is told each step.
pub proof fn the_client_learns_its_addresses(
    s: SessionView,
    ip: String,
    sip_port: u16,
    ephemeral: bool,
    rtp_port: u16,
    public: Option<(String, u16)>,
    d: Draws,
)
    ensures
        ({
            let a = step_of(s, EngineInput::LocalIp { ip }, d);
            let b = step_of(a.session, EngineInput::SipBound { port: sip_port, ephemeral }, d);
            let c = step_of(b.session, EngineInput::RtpBound { port: rtp_port }, d);
            let e = step_of(c.session, EngineInput::StunDone { public }, d);
            let seen = match public {
                Some((public_ip, public_port)) => (public_ip@, public_port),
                None => (ip@, sip_port),
            };
            &&& e.session == (SessionView {
                sip_port,
                rtp_port,
                public_ip: seen.0,
                public_port: seen.1,
                contact_ip: seen.0,
                contact_port: seen.1,
                ..s
            })
            &&& a.actions == seq![
                ActionView::Emit(EventView::Log("🔍 Discovered Local IP: "@ + ip@)),
            ]
            &&& b.actions == seq![
                ActionView::Emit(
                    EventView::Log(
                        if ephemeral {
                            "🔌 SIP bound to Ephemeral Port"@
                        } else {
                            "🔌 SIP bound to Port 5060"@
                        },
                    ),
                ),
            ]
            &&& c.actions.len() == 0
            &&& e.actions == seq![
                ActionView::Emit(
                    EventView::Log(
                        if public is Some {
                            "🌍 Proactive STUN Success: NAT IP is "@ + seen.0 + ":"@ + decimal(
                                seen.1 as nat,
                            )
                        } else {
                            "⚠️ STUN Timeout, falling back to Local IP"@
                        },
                    ),
                ),
            ]
        }),
{
}

/// The public address that was discovered is told to others from then on, and
/// nothing else changes; without one nothing does.
pub proof fn a_discovered_address_is_told_from_then_on(
    s: SessionView,
    public: Option<(String, u16)>,
    d: Draws,
)
    ensures
        step_of(s, EngineInput::StunDone { public }, d).session == (match public {
            Some((ip, port)) => SessionView {
                public_ip: ip@,
                public_port: port,
                contact_ip: ip@,
                contact_port: port,
                ..s
            },
            None => s,
        }),
{
}

/// The engine begins idle and without an address, a user or a call, and says in
/// which state it is and what it takes on.
pub proof fn the_engine_says_where_it_stands(
    engine: &SipEngine,
    fresh: SipEngine,
    state: CallState,
    registers: bool,
    calls: bool,
)
    requires
        call_ensures(SipEngine::new, (), fresh),
        call_ensures(SipEngine::state, (engine,), state),
        call_ensures(SipEngine::accepts_registration, (engine,), registers),
        call_ensures(SipEngine::accepts_call, (engine,), calls),
    ensures
        fresh@.state == CallState::Idle,
        fresh@.user.len() == 0 && fresh@.password.len() == 0 && !fresh@.is_registered,
        fresh@.target is None && fresh@.pending is None && fresh@.remote is None,
        fresh@.last_invite is None && !fresh@.media_reported,
        state == engine@.state,
        registers <==> state == CallState::Idle || state == CallState::AuthFailed,
        calls <==> state == CallState::Idle || state == CallState::Registered,
{
}

/// A socket that cannot be bound is told with the reason.
pub proof fn a_socket_that_fails_is_told(s: SessionView, reason: String, d: Draws)
    ensures
        step_of(s, EngineInput::SipBindFailed { reason }, d).session == s,
        step_of(s, EngineInput::SipBindFailed { reason }, d).actions == seq![
            ActionView::Emit(EventView::Error("SIP Bind Fail: "@ + reason@)),
        ],
        step_of(s, EngineInput::RtpBindFailed { reason }, d).session == s,
        step_of(s, EngineInput::RtpBindFailed { reason }, d).actions == seq![
            ActionView::Emit(EventView::Error("RTP Bind Fail: "@ + reason@)),
        ],
{
}

/// A step can be taken at any time, as long as requests can be numbered; and
/// also thereafter, unless it sends a request with a new number.
pub proof fn steps_can_be_taken(s: SessionView, input: EngineInput)
    ensures
        s.cseq < i32::MAX ==> has_number(s, input),
        !(input is EndCall) && !(input is Response) ==> has_number(s, input),
        input is EndCall && s.target is None ==> has_number(s, input),
        input is Response && input->response.status_code != 401 ==> has_number(s, input),
{
}

/// A parameter of a `Via` that names no address leaves the address as it was
/// read before.
pub proof fn other_parameters_show_no_address(
    via: Seq<char>,
    part: Seq<char>,
    ip: Seq<char>,
    port: u16,
)
    requires
        lacks(part, ';'),
        !"received="@.is_prefix_of(trimmed(part)),
        !"rport="@.is_prefix_of(trimmed(part)),
    ensures
        public_addr_in(via + ";"@ + part, ip, port) == public_addr_in(via, ip, port),
        public_addr_in(part, ip, port) == (ip, port),
{
    lemma_begins(trimmed(part), "received="@);
    lemma_begins(trimmed(part), "rport="@);
    lemma_via_part(via, part, ip, port);
}

proof fn lemma_via_part(via: Seq<char>, part: Seq<char>, ip: Seq<char>, port: u16)
    requires
        lacks(part, ';'),
    ensures
        public_addr_in(via + ";"@ + part, ip, port) == read_via_part(
            public_addr_in(via, ip, port),
            part,
        ),
        public_addr_in(part, ip, port) == read_via_part((ip, port), part),
{
    reveal_strlit(";");
    assert(via + ";"@ + part =~= via.push(';') + part);
    lemma_split_two(via, part, ';');
    lemma_split_one(part, ';');
    let parts = split_at(via, ';') + seq![part];
    assert(parts.drop_last() =~= split_at(via, ';'));
    assert(seq![part].drop_last() =~= seq![]);
    assert(read_via_parts(seq![part].drop_last(), (ip, port)) == (ip, port));
}

/// A parameter of a `Via` that names an address is read, whatever stands before
/// it, and with white space around it.
pub proof fn a_received_address_is_read(
    via: Seq<char>,
    before: Seq<char>,
    seen: Seq<char>,
    after: Seq<char>,
    ip: Seq<char>,
    port: u16,
)
    requires
        is_blank(before),
        is_blank(after),
        lacks(before, ';'),
        lacks(after, ';'),
        lacks(seen, ';'),
        seen.len() > 0,
        !is_white_space(seen.last()),
    ensures
        public_addr_in(via + ";"@ + (before + ("received="@ + seen) + after), ip, port) == (
            seen,
            public_addr_in(via, ip, port).1,
        ),
{
    reveal_strlit("received=");
    let named = "received="@ + seen;
    let part = before + named + after;
    assert forall|i: int| 0 <= i < part.len() implies #[trigger] part[i] != ';' by {
        if i < before.len() {
            assert(part[i] == before[i]);
        } else if i >= before.len() + named.len() {
            assert(part[i] == after[i - before.len() - named.len()]);
        } else if i >= before.len() + 9 {
            assert(part[i] == seen[i - before.len() - 9]);
        } else {
            assert(part[i] == "received="@[i - before.len()]);
        }
    }
    lemma_via_part(via, part, ip, port);
    lemma_trimmed_around(before, named, after);
    assert(named.last() == seen.last());
    assert(trimmed(named) == named);
    lemma_after_own_prefix("received="@, seen);
}

/// A port in a `Via` is read where it is a number, and leaves the address alone;
/// what is no number leaves both alone.
pub proof fn a_shown_port_is_read(via: Seq<char>, value: Seq<char>, ip: Seq<char>, port: u16)
    requires
        lacks(value, ';'),
        value.len() > 0,
        !is_white_space(value.last()),
    ensures
        ({
            let before = public_addr_in(via, ip, port);
            let read = public_addr_in(via + ";"@ + ("rport="@ + value), ip, port);
            &&& read.0 == before.0
            &&& read.1 == (match u16_of(value) {
                Some(n) => n,
                None => before.1,
            })
        }),
{
    reveal_strlit("received=");
    reveal_strlit("rport=");
    let part = "rport="@ + value;
    assert forall|i: int| 0 <= i < part.len() implies #[trigger] part[i] != ';' by {
        if i >= 6 {
            assert(part[i] == value[i - 6]);
        } else {
            assert(part[i] == "rport="@[i]);
        }
    }
    lemma_via_part(via, part, ip, port);
    assert(part.last() == value.last());
    assert(trimmed(part) == part);
    lemma_after_own_prefix("rport="@, value);
    assert(part.len() >= 9 ==> part.take(9)[1] == 'p');
    assert("received="@[1] == 'e');
    assert(after_prefix(part, "received="@) is None);
}

} // verus!
