use telecom_client::action::{Action, CommandPlan, Draws, EngineInput};
use telecom_client::engine::{extract_public_addr_from_via, SipEngine};
use telecom_client::sdp::session_description;
use telecom_client::sip::{
    inbound_log, inspect_datagram, Answered, Asked, Endpoint, HeaderName, IncomingRequest,
    IncomingResponse, Method, ReplyKind, SipRequest,
};
use telecom_client::{CallState, ClientCommand, UacEvent};

const DRAWS: Draws = Draws { call_no: 0xbeef, tag_no: 0x1f, now: 1700000000 };

fn end(host: &str, port: u16) -> Endpoint {
    Endpoint { host: host.to_string(), addr: format!("{}:{}", host, port) }
}

fn server() -> Endpoint {
    end("203.0.113.5", 5060)
}

fn log(text: &str) -> Action {
    Action::Emit(UacEvent::Log(text.to_string()))
}

fn changed(state: CallState) -> Action {
    Action::Emit(UacEvent::CallStateChanged(state))
}

fn ready() -> SipEngine {
    let mut e = SipEngine::new();
    assert_eq!(
        e.step_with(EngineInput::LocalIp { ip: "192.168.1.7".into() }, DRAWS),
        vec![log("🔍 Discovered Local IP: 192.168.1.7")]
    );
    assert_eq!(
        e.step_with(EngineInput::SipBound { port: 5060, ephemeral: false }, DRAWS),
        vec![log("🔌 SIP bound to Port 5060")]
    );
    assert_eq!(e.step_with(EngineInput::RtpBound { port: 40000 }, DRAWS), vec![]);
    assert_eq!(
        e.step_with(
            EngineInput::StunDone { public: Some(("198.51.100.7".into(), 61000)) },
            DRAWS
        ),
        vec![log("🌍 Proactive STUN Success: NAT IP is 198.51.100.7:61000")]
    );
    e
}

fn register(e: &mut SipEngine) -> Vec<Action> {
    e.step_with(
        EngineInput::Register {
            target: server(),
            target_ip: "203.0.113.5".into(),
            user: "alice".into(),
            password: "secret".into(),
            branch: "z9hG4bK1".into(),
        },
        DRAWS,
    )
}

fn call(e: &mut SipEngine, target_ip: &str, lan_ip: Option<&str>, at: u64) -> Vec<Action> {
    e.step_with(
        EngineInput::StartCall {
            target: end(target_ip, 5060),
            target_ip: target_ip.into(),
            target_port: 5060,
            to_user: "bob".into(),
            from_user: "alice".into(),
            lan_ip: lan_ip.map(|s| s.to_string()),
            branch: "z9hG4bK2".into(),
            at,
        },
        DRAWS,
    )
}

fn reply(status_code: u16) -> IncomingResponse {
    IncomingResponse {
        status_code,
        via: None,
        from: None,
        to: None,
        www_authenticate: None,
        body: vec![],
    }
}

fn receive(e: &mut SipEngine, response: IncomingResponse) -> Vec<Action> {
    let input = EngineInput::Response { response, src: server(), branch: "z9hG4bK3".into() };
    assert!(e.can_step(&input));
    e.step_with(input, DRAWS)
}

fn invite(e: &mut SipEngine, body: &[u8]) -> Vec<Action> {
    let request = IncomingRequest {
        asked: Asked::Invite,
        from: Some("<sip:carol@x>;tag=9".into()),
        call_id: Some("call-1".into()),
        ringing_to: Some(" <sip:alice@y> ".into()),
        body: body.to_vec(),
    };
    e.step_with(EngineInput::Request { request, src: end("198.51.100.99", 5062) }, DRAWS)
}

fn bye(e: &mut SipEngine) -> Vec<Action> {
    let request = IncomingRequest {
        asked: Asked::Bye,
        from: None,
        call_id: None,
        ringing_to: None,
        body: vec![],
    };
    e.step_with(EngineInput::Request { request, src: server() }, DRAWS)
}

fn the_request(actions: &[Action]) -> &SipRequest {
    let sent: Vec<&SipRequest> = actions
        .iter()
        .filter_map(|a| match a {
            Action::SendRequest { request, .. } => Some(request),
            _ => None,
        })
        .collect();
    assert_eq!(sent.len(), 1);
    sent[0]
}

fn headers(r: &SipRequest) -> Vec<(HeaderName, &str)> {
    r.headers.iter().map(|h| (h.name, h.value.as_str())).collect()
}

#[test]
fn a_registration_is_sent_without_credentials() {
    let mut e = ready();
    let actions = register(&mut e);
    let r = the_request(&actions);
    assert_eq!((r.method, r.uri.as_str()), (Method::Register, "sip:203.0.113.5"));
    assert_eq!(
        headers(r),
        vec![
            (HeaderName::Via, "SIP/2.0/UDP 198.51.100.7:61000;branch=z9hG4bK1;rport"),
            (HeaderName::From, "<sip:alice@203.0.113.5>;tag=tag-1f"),
            (HeaderName::To, "<sip:alice@203.0.113.5>"),
            (HeaderName::CallId, "reg-beef"),
            (HeaderName::CSeq, "1 REGISTER"),
            (HeaderName::Contact, "<sip:alice@198.51.100.7:61000>"),
            (HeaderName::Expires, "3600"),
            (HeaderName::ContentLength, "0"),
        ]
    );
    assert!(r.body.is_empty());
    assert_eq!(actions[1], log("⬆️ Initial REGISTER sent (No Auth)"));
    assert_eq!(actions[2], changed(CallState::Registering));
    assert_eq!(e.state(), CallState::Registering);
    assert_eq!(register(&mut e), vec![]);
    assert_eq!(e.state(), CallState::Registering);
}

#[test]
fn a_challenge_is_met_with_credentials() {
    let mut e = ready();
    register(&mut e);
    let mut r = reply(401);
    r.via = Some("SIP/2.0/UDP 192.168.1.7:5060;branch=x;received=198.51.100.8;rport=62000".into());
    r.www_authenticate = Some("Digest realm=\"sentiric\", nonce=\"abc123\"".into());
    let actions = receive(&mut e, r);
    assert_eq!(actions[0], log("🌍 Reactive NAT Update: 198.51.100.8:62000"));
    let sent = the_request(&actions);
    assert_eq!((sent.method, sent.uri.as_str()), (Method::Register, "sip:203.0.113.5"));
    let names: Vec<HeaderName> = sent.headers.iter().map(|h| h.name).collect();
    assert_eq!(
        names,
        vec![
            HeaderName::Via,
            HeaderName::From,
            HeaderName::To,
            HeaderName::CallId,
            HeaderName::CSeq,
            HeaderName::Contact,
            HeaderName::Expires,
            HeaderName::Authorization,
            HeaderName::ContentLength,
        ]
    );
    assert_eq!(
        sent.headers[0].value,
        "SIP/2.0/UDP 198.51.100.8:62000;branch=z9hG4bK3;rport"
    );
    assert_eq!(sent.headers[3].value, "reg-beef");
    assert_eq!(sent.headers[4].value, "2 REGISTER");
    assert!(sent.headers[7].value.starts_with("Digest username=\"alice\", realm=\"sentiric\""));
    assert_eq!(actions[2], log("🔑 Sent 401 Challenge Response for REGISTER"));
    assert_eq!(
        receive(&mut e, reply(200)),
        vec![
            changed(CallState::Registered),
            log("✅ Registered successfully to network!"),
        ]
    );
}

#[test]
fn a_challenge_that_cannot_be_met_fails() {
    let mut e = ready();
    register(&mut e);
    assert_eq!(receive(&mut e, reply(401)), vec![]);
    let mut r = reply(401);
    r.www_authenticate = Some("Basic realm=\"x\"".into());
    assert_eq!(receive(&mut e, r), vec![changed(CallState::AuthFailed)]);
    assert!(e.accepts_registration());
    assert_eq!(register(&mut e).len(), 3);
}

#[test]
fn a_forbidden_registration_fails() {
    let mut e = ready();
    register(&mut e);
    let mut r = reply(401);
    r.www_authenticate = Some("Digest realm=\"x\", nonce=\"1\"".into());
    receive(&mut e, r);
    assert_eq!(
        receive(&mut e, reply(403)),
        vec![
            log("❌ Server rejected with 403"),
            changed(CallState::Terminated),
            changed(CallState::AuthFailed),
        ]
    );
    assert_eq!(e.state(), CallState::AuthFailed);
    assert!(e.accepts_registration());
    assert_eq!(register(&mut e).len(), 3);
    assert_eq!(
        receive(&mut e, reply(200)),
        vec![
            changed(CallState::Registered),
            log("✅ Registered successfully to network!"),
        ]
    );
}

#[test]
fn a_registration_refused_for_another_reason_leaves_the_client_idle() {
    for code in [400, 404, 407, 486, 500, 603] {
        let mut e = ready();
        register(&mut e);
        assert_eq!(
            receive(&mut e, reply(code)),
            vec![
                log(&format!("❌ Server rejected with {}", code)),
                changed(CallState::Terminated),
                changed(CallState::Idle),
            ]
        );
        assert!(e.accepts_registration());
    }
}

#[test]
fn without_a_success_the_client_does_not_rest_registered() {
    let mut e = ready();
    register(&mut e);
    bye(&mut e);
    assert_eq!(e.state(), CallState::Idle);

    register(&mut e);
    receive(&mut e, reply(403));
    let actions = e.step_with(EngineInput::EndCall { branch: "z9hG4bK5".into() }, DRAWS);
    assert_eq!(
        actions[2..],
        [Action::StopMedia, changed(CallState::Terminated), changed(CallState::Idle)]
    );

    register(&mut e);
    receive(&mut e, reply(403));
    register(&mut e);
    receive(&mut e, reply(200));
    call(&mut e, "203.0.113.5", None, 0);
    receive(&mut e, reply(486));
    assert_eq!(e.state(), CallState::Registered);
}

#[test]
fn a_call_that_cannot_be_authenticated_keeps_the_registration() {
    let mut e = ready();
    register(&mut e);
    receive(&mut e, reply(200));
    call(&mut e, "203.0.113.5", None, 0);
    let mut r = reply(401);
    r.www_authenticate = Some("Basic realm=\"x\"".into());
    assert_eq!(receive(&mut e, r), vec![changed(CallState::AuthFailed)]);
    let actions = e.step_with(EngineInput::EndCall { branch: "z9hG4bK6".into() }, DRAWS);
    assert_eq!(
        actions[2..],
        [Action::StopMedia, changed(CallState::Terminated), changed(CallState::Registered)]
    );
    assert_eq!(e.step_with(EngineInput::KeepaliveTick, DRAWS).len(), 1);
    assert!(!e.accepts_registration());
}

#[test]
fn a_nameless_registration_does_not_outlast_a_call() {
    let mut e = ready();
    e.step_with(
        EngineInput::Register {
            target: server(),
            target_ip: "203.0.113.5".into(),
            user: "".into(),
            password: "".into(),
            branch: "z9hG4bK1".into(),
        },
        DRAWS,
    );
    receive(&mut e, reply(200));
    assert_eq!(e.state(), CallState::Registered);
    bye(&mut e);
    assert_eq!(e.state(), CallState::Idle);
}

#[test]
fn no_state_is_told_twice() {
    let mut e = ready();
    let mut all = register(&mut e);
    all.extend(receive(&mut e, reply(200)));
    all.extend(call(&mut e, "203.0.113.5", None, 0));
    all.extend(receive(&mut e, reply(180)));
    all.extend(receive(&mut e, reply(183)));
    all.extend(receive(&mut e, reply(200)));
    all.extend(bye(&mut e));
    all.extend(bye(&mut e));
    let told: Vec<CallState> = all
        .iter()
        .filter_map(|a| match a {
            Action::Emit(UacEvent::CallStateChanged(state)) => Some(*state),
            _ => None,
        })
        .collect();
    assert_eq!(
        told,
        vec![
            CallState::Registering,
            CallState::Registered,
            CallState::Dialing,
            CallState::Ringing,
            CallState::Connected,
            CallState::Terminated,
            CallState::Registered,
            CallState::Terminated,
            CallState::Registered,
        ]
    );
}

#[test]
fn a_call_is_dialed_and_connected() {
    let mut e = ready();
    let actions = call(&mut e, "203.0.113.5", Some("192.168.1.7"), 0);
    assert_eq!(
        actions[0],
        Action::Emit(UacEvent::CallIdGenerated("uac-beef".into()))
    );
    assert_eq!(actions[1], log("⬆️ INVITE sent"));
    match &actions[2] {
        Action::Telemetry(record) => {
            assert_eq!(
                (record.severity.as_str(), record.event.as_str(), record.message.as_str()),
                ("INFO", "SIP_PACKET_SENT", "INVITE sent")
            );
            assert_eq!(record.call_id, "uac-beef");
            assert_eq!(record.attributes, vec![("sip.method".to_string(), "INVITE".to_string())]);
        }
        other => panic!("{:?}", other),
    }
    let r = the_request(&actions);
    assert_eq!(r.uri, "sip:bob@203.0.113.5:5060");
    assert_eq!(
        headers(r),
        vec![
            (HeaderName::Via, "SIP/2.0/UDP 198.51.100.7:61000;branch=z9hG4bK2;rport"),
            (HeaderName::From, "<sip:alice@203.0.113.5>;tag=tag-1f"),
            (HeaderName::To, "<sip:bob@203.0.113.5>"),
            (HeaderName::CallId, "uac-beef"),
            (HeaderName::CSeq, "1 INVITE"),
            (HeaderName::Contact, "<sip:alice@198.51.100.7:61000>"),
            (HeaderName::ContentType, "application/sdp"),
            (HeaderName::UserAgent, "Sentiric-Mobile-UAC/4.0"),
            (HeaderName::Allow, "INVITE, ACK, BYE, CANCEL, OPTIONS"),
        ]
    );
    assert_eq!(r.body, session_description(1700000000, "198.51.100.7", 40000).into_bytes());
    assert_eq!(actions[4], Action::ResetRetransmit);
    assert_eq!(actions[5], changed(CallState::Dialing));

    assert_eq!(receive(&mut e, reply(180)), vec![changed(CallState::Ringing)]);
    assert_eq!(receive(&mut e, reply(183)), vec![]);

    let mut ok = reply(200);
    ok.to = Some("<sip:bob@203.0.113.5>;tag=77".into());
    ok.from = Some("<sip:alice@203.0.113.5>;tag=tag-1f".into());
    ok.body = b"c=IN IP4 203.0.113.77\r\nm=audio 7000 RTP/AVP 0\r\n".to_vec();
    let actions = receive(&mut e, ok);
    assert_eq!(
        actions[0],
        Action::ResolveMedia { target: "203.0.113.77:7000".into() }
    );
    assert_eq!(actions[1], log("⬆️ ACK sent"));
    let ack = the_request(&actions);
    assert_eq!((ack.method, ack.uri.as_str()), (Method::Ack, "sip:203.0.113.5:5060"));
    assert_eq!(
        headers(ack),
        vec![
            (HeaderName::Via, "SIP/2.0/UDP 198.51.100.7:61000;branch=z9hG4bK3;rport"),
            (HeaderName::From, "<sip:alice@203.0.113.5>;tag=tag-1f"),
            (HeaderName::To, "<sip:bob@203.0.113.5>;tag=77"),
            (HeaderName::CallId, "uac-beef"),
            (HeaderName::CSeq, "1 ACK"),
            (HeaderName::Contact, "<sip:mobile@198.51.100.7:61000>"),
            (HeaderName::UserAgent, "Sentiric-Mobile-UAC/4.0"),
            (HeaderName::ContentLength, "0"),
        ]
    );
    assert_eq!(actions[3], changed(CallState::Connected));

    let started = e.step_with(
        EngineInput::MediaResolved { target: "203.0.113.77:7000".into() },
        DRAWS,
    );
    assert!(matches!(&started[0], Action::Telemetry(r) if r.event == "SDP_PARSED"
        && r.message == "Media target locked" && r.call_id == "uac-beef"
        && r.attributes == vec![("target".to_string(), "203.0.113.77:7000".to_string())]));
    assert_eq!(started[1], Action::StartMedia { target: "203.0.113.77:7000".into() });
}

#[test]
fn a_private_target_is_told_the_private_address() {
    for target in ["100.64.0.1", "10.0.0.9", "192.168.0.2", "172.16.0.1"] {
        let mut e = ready();
        let actions = call(&mut e, target, Some("192.168.1.7"), 0);
        assert_eq!(
            actions[1],
            log("🛡️ VPN/LAN Detected. STUN bypassed -> SDP set to 192.168.1.7")
        );
        assert_eq!(
            the_request(&actions).headers[5].value,
            "<sip:alice@192.168.1.7:5060>"
        );
    }
    let mut e = ready();
    let actions = call(&mut e, "10.0.0.9", None, 0);
    assert_eq!(the_request(&actions).headers[5].value, "<sip:alice@198.51.100.7:61000>");
}

#[test]
fn hanging_up_says_goodbye() {
    let mut e = ready();
    call(&mut e, "203.0.113.5", None, 0);
    let actions = e.step_with(EngineInput::EndCall { branch: "z9hG4bK4".into() }, DRAWS);
    assert_eq!(actions[0], log("⬆️ BYE sent"));
    let r = the_request(&actions);
    assert_eq!((r.method, r.uri.as_str()), (Method::Bye, "sip:203.0.113.5:5060"));
    assert_eq!(
        headers(r),
        vec![
            (HeaderName::Via, "SIP/2.0/UDP 198.51.100.7:61000;branch=z9hG4bK4;rport"),
            (HeaderName::From, "<sip:mobile@sentiric>;tag=tag-1f"),
            (HeaderName::To, ""),
            (HeaderName::CallId, "uac-beef"),
            (HeaderName::CSeq, "2 BYE"),
            (HeaderName::Contact, "<sip:mobile@198.51.100.7:61000>"),
            (HeaderName::ContentLength, "0"),
        ]
    );
    assert_eq!(
        actions[2..],
        [
            Action::StopMedia,
            changed(CallState::Terminated),
            changed(CallState::Idle),
        ]
    );
    assert_eq!(
        e.step_with(EngineInput::EndCall { branch: "z9hG4bK5".into() }, DRAWS),
        vec![]
    );
}

#[test]
fn the_other_side_hangs_up() {
    let mut e = ready();
    register(&mut e);
    receive(&mut e, reply(200));
    let actions = bye(&mut e);
    assert_eq!(actions[0], log("🏁 Server closed connection (BYE)."));
    assert!(matches!(&actions[1], Action::Telemetry(r) if r.event == "REMOTE_HANGUP"
        && r.message == "Received BYE from Server" && r.attributes.is_empty()));
    match &actions[2] {
        Action::SendReply { answered, kind, to_header, headers, body, to } => {
            assert_eq!((*answered, *kind), (Answered::Received, ReplyKind::Success));
            assert_eq!((to_header, body), (&None, &None));
            assert_eq!(headers[0].value, "<sip:mobile@198.51.100.7:61000>");
            assert_eq!(headers[1].value, "Sentiric-Mobile-UAC/4.0");
            assert_eq!(headers[2].value, "0");
            assert_eq!(*to, server());
        }
        other => panic!("{:?}", other),
    }
    assert_eq!(
        actions[3..],
        [
            log("⬆️ 200 OK (For BYE) sent"),
            Action::StopMedia,
            changed(CallState::Terminated),
            changed(CallState::Registered),
        ]
    );
}

#[test]
fn an_incoming_call_is_accepted() {
    let mut e = ready();
    let actions = invite(&mut e, b"m=audio 9000 RTP/AVP 0\r\n");
    match &actions[0] {
        Action::SendReply { answered, kind, to_header, headers, body, to } => {
            assert_eq!((*answered, *kind), (Answered::Received, ReplyKind::Ringing));
            assert_eq!(to_header.as_deref(), Some("<sip:alice@y>;tag=tag-1f"));
            assert_eq!(headers.len(), 1);
            assert_eq!(*body, None);
            assert_eq!(*to, end("198.51.100.99", 5062));
        }
        other => panic!("{:?}", other),
    }
    assert_eq!(actions[1], changed(CallState::Incoming));
    assert_eq!(
        actions[2],
        Action::Emit(UacEvent::IncomingCall {
            from: "<sip:carol@x>;tag=9".into(),
            call_id: "call-1".into()
        })
    );
    assert!(matches!(&actions[3], Action::Telemetry(r) if r.event == "SIP_INBOUND_INVITE"
        && r.message == "Incoming call received" && r.call_id == "call-1"
        && r.attributes == vec![("from".to_string(), "<sip:carol@x>;tag=9".to_string())]));

    let actions = e.step_with(
        EngineInput::AcceptCall { ok_to: Some("<sip:alice@y>;tag=old".into()) },
        DRAWS,
    );
    assert_eq!(actions[0], log("⬆️ Sending 200 OK (Accepting Call)"));
    assert_eq!(
        actions[1],
        Action::ResolveMedia { target: "198.51.100.99:9000".into() }
    );
    let sdp = session_description(1700000000, "198.51.100.7", 40000).into_bytes();
    match &actions[2] {
        Action::SendReply { answered, kind, to_header, headers, body, to } => {
            assert_eq!((*answered, *kind), (Answered::Pending, ReplyKind::Success));
            assert_eq!(*to_header, None);
            assert_eq!(headers[1].value, "application/sdp");
            assert_eq!(headers[2].value, sdp.len().to_string());
            assert_eq!(*body, Some(sdp));
            assert_eq!(*to, end("198.51.100.99", 5062));
        }
        other => panic!("{:?}", other),
    }
    assert_eq!(actions[3], changed(CallState::Connected));
    assert_eq!(e.step_with(EngineInput::AcceptCall { ok_to: None }, DRAWS), vec![]);
    assert_eq!(e.step_with(EngineInput::RejectCall, DRAWS), vec![]);
}

#[test]
fn an_incoming_call_is_rejected() {
    let mut e = ready();
    invite(&mut e, b"");
    let actions = e.step_with(EngineInput::RejectCall, DRAWS);
    assert_eq!(actions[0], log("⬆️ Sending 603 Decline"));
    assert!(matches!(&actions[1], Action::SendReply { kind: ReplyKind::Decline, .. }));
    assert_eq!(actions[2], changed(CallState::Idle));
}

#[test]
fn a_busy_client_refuses() {
    let mut e = ready();
    call(&mut e, "203.0.113.5", None, 0);
    let actions = invite(&mut e, b"");
    assert_eq!(actions.len(), 1);
    match &actions[0] {
        Action::SendReply { answered, kind, headers, .. } => {
            assert_eq!((*answered, *kind), (Answered::Received, ReplyKind::BusyHere));
            assert_eq!((kind.status_code(), kind.phrase()), (486, "Busy Here"));
            assert_eq!(headers[0].value, "0");
        }
        other => panic!("{:?}", other),
    }
    assert_eq!(e.state(), CallState::Dialing);
    assert_eq!(call(&mut e, "203.0.113.5", None, 0), vec![]);
}

#[test]
fn an_invitation_is_repeated_and_given_up() {
    let mut e = ready();
    let first = call(&mut e, "203.0.113.5", None, 1_000);
    let again = e.step_with(EngineInput::RetransmitTick { at: 5_000_001_000 }, DRAWS);
    assert_eq!(again.len(), 1);
    assert_eq!(the_request(&again), the_request(&first));
    assert_eq!(e.step_with(EngineInput::RetransmitTick { at: 0 }, DRAWS).len(), 1);
    assert_eq!(
        e.step_with(EngineInput::RetransmitTick { at: 5_000_001_001 }, DRAWS),
        vec![
            log("⏱️ Connection Timeout!"),
            changed(CallState::Terminated),
            changed(CallState::Idle),
        ]
    );
    assert_eq!(e.step_with(EngineInput::RetransmitTick { at: u64::MAX }, DRAWS), vec![]);
}

#[test]
fn a_provisional_answer_stops_the_repeating() {
    let mut e = ready();
    call(&mut e, "203.0.113.5", None, 0);
    assert_eq!(receive(&mut e, reply(100)), vec![]);
    assert_eq!(e.state(), CallState::Dialing);
    assert_eq!(e.step_with(EngineInput::RetransmitTick { at: u64::MAX }, DRAWS), vec![]);
}

#[test]
fn a_refusal_ends_the_call() {
    let mut e = ready();
    register(&mut e);
    receive(&mut e, reply(200));
    call(&mut e, "203.0.113.5", None, 0);
    assert_eq!(
        receive(&mut e, reply(486)),
        vec![
            log("❌ Server rejected with 486"),
            changed(CallState::Terminated),
            changed(CallState::Registered),
        ]
    );
    assert_eq!(e.step_with(EngineInput::RetransmitTick { at: 1 }, DRAWS), vec![]);
}

#[test]
fn the_way_is_kept_open_while_it_is_needed() {
    let mut e = ready();
    assert_eq!(e.step_with(EngineInput::KeepaliveTick, DRAWS), vec![]);
    register(&mut e);
    assert_eq!(e.step_with(EngineInput::KeepaliveTick, DRAWS), vec![]);
    receive(&mut e, reply(200));
    assert_eq!(
        e.step_with(EngineInput::KeepaliveTick, DRAWS),
        vec![Action::SendRaw { bytes: b"\r\n\r\n".to_vec(), to: server() }]
    );
}

#[test]
fn the_media_is_told_active_once() {
    let mut e = ready();
    let mut tick = |rx: u64, tx: u64| e.step_with(EngineInput::StatsTick { rx, tx }, DRAWS);
    let stats = |rx_cnt: u64, tx_cnt: u64| Action::Emit(UacEvent::RtpStats { rx_cnt, tx_cnt });
    assert_eq!(tick(0, 0), vec![]);
    assert_eq!(tick(10, 0), vec![stats(10, 0)]);
    assert_eq!(tick(11, 1), vec![stats(11, 1), Action::Emit(UacEvent::MediaActive)]);
    assert_eq!(tick(12, 2), vec![stats(12, 2)]);
    bye(&mut e);
    assert_eq!(
        e.step_with(EngineInput::StatsTick { rx: 99, tx: 0 }, DRAWS).len(),
        2
    );
}

#[test]
fn settings_go_to_the_media() {
    let mut e = SipEngine::new();
    assert_eq!(
        e.step_with(
            EngineInput::UpdateSettings { mic_gain_bits: 1, speaker_gain_bits: 2 },
            DRAWS
        ),
        vec![Action::UpdateGains { mic_gain_bits: 1, speaker_gain_bits: 2 }]
    );
    assert_eq!(
        e.step_with(EngineInput::SendDtmf { key: '#' }, DRAWS),
        vec![
            Action::TriggerDtmf { key: '#' },
            log("🎹 In-Band DTMF Injecting: #")
        ]
    );
    assert_eq!(
        e.step_with(EngineInput::SetMute { muted: true }, DRAWS),
        vec![
            Action::SetMute { muted: true },
            log("🔇 Mic state changed: MUTED")
        ]
    );
    assert_eq!(
        e.step_with(EngineInput::SetMute { muted: false }, DRAWS)[1],
        log("🔇 Mic state changed: UNMUTED")
    );
}

#[test]
fn failures_at_the_start_are_told() {
    let mut e = SipEngine::new();
    assert_eq!(
        e.step_with(EngineInput::SipBindFailed { reason: "in use".into() }, DRAWS),
        vec![Action::Emit(UacEvent::Error("SIP Bind Fail: in use".into()))]
    );
    assert_eq!(
        e.step_with(EngineInput::RtpBindFailed { reason: "denied".into() }, DRAWS),
        vec![Action::Emit(UacEvent::Error("RTP Bind Fail: denied".into()))]
    );
    assert_eq!(
        e.step_with(EngineInput::SipBound { port: 1, ephemeral: true }, DRAWS),
        vec![log("🔌 SIP bound to Ephemeral Port")]
    );
    assert_eq!(
        e.step_with(EngineInput::StunDone { public: None }, DRAWS),
        vec![log("⚠️ STUN Timeout, falling back to Local IP")]
    );
}

#[test]
fn commands_are_planned_by_turn() {
    let mut e = ready();
    let command = || ClientCommand::Register {
        target_ip: "203.0.113.5".into(),
        target_port: 5060,
        user: "alice".into(),
        password: "secret".into(),
    };
    match e.plan(command()) {
        CommandPlan::Register { address, target_ip, user, password } => {
            assert_eq!(address, "203.0.113.5:5060");
            assert_eq!((target_ip.as_str(), user.as_str()), ("203.0.113.5", "alice"));
            assert_eq!(password, "secret");
        }
        other => panic!("{:?}", other),
    }
    register(&mut e);
    assert!(matches!(e.plan(command()), CommandPlan::Nothing));
    assert!(matches!(
        e.plan(ClientCommand::StartCall {
            target_ip: "x".into(),
            target_port: 1,
            to_user: "b".into(),
            from_user: "a".into()
        }),
        CommandPlan::Nothing
    ));
    assert!(matches!(e.plan(ClientCommand::EndCall), CommandPlan::EndCall));
    assert!(matches!(
        e.plan(ClientCommand::SendDtmf { key: '1' }),
        CommandPlan::SendDtmf { key: '1' }
    ));
}

#[test]
fn drawn_identifiers_differ() {
    let mut ids = Vec::new();
    for _ in 0..4 {
        let mut e = ready();
        let actions = e.step(EngineInput::StartCall {
            target: server(),
            target_ip: "203.0.113.5".into(),
            target_port: 5060,
            to_user: "b".into(),
            from_user: "a".into(),
            lan_ip: None,
            branch: "x".into(),
            at: 0,
        });
        match &actions[0] {
            Action::Emit(UacEvent::CallIdGenerated(id)) => {
                assert!(id.starts_with("uac-"));
                ids.push(id.clone());
            }
            other => panic!("{:?}", other),
        }
        let sdp = String::from_utf8(the_request(&actions).body.clone()).unwrap();
        assert!(sdp.contains("\r\no=- 1"));
    }
    assert!(ids.iter().any(|id| *id != ids[0]));
}

#[test]
fn the_via_shows_the_public_address() {
    let read = |via: &str| extract_public_addr_from_via(via, "10.0.0.1", 5060);
    assert_eq!(read("SIP/2.0/UDP h:1;branch=x;rport"), ("10.0.0.1".to_string(), 5060));
    assert_eq!(
        read("SIP/2.0/UDP h:1; received=1.2.3.4 ;rport=77"),
        ("1.2.3.4".to_string(), 77)
    );
    assert_eq!(read("x;rport=99999;received="), (String::new(), 5060));
    assert_eq!(read("rport=1;rport=2;rport=z"), ("10.0.0.1".to_string(), 2));
}

#[test]
fn datagrams_are_inspected() {
    let ok = b"SIP/2.0 200 OK\r\nVia: x\r\n";
    assert_eq!(
        inspect_datagram(ok),
        Some(UacEvent::Log("⬇️ SIP/2.0 200 OK".to_string()))
    );
    assert_eq!(inspect_datagram(b"abc"), None);
    assert_eq!(inspect_datagram(b"\x80abc"), None);
    assert_eq!(inspect_datagram(b"\r\n\r\n"), Some(UacEvent::Log("⬇️ ".to_string())));
    assert_eq!(
        inspect_datagram(b"a\xffbc"),
        Some(UacEvent::Log("⬇️ a\u{fffd}bc".to_string()))
    );
    assert_eq!(inbound_log(""), UacEvent::Log("⬇️ UNKNOWN".to_string()));
}

#[test]
fn replies_have_their_codes() {
    let kinds = [ReplyKind::Ringing, ReplyKind::Success, ReplyKind::BusyHere, ReplyKind::Decline];
    let codes: Vec<u16> = kinds.iter().map(|k| k.status_code()).collect();
    assert_eq!(codes, vec![180, 200, 486, 603]);
    assert_eq!(ReplyKind::Decline.phrase(), "Decline");
}
