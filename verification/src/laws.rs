//! What holds of the signalling as a whole.

use vstd::prelude::*;
use vstd::utf8::{decode_utf8, valid_utf8};

use crate::action::{ActionView, Draws, EngineInput};
use crate::sdp::{offered_target_is_found, on_one_line};
use crate::session::{
    accept_step, answer_to, answered, at, authorized_request, awaits, challenged, challenges,
    elapsed, end_call_step, has_number, invite_request, invited_step, is_engaged, is_sound,
    keepalive_step, may_call, may_register, no_content, numbers_request, progress, public_addr_in,
    read_via_parts, refuses, register_step, registered, reject_step, request_step, response_step,
    resting, retransmit_step, ringing, start_call_step, stats_step, step_of, unregistered_state,
    SessionView, Step, INVITE_TIMEOUT,
};
use crate::sip::{
    Answered, Asked, Endpoint, EndpointView, IncomingRequest, IncomingResponse, ReplyKind,
    RequestView,
};
use crate::text::{
    after_prefix, decimal, is_digit, is_white_space, lacks, lemma_after_own_prefix, lemma_decimal,
    lemma_split_one, lemma_split_two, port_round_trip, split_at, trimmed,
};
use crate::utils::{rtp_target_in, text_of};
use crate::{CallState, EventView};

verus! {

/// The state that the user was told last, who knew of `before`.
pub open spec fn last_told(actions: Seq<ActionView>, before: CallState) -> CallState
    decreases actions.len(),
{
    if actions.len() == 0 {
        before
    } else {
        match actions.last() {
            ActionView::Emit(EventView::CallStateChanged(state)) => state,
            _ => last_told(actions.drop_last(), before),
        }
    }
}

broadcast proof fn lemma_told_push(actions: Seq<ActionView>, action: ActionView, before: CallState)
    ensures
        #[trigger] last_told(actions.push(action), before) == match action {
            ActionView::Emit(EventView::CallStateChanged(state)) => state,
            _ => last_told(actions, before),
        },
{
    assert(actions.push(action).drop_last() =~= actions);
}

/// Whether each state that the user is told, who knew of `before`, is another
/// than the one told last.
spec fn tells_changes(actions: Seq<ActionView>, before: CallState) -> bool
    decreases actions.len(),
{
    if actions.len() == 0 {
        true
    } else {
        &&& tells_changes(actions.drop_last(), before)
        &&& match actions.last() {
            ActionView::Emit(EventView::CallStateChanged(state)) => state != last_told(
                actions.drop_last(),
                before,
            ),
            _ => true,
        }
    }
}

broadcast proof fn lemma_tells_push(actions: Seq<ActionView>, action: ActionView, before: CallState)
    ensures
        #[trigger] tells_changes(actions.push(action), before) == (tells_changes(actions, before)
            && match action {
            ActionView::Emit(EventView::CallStateChanged(state)) => state != last_told(
                actions,
                before,
            ),
            _ => true,
        }),
{
    assert(actions.push(action).drop_last() =~= actions);
}

broadcast group group_told {
    lemma_told_push,
    lemma_tells_push,
}

spec fn told(st: Step, before: CallState) -> bool {
    &&& last_told(st.actions, before) == st.session.state
    &&& tells_changes(st.actions, before)
}

proof fn lemma_told_start_call(
    s: SessionView,
    target: EndpointView,
    target_ip: Seq<char>,
    target_port: u16,
    to_user: Seq<char>,
    from_user: Seq<char>,
    lan_ip: Option<Seq<char>>,
    branch: Seq<char>,
    sent_at: u64,
    d: Draws,
)
    ensures
        told(
            start_call_step(
                s,
                target,
                target_ip,
                target_port,
                to_user,
                from_user,
                lan_ip,
                branch,
                sent_at,
                d,
            ),
            s.state,
        ),
{
    reveal(start_call_step);
    broadcast use group_told;
}

proof fn lemma_told_register(
    s: SessionView,
    target: EndpointView,
    target_ip: Seq<char>,
    user: Seq<char>,
    password: Seq<char>,
    branch: Seq<char>,
    d: Draws,
)
    ensures
        told(register_step(s, target, target_ip, user, password, branch, d), s.state),
{
    reveal(register_step);
    broadcast use group_told;
}

proof fn lemma_told_answering(s: SessionView, ok_to: Option<Seq<char>>, d: Draws)
    ensures
        told(accept_step(s, ok_to, d), s.state),
        told(reject_step(s), s.state),
{
    reveal(accept_step);
    reveal(reject_step);
    broadcast use group_told;
}

proof fn lemma_told_end_call(s: SessionView, branch: Seq<char>)
    ensures
        told(end_call_step(s, branch), s.state),
{
    reveal(end_call_step);
    broadcast use group_told;
}

proof fn lemma_told_request(s: SessionView, r: IncomingRequest, src: EndpointView, d: Draws)
    ensures
        told(request_step(s, r, src, d), s.state),
{
    reveal(request_step);
    broadcast use group_told;
}

proof fn lemma_told_progress(st: Step, r: IncomingResponse, before: CallState)
    requires
        told(st, before),
    ensures
        told(progress(st, r), before),
{
    broadcast use group_told;
}

proof fn lemma_told_challenged(st: Step, r: IncomingResponse, branch: Seq<char>, before: CallState)
    requires
        told(st, before),
    ensures
        told(challenged(st, r, branch), before),
{
    broadcast use group_told;
}

proof fn lemma_told_answered(
    st: Step,
    r: IncomingResponse,
    src: EndpointView,
    branch: Seq<char>,
    before: CallState,
)
    requires
        told(st, before),
    ensures
        told(answered(st, r, src, branch), before),
{
    broadcast use group_told;
}

proof fn lemma_told_response(
    s: SessionView,
    r: IncomingResponse,
    src: EndpointView,
    branch: Seq<char>,
)
    ensures
        told(response_step(s, r, src, branch), s.state),
{
    reveal(response_step);
    let a = progress(at(s), r);
    lemma_told_progress(at(s), r, s.state);
    let b = challenged(a, r, branch);
    lemma_told_challenged(a, r, branch, s.state);
    let c = ringing(registered(b, r), r);
    assert(told(c, s.state)) by {
        broadcast use group_told;
    }
    lemma_told_answered(c, r, src, branch, s.state);
}

proof fn lemma_told_clock(s: SessionView, now: u64, rx: u64, tx: u64)
    ensures
        told(retransmit_step(s, now), s.state),
        told(keepalive_step(s), s.state),
        told(stats_step(s, rx, tx), s.state),
{
    reveal(retransmit_step);
    reveal(stats_step);
    broadcast use group_told;
}

proof fn lemma_told_step(s: SessionView, input: EngineInput, d: Draws)
    ensures
        told(step_of(s, input, d), s.state),
{
    match input {
        EngineInput::Register { target, target_ip, user, password, branch } => {
            lemma_told_register(s, target@, target_ip@, user@, password@, branch@, d);
        },
        EngineInput::StartCall {
            target,
            target_ip,
            target_port,
            to_user,
            from_user,
            lan_ip,
            branch,
            at,
        } => {
            lemma_told_start_call(
                s,
                target@,
                target_ip@,
                target_port,
                to_user@,
                from_user@,
                text_of(lan_ip),
                branch@,
                at,
                d,
            );
        },
        EngineInput::AcceptCall { ok_to } => {
            lemma_told_answering(s, text_of(ok_to), d);
        },
        EngineInput::RejectCall => {
            lemma_told_answering(s, None, d);
        },
        EngineInput::EndCall { branch } => {
            lemma_told_end_call(s, branch@);
        },
        EngineInput::Request { request, src } => {
            lemma_told_request(s, request, src@, d);
        },
        EngineInput::Response { response, src, branch } => {
            lemma_told_response(s, response, src@, branch@);
        },
        EngineInput::RetransmitTick { at } => {
            lemma_told_clock(s, at, 0, 0);
        },
        EngineInput::KeepaliveTick => {
            lemma_told_clock(s, 0, 0, 0);
        },
        EngineInput::StatsTick { rx, tx } => {
            lemma_told_clock(s, 0, rx, tx);
        },
        _ => {
            broadcast use group_told;

        },
    }
}

/// A user who knew the state before a step knows it after: every change is
/// told, and nothing is told that did not happen.
pub proof fn the_user_knows_the_state(s: SessionView, input: EngineInput, d: Draws)
    ensures
        last_told(step_of(s, input, d).actions, s.state) == step_of(s, input, d).session.state,
{
    lemma_told_step(s, input, d);
}

/// The states that the user is told, one after the other, behind the one known
/// before.
pub open spec fn states_told(actions: Seq<ActionView>, before: CallState) -> Seq<CallState>
    decreases actions.len(),
{
    if actions.len() == 0 {
        seq![before]
    } else {
        let earlier = states_told(actions.drop_last(), before);
        match actions.last() {
            ActionView::Emit(EventView::CallStateChanged(state)) => earlier.push(state),
            _ => earlier,
        }
    }
}

/// Whether no state is followed by itself.
pub open spec fn no_repetition(states: Seq<CallState>) -> bool {
    forall|i: int, j: int|
        0 <= i && j == i + 1 && j < states.len() ==> #[trigger] states[i] != #[trigger] states[j]
}

proof fn lemma_no_repetition(actions: Seq<ActionView>, before: CallState)
    requires
        tells_changes(actions, before),
    ensures
        states_told(actions, before).len() > 0,
        states_told(actions, before).last() == last_told(actions, before),
        no_repetition(states_told(actions, before)),
    decreases actions.len(),
{
    if actions.len() > 0 {
        lemma_no_repetition(actions.drop_last(), before);
    }
}

/// Where a session stands after inputs, and what was done on the way.
pub open spec fn run_of(s: SessionView, inputs: Seq<(EngineInput, Draws)>) -> Step
    decreases inputs.len(),
{
    if inputs.len() == 0 {
        at(s)
    } else {
        let before = run_of(s, inputs.drop_last());
        let next = step_of(before.session, inputs.last().0, inputs.last().1);
        Step { session: next.session, actions: before.actions + next.actions }
    }
}

proof fn lemma_told_both(a: Seq<ActionView>, b: Seq<ActionView>, before: CallState)
    ensures
        last_told(a + b, before) == last_told(b, last_told(a, before)),
        tells_changes(a + b, before) == (tells_changes(a, before) && tells_changes(
            b,
            last_told(a, before),
        )),
    decreases b.len(),
{
    if b.len() == 0 {
        assert(a + b =~= a);
    } else {
        assert((a + b).drop_last() =~= a + b.drop_last());
        lemma_told_both(a, b.drop_last(), before);
    }
}

proof fn lemma_told_run(s: SessionView, inputs: Seq<(EngineInput, Draws)>)
    ensures
        told(run_of(s, inputs), s.state),
    decreases inputs.len(),
{
    if inputs.len() > 0 {
        let before = run_of(s, inputs.drop_last());
        lemma_told_run(s, inputs.drop_last());
        lemma_told_step(before.session, inputs.last().0, inputs.last().1);
        let next = step_of(before.session, inputs.last().0, inputs.last().1);
        lemma_told_both(before.actions, next.actions, s.state);
    }
}

/// Whatever happens, and however often, the user is never told the same state
/// twice in a row, nor the one known before; the last one told is the state.
pub proof fn no_state_is_told_twice_in_a_row(s: SessionView, inputs: Seq<(EngineInput, Draws)>)
    ensures
        no_repetition(states_told(run_of(s, inputs).actions, s.state)),
        states_told(run_of(s, inputs).actions, s.state).last() == run_of(s, inputs).session.state,
{
    lemma_told_run(s, inputs);
    lemma_no_repetition(run_of(s, inputs).actions, s.state);
}

/// In one step, too, the user is told no state twice in a row.
pub proof fn a_step_tells_no_state_twice(s: SessionView, input: EngineInput, d: Draws)
    ensures
        no_repetition(states_told(step_of(s, input, d).actions, s.state)),
{
    lemma_told_step(s, input, d);
    lemma_no_repetition(step_of(s, input, d).actions, s.state);
}

/// While a call goes on, or anything else than rest, a call that comes in is
/// refused as busy, and nothing changes.
pub proof fn a_busy_client_refuses_calls(
    s: SessionView,
    request: IncomingRequest,
    src: Endpoint,
    d: Draws,
)
    requires
        !may_call(s),
        request.asked == Asked::Invite,
    ensures
        step_of(s, EngineInput::Request { request, src }, d) == (Step {
            session: s,
            actions: seq![
                ActionView::SendReply {
                    answered: Answered::Received,
                    kind: ReplyKind::BusyHere,
                    to_header: None,
                    headers: seq![no_content()],
                    body: None,
                    to: src@,
                },
            ],
        }),
{
    reveal(request_step);
}

/// A registration and a call are taken on only when it is their turn. At any
/// other time nothing is done and nothing changes.
pub proof fn commands_out_of_turn_do_nothing(s: SessionView, input: EngineInput, d: Draws)
    requires
        (input is Register && !may_register(s)) || (input is StartCall && !may_call(s)),
    ensures
        step_of(s, input, d) == at(s),
{
    reveal(register_step);
    reveal(start_call_step);
}

/// Whether an input ends the call: the user or the other side hangs up, a
/// request other than a registration is refused, or an invitation went
/// unanswered for too long.
pub open spec fn ends_call(s: SessionView, input: EngineInput) -> bool {
    match input {
        EngineInput::EndCall { .. } => is_engaged(s),
        EngineInput::Request { request, .. } => request.asked == Asked::Bye,
        EngineInput::Response { response, .. } => refuses(response) && s.state
            != CallState::Registering,
        EngineInput::RetransmitTick { at } => {
            &&& s.last_invite is Some
            &&& s.target is Some
            &&& s.invite_sent_at is Some
            &&& elapsed(s.invite_sent_at->0, at) > INVITE_TIMEOUT
        },
        _ => false,
    }
}

/// However a call ends, the client is at rest: registered where a user
/// registered with success, idle elsewhere. No invitation is sent again.
pub proof fn a_call_that_ends_leaves_rest(s: SessionView, input: EngineInput, d: Draws)
    requires
        ends_call(s, input),
    ensures
        step_of(s, input, d).session.state == resting(s),
        step_of(s, input, d).session.last_invite is None,
{
    match input {
        EngineInput::EndCall { .. } => {
            reveal(end_call_step);
        },
        EngineInput::Request { .. } => {
            reveal(request_step);
        },
        EngineInput::Response { response, src, branch } => {
            lemma_refused_response(s, response, src@, branch@);
        },
        _ => {
            reveal(retransmit_step);
        },
    }
}

proof fn lemma_refused_response(
    s: SessionView,
    r: IncomingResponse,
    src: EndpointView,
    branch: Seq<char>,
)
    requires
        refuses(r),
    ensures
        response_step(s, r, src, branch).session.state == (if s.state == CallState::Registering {
            unregistered_state(r)
        } else {
            resting(s)
        }),
        s.state == CallState::Registering ==> !response_step(
            s,
            r,
            src,
            branch,
        ).session.is_registered,
        response_step(s, r, src, branch).session.last_invite is None,
{
    reveal(response_step);
    let a = progress(at(s), r);
    assert(a.session.state == s.state);
    assert(a.session.is_registered == s.is_registered);
}

/// A refused registration fails: forbidden by the server, the credentials count
/// as refused; refused for another reason, the client is idle. The client is
/// not registered, and the user may register anew.
pub proof fn a_refused_registration_fails(
    s: SessionView,
    response: IncomingResponse,
    src: Endpoint,
    branch: String,
    d: Draws,
)
    requires
        s.state == CallState::Registering,
        refuses(response),
    ensures
        ({
            let next = step_of(s, EngineInput::Response { response, src, branch }, d).session;
            &&& response.status_code == 403 ==> next.state == CallState::AuthFailed
            &&& response.status_code != 403 ==> next.state == CallState::Idle
            &&& !next.is_registered
            &&& may_register(next)
        }),
{
    lemma_refused_response(s, response, src@, branch@);
}

/// Whether an input is the success of a registration that was asked for.
pub open spec fn registers(s: SessionView, input: EngineInput) -> bool {
    match input {
        EngineInput::Response { response, .. } => response.status_code == 200 && s.state
            == CallState::Registering,
        _ => false,
    }
}

/// The client becomes registered by the success of a registration, and by
/// nothing else: where there was no registration before, a step leads to one
/// only then, and never to the state that shows one otherwise.
pub proof fn only_a_success_registers(s: SessionView, input: EngineInput, d: Draws)
    requires
        is_sound(s),
        !s.is_registered,
    ensures
        step_of(s, input, d).session.is_registered == registers(s, input),
        (step_of(s, input, d).session.state == CallState::Registered) == registers(s, input),
{
    match input {
        EngineInput::Response { response, src, branch } => {
            lemma_response_registers(s, response, src@, branch@);
        },
        EngineInput::Register { .. } => {
            reveal(register_step);
        },
        EngineInput::StartCall { .. } => {
            reveal(start_call_step);
        },
        EngineInput::AcceptCall { .. } => {
            reveal(accept_step);
        },
        EngineInput::RejectCall => {
            reveal(reject_step);
        },
        EngineInput::EndCall { .. } => {
            reveal(end_call_step);
        },
        EngineInput::Request { .. } => {
            reveal(request_step);
        },
        EngineInput::RetransmitTick { .. } => {
            reveal(retransmit_step);
        },
        EngineInput::StatsTick { .. } => {
            reveal(stats_step);
        },
        _ => {},
    }
}

/// A registration that succeeded lasts until the user registers anew: no call,
/// however it ends, and no credentials refused for a call take it away.
pub proof fn a_registration_lasts(s: SessionView, input: EngineInput, d: Draws)
    requires
        is_sound(s),
        s.is_registered,
        input is Register ==> !may_register(s),
    ensures
        step_of(s, input, d).session.is_registered,
        step_of(s, input, d).session.user == s.user,
{
    match input {
        EngineInput::Response { response, src, branch } => {
            lemma_response_keeps(s, response, src@, branch@);
        },
        EngineInput::Register { .. } => {
            reveal(register_step);
        },
        EngineInput::StartCall { .. } => {
            reveal(start_call_step);
        },
        EngineInput::AcceptCall { .. } => {
            reveal(accept_step);
        },
        EngineInput::RejectCall => {
            reveal(reject_step);
        },
        EngineInput::EndCall { .. } => {
            reveal(end_call_step);
        },
        EngineInput::Request { .. } => {
            reveal(request_step);
        },
        EngineInput::RetransmitTick { .. } => {
            reveal(retransmit_step);
        },
        EngineInput::StatsTick { .. } => {
            reveal(stats_step);
        },
        _ => {},
    }
}

proof fn lemma_response_keeps(
    s: SessionView,
    r: IncomingResponse,
    src: EndpointView,
    branch: Seq<char>,
)
    requires
        is_sound(s),
        s.is_registered,
    ensures
        response_step(s, r, src, branch).session.is_registered,
        response_step(s, r, src, branch).session.user == s.user,
{
    reveal(response_step);
    let a = progress(at(s), r);
    assert(a.session.state == s.state && a.session.is_registered && a.session.user == s.user);
    let b = challenged(a, r, branch);
    assert(b.session.state != CallState::Registering);
    assert(b.session.is_registered && b.session.user == s.user);
    let c = ringing(registered(b, r), r);
    assert(c.session.state != CallState::Registering);
    assert(c.session.is_registered && c.session.user == s.user);
}

proof fn lemma_response_registers(
    s: SessionView,
    r: IncomingResponse,
    src: EndpointView,
    branch: Seq<char>,
)
    requires
        is_sound(s),
        !s.is_registered,
    ensures
        ({
            let success = r.status_code == 200 && s.state == CallState::Registering;
            let next = response_step(s, r, src, branch).session;
            &&& next.is_registered == success
            &&& (next.state == CallState::Registered) == success
        }),
{
    reveal(response_step);
    let success = r.status_code == 200 && s.state == CallState::Registering;
    let a = progress(at(s), r);
    assert(a.session.state == s.state && !a.session.is_registered);
    let b = challenged(a, r, branch);
    assert(!b.session.is_registered && (b.session.state == s.state || r.status_code == 401));
    let c = ringing(registered(b, r), r);
    assert(c.session.is_registered == success);
    assert((c.session.state == CallState::Registered) == success);
    assert(success ==> answered(c, r, src, branch) == c);
}

/// Whoever hangs up, the media is stopped.
pub proof fn hanging_up_stops_the_media(s: SessionView, input: EngineInput, d: Draws)
    requires
        ends_call(s, input),
        input is EndCall || input is Request,
    ensures
        step_of(s, input, d).actions.contains(ActionView::StopMedia),
        !step_of(s, input, d).session.media_reported,
{
    reveal(end_call_step);
    reveal(request_step);
    let actions = step_of(s, input, d).actions;
    if input is EndCall {
        if s.target is Some {
            assert(actions[2] == ActionView::StopMedia);
        } else {
            assert(actions[0] == ActionView::StopMedia);
        }
    } else {
        assert(actions[4] == ActionView::StopMedia);
    }
}

/// Whether a response settles the invitation of a session: a provisional one
/// and an acceptance do, and any refusal but a challenge.
pub open spec fn settles(s: SessionView, r: IncomingResponse) -> bool {
    ||| 100 <= r.status_code < 200 && awaits(s)
    ||| r.status_code == 200 && (s.state == CallState::Dialing || s.state == CallState::Ringing)
    ||| refuses(r)
}

/// An invitation that was answered is not sent again, however often it is time
/// to.
pub proof fn an_answered_invitation_is_not_repeated(
    s: SessionView,
    response: IncomingResponse,
    src: Endpoint,
    branch: String,
    now: u64,
    d: Draws,
)
    requires
        settles(s, response),
    ensures
        ({
            let next = step_of(s, EngineInput::Response { response, src, branch }, d).session;
            &&& next.last_invite is None
            &&& step_of(next, EngineInput::RetransmitTick { at: now }, d) == at(next)
        }),
{
    reveal(retransmit_step);
    if response.status_code >= 400 {
        lemma_refused_response(s, response, src@, branch@);
    } else {
        lemma_settled_response(s, response, src@, branch@);
    }
}

proof fn lemma_settled_response(
    s: SessionView,
    r: IncomingResponse,
    src: EndpointView,
    branch: Seq<char>,
)
    requires
        settles(s, r),
        r.status_code < 400,
    ensures
        response_step(s, r, src, branch).session.last_invite is None,
{
    reveal(response_step);
    let a = progress(at(s), r);
    assert(a.session.state == s.state);
    assert(challenged(a, r, branch) == a);
}

/// An invitation that was not answered is sent again as it was, until it is
/// given up.
pub proof fn an_unanswered_invitation_is_repeated(s: SessionView, now: u64, d: Draws)
    requires
        is_sound(s),
        s.last_invite is Some,
        elapsed(s.invite_sent_at->0, now) <= INVITE_TIMEOUT,
    ensures
        step_of(s, EngineInput::RetransmitTick { at: now }, d) == (Step {
            session: s,
            actions: seq![
                ActionView::SendRequest { request: s.last_invite->0, to: s.target->0 },
            ],
        }),
{
    reveal(retransmit_step);
}

/// The requests that actions send, and whom to.
pub open spec fn requests_in(actions: Seq<ActionView>) -> Seq<(RequestView, EndpointView)>
    decreases actions.len(),
{
    if actions.len() == 0 {
        seq![]
    } else {
        let before = requests_in(actions.drop_last());
        match actions.last() {
            ActionView::SendRequest { request, to } => before.push((request, to)),
            _ => before,
        }
    }
}

broadcast proof fn lemma_requests_push(actions: Seq<ActionView>, action: ActionView)
    ensures
        #[trigger] requests_in(actions.push(action)) == match action {
            ActionView::SendRequest { request, to } => requests_in(actions).push((request, to)),
            _ => requests_in(actions),
        },
{
    assert(actions.push(action).drop_last() =~= actions);
}

/// A challenge that can be answered is answered by the same request once more,
/// in the same call, numbered one higher and with the answer; the client goes
/// on waiting. One that cannot be answered ends the attempt, and the user may
/// register anew.
pub proof fn a_challenge_is_answered(
    s: SessionView,
    response: IncomingResponse,
    src: Endpoint,
    branch: String,
    d: Draws,
)
    requires
        is_sound(s),
        challenges(s, response),
        has_number(s, EngineInput::Response { response, src, branch }),
    ensures
        ({
            let next = step_of(s, EngineInput::Response { response, src, branch }, d);
            match answer_to(s, response) {
                Some(authorization) => {
                    let s1 = next.session;
                    let target = s.target->0;
                    &&& s1.cseq == s.cseq + 1
                    &&& s1.call_id == s.call_id
                    &&& s1.state == s.state
                    &&& requests_in(next.actions) == seq![
                        (
                            authorized_request(s1, target.host, authorization, branch@),
                            target,
                        ),
                    ]
                },
                None => {
                    &&& next.session.state == CallState::AuthFailed
                    &&& may_register(next.session)
                    &&& requests_in(next.actions) == Seq::<(RequestView, EndpointView)>::empty()
                },
            }
        }),
{
    reveal(response_step);
    broadcast use lemma_requests_push;

    let a = progress(at(s), response);
    assert(requests_in(at(s).actions) == Seq::<(RequestView, EndpointView)>::empty());
    assert(requests_in(a.actions) == Seq::<(RequestView, EndpointView)>::empty());
    assert(answer_to(a.session, response) == answer_to(s, response));
    let b = challenged(a, response, branch@);
    assert(response_step(s, response, src@, branch@) == b);
}

/// Whether an input begins a dialogue: a registration or a call that is taken
/// on.
pub open spec fn begins(s: SessionView, input: EngineInput) -> bool {
    (input is Register && may_register(s)) || (input is StartCall && may_call(s))
}

/// Requests are numbered upwards within a dialogue, from one.
pub proof fn requests_are_numbered_upwards(s: SessionView, input: EngineInput, d: Draws)
    requires
        has_number(s, input),
    ensures
        step_of(s, input, d).session.cseq == (if begins(s, input) {
            1
        } else if numbers_request(s, input) {
            s.cseq + 1
        } else {
            s.cseq as int
        }),
{
    match input {
        EngineInput::Register { .. } => {
            reveal(register_step);
        },
        EngineInput::StartCall { .. } => {
            reveal(start_call_step);
        },
        EngineInput::AcceptCall { .. } => {
            reveal(accept_step);
        },
        EngineInput::RejectCall => {
            reveal(reject_step);
        },
        EngineInput::EndCall { .. } => {
            reveal(end_call_step);
        },
        EngineInput::Request { .. } => {
            reveal(request_step);
        },
        EngineInput::Response { response, src, branch } => {
            reveal(response_step);
            let a = progress(at(s), response);
            assert(a.session.cseq == s.cseq && a.session.target == s.target && a.session.state
                == s.state);
            let b = challenged(a, response, branch@);
            let c = ringing(registered(b, response), response);
            assert(c.session.cseq == b.session.cseq);
            assert(answered(c, response, src@, branch@).session.cseq == c.session.cseq);
        },
        EngineInput::RetransmitTick { .. } => {
            reveal(retransmit_step);
        },
        EngineInput::StatsTick { .. } => {
            reveal(stats_step);
        },
        _ => {},
    }
}

/// The answers that actions send: to which request, of which kind, and whom
/// to.
pub open spec fn replies_in(actions: Seq<ActionView>) -> Seq<(Answered, ReplyKind, EndpointView)>
    decreases actions.len(),
{
    if actions.len() == 0 {
        seq![]
    } else {
        let before = replies_in(actions.drop_last());
        match actions.last() {
            ActionView::SendReply { answered, kind, to, .. } => before.push((answered, kind, to)),
            _ => before,
        }
    }
}

broadcast proof fn lemma_replies_push(actions: Seq<ActionView>, action: ActionView)
    ensures
        #[trigger] replies_in(actions.push(action)) == match action {
            ActionView::SendReply { answered, kind, to, .. } => replies_in(actions).push(
                (answered, kind, to),
            ),
            _ => replies_in(actions),
        },
{
    assert(actions.push(action).drop_last() =~= actions);
}

/// A call that comes in rings at its caller. What the user decides is answered
/// to the same caller: accepted, the client is connected; rejected, it is at
/// rest again. Decided once, there is nothing left to decide.
pub proof fn an_incoming_call_is_answered_to_its_caller(
    s: SessionView,
    request: IncomingRequest,
    src: Endpoint,
    d: Draws,
    ok_to: Option<String>,
    d2: Draws,
)
    requires
        may_call(s),
        request.asked == Asked::Invite,
    ensures
        ({
            let rung = step_of(s, EngineInput::Request { request, src }, d);
            let accepted = step_of(rung.session, EngineInput::AcceptCall { ok_to }, d2);
            let rejected = step_of(rung.session, EngineInput::RejectCall, d2);
            &&& rung.session.state == CallState::Incoming
            &&& replies_in(rung.actions) == seq![(Answered::Received, ReplyKind::Ringing, src@)]
            &&& accepted.session.state == CallState::Connected
            &&& replies_in(accepted.actions) == seq![
                (Answered::Pending, ReplyKind::Success, src@),
            ]
            &&& accepted.session.pending is None
            &&& rejected.session.state == resting(s)
            &&& replies_in(rejected.actions) == seq![
                (Answered::Pending, ReplyKind::Decline, src@),
            ]
            &&& rejected.session.pending is None
        }),
{
    let rung = step_of(s, EngineInput::Request { request, src }, d);
    assert(rung == invited_step(s, request, src@, d)) by {
        reveal(request_step);
    }
    lemma_rung(s, request, src@, d);
    lemma_decided(rung.session, text_of(ok_to), d2);
}

proof fn lemma_rung(s: SessionView, request: IncomingRequest, src: EndpointView, d: Draws)
    requires
        may_call(s),
    ensures
        ({
            let rung = invited_step(s, request, src, d);
            &&& rung.session.state == CallState::Incoming
            &&& rung.session.pending is Some
            &&& rung.session.remote == Some(src)
            &&& rung.session.user == s.user
            &&& replies_in(rung.actions) == seq![(Answered::Received, ReplyKind::Ringing, src)]
        }),
{
    broadcast use lemma_replies_push;

    assert(replies_in(at(s).actions) == Seq::<(Answered, ReplyKind, EndpointView)>::empty());
}

proof fn lemma_decided(s: SessionView, ok_to: Option<Seq<char>>, d: Draws)
    requires
        s.pending is Some,
        s.remote is Some,
    ensures
        ({
            let accepted = accept_step(s, ok_to, d);
            let rejected = reject_step(s);
            &&& accepted.session.state == CallState::Connected
            &&& accepted.session.pending is None
            &&& replies_in(accepted.actions) == seq![
                (Answered::Pending, ReplyKind::Success, s.remote->0),
            ]
            &&& rejected.session.state == resting(s)
            &&& rejected.session.pending is None
            &&& replies_in(rejected.actions) == seq![
                (Answered::Pending, ReplyKind::Decline, s.remote->0),
            ]
        }),
{
    reveal(accept_step);
    reveal(reject_step);
    broadcast use lemma_replies_push;

    assert(replies_in(at(s).actions) == Seq::<(Answered, ReplyKind, EndpointView)>::empty());
}

/// Whether actions report the media as active.
pub open spec fn reports_active(actions: Seq<ActionView>) -> bool
    decreases actions.len(),
{
    actions.len() > 0 && (actions.last() == ActionView::Emit(EventView::MediaActive)
        || reports_active(actions.drop_last()))
}

broadcast proof fn lemma_active_push(actions: Seq<ActionView>, action: ActionView)
    ensures
        #[trigger] reports_active(actions.push(action)) == (action == ActionView::Emit(
            EventView::MediaActive,
        ) || reports_active(actions)),
{
    assert(actions.push(action).drop_last() =~= actions);
}

proof fn lemma_quiet_response(
    s: SessionView,
    r: IncomingResponse,
    src: EndpointView,
    branch: Seq<char>,
)
    ensures
        !reports_active(response_step(s, r, src, branch).actions),
        response_step(s, r, src, branch).session.media_reported == s.media_reported,
{
    reveal(response_step);
    broadcast use lemma_active_push;

    let a = progress(at(s), r);
    assert(!reports_active(a.actions) && a.session.media_reported == s.media_reported);
    let b = challenged(a, r, branch);
    assert(!reports_active(b.actions) && b.session.media_reported == s.media_reported);
    let c = ringing(registered(b, r), r);
    assert(!reports_active(c.actions) && c.session.media_reported == s.media_reported);
}

/// That the media is active is reported once in a call: it is reported where
/// it was not yet, and not again until someone hangs up.
pub proof fn the_media_is_reported_active_once(s: SessionView, input: EngineInput, d: Draws)
    ensures
        ({
            let next = step_of(s, input, d);
            &&& reports_active(next.actions) ==> !s.media_reported && next.session.media_reported
            &&& s.media_reported && !(ends_call(s, input) && (input is EndCall
                || input is Request)) ==> next.session.media_reported
        }),
{
    match input {
        EngineInput::Response { response, src, branch } => {
            lemma_quiet_response(s, response, src@, branch@);
        },
        EngineInput::Register { .. } => {
            reveal(register_step);
            broadcast use lemma_active_push;

        },
        EngineInput::StartCall { .. } => {
            reveal(start_call_step);
            broadcast use lemma_active_push;

        },
        EngineInput::AcceptCall { .. } => {
            reveal(accept_step);
            broadcast use lemma_active_push;

        },
        EngineInput::RejectCall => {
            reveal(reject_step);
            broadcast use lemma_active_push;

        },
        EngineInput::EndCall { .. } => {
            reveal(end_call_step);
            broadcast use lemma_active_push;

        },
        EngineInput::Request { .. } => {
            reveal(request_step);
            broadcast use lemma_active_push;

        },
        EngineInput::RetransmitTick { .. } => {
            reveal(retransmit_step);
            broadcast use lemma_active_push;

        },
        EngineInput::StatsTick { .. } => {
            reveal(stats_step);
            broadcast use lemma_active_push;

        },
        _ => {
            broadcast use lemma_active_push;

        },
    }
}

/// Whoever reads the offer in an invitation sends the media to the contact
/// address of the client and to its port for media; to the address known
/// before, where the contact is the unspecified address.
pub proof fn an_invitation_offers_the_own_media(
    s: SessionView,
    target_ip: Seq<char>,
    target_port: u16,
    to_user: Seq<char>,
    from_user: Seq<char>,
    branch: Seq<char>,
    now: i64,
    known_ip: Seq<char>,
)
    requires
        on_one_line(s.contact_ip),
        s.rtp_port > 0,
    ensures
        ({
            let body = invite_request(
                s,
                target_ip,
                target_port,
                to_user,
                from_user,
                branch,
                now,
            ).body;
            &&& valid_utf8(body)
            &&& rtp_target_in(decode_utf8(body), known_ip) == Some(
                (if trimmed(s.contact_ip) != "0.0.0.0"@ {
                    trimmed(s.contact_ip)
                } else {
                    known_ip
                }) + ":"@ + decimal(s.rtp_port as nat),
            )
        }),
{
    offered_target_is_found(now, s.contact_ip, s.rtp_port, known_ip);
}

/// A server that stamps the address it saw into the `Via` of its response is
/// understood, whatever else stands before.
pub proof fn a_stamped_via_is_read(
    via: Seq<char>,
    ip: Seq<char>,
    port: u16,
    known_ip: Seq<char>,
    known_port: u16,
)
    requires
        ip.len() > 0,
        lacks(ip, ';'),
        !is_white_space(ip.last()),
    ensures
        public_addr_in(
            via + ";received="@ + ip + ";rport="@ + decimal(port as nat),
            known_ip,
            known_port,
        ) == (ip, port),
{
    reveal_strlit(";received=");
    reveal_strlit(";rport=");
    reveal_strlit("received=");
    reveal_strlit("rport=");
    let digits = decimal(port as nat);
    let stamped = via + ";received="@ + ip + ";rport="@ + digits;
    let a = "received="@ + ip;
    let b = "rport="@ + digits;
    assert(stamped =~= via.push(';') + (a.push(';') + b));
    lemma_decimal(port as nat);
    assert(is_digit(digits.last()));
    assert(a.last() == ip.last());
    assert(b.last() == digits.last());
    assert forall|i: int| 0 <= i < a.len() implies #[trigger] a[i] != ';' by {
        if i >= 9 {
            assert(a[i] == ip[i - 9]);
        }
    }
    assert forall|i: int| 0 <= i < b.len() implies #[trigger] b[i] != ';' by {
        if i >= 6 {
            assert(b[i] == digits[i - 6]);
            assert(is_digit(digits[i - 6]));
        }
    }
    lemma_split_two(via, a.push(';') + b, ';');
    lemma_split_two(a, b, ';');
    lemma_split_one(a, ';');
    lemma_split_one(b, ';');
    let before = split_at(via, ';');
    let parts = split_at(stamped, ';');
    assert(parts =~= before.push(a).push(b));
    assert(parts.drop_last() =~= before.push(a));
    assert(parts.drop_last().drop_last() =~= before);
    lemma_after_own_prefix("received="@, ip);
    lemma_after_own_prefix("rport="@, digits);
    assert(trimmed(a) == a);
    assert(trimmed(b) == b);
    assert(b.len() >= 9 ==> b.take(9)[1] == 'p');
    assert(after_prefix(b, "received="@) is None);
    port_round_trip(port);
    let known = (known_ip, known_port);
    assert(read_via_parts(parts.drop_last(), known).0 == ip);
}

} // verus!
