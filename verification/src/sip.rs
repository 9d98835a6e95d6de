//! Messages of the signalling: what is sent, what is received, and the texts
//! in their headers.

use vstd::prelude::*;
use vstd::utf8::{decode_utf8, valid_utf8};

use crate::text::{
    chars_of, contains, decimal, hexadecimal, holds, lacks, lemma_lines_both, lemma_one_line,
    lemma_position, lines, lines_of, push_chars, push_decimal, push_hex, push_signed,
    signed_decimal, texts, trim, trimmed, without_cr,
};
use crate::utils::{from_utf8_lossy, lossy_text, text_of};
use crate::{EventView, UacEvent};

verus! {

/// The end of a connection: its host as text, and its address as text.
#[derive(Debug, PartialEq, Eq)]
pub struct Endpoint {
    pub host: String,
    pub addr: String,
}

/// What an `Endpoint` holds.
#[verifier::ext_equal]
pub struct EndpointView {
    pub host: Seq<char>,
    pub addr: Seq<char>,
}

impl View for Endpoint {
    type V = EndpointView;

    open spec fn view(&self) -> EndpointView {
        EndpointView { host: self.host@, addr: self.addr@ }
    }
}

impl Endpoint {
    /// The same end once more.
    pub fn copy(&self) -> (r: Endpoint)
        ensures
            r@ == self@,
    {
        Endpoint { host: self.host.clone(), addr: self.addr.clone() }
    }
}

/// The view of an optional end.
pub open spec fn endpoint_of(e: Option<Endpoint>) -> Option<EndpointView> {
    match e {
        Some(e) => Some(e@),
        None => None,
    }
}

/// The method of a request that the client sends.
#[derive(Debug, Clone, Copy, PartialEq, Eq, Structural)]
pub enum Method {
    Register,
    Invite,
    Ack,
    Bye,
}

impl Method {
    /// The word for the method.
    pub open spec fn word(self) -> Seq<char> {
        match self {
            Method::Register => "REGISTER"@,
            Method::Invite => "INVITE"@,
            Method::Ack => "ACK"@,
            Method::Bye => "BYE"@,
        }
    }

    /// The word for the method.
    pub fn as_word(self) -> (r: &'static str)
        ensures
            r@ == self.word(),
    {
        match self {
            Method::Register => "REGISTER",
            Method::Invite => "INVITE",
            Method::Ack => "ACK",
            Method::Bye => "BYE",
        }
    }
}

/// The name of a header that the client sends.
#[derive(Debug, Clone, Copy, PartialEq, Eq, Structural)]
pub enum HeaderName {
    Via,
    From,
    To,
    CallId,
    CSeq,
    Contact,
    ContentType,
    ContentLength,
    UserAgent,
    Allow,
    Expires,
    Authorization,
}

/// A header.
#[derive(Debug, PartialEq, Eq)]
pub struct Header {
    pub name: HeaderName,
    pub value: String,
}

/// What a `Header` holds.
#[verifier::ext_equal]
pub struct HeaderView {
    pub name: HeaderName,
    pub value: Seq<char>,
}

impl View for Header {
    type V = HeaderView;

    open spec fn view(&self) -> HeaderView {
        HeaderView { name: self.name, value: self.value@ }
    }
}

/// The header of the given name and value.
pub open spec fn header(name: HeaderName, value: Seq<char>) -> HeaderView {
    HeaderView { name, value }
}

/// What headers hold.
pub open spec fn header_views(headers: Seq<Header>) -> Seq<HeaderView> {
    Seq::new(headers.len(), |i: int| headers[i]@)
}

/// Puts a header behind the others.
pub fn push_header(headers: &mut Vec<Header>, name: HeaderName, value: String)
    ensures
        header_views(final(headers)@) == header_views(old(headers)@).push(header(name, value@)),
{
    let ghost before = header_views(headers@);
    headers.push(Header { name, value });
    assert(header_views(headers@) =~= before.push(header(name, value@)));
}

/// No headers.
pub fn no_headers() -> (r: Vec<Header>)
    ensures
        header_views(r@) == Seq::<HeaderView>::empty(),
{
    let r: Vec<Header> = Vec::new();
    assert(header_views(r@) =~= Seq::<HeaderView>::empty());
    r
}

/// A request that is sent: its method and target, the headers that are put
/// into it, and its body.
#[derive(Debug, PartialEq, Eq)]
pub struct SipRequest {
    pub method: Method,
    pub uri: String,
    pub headers: Vec<Header>,
    pub body: Vec<u8>,
}

/// What a `SipRequest` holds.
#[verifier::ext_equal]
pub struct RequestView {
    pub method: Method,
    pub uri: Seq<char>,
    pub headers: Seq<HeaderView>,
    pub body: Seq<u8>,
}

impl View for SipRequest {
    type V = RequestView;

    open spec fn view(&self) -> RequestView {
        RequestView {
            method: self.method,
            uri: self.uri@,
            headers: header_views(self.headers@),
            body: self.body@,
        }
    }
}

/// The view of an optional request.
pub open spec fn request_of(r: Option<SipRequest>) -> Option<RequestView> {
    match r {
        Some(r) => Some(r@),
        None => None,
    }
}

impl SipRequest {
    /// The same request once more.
    pub fn copy(&self) -> (r: SipRequest)
        ensures
            r@ == self@,
    {
        let mut headers = no_headers();
        let mut i: usize = 0;
        while i < self.headers.len()
            invariant
                i <= self.headers.len(),
                header_views(headers@) == header_views(self.headers@).take(i as int),
            decreases self.headers.len() - i,
        {
            push_header(&mut headers, self.headers[i].name, self.headers[i].value.clone());
            i += 1;
            assert(header_views(headers@) =~= header_views(self.headers@).take(i as int));
        }
        assert(header_views(headers@) =~= header_views(self.headers@));
        SipRequest {
            method: self.method,
            uri: self.uri.clone(),
            headers,
            body: copy_bytes(&self.body),
        }
    }
}

/// The same bytes once more.
pub fn copy_bytes(bytes: &Vec<u8>) -> (r: Vec<u8>)
    ensures
        r@ == bytes@,
{
    let mut r: Vec<u8> = Vec::new();
    let mut i: usize = 0;
    while i < bytes.len()
        invariant
            i <= bytes.len(),
            r@ == bytes@.take(i as int),
        decreases bytes.len() - i,
    {
        r.push(bytes[i]);
        i += 1;
        assert(r@ =~= bytes@.take(i as int));
    }
    assert(r@ =~= bytes@);
    r
}

/// Which received request is answered.
#[derive(Debug, Clone, Copy, PartialEq, Eq, Structural)]
pub enum Answered {
    /// The one that was just received.
    Received,
    /// The invitation that waits to be accepted or rejected.
    Pending,
}

/// How a request is answered.
#[derive(Debug, Clone, Copy, PartialEq, Eq, Structural)]
pub enum ReplyKind {
    /// 180 Ringing.
    Ringing,
    /// 200 OK.
    Success,
    /// 486 Busy Here.
    BusyHere,
    /// 603 Decline.
    Decline,
}

impl ReplyKind {
    /// The status code of the answer.
    pub open spec fn code(self) -> u16 {
        match self {
            ReplyKind::Ringing => 180,
            ReplyKind::Success => 200,
            ReplyKind::BusyHere => 486,
            ReplyKind::Decline => 603,
        }
    }

    /// The status code of the answer.
    pub fn status_code(self) -> (r: u16)
        ensures
            r == self.code(),
    {
        match self {
            ReplyKind::Ringing => 180,
            ReplyKind::Success => 200,
            ReplyKind::BusyHere => 486,
            ReplyKind::Decline => 603,
        }
    }

    /// The phrase of an answer that refuses.
    pub fn phrase(self) -> (r: &'static str)
        ensures
            r@ == (match self {
                ReplyKind::Ringing => "Ringing"@,
                ReplyKind::Success => "OK"@,
                ReplyKind::BusyHere => "Busy Here"@,
                ReplyKind::Decline => "Decline"@,
            }),
    {
        match self {
            ReplyKind::Ringing => "Ringing",
            ReplyKind::Success => "OK",
            ReplyKind::BusyHere => "Busy Here",
            ReplyKind::Decline => "Decline",
        }
    }
}

/// What is asked by a received request.
#[derive(Debug, Clone, Copy, PartialEq, Eq, Structural)]
pub enum Asked {
    Invite,
    Bye,
    Other,
}

/// A received request, as far as it is looked at.
#[derive(Debug, PartialEq, Eq)]
pub struct IncomingRequest {
    pub asked: Asked,
    pub from: Option<String>,
    pub call_id: Option<String>,
    /// The `To` header of the ringing answer that is prepared for it.
    pub ringing_to: Option<String>,
    pub body: Vec<u8>,
}

/// A received response, as far as it is looked at.
#[derive(Debug, PartialEq, Eq)]
pub struct IncomingResponse {
    pub status_code: u16,
    pub via: Option<String>,
    pub from: Option<String>,
    pub to: Option<String>,
    pub www_authenticate: Option<String>,
    pub body: Vec<u8>,
}

/// The `Via` of a request that is sent from `ip` and `port`.
pub open spec fn via_value(ip: Seq<char>, port: u16, branch: Seq<char>) -> Seq<char> {
    "SIP/2.0/UDP "@ + ip + ":"@ + decimal(port as nat) + ";branch="@ + branch + ";rport"@
}

/// The address of a user at a host.
pub open spec fn user_at(user: Seq<char>, host: Seq<char>) -> Seq<char> {
    "<sip:"@ + user + "@"@ + host + ">"@
}

/// The address of a user at a host, with the tag of the dialogue.
pub open spec fn tagged_user_at(user: Seq<char>, host: Seq<char>, tag: Seq<char>) -> Seq<char> {
    user_at(user, host) + ";tag="@ + tag
}

/// The address at which a user is reached.
pub open spec fn contact_value(user: Seq<char>, ip: Seq<char>, port: u16) -> Seq<char> {
    "<sip:"@ + user + "@"@ + ip + ":"@ + decimal(port as nat) + ">"@
}

/// The number of a request within its dialogue, with its method.
pub open spec fn cseq_value(n: i32, method: Seq<char>) -> Seq<char> {
    signed_decimal(n as int) + " "@ + method
}

/// A tag or an identifier: a prefix with a number behind it.
pub open spec fn numbered(prefix: Seq<char>, n: nat) -> Seq<char> {
    prefix + hexadecimal(n)
}

/// A `To` with the tag `tag`, where `to` has none yet.
pub open spec fn tagged_to(to: Option<Seq<char>>, tag: Seq<char>) -> Option<Seq<char>> {
    match to {
        Some(value) if !holds(value, ";tag="@) => Some(trimmed(value) + ";tag="@ + tag),
        _ => None,
    }
}

/// The `Via` of a request that is sent from `ip` and `port`.
pub fn make_via(ip: &str, port: u16, branch: &str) -> (r: String)
    ensures
        r@ == via_value(ip@, port, branch@),
{
    let mut r = "SIP/2.0/UDP ".to_string();
    r.append(ip);
    r.append(":");
    push_decimal(&mut r, port as u64);
    r.append(";branch=");
    r.append(branch);
    r.append(";rport");
    r
}

/// The address of a user at a host.
pub fn make_user_at(user: &str, host: &str) -> (r: String)
    ensures
        r@ == user_at(user@, host@),
{
    let mut r = "<sip:".to_string();
    r.append(user);
    r.append("@");
    r.append(host);
    r.append(">");
    r
}

/// The address of a user at a host, with the tag of the dialogue.
pub fn make_tagged_user_at(user: &str, host: &str, tag: &str) -> (r: String)
    ensures
        r@ == tagged_user_at(user@, host@, tag@),
{
    let mut r = make_user_at(user, host);
    r.append(";tag=");
    r.append(tag);
    r
}

/// The address at which a user is reached.
pub fn make_contact(user: &str, ip: &str, port: u16) -> (r: String)
    ensures
        r@ == contact_value(user@, ip@, port),
{
    let mut r = "<sip:".to_string();
    r.append(user);
    r.append("@");
    r.append(ip);
    r.append(":");
    push_decimal(&mut r, port as u64);
    r.append(">");
    r
}

/// The number of a request within its dialogue, with its method.
pub fn make_cseq(n: i32, method: Method) -> (r: String)
    ensures
        r@ == cseq_value(n, method.word()),
{
    let mut r = String::new();
    push_signed(&mut r, n as i64);
    assert(Seq::<char>::empty() + signed_decimal(n as int) =~= signed_decimal(n as int));
    r.append(" ");
    r.append(method.as_word());
    r
}

/// A tag or an identifier: a prefix with a number behind it.
pub fn make_numbered(prefix: &str, n: u32) -> (r: String)
    ensures
        r@ == numbered(prefix@, n as nat),
{
    let mut r = prefix.to_string();
    push_hex(&mut r, n);
    r
}

/// A `To` with the tag `tag`, where `to` has none yet.
pub fn make_tagged_to(to: &Option<String>, tag: &str) -> (r: Option<String>)
    ensures
        text_of(r) == tagged_to(text_of(*to), tag@),
{
    match to {
        Some(value) => {
            let chars = chars_of(value.as_str());
            if contains(chars.as_slice(), ";tag=") {
                return None;
            }
            let mut r = String::new();
            push_chars(&mut r, trim(chars.as_slice()));
            assert(Seq::<char>::empty() + trimmed(value@) =~= trimmed(value@));
            r.append(";tag=");
            r.append(tag);
            Some(r)
        },
        None => None,
    }
}

/// Whether a datagram may hold a message of the signalling: it has four bytes
/// at least and does not begin with the high bit, as media does.
pub open spec fn may_be_message(data: Seq<u8>) -> bool {
    data.len() >= 4 && (data[0] & 0x80) == 0
}

/// The first line of a message.
pub open spec fn first_line_of(message: Seq<char>) -> Seq<char> {
    if lines_of(message).len() > 0 {
        lines_of(message)[0]
    } else {
        "UNKNOWN"@
    }
}

/// What is said of a message that comes in.
pub open spec fn inbound_text(message: Seq<char>) -> Seq<char> {
    "⬇️ "@ + first_line_of(message)
}

/// What is said of a message that comes in.
pub fn inbound_log(message: &str) -> (r: UacEvent)
    ensures
        r@ == EventView::Log(inbound_text(message@)),
{
    let chars = chars_of(message);
    let all = lines(chars.as_slice());
    let mut text = "⬇️ ".to_string();
    if all.len() > 0 {
        assert(lines_of(message@)[0] == texts(all@)[0]);
        push_chars(&mut text, all[0]);
    } else {
        assert(texts(all@).len() == 0);
        text.append("UNKNOWN");
    }
    UacEvent::Log(text)
}

/// What is said of a datagram that comes in, where it may hold a message. Any
/// other is passed over.
pub fn inspect_datagram(data: &[u8]) -> (r: Option<UacEvent>)
    ensures
        r is Some <==> may_be_message(data@),
        r matches Some(event) ==> event@ == EventView::Log(inbound_text(lossy_text(data@))),
        r matches Some(event) ==> valid_utf8(data@) ==> event@ == EventView::Log(
            inbound_text(decode_utf8(data@)),
        ),
{
    if data.len() < 4 || (data[0] & 0x80) != 0 {
        return None;
    }
    let message = from_utf8_lossy(data);
    Some(inbound_log(message.as_str()))
}

/// A datagram is looked at unless it is too short for a message or begins as
/// media does; then its first line is told.
pub proof fn messages_are_told_from_media(data: &[u8], r: Option<UacEvent>)
    requires
        call_ensures(inspect_datagram, (data,), r),
    ensures
        r is None <==> data@.len() < 4 || data@[0] >= 128,
        r matches Some(event) ==> event@ == EventView::Log(inbound_text(lossy_text(data@))),
{
    if data@.len() > 0 {
        let b = data@[0];
        assert((b & 0x80) == 0 <==> b < 128) by (bit_vector);
    }
}

/// Of a message its first line is told, without its end.
pub proof fn the_first_line_is_told(line: Seq<char>, rest: Seq<char>, message: &str, r: UacEvent)
    requires
        call_ensures(inbound_log, (message,), r),
        lacks(line, '\n'),
        line.len() > 0 ==> line.last() != '\r',
    ensures
        message@ == line + "\n"@ + rest ==> r@ == EventView::Log("⬇️ "@ + line),
        message@ == line + "\r\n"@ + rest ==> r@ == EventView::Log("⬇️ "@ + line),
        message@ == line && line.len() > 0 ==> r@ == EventView::Log("⬇️ "@ + line),
        message@.len() == 0 ==> r@ == EventView::Log("⬇️ "@ + "UNKNOWN"@),
{
    reveal_strlit("\n");
    reveal_strlit("\r\n");
    lemma_one_line(line);
    let cr = line.push('\r');
    assert(lacks(cr, '\n')) by {
        assert forall|i: int| 0 <= i < cr.len() implies #[trigger] cr[i] != '\n' by {
            if i < line.len() {
                assert(cr[i] == line[i]);
            }
        }
    }
    lemma_one_line(cr);
    assert(without_cr(cr) =~= line);
    lemma_lines_both(line.push('\n'), rest);
    lemma_lines_both(cr.push('\n'), rest);
    assert(line + "\n"@ + rest =~= line.push('\n') + rest);
    assert(line + "\r\n"@ + rest =~= cr.push('\n') + rest);
    lemma_position(line, '\n', line.len() as int);
}

/// Every answer has the code and the phrase that SIP gives it.
pub proof fn answers_have_their_codes(kind: ReplyKind, code: u16, phrase: &'static str)
    requires
        call_ensures(ReplyKind::status_code, (kind,), code),
        call_ensures(ReplyKind::phrase, (kind,), phrase),
    ensures
        kind == ReplyKind::Ringing <==> code == 180,
        kind == ReplyKind::Success <==> code == 200,
        kind == ReplyKind::BusyHere <==> code == 486,
        kind == ReplyKind::Decline <==> code == 603,
        code == 180 ==> phrase@ == "Ringing"@,
        code == 200 ==> phrase@ == "OK"@,
        code == 486 ==> phrase@ == "Busy Here"@,
        code == 603 ==> phrase@ == "Decline"@,
{
}

} // verus!
