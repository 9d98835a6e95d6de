//! The session description that the client offers.

use vstd::prelude::*;
use vstd::utf8::{
    decode_utf8, encode_utf8, encode_utf8_decode_utf8, encode_utf8_valid_utf8, valid_utf8,
};

use crate::text::{
    decimal, is_digit, is_white_space, lemma_after_own_prefix, lemma_decimal, lemma_leading_word,
    lemma_position, lines_of, port_round_trip, push_decimal, push_signed, signed_decimal, trimmed,
    without_cr,
};
use crate::utils::{media_lines, read_media_line, rtp_target_in, MediaLines};

verus! {

/// The line that names the session and its origin.
pub open spec fn origin_line(now: i64, ip: Seq<char>) -> Seq<char> {
    "o=- "@ + signed_decimal(now as int) + " "@ + signed_decimal(now as int) + " IN IP4 "@ + ip
}

/// The line that offers audio on a port.
pub open spec fn audio_line(port: u16) -> Seq<char> {
    "m=audio "@ + decimal(port as nat) + " RTP/AVP 0 101"@
}

/// The lines of the offer: one audio stream with G.711 and telephone events.
pub open spec fn sdp_lines(now: i64, ip: Seq<char>, port: u16) -> Seq<Seq<char>> {
    seq![
        "v=0"@,
        origin_line(now, ip),
        "s=Sentiric Session"@,
        "c=IN IP4 "@ + ip,
        "t=0 0"@,
        audio_line(port),
        "a=rtpmap:0 PCMU/8000"@,
        "a=rtpmap:101 telephone-event/8000"@,
        "a=sendrecv"@,
        "a=ptime:20"@,
    ]
}

/// Lines as they are sent: each with a carriage return and a line feed.
pub open spec fn crlf_lines(lines: Seq<Seq<char>>) -> Seq<char>
    decreases lines.len(),
{
    if lines.len() == 0 {
        seq![]
    } else {
        crlf_lines(lines.drop_last()) + lines.last() + "\r\n"@
    }
}

/// The text of the offer.
pub open spec fn sdp_text(now: i64, ip: Seq<char>, port: u16) -> Seq<char> {
    crlf_lines(sdp_lines(now, ip, port))
}

fn push_line(out: &mut String, line: &str)
    ensures
        final(out)@ == old(out)@ + line@ + "\r\n"@,
{
    out.append(line);
    out.append("\r\n");
}

proof fn lemma_crlf_next(lines: Seq<Seq<char>>, k: int)
    requires
        0 <= k < lines.len(),
    ensures
        crlf_lines(lines.take(k + 1)) == crlf_lines(lines.take(k)) + lines[k] + "\r\n"@,
{
    assert(lines.take(k + 1).drop_last() =~= lines.take(k));
}

/// The text of the offer for audio at `ip` and `port`, made at the time `now`.
pub fn session_description(now: i64, ip: &str, port: u16) -> (out: String)
    ensures
        out@ == sdp_text(now, ip@, port),
{
    let mut origin = "o=- ".to_string();
    push_signed(&mut origin, now);
    origin.append(" ");
    push_signed(&mut origin, now);
    origin.append(" IN IP4 ");
    origin.append(ip);
    let mut connection = "c=IN IP4 ".to_string();
    connection.append(ip);
    let mut audio = "m=audio ".to_string();
    push_decimal(&mut audio, port as u64);
    audio.append(" RTP/AVP 0 101");

    let mut out = String::new();
    push_line(&mut out, "v=0");
    push_line(&mut out, origin.as_str());
    push_line(&mut out, "s=Sentiric Session");
    push_line(&mut out, connection.as_str());
    push_line(&mut out, "t=0 0");
    push_line(&mut out, audio.as_str());
    push_line(&mut out, "a=rtpmap:0 PCMU/8000");
    push_line(&mut out, "a=rtpmap:101 telephone-event/8000");
    push_line(&mut out, "a=sendrecv");
    push_line(&mut out, "a=ptime:20");
    proof {
        let all = sdp_lines(now, ip@, port);
        assert(all.take(0) =~= Seq::<Seq<char>>::empty());
        lemma_crlf_next(all, 0);
        lemma_crlf_next(all, 1);
        lemma_crlf_next(all, 2);
        lemma_crlf_next(all, 3);
        lemma_crlf_next(all, 4);
        lemma_crlf_next(all, 5);
        lemma_crlf_next(all, 6);
        lemma_crlf_next(all, 7);
        lemma_crlf_next(all, 8);
        lemma_crlf_next(all, 9);
        assert(all.take(10) =~= all);
    }
    out
}

/// Whether `s` holds no line feed, so that it can stand on one line.
pub open spec fn on_one_line(s: Seq<char>) -> bool {
    forall|i: int| 0 <= i < s.len() ==> #[trigger] s[i] != '\n'
}

proof fn lemma_concat_on_one_line(a: Seq<char>, b: Seq<char>)
    requires
        on_one_line(a),
        on_one_line(b),
    ensures
        on_one_line(a + b),
{
    let s = a + b;
    assert forall|i: int| 0 <= i < s.len() implies #[trigger] s[i] != '\n' by {
        if i < a.len() {
            assert(s[i] == a[i]);
        } else {
            assert(s[i] == b[i - a.len()]);
        }
    }
}

proof fn lemma_number_on_one_line(n: int)
    ensures
        on_one_line(signed_decimal(n)),
        n >= 0 ==> signed_decimal(n) == decimal(n as nat),
{
    let m = if n < 0 {
        (-n) as nat
    } else {
        n as nat
    };
    lemma_decimal(m);
    assert forall|i: int| 0 <= i < decimal(m).len() implies #[trigger] decimal(m)[i] != '\n' by {
        assert(is_digit(decimal(m)[i]));
    }
    lemma_concat_on_one_line(seq!['-'], decimal(m));
}

/// The first line of a text.
proof fn lemma_first_line(line: Seq<char>, rest: Seq<char>)
    requires
        on_one_line(line),
    ensures
        lines_of(line + "\r\n"@ + rest) == seq![line] + lines_of(rest),
{
    reveal_strlit("\r\n");
    let s = line + "\r\n"@ + rest;
    let p = line.len() as int + 1;
    assert(s[p] == '\n');
    assert forall|j: int| 0 <= j < p implies s[j] != '\n' by {
        if j < line.len() {
            assert(s[j] == line[j]);
        }
    }
    lemma_position(s, '\n', p);
    assert(s.take(p) =~= line.push('\r'));
    assert(without_cr(line.push('\r')) =~= line);
    assert(s.skip(p + 1) =~= rest);
}

proof fn lemma_crlf_first(lines: Seq<Seq<char>>)
    requires
        lines.len() > 0,
    ensures
        crlf_lines(lines) == lines.first() + "\r\n"@ + crlf_lines(lines.drop_first()),
    decreases lines.len(),
{
    if lines.len() == 1 {
        assert(lines.drop_last() =~= seq![]);
        assert(lines.drop_first() =~= seq![]);
        assert(crlf_lines(lines) =~= lines.first() + "\r\n"@ + crlf_lines(lines.drop_first()));
    } else {
        let head = lines.drop_last();
        lemma_crlf_first(head);
        assert(head.drop_first() =~= lines.drop_first().drop_last());
        assert(lines.drop_first().last() == lines.last());
        assert(crlf_lines(lines) =~= lines.first() + "\r\n"@ + crlf_lines(lines.drop_first()));
    }
}

/// Lines that are sent are the lines that are read.
pub proof fn lines_round_trip(lines: Seq<Seq<char>>)
    requires
        forall|i: int| 0 <= i < lines.len() ==> on_one_line(#[trigger] lines[i]),
    ensures
        lines_of(crlf_lines(lines)) == lines,
    decreases lines.len(),
{
    if lines.len() > 0 {
        let rest = lines.drop_first();
        assert forall|i: int| 0 <= i < rest.len() implies on_one_line(#[trigger] rest[i]) by {
            assert(rest[i] == lines[i + 1]);
        }
        lines_round_trip(rest);
        lemma_crlf_first(lines);
        lemma_first_line(lines[0], crlf_lines(rest));
        assert(seq![lines[0]] + rest =~= lines);
    } else {
        assert(lines =~= seq![]);
    }
}

proof fn lemma_sdp_lines_on_one_line(now: i64, ip: Seq<char>, port: u16)
    requires
        on_one_line(ip),
    ensures
        forall|i: int|
            0 <= i < sdp_lines(now, ip, port).len() ==> on_one_line(
                #[trigger] sdp_lines(now, ip, port)[i],
            ),
{
    reveal_strlit("o=- ");
    reveal_strlit(" ");
    reveal_strlit(" IN IP4 ");
    reveal_strlit("c=IN IP4 ");
    reveal_strlit("m=audio ");
    reveal_strlit(" RTP/AVP 0 101");
    reveal_strlit("v=0");
    reveal_strlit("s=Sentiric Session");
    reveal_strlit("t=0 0");
    reveal_strlit("a=rtpmap:0 PCMU/8000");
    reveal_strlit("a=rtpmap:101 telephone-event/8000");
    reveal_strlit("a=sendrecv");
    reveal_strlit("a=ptime:20");
    let t = signed_decimal(now as int);
    lemma_number_on_one_line(now as int);
    lemma_number_on_one_line(port as int);
    lemma_concat_on_one_line("o=- "@, t);
    lemma_concat_on_one_line("o=- "@ + t, " "@);
    lemma_concat_on_one_line("o=- "@ + t + " "@, t);
    lemma_concat_on_one_line("o=- "@ + t + " "@ + t, " IN IP4 "@);
    lemma_concat_on_one_line("o=- "@ + t + " "@ + t + " IN IP4 "@, ip);
    lemma_concat_on_one_line("c=IN IP4 "@, ip);
    lemma_concat_on_one_line("m=audio "@, decimal(port as nat));
    lemma_concat_on_one_line("m=audio "@ + decimal(port as nat), " RTP/AVP 0 101"@);
}

/// A line that begins neither as a connection nor as a medium names nothing.
proof fn lemma_other_line(before: MediaLines, line: Seq<char>)
    requires
        line.len() > 0,
        line[0] != 'c',
        line[0] != 'm',
    ensures
        read_media_line(before, line) == before,
{
    reveal_strlit("c=IN IP4 ");
    reveal_strlit("m=audio ");
    assert(line.len() >= 9 ==> line.take(9)[0] == line[0]);
    assert(line.len() >= 8 ==> line.take(8)[0] == line[0]);
}

proof fn lemma_audio_line(before: MediaLines, port: u16)
    ensures
        read_media_line(before, audio_line(port)) == (MediaLines { port, ..before }),
{
    reveal_strlit("c=IN IP4 ");
    reveal_strlit("m=audio ");
    reveal_strlit(" RTP/AVP 0 101");
    let d = decimal(port as nat);
    let rest = d + " RTP/AVP 0 101"@;
    let line = audio_line(port);
    assert(line =~= "m=audio "@ + rest);
    lemma_after_own_prefix("m=audio "@, rest);
    assert(line.take(9)[0] == line[0]);
    lemma_decimal(port as nat);
    assert forall|j: int| 0 <= j < d.len() implies !is_white_space(#[trigger] rest[j]) by {
        assert(rest[j] == d[j]);
        assert(is_digit(d[j]));
    }
    lemma_leading_word(rest, d.len() as int);
    assert(rest.take(d.len() as int) =~= d);
    assert(!is_white_space(rest[0]));
    port_round_trip(port);
}

/// Who reads the offer as this library reads one sends its media to the
/// address and the port that the offer names: to the address that the reader
/// knew before, where the offered one is the unspecified address.
pub proof fn offered_target_is_found(now: i64, ip: Seq<char>, port: u16, default_ip: Seq<char>)
    requires
        on_one_line(ip),
        port > 0,
    ensures
        valid_utf8(encode_utf8(sdp_text(now, ip, port))),
        rtp_target_in(decode_utf8(encode_utf8(sdp_text(now, ip, port))), default_ip) == Some(
            (if trimmed(ip) != "0.0.0.0"@ {
                trimmed(ip)
            } else {
                default_ip
            }) + ":"@ + decimal(port as nat),
        ),
{
    encode_utf8_valid_utf8(sdp_text(now, ip, port));
    encode_utf8_decode_utf8(sdp_text(now, ip, port));
    let all = sdp_lines(now, ip, port);
    lemma_sdp_lines_on_one_line(now, ip, port);
    lines_round_trip(all);
    let start = MediaLines { ip: default_ip, port: 0 };
    let connected = MediaLines {
        ip: if trimmed(ip) != "0.0.0.0"@ {
            trimmed(ip)
        } else {
            default_ip
        },
        port: 0,
    };
    let done = MediaLines { port, ..connected };
    assert(all.take(0) =~= seq![]);
    assert(media_lines(all.take(0), default_ip) == start);
    lemma_media_next(all, default_ip, 0);
    lemma_media_next(all, default_ip, 1);
    lemma_media_next(all, default_ip, 2);
    lemma_media_next(all, default_ip, 3);
    lemma_media_next(all, default_ip, 4);
    lemma_media_next(all, default_ip, 5);
    lemma_media_next(all, default_ip, 6);
    lemma_media_next(all, default_ip, 7);
    lemma_media_next(all, default_ip, 8);
    lemma_media_next(all, default_ip, 9);
    reveal_strlit("v=0");
    reveal_strlit("o=- ");
    reveal_strlit("s=Sentiric Session");
    reveal_strlit("t=0 0");
    reveal_strlit("a=rtpmap:0 PCMU/8000");
    reveal_strlit("a=rtpmap:101 telephone-event/8000");
    reveal_strlit("a=sendrecv");
    reveal_strlit("a=ptime:20");
    lemma_other_line(start, all[0]);
    lemma_other_line(start, all[1]);
    lemma_other_line(start, all[2]);
    lemma_after_own_prefix("c=IN IP4 "@, ip);
    lemma_other_line(connected, all[4]);
    lemma_audio_line(connected, port);
    lemma_other_line(done, all[6]);
    lemma_other_line(done, all[7]);
    lemma_other_line(done, all[8]);
    lemma_other_line(done, all[9]);
    assert(all.take(10) =~= all);
}

proof fn lemma_media_next(lines: Seq<Seq<char>>, ip: Seq<char>, k: int)
    requires
        0 <= k < lines.len(),
    ensures
        media_lines(lines.take(k + 1), ip) == read_media_line(
            media_lines(lines.take(k), ip),
            lines[k],
        ),
{
    assert(lines.take(k + 1).drop_last() =~= lines.take(k));
}

/// The offer, read as one text: audio of the client at its address and port, as
/// G.711 or a telephone event, both ways, in packets of twenty milliseconds.
pub proof fn the_offer_reads(now: i64, ip: &str, port: u16, out: String)
    requires
        call_ensures(session_description, (now, ip, port), out),
    ensures
        ({
            let time = signed_decimal(now as int);
            out@ == "v=0"@ + "\r\n"@ + ("o=- "@ + time + " "@ + time + " IN IP4 "@ + ip@) + "\r\n"@
                + "s=Sentiric Session"@ + "\r\n"@ + ("c=IN IP4 "@ + ip@) + "\r\n"@ + "t=0 0"@
                + "\r\n"@ + ("m=audio "@ + decimal(port as nat) + " RTP/AVP 0 101"@) + "\r\n"@
                + "a=rtpmap:0 PCMU/8000"@ + "\r\n"@ + "a=rtpmap:101 telephone-event/8000"@
                + "\r\n"@ + "a=sendrecv"@ + "\r\n"@ + "a=ptime:20"@ + "\r\n"@
        }),
        out@ == sdp_text(now, ip@, port),
{
    let all = sdp_lines(now, ip@, port);
    assert(all.take(0) =~= Seq::<Seq<char>>::empty());
    assert(crlf_lines(all.take(0)) + all[0] + "\r\n"@ =~= "v=0"@ + "\r\n"@);
    lemma_crlf_next(all, 0);
    lemma_crlf_next(all, 1);
    lemma_crlf_next(all, 2);
    lemma_crlf_next(all, 3);
    lemma_crlf_next(all, 4);
    lemma_crlf_next(all, 5);
    lemma_crlf_next(all, 6);
    lemma_crlf_next(all, 7);
    lemma_crlf_next(all, 8);
    lemma_crlf_next(all, 9);
    assert(all.take(10) =~= all);
}

} // verus!
