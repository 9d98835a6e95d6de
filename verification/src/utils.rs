//! Where the media of a call goes to.

use vstd::prelude::*;
use vstd::utf8::{decode_utf8, valid_utf8};

use crate::text::{
    after_prefix, chars_of, decimal, first_word, first_word_of, is_blank, is_white_space,
    is_whole_lines, lacks, lemma_after_own_prefix, lemma_first_word, lemma_lines_both,
    lemma_one_line, lines, lines_of, parse_u16, push_decimal, same, string_of, strip_prefix, texts,
    trim, trimmed, u16_of, without_cr,
};

verus! {

/// The text that `String::from_utf8_lossy` reads in bytes.
pub uninterp spec fn lossy_text(bytes: Seq<u8>) -> Seq<char>;

/// `String::from_utf8_lossy`: the text of the bytes, where they are UTF-8.
/// Where they are not, what is not UTF-8 gives way to replacement characters;
/// which ones is left to the name.
#[verifier::external_body]
pub(crate) fn from_utf8_lossy(bytes: &[u8]) -> (s: String)
    ensures
        s@ == lossy_text(bytes@),
        valid_utf8(bytes@) ==> s@ == decode_utf8(bytes@),
{
    String::from_utf8_lossy(bytes).into_owned()
}

/// The address and the port that the lines of a session description name.
pub struct MediaLines {
    pub ip: Seq<char>,
    pub port: u16,
}

/// What one line of a session description adds: a `c=` line its address,
/// unless that is the unspecified one, an audio line its port, or port 0 where
/// its first word is no port.
pub open spec fn read_media_line(before: MediaLines, line: Seq<char>) -> MediaLines {
    if let Some(rest) = after_prefix(line, "c=IN IP4 "@) {
        if trimmed(rest) != "0.0.0.0"@ {
            MediaLines { ip: trimmed(rest), ..before }
        } else {
            before
        }
    } else if let Some(rest) = after_prefix(line, "m=audio "@) {
        match first_word_of(rest) {
            Some(word) => MediaLines {
                port: match u16_of(word) {
                    Some(port) => port,
                    None => 0,
                },
                ..before
            },
            None => before,
        }
    } else {
        before
    }
}

/// What the lines of a session description name, where nothing but `ip` was
/// known before.
pub open spec fn media_lines(lines: Seq<Seq<char>>, ip: Seq<char>) -> MediaLines
    decreases lines.len(),
{
    if lines.len() == 0 {
        MediaLines { ip, port: 0 }
    } else {
        read_media_line(media_lines(lines.drop_last(), ip), lines.last())
    }
}

/// The address text `ip:port` of the media that a session description offers,
/// where it names a port.
pub open spec fn rtp_target_in(sdp: Seq<char>, default_ip: Seq<char>) -> Option<Seq<char>> {
    let found = media_lines(lines_of(sdp), default_ip);
    if found.port > 0 {
        Some(found.ip + ":"@ + decimal(found.port as nat))
    } else {
        None
    }
}

/// The view of an optional string.
pub open spec fn text_of(s: Option<String>) -> Option<Seq<char>> {
    match s {
        Some(s) => Some(s@),
        None => None,
    }
}

/// Finds the true target of the media in the `c=` and `m=` lines of a session
/// description. The result has the form `ip:port`; whether it is the text of a
/// socket address is found out by `ResolveMedia`.
pub fn extract_rtp_target(sdp_body: &[u8], default_ip: &str) -> (r: Option<String>)
    ensures
        text_of(r) == rtp_target_in(lossy_text(sdp_body@), default_ip@),
        valid_utf8(sdp_body@) ==> text_of(r) == rtp_target_in(
            decode_utf8(sdp_body@),
            default_ip@,
        ),
{
    let sdp = from_utf8_lossy(sdp_body);
    rtp_target_of_text(sdp.as_str(), default_ip)
}

/// Finds the true target of the media in the text of a session description.
pub fn rtp_target_of_text(sdp: &str, default_ip: &str) -> (r: Option<String>)
    ensures
        text_of(r) == rtp_target_in(sdp@, default_ip@),
{
    let sdp_chars = chars_of(sdp);
    let all = lines(sdp_chars.as_slice());
    let unspecified = chars_of("0.0.0.0");
    let mut ip: String = default_ip.to_string();
    let mut port: u16 = 0;
    let mut i: usize = 0;
    while i < all.len()
        invariant
            i <= all.len(),
            unspecified@ == "0.0.0.0"@,
            texts(all@) == lines_of(sdp@),
            media_lines(lines_of(sdp@).take(i as int), default_ip@) == (MediaLines {
                ip: ip@,
                port,
            }),
        decreases all.len() - i,
    {
        let line = all[i];
        proof {
            let seen = lines_of(sdp@).take(i + 1);
            assert(seen.drop_last() =~= lines_of(sdp@).take(i as int));
            assert(seen.last() == texts(all@)[i as int]);
        }
        if let Some(rest) = strip_prefix(line, "c=IN IP4 ") {
            let named = trim(rest);
            if !same(named, unspecified.as_slice()) {
                ip = string_of(named);
            }
        } else if let Some(rest) = strip_prefix(line, "m=audio ") {
            if let Some(word) = first_word(rest) {
                port = match parse_u16(word) {
                    Some(p) => p,
                    None => 0,
                };
            }
        }
        i += 1;
    }
    assert(lines_of(sdp@).take(lines_of(sdp@).len() as int) =~= lines_of(sdp@));
    if port > 0 {
        let mut target = ip;
        target.append(":");
        push_decimal(&mut target, port as u64);
        return Some(target);
    }
    None
}

/// Whether a line is a `c=` line with an address of version 4.
pub open spec fn is_connection_line(line: Seq<char>) -> bool {
    after_prefix(line, "c=IN IP4 "@) is Some
}

/// Whether a line is an audio line.
pub open spec fn is_audio_line(line: Seq<char>) -> bool {
    after_prefix(line, "m=audio "@) is Some
}

/// What a `c=` line and an audio line name does not depend on which comes
/// first.
proof fn lemma_lines_commute(before: MediaLines, c: Seq<char>, m: Seq<char>)
    requires
        is_connection_line(c),
        is_audio_line(m),
    ensures
        read_media_line(read_media_line(before, c), m) == read_media_line(
            read_media_line(before, m),
            c,
        ),
{
    reveal_strlit("c=IN IP4 ");
    reveal_strlit("m=audio ");
    assert(m.take(8)[0] == m[0]);
    assert(m.len() >= 9 ==> m.take(9)[0] == m[0]);
    assert(!is_connection_line(m));
}

/// Lines that name the same lead on to the same.
proof fn lemma_lines_follow(
    a: Seq<Seq<char>>,
    b: Seq<Seq<char>>,
    rest: Seq<Seq<char>>,
    ip: Seq<char>,
)
    requires
        media_lines(a, ip) == media_lines(b, ip),
    ensures
        media_lines(a + rest, ip) == media_lines(b + rest, ip),
    decreases rest.len(),
{
    if rest.len() == 0 {
        assert(a + rest =~= a);
        assert(b + rest =~= b);
    } else {
        lemma_lines_follow(a, b, rest.drop_last(), ip);
        assert((a + rest).drop_last() =~= a + rest.drop_last());
        assert((b + rest).drop_last() =~= b + rest.drop_last());
    }
}

/// A line that is neither a `c=` line nor an audio line names nothing, wherever
/// it stands.
pub proof fn other_lines_do_not_matter(
    before: Seq<Seq<char>>,
    line: Seq<char>,
    after: Seq<Seq<char>>,
    ip: Seq<char>,
)
    requires
        !is_connection_line(line),
        !is_audio_line(line),
    ensures
        media_lines(before + seq![line] + after, ip) == media_lines(before + after, ip),
{
    assert((before + seq![line]).drop_last() =~= before);
    lemma_lines_follow(before + seq![line], before, after, ip);
}

/// Of a `c=` line and an audio line next to each other, either may come first.
pub proof fn neighbouring_lines_may_be_swapped(
    before: Seq<Seq<char>>,
    c: Seq<char>,
    m: Seq<char>,
    after: Seq<Seq<char>>,
    ip: Seq<char>,
)
    requires
        is_connection_line(c),
        is_audio_line(m),
    ensures
        media_lines(before + seq![c, m] + after, ip) == media_lines(
            before + seq![m, c] + after,
            ip,
        ),
{
    let cm = before + seq![c, m];
    let mc = before + seq![m, c];
    assert(cm.drop_last() =~= before.push(c));
    assert(mc.drop_last() =~= before.push(m));
    assert(before.push(c).drop_last() =~= before);
    assert(before.push(m).drop_last() =~= before);
    assert(media_lines(before.push(c), ip) == read_media_line(media_lines(before, ip), c));
    assert(media_lines(before.push(m), ip) == read_media_line(media_lines(before, ip), m));
    lemma_lines_commute(media_lines(before, ip), c, m);
    lemma_lines_follow(cm, mc, after, ip);
}

/// Without the carriage return behind it, a line begins as it did.
proof fn lemma_begins_without_cr(line: Seq<char>)
    ensures
        is_connection_line(without_cr(line)) == is_connection_line(line),
        is_audio_line(without_cr(line)) == is_audio_line(line),
{
    reveal_strlit("c=IN IP4 ");
    reveal_strlit("m=audio ");
    let short = without_cr(line);
    assert(short.len() >= 9 ==> short.take(9) =~= line.take(9));
    assert(short.len() >= 8 ==> short.take(8) =~= line.take(8));
    assert(line.len() == 9 ==> line.take(9).last() == line.last());
    assert(line.len() == 8 ==> line.take(8).last() == line.last());
}

proof fn lemma_lines_around(before: Seq<char>, line: Seq<char>, after: Seq<char>)
    requires
        is_whole_lines(before),
        lacks(line, '\n'),
    ensures
        lines_of(before + line.push('\n') + after) == lines_of(before) + seq![without_cr(line)]
            + lines_of(after),
        is_whole_lines(before + line.push('\n')),
        lines_of(before + line.push('\n')) == lines_of(before) + seq![without_cr(line)],
{
    lemma_one_line(line);
    lemma_lines_both(before, line.push('\n'));
    lemma_lines_both(before + line.push('\n'), after);
}

/// A line of a session description that is neither a `c=` line nor an audio
/// line does not change the target of the media, wherever it is put in, with or
/// without a carriage return at its end.
pub proof fn other_lines_leave_the_target(
    before: Seq<char>,
    line: Seq<char>,
    after: Seq<char>,
    default_ip: Seq<char>,
)
    requires
        is_whole_lines(before),
        lacks(line, '\n'),
        !is_connection_line(line),
        !is_audio_line(line),
    ensures
        rtp_target_in(before + line.push('\n') + after, default_ip) == rtp_target_in(
            before + after,
            default_ip,
        ),
{
    lemma_lines_around(before, line, after);
    lemma_lines_both(before, after);
    lemma_begins_without_cr(line);
    other_lines_do_not_matter(lines_of(before), without_cr(line), lines_of(after), default_ip);
}

/// A `c=` line and an audio line next to each other in a session description
/// may be swapped without a change of the target of the media.
pub proof fn swapped_lines_leave_the_target(
    before: Seq<char>,
    c: Seq<char>,
    m: Seq<char>,
    after: Seq<char>,
    default_ip: Seq<char>,
)
    requires
        is_whole_lines(before),
        lacks(c, '\n'),
        lacks(m, '\n'),
        is_connection_line(c),
        is_audio_line(m),
    ensures
        rtp_target_in(before + c.push('\n') + m.push('\n') + after, default_ip) == rtp_target_in(
            before + m.push('\n') + c.push('\n') + after,
            default_ip,
        ),
{
    let c1 = without_cr(c);
    let m1 = without_cr(m);
    let lines = lines_of(before);
    lemma_lines_around(before, c, seq![]);
    lemma_lines_around(before + c.push('\n'), m, after);
    lemma_lines_around(before, m, seq![]);
    lemma_lines_around(before + m.push('\n'), c, after);
    lemma_begins_without_cr(c);
    lemma_begins_without_cr(m);
    neighbouring_lines_may_be_swapped(lines, c1, m1, lines_of(after), default_ip);
    assert(lines + seq![c1] + seq![m1] =~= lines + seq![c1, m1]);
    assert(lines + seq![m1] + seq![c1] =~= lines + seq![m1, c1]);
}

/// The address of the last `c=` line counts, without white space around it and
/// unless it is the unspecified one; a port is left alone.
pub proof fn a_connection_line_names_the_address(
    lines: Seq<Seq<char>>,
    address: Seq<char>,
    ip: Seq<char>,
)
    ensures
        ({
            let before = media_lines(lines, ip);
            let after = media_lines(lines.push("c=IN IP4 "@ + address), ip);
            &&& after.port == before.port
            &&& after.ip == (if trimmed(address) == "0.0.0.0"@ {
                before.ip
            } else {
                trimmed(address)
            })
        }),
{
    let line = "c=IN IP4 "@ + address;
    lemma_after_own_prefix("c=IN IP4 "@, address);
    assert(lines.push(line).drop_last() =~= lines);
}

/// The port of the last audio line counts: the number that its first word
/// writes, or none where that is no port. The address is left alone.
pub proof fn an_audio_line_names_the_port(
    lines: Seq<Seq<char>>,
    space: Seq<char>,
    word: Seq<char>,
    rest: Seq<char>,
    ip: Seq<char>,
)
    requires
        is_blank(space),
        word.len() > 0,
        forall|i: int| 0 <= i < word.len() ==> !is_white_space(#[trigger] word[i]),
        rest.len() > 0 ==> is_white_space(rest[0]),
    ensures
        ({
            let before = media_lines(lines, ip);
            let after = media_lines(lines.push("m=audio "@ + (space + word + rest)), ip);
            &&& after.ip == before.ip
            &&& after.port == (match u16_of(word) {
                Some(port) => port,
                None => 0,
            })
        }),
{
    reveal_strlit("c=IN IP4 ");
    reveal_strlit("m=audio ");
    let words = space + word + rest;
    let line = "m=audio "@ + words;
    lemma_after_own_prefix("m=audio "@, words);
    assert(line.len() >= 9 ==> line.take(9)[0] == 'm');
    assert(after_prefix(line, "c=IN IP4 "@) is None);
    lemma_first_word(space, word, rest);
    assert(lines.push(line).drop_last() =~= lines);
}

/// Without lines, nothing but the address known before is named; and without a
/// port there is no target.
pub proof fn a_target_needs_a_port(sdp_body: &[u8], default_ip: &str, r: Option<String>)
    requires
        call_ensures(extract_rtp_target, (sdp_body, default_ip), r),
    ensures
        media_lines(seq![], default_ip@) == (MediaLines { ip: default_ip@, port: 0 }),
        ({
            let named = media_lines(lines_of(lossy_text(sdp_body@)), default_ip@);
            &&& r is None <==> named.port == 0
            &&& r matches Some(target) ==> target@ == named.ip + ":"@ + decimal(
                named.port as nat,
            )
        }),
{
}

} // verus!
