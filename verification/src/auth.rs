//! Answers to a digest challenge.

use vstd::prelude::*;
use vstd::utf8::encode_utf8;

use crate::text::{
    chars_of, cut_at, hex_of_bytes, hex_text, is_blank, is_white_space, lacks, lemma_hex_len,
    lemma_position, lemma_position_found, lemma_split_one, lemma_split_two, lemma_trimmed_around,
    lemma_trimmed_behind, position, same, split, split_at, split_once, string_of, strip, stripped,
    texts, trim, trimmed,
};
use crate::utils::text_of;

verus! {

/// The sixteen bytes of the MD5 digest that `md5::compute` makes of data.
pub uninterp spec fn md5_of(data: Seq<u8>) -> Seq<u8>;

/// `md5::compute`: the MD5 digest of `data`. Which bytes those are is left to
/// the name.
#[verifier::external_body]
fn md5_digest(data: &[u8]) -> (digest: [u8; 16])
    ensures
        digest@ == md5_of(data@),
{
    md5::compute(data).0
}

/// The MD5 digest of a text, in base sixteen.
pub open spec fn md5_hex(text: Seq<char>) -> Seq<char> {
    hex_of_bytes(md5_of(encode_utf8(text)))
}

/// The MD5 digest of a text, in base sixteen.
fn md5_text(text: &str) -> (out: String)
    ensures
        out@ == md5_hex(text@),
        out@.len() == 32,
{
    let digest = md5_digest(text.as_bytes());
    proof {
        lemma_hex_len(digest@);
    }
    hex_text(&digest)
}

/// A letter from A to Z in lower case, and any other character as it is.
pub open spec fn lower(c: char) -> char {
    if 'A' <= c <= 'Z' {
        (c as u32 + 32) as char
    } else {
        c
    }
}

/// Whether `s` begins with the word that announces a digest challenge, in
/// whatever case. No letter outside A to Z has one of its letters alone as its
/// lower case.
pub open spec fn is_digest(s: Seq<char>) -> bool {
    &&& s.len() >= 7
    &&& lower(s[0]) == 'd'
    &&& lower(s[1]) == 'i'
    &&& lower(s[2]) == 'g'
    &&& lower(s[3]) == 'e'
    &&& lower(s[4]) == 's'
    &&& lower(s[5]) == 't'
    &&& s[6] == ' '
}

/// The key and the value of a parameter: what stands before its first equals
/// sign, without white space around it, and what stands behind, without white
/// space and quotes around it.
pub open spec fn key_and_value(part: Seq<char>) -> Option<(Seq<char>, Seq<char>)> {
    match cut_at(part, '=') {
        Some((k, v)) => Some((trimmed(k), stripped(trimmed(v), '"'))),
        None => None,
    }
}

/// The value of the last parameter called `key` among `parts`.
pub open spec fn parameter(parts: Seq<Seq<char>>, key: Seq<char>) -> Option<Seq<char>>
    decreases parts.len(),
{
    if parts.len() == 0 {
        None
    } else {
        match key_and_value(parts.last()) {
            Some((k, v)) if k == key => Some(v),
            _ => parameter(parts.drop_last(), key),
        }
    }
}

/// The realm and the nonce among the parameters of a challenge, where both are
/// there.
pub open spec fn challenge_in(parts: Seq<Seq<char>>) -> Option<(Seq<char>, Seq<char>)> {
    match (parameter(parts, "realm"@), parameter(parts, "nonce"@)) {
        (Some(realm), Some(nonce)) => Some((realm, nonce)),
        _ => None,
    }
}

/// The realm and the nonce of a challenge, where it is a digest challenge that
/// names both.
pub open spec fn challenge_of(www_authenticate: Seq<char>) -> Option<(Seq<char>, Seq<char>)> {
    let header = trimmed(www_authenticate);
    if is_digest(header) {
        challenge_in(split_at(header.skip(7), ','))
    } else {
        None
    }
}

/// What is hashed to name the user.
pub open spec fn ha1_input(username: Seq<char>, realm: Seq<char>, password: Seq<char>) -> Seq<
    char,
> {
    username + ":"@ + realm + ":"@ + password
}

/// What is hashed to name the request.
pub open spec fn ha2_input(method: Seq<char>, uri: Seq<char>) -> Seq<char> {
    method + ":"@ + uri
}

/// What is hashed to answer: both hashes around the nonce.
pub open spec fn response_input(ha1: Seq<char>, nonce: Seq<char>, ha2: Seq<char>) -> Seq<char> {
    ha1 + ":"@ + nonce + ":"@ + ha2
}

/// The response to a challenge.
pub open spec fn response_of(
    username: Seq<char>,
    password: Seq<char>,
    method: Seq<char>,
    uri: Seq<char>,
    realm: Seq<char>,
    nonce: Seq<char>,
) -> Seq<char> {
    let ha1 = md5_hex(ha1_input(username, realm, password));
    let ha2 = md5_hex(ha2_input(method, uri));
    md5_hex(response_input(ha1, nonce, ha2))
}

/// The header that answers a challenge.
pub open spec fn authorization_of(
    username: Seq<char>,
    realm: Seq<char>,
    nonce: Seq<char>,
    uri: Seq<char>,
    response: Seq<char>,
) -> Seq<char> {
    "Digest username=\""@ + username + "\", realm=\""@ + realm + "\", nonce=\""@ + nonce
        + "\", uri=\""@ + uri + "\", response=\""@ + response + "\", algorithm=MD5"@
}

/// The header that answers the challenge `www_authenticate`, where it can be
/// answered.
pub open spec fn auth_header_of(
    username: Seq<char>,
    password: Seq<char>,
    method: Seq<char>,
    uri: Seq<char>,
    www_authenticate: Seq<char>,
) -> Option<Seq<char>> {
    match challenge_of(www_authenticate) {
        Some((realm, nonce)) => {
            let response = response_of(username, password, method, uri, realm, nonce);
            Some(authorization_of(username, realm, nonce, uri, response))
        },
        None => None,
    }
}

fn to_lower(c: char) -> (r: char)
    ensures
        r == lower(c),
{
    if 'A' <= c && c <= 'Z' {
        (c as u8 + 32) as char
    } else {
        c
    }
}

fn begins_digest(s: &[char]) -> (r: bool)
    ensures
        r == is_digest(s@),
{
    s.len() >= 7 && to_lower(s[0]) == 'd' && to_lower(s[1]) == 'i' && to_lower(s[2]) == 'g'
        && to_lower(s[3]) == 'e' && to_lower(s[4]) == 's' && to_lower(s[5]) == 't' && s[6] == ' '
}

fn find_parameter(parts: &Vec<&[char]>, key: &str) -> (r: Option<String>)
    ensures
        text_of(r) == parameter(texts(parts@), key@),
{
    let key_chars = chars_of(key);
    let mut i: usize = parts.len();
    assert(texts(parts@).take(i as int) =~= texts(parts@));
    while i > 0
        invariant
            i <= parts.len(),
            key_chars@ == key@,
            parameter(texts(parts@), key@) == parameter(texts(parts@).take(i as int), key@),
        decreases i,
    {
        let part = parts[i - 1];
        proof {
            let seen = texts(parts@).take(i as int);
            assert(seen.last() == part@);
            assert(seen.drop_last() =~= texts(parts@).take(i - 1));
        }
        if let Some((k, v)) = split_once(part, '=') {
            if same(trim(k), key_chars.as_slice()) {
                return Some(string_of(strip(trim(v), '"')));
            }
        }
        i -= 1;
    }
    None
}

/// The realm and the nonce of a challenge, where it is a digest challenge that
/// names both.
pub fn challenge(www_authenticate: &str) -> (r: Option<(String, String)>)
    ensures
        r matches Some((realm, nonce)) ==> challenge_of(www_authenticate@) == Some(
            (realm@, nonce@),
        ),
        r is None ==> challenge_of(www_authenticate@) is None,
{
    let all = chars_of(www_authenticate);
    let header = trim(all.as_slice());
    if !begins_digest(header) {
        return None;
    }
    let rest = &header[7..header.len()];
    assert(rest@ =~= header@.skip(7));
    let parts = split(rest, ',');
    match (find_parameter(&parts, "realm"), find_parameter(&parts, "nonce")) {
        (Some(realm), Some(nonce)) => Some((realm, nonce)),
        _ => None,
    }
}

/// The header that answers a challenge with a response that is known.
pub fn authorization(
    username: &str,
    realm: &str,
    nonce: &str,
    uri: &str,
    response: &str,
) -> (out: String)
    ensures
        out@ == authorization_of(username@, realm@, nonce@, uri@, response@),
{
    let mut out = "Digest username=\"".to_string();
    out.append(username);
    out.append("\", realm=\"");
    out.append(realm);
    out.append("\", nonce=\"");
    out.append(nonce);
    out.append("\", uri=\"");
    out.append(uri);
    out.append("\", response=\"");
    out.append(response);
    out.append("\", algorithm=MD5");
    out
}

/// The text whose hash is the response, made of two hashes that are known.
pub fn response_text(ha1: &str, nonce: &str, ha2: &str) -> (out: String)
    ensures
        out@ == response_input(ha1@, nonce@, ha2@),
{
    let mut out = ha1.to_string();
    out.append(":");
    out.append(nonce);
    out.append(":");
    out.append(ha2);
    out
}

/// The header that answers the challenge `www_authenticate`, where that is a
/// digest challenge with a realm and a nonce.
pub fn generate_auth_header(
    username: &str,
    password: &str,
    method: &str,
    uri: &str,
    www_authenticate: &str,
) -> (r: Option<String>)
    ensures
        text_of(r) == auth_header_of(
            username@,
            password@,
            method@,
            uri@,
            www_authenticate@,
        ),
        challenge_of(www_authenticate@) matches Some((realm, nonce)) ==> response_of(
            username@,
            password@,
            method@,
            uri@,
            realm,
            nonce,
        ).len() == 32,
{
    match challenge(www_authenticate) {
        Some((realm, nonce)) => {
            let mut ha1_str = username.to_string();
            ha1_str.append(":");
            ha1_str.append(realm.as_str());
            ha1_str.append(":");
            ha1_str.append(password);
            let ha1 = md5_text(ha1_str.as_str());

            let mut ha2_str = method.to_string();
            ha2_str.append(":");
            ha2_str.append(uri);
            let ha2 = md5_text(ha2_str.as_str());

            let resp_str = response_text(ha1.as_str(), nonce.as_str(), ha2.as_str());
            let response = md5_text(resp_str.as_str());
            Some(authorization(username, realm.as_str(), nonce.as_str(), uri, response.as_str()))
        },
        None => None,
    }
}

/// A challenge as servers write it.
pub open spec fn written_challenge(realm: Seq<char>, nonce: Seq<char>) -> Seq<char> {
    "Digest realm=\""@ + realm + "\", nonce=\""@ + nonce + "\""@
}

/// Whether a value can be written between quotes in a challenge: it holds
/// neither a comma nor a quote.
pub open spec fn quotable(s: Seq<char>) -> bool {
    lacks(s, ',') && lacks(s, '"')
}

/// The quotes around a value are taken away.
proof fn lemma_unquoted(v: Seq<char>)
    requires
        lacks(v, '"'),
    ensures
        stripped(seq!['"'] + v + seq!['"'], '"') == v,
        trimmed(seq!['"'] + v + seq!['"']) == seq!['"'] + v + seq!['"'],
{
    let quoted = seq!['"'] + v + seq!['"'];
    let opened = v + seq!['"'];
    assert(quoted.drop_first() =~= opened);
    if v.len() > 0 {
        assert(opened.first() == v[0]);
        assert(opened.drop_last() =~= v);
        assert(v.last() == v[v.len() - 1]);
        assert(stripped(v, '"') == v);
    } else {
        assert(opened.drop_first() =~= v);
        assert(stripped(v, '"') == v);
    }
    assert(stripped(opened, '"') == v);
}

/// A parameter with a quoted value is read: its key without the space before
/// it, and its value without the quotes.
proof fn lemma_parameter_read(space: Seq<char>, key: Seq<char>, v: Seq<char>)
    requires
        space == Seq::<char>::empty() || space == seq![' '],
        key.len() > 0,
        lacks(key, '='),
        !is_white_space(key.first()),
        !is_white_space(key.last()),
        lacks(v, '"'),
    ensures
        ({
            let part = space + key + seq!['='] + (seq!['"'] + v + seq!['"']);
            &&& cut_at(part, '=') == Some((space + key, seq!['"'] + v + seq!['"']))
            &&& trimmed(space + key) == key
        }),
{
    let name = space + key;
    let quoted = seq!['"'] + v + seq!['"'];
    let part = name + seq!['='] + quoted;
    assert(trimmed(key) == key);
    if space.len() > 0 {
        assert(name.drop_first() =~= key);
    } else {
        assert(name =~= key);
    }
    assert forall|j: int| 0 <= j < name.len() implies part[j] != '=' by {
        if j >= space.len() {
            assert(part[j] == key[j - space.len()]);
        }
    }
    lemma_position(part, '=', name.len() as int);
    assert(part.take(name.len() as int) =~= name);
    assert(part.skip(name.len() as int + 1) =~= quoted);
}

/// A challenge that a server writes is read as it was meant.
pub proof fn a_written_challenge_is_read(realm: Seq<char>, nonce: Seq<char>)
    requires
        quotable(realm),
        quotable(nonce),
    ensures
        challenge_of(written_challenge(realm, nonce)) == Some((realm, nonce)),
{
    reveal_strlit("Digest realm=\"");
    reveal_strlit("\", nonce=\"");
    reveal_strlit("\"");
    reveal_strlit("realm");
    reveal_strlit("nonce");
    let text = written_challenge(realm, nonce);
    let empty = Seq::<char>::empty();
    let q_realm = seq!['"'] + realm + seq!['"'];
    let q_nonce = seq!['"'] + nonce + seq!['"'];
    let a = empty + "realm"@ + seq!['='] + q_realm;
    let b = seq![' '] + "nonce"@ + seq!['='] + q_nonce;
    assert(text.first() == 'D' && text.last() == '"');
    assert(trimmed(text) == text);
    let rest = text.skip(7);
    assert(rest =~= a.push(',') + b);
    assert forall|i: int| 0 <= i < a.len() implies #[trigger] a[i] != ',' by {
        if 7 <= i < 7 + realm.len() {
            assert(a[i] == realm[i - 7]);
        }
    }
    assert forall|i: int| 0 <= i < b.len() implies #[trigger] b[i] != ',' by {
        if 8 <= i < 8 + nonce.len() {
            assert(b[i] == nonce[i - 8]);
        }
    }
    lemma_split_two(a, b, ',');
    lemma_split_one(a, ',');
    lemma_split_one(b, ',');
    let parts = split_at(rest, ',');
    assert(parts =~= seq![a, b]);
    assert(parts.drop_last() =~= seq![a]);
    lemma_parameter_read(empty, "realm"@, realm);
    lemma_parameter_read(seq![' '], "nonce"@, nonce);
    lemma_unquoted(realm);
    lemma_unquoted(nonce);
    assert("realm"@[0] != "nonce"@[0]);
    assert(parameter(parts, "nonce"@) == Some(nonce));
    assert(parameter(parts.drop_last(), "realm"@) == Some(realm));
    assert(parameter(parts, "realm"@) == Some(realm));
}

/// Whether two challenges are answered alike, whoever answers what request.
pub open spec fn answered_alike(a: Seq<char>, b: Seq<char>) -> bool {
    &&& challenge_of(a) == challenge_of(b)
    &&& forall|username: Seq<char>, password: Seq<char>, method: Seq<char>, uri: Seq<char>|
        #[trigger] auth_header_of(username, password, method, uri, a) == auth_header_of(
            username,
            password,
            method,
            uri,
            b,
        )
}

/// White space around a challenge does not matter.
pub proof fn space_around_a_challenge_does_not_matter(
    before: Seq<char>,
    www_authenticate: Seq<char>,
    after: Seq<char>,
)
    requires
        is_blank(before),
        is_blank(after),
    ensures
        answered_alike(before + www_authenticate + after, www_authenticate),
{
    lemma_trimmed_around(before, www_authenticate, after);
}

/// Texts with commas between them.
pub open spec fn with_commas(parts: Seq<Seq<char>>) -> Seq<char>
    decreases parts.len(),
{
    if parts.len() == 0 {
        seq![]
    } else if parts.len() == 1 {
        parts[0]
    } else {
        with_commas(parts.drop_last()).push(',') + parts.last()
    }
}

/// Whether a text is the word that announces a digest challenge, in whatever
/// case.
pub open spec fn is_digest_word(word: Seq<char>) -> bool {
    &&& word.len() == 6
    &&& forall|i: int|
        0 <= i < 6 ==> #[trigger] word[i] == "digest"@[i] || word[i] == "DIGEST"@[i]
}

proof fn lemma_digest_word(word: Seq<char>)
    ensures
        is_digest_word(word) <==> word.len() == 6 && is_digest(word.push(' ')),
{
    reveal_strlit("digest");
    reveal_strlit("DIGEST");
    let w = word.push(' ');
    let small = "digest"@;
    let large = "DIGEST"@;
    if word.len() == 6 {
        assert forall|i: int| 0 <= i < 6 implies (#[trigger] word[i] == small[i] || word[i]
            == large[i]) == (lower(w[i]) == small[i]) by {
            assert(w[i] == word[i]);
            if 'A' <= w[i] <= 'Z' {
                assert(lower(w[i]) as int == w[i] as int + 32);
            }
        }
        if is_digest(w) {
            assert(lower(w[0]) == small[0] && lower(w[1]) == small[1] && lower(w[2]) == small[2]
                && lower(w[3]) == small[3] && lower(w[4]) == small[4] && lower(w[5]) == small[5]);
        }
        if is_digest_word(word) {
            assert(word[0] == small[0] || word[0] == large[0]);
            assert(word[1] == small[1] || word[1] == large[1]);
            assert(word[2] == small[2] || word[2] == large[2]);
            assert(word[3] == small[3] || word[3] == large[3]);
            assert(word[4] == small[4] || word[4] == large[4]);
            assert(word[5] == small[5] || word[5] == large[5]);
        }
    }
}

/// What does not begin with the word, and a space behind it, is no digest
/// challenge.
pub proof fn other_challenges_are_not_answered(www_authenticate: Seq<char>)
    requires
        ({
            let header = trimmed(www_authenticate);
            header.len() < 7 || !is_digest_word(header.take(6)) || header[6] != ' '
        }),
    ensures
        challenge_of(www_authenticate) is None,
{
    let header = trimmed(www_authenticate);
    if header.len() >= 7 && header[6] == ' ' {
        lemma_digest_word(header.take(6));
        assert(header.take(6).push(' ') =~= header.take(7));
        let w = header.take(7);
        assert(is_digest(header) == is_digest(w)) by {
            assert(w[0] == header[0] && w[1] == header[1] && w[2] == header[2] && w[3] == header[3]
                && w[4] == header[4] && w[5] == header[5] && w[6] == header[6]);
        }
    }
}

/// A parameter has a key and a value where it has an equals sign: what stands
/// before the first one, and what stands behind it, between quotes or not, each
/// without white space around it.
pub proof fn a_parameter_has_a_key_and_a_value(key: Seq<char>, value: Seq<char>, part: Seq<char>)
    requires
        lacks(key, '='),
    ensures
        key_and_value(key + seq!['='] + value) == Some(
            (trimmed(key), stripped(trimmed(value), '"')),
        ),
        lacks(part, '=') ==> key_and_value(part) is None,
{
    let all = key + seq!['='] + value;
    assert forall|j: int| 0 <= j < key.len() implies all[j] != '=' by {
        assert(all[j] == key[j]);
    }
    lemma_position(all, '=', key.len() as int);
    assert(all.take(key.len() as int) =~= key);
    assert(all.skip(key.len() as int + 1) =~= value);
    if lacks(part, '=') {
        lemma_position(part, '=', part.len() as int);
    }
}

/// Whether no text holds a comma.
pub open spec fn are_parameters(parts: Seq<Seq<char>>) -> bool {
    forall|i: int| 0 <= i < parts.len() ==> lacks(#[trigger] parts[i], ',')
}

/// A digest challenge: its word, and its parameters.
pub open spec fn challenge_text(word: Seq<char>, parts: Seq<Seq<char>>) -> Seq<char> {
    word.push(' ') + with_commas(parts)
}

/// Parameters with commas between them are told apart again.
proof fn lemma_split_commas(parts: Seq<Seq<char>>)
    requires
        parts.len() > 0,
        are_parameters(parts),
    ensures
        split_at(with_commas(parts), ',') == parts,
    decreases parts.len(),
{
    if parts.len() == 1 {
        lemma_split_one(parts[0], ',');
        assert(seq![parts[0]] =~= parts);
    } else {
        let front = parts.drop_last();
        assert(are_parameters(front)) by {
            assert forall|i: int| 0 <= i < front.len() implies lacks(#[trigger] front[i], ',') by {
                assert(front[i] == parts[i]);
            }
        }
        assert(lacks(parts[parts.len() - 1], ','));
        lemma_split_commas(front);
        lemma_split_one(parts.last(), ',');
        lemma_split_two(with_commas(front), parts.last(), ',');
        assert(front + seq![parts.last()] =~= parts);
    }
}

/// White space behind a parameter does not matter.
proof fn lemma_space_behind_parameter(part: Seq<char>, after: Seq<char>)
    requires
        is_blank(after),
    ensures
        key_and_value(part + after) == key_and_value(part),
{
    let all = part + after;
    let p = position(part, '=');
    lemma_position_found(part, '=');
    assert forall|j: int| 0 <= j < p implies all[j] != '=' by {
        assert(all[j] == part[j]);
    }
    if p < part.len() {
        assert(all[p] == part[p]);
        lemma_position(all, '=', p);
        let empty = Seq::<char>::empty();
        let value = part.skip(p + 1);
        assert(all.take(p) =~= part.take(p));
        assert(all.skip(p + 1) =~= empty + value + after);
        lemma_trimmed_around(empty, value, after);
    } else {
        assert forall|j: int| 0 <= j < all.len() implies all[j] != '=' by {
            if j >= part.len() {
                assert(all[j] == after[j - part.len()]);
                assert(is_white_space(all[j]));
            } else {
                assert(all[j] == part[j]);
            }
        }
        lemma_position(all, '=', all.len() as int);
    }
}

/// Parameters with the same keys and values have the same meaning.
proof fn lemma_parameter_alike(a: Seq<Seq<char>>, b: Seq<Seq<char>>, key: Seq<char>)
    requires
        a.len() == b.len(),
        forall|i: int|
            0 <= i < a.len() ==> key_and_value(#[trigger] a[i]) == key_and_value(b[i]),
    ensures
        parameter(a, key) == parameter(b, key),
    decreases a.len(),
{
    if a.len() > 0 {
        assert(key_and_value(a[a.len() - 1]) == key_and_value(b[b.len() - 1]));
        assert forall|i: int| 0 <= i < a.len() - 1 implies key_and_value(
            #[trigger] a.drop_last()[i],
        ) == key_and_value(b.drop_last()[i]) by {
            assert(a.drop_last()[i] == a[i]);
        }
        lemma_parameter_alike(a.drop_last(), b.drop_last(), key);
    }
}

/// The text without white space behind it has the same parameters, with less
/// white space behind the last.
proof fn lemma_cut_parameters(parts: Seq<Seq<char>>, n: int)
    requires
        parts.len() > 0,
        are_parameters(parts),
        0 <= n <= with_commas(parts).len(),
        is_blank(with_commas(parts).skip(n)),
    ensures
        challenge_in(split_at(with_commas(parts).take(n), ',')) == challenge_in(parts),
{
    let all = with_commas(parts);
    let last = parts.last();
    let head = (all.len() - last.len()) as int;
    if n < head {
        assert(all[head - 1] == ',');
        assert(all.skip(n)[head - 1 - n] == ',');
        assert(is_white_space(','));
    }
    let short = last.take(n - head);
    let blank = last.skip(n - head);
    assert forall|i: int| 0 <= i < blank.len() implies is_white_space(#[trigger] blank[i]) by {
        assert(all.skip(n)[i] == blank[i]);
    }
    let cut = parts.drop_last().push(short);
    assert(cut.drop_last() =~= parts.drop_last());
    assert(all.take(n) =~= with_commas(cut));
    assert(are_parameters(cut)) by {
        assert(lacks(parts[parts.len() - 1], ','));
        assert forall|i: int| 0 <= i < cut.len() implies lacks(#[trigger] cut[i], ',') by {
            if i < parts.len() - 1 {
                assert(cut[i] == parts[i]);
            }
        }
    }
    lemma_split_commas(cut);
    assert(short + blank =~= last);
    lemma_space_behind_parameter(short, blank);
    assert forall|i: int| 0 <= i < cut.len() implies key_and_value(#[trigger] cut[i])
        == key_and_value(parts[i]) by {
        if i < parts.len() - 1 {
            assert(cut[i] == parts[i]);
        }
    }
    lemma_parameter_alike(cut, parts, "realm"@);
    lemma_parameter_alike(cut, parts, "nonce"@);
}

/// What is white space holds no parameter.
proof fn lemma_blank_parameters(parts: Seq<Seq<char>>, key: Seq<char>)
    requires
        is_blank(with_commas(parts)),
    ensures
        parameter(parts, key) is None,
{
    if parts.len() > 0 {
        let all = with_commas(parts);
        let last = parts.last();
        let head = (all.len() - last.len()) as int;
        if parts.len() > 1 {
            assert(all[head - 1] == ',');
            assert(is_white_space(','));
        }
        assert forall|j: int| 0 <= j < last.len() implies last[j] != '=' by {
            assert(all[head + j] == last[j]);
            assert(is_white_space(all[head + j]));
        }
        lemma_position(last, '=', last.len() as int);
        assert(parts.drop_last().len() == 0);
        assert(parameter(parts.drop_last(), key) is None);
    }
}

proof fn lemma_challenge_text(word: Seq<char>, parts: Seq<Seq<char>>)
    requires
        is_digest_word(word),
        are_parameters(parts),
    ensures
        challenge_of(challenge_text(word, parts)) == challenge_in(parts),
{
    lemma_digest_word(word);
    let text = challenge_text(word, parts);
    let body = with_commas(parts);
    assert(text.take(7) =~= word.push(' '));
    assert forall|i: int| 0 <= i < 7 implies text[i] == #[trigger] word.push(' ')[i] by {}
    let w = word.push(' ');
    assert(lower(w[0]) == 'd' && lower(w[5]) == 't' && w[6] == ' ');
    assert(!is_white_space(text[0]) && !is_white_space(text[5]));
    let n = lemma_trimmed_behind(text);
    if n < 6 {
        assert(text.skip(n)[5 - n] == text[5]);
    }
    let header = trimmed(text);
    assert(text.skip(7) =~= body);
    if n <= 7 {
        assert(n == 6);
        assert(!is_digest(header));
        assert forall|i: int| 0 <= i < body.len() implies is_white_space(#[trigger] body[i]) by {
            assert(text.skip(6)[i + 1] == body[i]);
        }
        lemma_blank_parameters(parts, "realm"@);
    } else {
        assert forall|i: int| 0 <= i < 7 implies header[i] == w[i] by {
            assert(header[i] == text[i]);
        }
        assert(is_digest(header));
        assert(header.skip(7) =~= body.take(n - 7));
        assert(body.skip(n - 7) =~= text.skip(n));
        lemma_cut_parameters(parts, n - 7);
    }
}

/// What a digest challenge says is what its parameters say, in whatever case
/// its word is written and whatever white space stands around it.
pub proof fn case_and_space_do_not_matter(
    before: Seq<char>,
    word: Seq<char>,
    parts: Seq<Seq<char>>,
    after: Seq<char>,
)
    requires
        is_blank(before),
        is_blank(after),
        is_digest_word(word),
        are_parameters(parts),
    ensures
        challenge_of(before + challenge_text(word, parts) + after) == challenge_in(parts),
        answered_alike(
            before + challenge_text(word, parts) + after,
            challenge_text("Digest"@, parts),
        ),
{
    reveal_strlit("Digest");
    reveal_strlit("digest");
    reveal_strlit("DIGEST");
    lemma_trimmed_around(before, challenge_text(word, parts), after);
    lemma_challenge_text(word, parts);
    lemma_challenge_text("Digest"@, parts);
}

/// The parameter among two lists is that of the second, and without one that of
/// the first.
proof fn lemma_parameter_both(a: Seq<Seq<char>>, b: Seq<Seq<char>>, key: Seq<char>)
    ensures
        parameter(a + b, key) == (match parameter(b, key) {
            Some(v) => Some(v),
            None => parameter(a, key),
        }),
    decreases b.len(),
{
    if b.len() == 0 {
        assert(a + b =~= a);
    } else {
        assert((a + b).drop_last() =~= a + b.drop_last());
        assert((a + b).last() == b.last());
        lemma_parameter_both(a, b.drop_last(), key);
    }
}

/// Whether a parameter is called `key`.
pub open spec fn is_called(part: Seq<char>, key: Seq<char>) -> bool {
    key_and_value(part) matches Some((k, _)) && k == key
}

/// A parameter that is neither the realm nor the nonce does not matter,
/// wherever it stands.
pub proof fn further_parameters_do_not_matter(
    word: Seq<char>,
    before: Seq<Seq<char>>,
    part: Seq<char>,
    after: Seq<Seq<char>>,
)
    requires
        is_digest_word(word),
        are_parameters(before + seq![part] + after),
        !is_called(part, "realm"@),
        !is_called(part, "nonce"@),
    ensures
        answered_alike(
            challenge_text(word, before + seq![part] + after),
            challenge_text(word, before + after),
        ),
{
    let with = before + seq![part] + after;
    let without = before + after;
    assert forall|i: int| 0 <= i < without.len() implies lacks(#[trigger] without[i], ',') by {
        if i < before.len() {
            assert(with[i] == without[i]);
        } else {
            assert(with[i + 1] == without[i]);
        }
    }
    lemma_challenge_text(word, with);
    lemma_challenge_text(word, without);
    lemma_other_parameter(before, part, after, "realm"@);
    lemma_other_parameter(before, part, after, "nonce"@);
}

proof fn lemma_other_parameter(
    before: Seq<Seq<char>>,
    part: Seq<char>,
    after: Seq<Seq<char>>,
    key: Seq<char>,
)
    requires
        !is_called(part, key),
    ensures
        parameter(before + seq![part] + after, key) == parameter(before + after, key),
{
    let one = seq![part];
    assert(one.drop_last() =~= seq![]);
    assert(parameter(one.drop_last(), key) is None);
    assert(parameter(one, key) is None);
    lemma_parameter_both(before, one, key);
    lemma_parameter_both(before + one, after, key);
    lemma_parameter_both(before, after, key);
}

/// Whether no two of the parameters have the same key.
pub open spec fn are_named_once(parts: Seq<Seq<char>>) -> bool {
    forall|i: int, j: int, key: Seq<char>|
        0 <= i < j < parts.len() && #[trigger] is_called(parts[i], key) ==> !#[trigger] is_called(
            parts[j],
            key,
        )
}

proof fn lemma_parameter_found(parts: Seq<Seq<char>>, key: Seq<char>)
    ensures
        parameter(parts, key) matches Some(v) ==> exists|i: int|
            0 <= i < parts.len() && #[trigger] key_and_value(parts[i]) == Some((key, v)),
        parameter(parts, key) is None ==> forall|i: int|
            0 <= i < parts.len() ==> !is_called(#[trigger] parts[i], key),
    decreases parts.len(),
{
    if parts.len() > 0 {
        let front = parts.drop_last();
        lemma_parameter_found(front, key);
        if is_called(parts.last(), key) {
            assert(key_and_value(parts[parts.len() - 1]) == Some(
                (key, parameter(parts, key)->0),
            ));
        } else if parameter(front, key) is Some {
            let v = parameter(front, key)->0;
            let i = choose|i: int|
                0 <= i < front.len() && #[trigger] key_and_value(front[i]) == Some((key, v));
            assert(key_and_value(parts[i]) == Some((key, v)));
        } else {
            assert forall|i: int| 0 <= i < parts.len() implies !is_called(
                #[trigger] parts[i],
                key,
            ) by {
                if i < front.len() {
                    assert(parts[i] == front[i]);
                }
            }
        }
    }
}

/// A key that is named once has the value that is named.
proof fn lemma_parameter_once(parts: Seq<Seq<char>>, key: Seq<char>, i: int)
    requires
        are_named_once(parts),
        0 <= i < parts.len(),
        is_called(parts[i], key),
    ensures
        parameter(parts, key) == Some((key_and_value(parts[i])->0).1),
{
    lemma_parameter_found(parts, key);
    let v = parameter(parts, key)->0;
    let j = choose|j: int|
        0 <= j < parts.len() && #[trigger] key_and_value(parts[j]) == Some((key, v));
    assert(is_called(parts[j], key));
    assert(i == j);
}

proof fn lemma_parameter_reordered(a: Seq<Seq<char>>, b: Seq<Seq<char>>, key: Seq<char>)
    requires
        are_named_once(a),
        are_named_once(b),
        forall|part: Seq<char>| a.contains(part) == b.contains(part),
    ensures
        parameter(a, key) == parameter(b, key),
{
    lemma_parameter_found(a, key);
    lemma_parameter_found(b, key);
    if parameter(a, key) is Some {
        let v = parameter(a, key)->0;
        let i = choose|i: int|
            0 <= i < a.len() && #[trigger] key_and_value(a[i]) == Some((key, v));
        assert(a.contains(a[i]));
        let j = choose|j: int| 0 <= j < b.len() && b[j] == a[i];
        lemma_parameter_once(b, key, j);
    } else if parameter(b, key) is Some {
        let v = parameter(b, key)->0;
        let i = choose|i: int|
            0 <= i < b.len() && #[trigger] key_and_value(b[i]) == Some((key, v));
        assert(b.contains(b[i]));
        let j = choose|j: int| 0 <= j < a.len() && a[j] == b[i];
        assert(is_called(a[j], key));
    }
}

/// The order of parameters with different keys does not matter.
pub proof fn the_order_of_parameters_does_not_matter(
    word: Seq<char>,
    a: Seq<Seq<char>>,
    b: Seq<Seq<char>>,
)
    requires
        is_digest_word(word),
        are_parameters(a),
        are_named_once(a),
        are_named_once(b),
        forall|part: Seq<char>| a.contains(part) == b.contains(part),
    ensures
        answered_alike(challenge_text(word, a), challenge_text(word, b)),
{
    assert forall|i: int| 0 <= i < b.len() implies lacks(#[trigger] b[i], ',') by {
        assert(b.contains(b[i]));
        let j = choose|j: int| 0 <= j < a.len() && a[j] == b[i];
        assert(lacks(a[j], ','));
    }
    lemma_challenge_text(word, a);
    lemma_challenge_text(word, b);
    lemma_parameter_reordered(a, b, "realm"@);
    lemma_parameter_reordered(a, b, "nonce"@);
}

/// A parameter with its value between quotes, or bare.
pub open spec fn written_parameter(key: Seq<char>, value: Seq<char>, quoted: bool) -> Seq<char> {
    if quoted {
        key + "=\""@ + value + "\""@
    } else {
        key + "="@ + value
    }
}

proof fn lemma_written_parameter(key: Seq<char>, value: Seq<char>)
    requires
        lacks(key, '='),
        lacks(value, '"'),
        trimmed(value) == value,
    ensures
        key_and_value(written_parameter(key, value, true)) == Some((trimmed(key), value)),
        key_and_value(written_parameter(key, value, false)) == Some((trimmed(key), value)),
{
    reveal_strlit("=\"");
    reveal_strlit("\"");
    reveal_strlit("=");
    let quoted = seq!['"'] + value + seq!['"'];
    let n = key.len() as int;
    let a = written_parameter(key, value, true);
    let b = written_parameter(key, value, false);
    assert forall|j: int| 0 <= j < n implies a[j] != '=' && b[j] != '=' by {
        assert(a[j] == key[j] && b[j] == key[j]);
    }
    assert(a[n] == '=' && b[n] == '=');
    lemma_position(a, '=', n);
    lemma_position(b, '=', n);
    assert(a.take(n) =~= key && b.take(n) =~= key);
    assert(a.skip(n + 1) =~= quoted);
    assert(b.skip(n + 1) =~= value);
    lemma_unquoted(value);
    assert(value.len() > 0 ==> value[0] != '"' && value[value.len() - 1] != '"');
    assert(stripped(value, '"') == value);
}

/// The quotes around the value of a parameter may be left out.
pub proof fn quotes_do_not_matter(
    word: Seq<char>,
    before: Seq<Seq<char>>,
    key: Seq<char>,
    value: Seq<char>,
    after: Seq<Seq<char>>,
)
    requires
        is_digest_word(word),
        are_parameters(before),
        are_parameters(after),
        lacks(key, '='),
        lacks(key, ','),
        quotable(value),
        trimmed(value) == value,
    ensures
        answered_alike(
            challenge_text(word, before + seq![written_parameter(key, value, true)] + after),
            challenge_text(word, before + seq![written_parameter(key, value, false)] + after),
        ),
{
    reveal_strlit("=\"");
    reveal_strlit("\"");
    reveal_strlit("=");
    let p = written_parameter(key, value, true);
    let q = written_parameter(key, value, false);
    let a = before + seq![p] + after;
    let b = before + seq![q] + after;
    lemma_written_parameter(key, value);
    assert(lacks(p, ',') && lacks(q, ',')) by {
        assert forall|i: int| 0 <= i < p.len() implies #[trigger] p[i] != ',' by {
            if i < key.len() {
                assert(p[i] == key[i]);
            } else if key.len() + 2 <= i < key.len() + 2 + value.len() {
                assert(p[i] == value[i - key.len() - 2]);
            }
        }
        assert forall|i: int| 0 <= i < q.len() implies #[trigger] q[i] != ',' by {
            if i < key.len() {
                assert(q[i] == key[i]);
            } else if i > key.len() {
                assert(q[i] == value[i - key.len() - 1]);
            }
        }
    }
    let n = before.len() as int;
    assert forall|i: int| 0 <= i < a.len() implies lacks(#[trigger] a[i], ',') && lacks(b[i], ',')
        && key_and_value(a[i]) == key_and_value(b[i]) by {
        if i < n {
            assert(a[i] == before[i] && b[i] == before[i]);
        } else if i > n {
            assert(a[i] == after[i - n - 1] && b[i] == after[i - n - 1]);
        }
    }
    assert forall|i: int| 0 <= i < b.len() implies lacks(#[trigger] b[i], ',') by {
        assert(lacks(a[i], ',') && lacks(b[i], ','));
    }
    lemma_challenge_text(word, a);
    lemma_challenge_text(word, b);
    lemma_parameter_alike(a, b, "realm"@);
    lemma_parameter_alike(a, b, "nonce"@);
}

/// What stands before the response in an answer.
pub open spec fn before_response(
    username: Seq<char>,
    realm: Seq<char>,
    nonce: Seq<char>,
    uri: Seq<char>,
) -> Seq<char> {
    "Digest username=\""@ + username + "\", realm=\""@ + realm + "\", nonce=\""@ + nonce
        + "\", uri=\""@ + uri + "\", response=\""@
}

/// The password and the method show in the response and nowhere else: whatever
/// they are, a challenge is answered or not, and the answers are the same before
/// the response and behind it.
pub proof fn secrets_show_only_in_the_response(
    username: Seq<char>,
    uri: Seq<char>,
    www_authenticate: Seq<char>,
    password1: Seq<char>,
    method1: Seq<char>,
    password2: Seq<char>,
    method2: Seq<char>,
)
    ensures
        ({
            let a = auth_header_of(username, password1, method1, uri, www_authenticate);
            let b = auth_header_of(username, password2, method2, uri, www_authenticate);
            match challenge_of(www_authenticate) {
                Some((realm, nonce)) => {
                    let r1 = response_of(username, password1, method1, uri, realm, nonce);
                    let r2 = response_of(username, password2, method2, uri, realm, nonce);
                    let head = before_response(username, realm, nonce, uri);
                    &&& a == Some(authorization_of(username, realm, nonce, uri, r1))
                    &&& b == Some(authorization_of(username, realm, nonce, uri, r2))
                    &&& a == Some(head + r1 + "\", algorithm=MD5"@)
                    &&& b == Some(head + r2 + "\", algorithm=MD5"@)
                },
                None => a is None && b is None,
            }
        }),
{
}

/// The header that answers a challenge names the user, the challenge and the
/// address, and proves the password: its response is made of the name, the realm
/// and the password, of the nonce, and of the method and the address.
pub proof fn an_answer_proves_the_password(
    username: &str,
    password: &str,
    method: &str,
    uri: &str,
    www_authenticate: &str,
    r: Option<String>,
)
    requires
        call_ensures(
            generate_auth_header,
            (username, password, method, uri, www_authenticate),
            r,
        ),
    ensures
        r is Some <==> challenge_of(www_authenticate@) is Some,
        challenge_of(www_authenticate@) matches Some((realm, nonce)) ==> {
            let digest = |text: Seq<char>| hex_of_bytes(md5_of(encode_utf8(text)));
            let ha1 = digest(username@ + ":"@ + realm + ":"@ + password@);
            let ha2 = digest(method@ + ":"@ + uri@);
            r->0@ == "Digest username=\""@ + username@ + "\", realm=\""@ + realm + "\", nonce=\""@
                + nonce + "\", uri=\""@ + uri@ + "\", response=\""@ + digest(
                ha1 + ":"@ + nonce + ":"@ + ha2,
            ) + "\", algorithm=MD5"@
        },
{
}

/// Of two parameters with the same key the last one counts.
pub proof fn the_last_parameter_counts(
    word: Seq<char>,
    parts: Seq<Seq<char>>,
    realm: Seq<char>,
    nonce: Seq<char>,
)
    requires
        is_digest_word(word),
        are_parameters(parts),
        quotable(realm),
        quotable(nonce),
    ensures
        challenge_of(
            challenge_text(
                word,
                parts.push("realm=\""@ + realm + "\""@).push("nonce=\""@ + nonce + "\""@),
            ),
        ) == Some((realm, nonce)),
{
    reveal_strlit("realm=\"");
    reveal_strlit("nonce=\"");
    reveal_strlit("\"");
    reveal_strlit("realm");
    reveal_strlit("nonce");
    let empty = Seq::<char>::empty();
    let a = "realm=\""@ + realm + "\""@;
    let b = "nonce=\""@ + nonce + "\""@;
    assert(a =~= empty + "realm"@ + seq!['='] + (seq!['"'] + realm + seq!['"']));
    assert(b =~= empty + "nonce"@ + seq!['='] + (seq!['"'] + nonce + seq!['"']));
    let one = parts.push(a);
    let all = one.push(b);
    assert forall|i: int| 0 <= i < a.len() implies #[trigger] a[i] != ',' by {
        if 7 <= i < 7 + realm.len() {
            assert(a[i] == realm[i - 7]);
        }
    }
    assert forall|i: int| 0 <= i < b.len() implies #[trigger] b[i] != ',' by {
        if 7 <= i < 7 + nonce.len() {
            assert(b[i] == nonce[i - 7]);
        }
    }
    assert forall|i: int| 0 <= i < all.len() implies lacks(#[trigger] all[i], ',') by {
        if i < parts.len() {
            assert(all[i] == parts[i]);
        }
    }
    lemma_challenge_text(word, all);
    lemma_parameter_read(empty, "realm"@, realm);
    lemma_parameter_read(empty, "nonce"@, nonce);
    lemma_unquoted(realm);
    lemma_unquoted(nonce);
    assert("realm"@[0] != "nonce"@[0]);
    assert(all.drop_last() =~= one);
    assert(one.last() == a);
    assert(parameter(one, "realm"@) == Some(realm));
}

/// A challenge that lacks the realm or the nonce is none.
pub proof fn a_challenge_needs_realm_and_nonce(word: Seq<char>, parts: Seq<Seq<char>>)
    requires
        is_digest_word(word),
        are_parameters(parts),
    ensures
        (forall|i: int| 0 <= i < parts.len() ==> !is_called(#[trigger] parts[i], "realm"@))
            ==> challenge_of(challenge_text(word, parts)) is None,
        (forall|i: int| 0 <= i < parts.len() ==> !is_called(#[trigger] parts[i], "nonce"@))
            ==> challenge_of(challenge_text(word, parts)) is None,
{
    lemma_challenge_text(word, parts);
    lemma_parameter_found(parts, "realm"@);
    lemma_parameter_found(parts, "nonce"@);
    if parameter(parts, "realm"@) is Some {
        let v = parameter(parts, "realm"@)->0;
        let i = choose|i: int|
            0 <= i < parts.len() && #[trigger] key_and_value(parts[i]) == Some(("realm"@, v));
        assert(is_called(parts[i], "realm"@));
    }
    if parameter(parts, "nonce"@) is Some {
        let v = parameter(parts, "nonce"@)->0;
        let i = choose|i: int|
            0 <= i < parts.len() && #[trigger] key_and_value(parts[i]) == Some(("nonce"@, v));
        assert(is_called(parts[i], "nonce"@));
    }
}

} // verus!
