//! Text on characters: trimming, splitting, lines, numbers.
//!
//! Every function here works on slices of `char`, so that its contract can
//! speak of a `Seq<char>` directly.

use vstd::prelude::*;

verus! {

/// `String::push` puts one character behind the others.
pub assume_specification[ String::push ](s: &mut String, c: char)
    ensures
        final(s)@ == old(s)@.push(c),
;

/// The characters of a string.
pub fn chars_of(s: &str) -> (out: Vec<char>)
    ensures
        out@ == s@,
{
    let mut out: Vec<char> = Vec::new();
    for c in it: s.chars()
        invariant
            it.seq() == s@,
            out@ == s@.take(it.index() as int),
    {
        out.push(c);
    }
    out
}

/// Puts `s` behind the characters of `out`.
pub fn push_chars(out: &mut String, s: &[char])
    ensures
        final(out)@ == old(out)@ + s@,
{
    let ghost before = out@;
    let mut i: usize = 0;
    while i < s.len()
        invariant
            i <= s.len(),
            out@ == before + s@.take(i as int),
        decreases s.len() - i,
    {
        out.push(s[i]);
        i += 1;
    }
    assert(s@.take(s@.len() as int) =~= s@);
}

/// The string that `s` spells.
pub fn string_of(s: &[char]) -> (out: String)
    ensures
        out@ == s@,
{
    let mut out = String::new();
    push_chars(&mut out, s);
    assert(Seq::<char>::empty() + s@ =~= s@);
    out
}

/// Whether two texts are the same.
pub fn same(a: &[char], b: &[char]) -> (r: bool)
    ensures
        r == (a@ == b@),
{
    if a.len() != b.len() {
        return false;
    }
    let mut i: usize = 0;
    while i < a.len()
        invariant
            i <= a.len(),
            a.len() == b.len(),
            forall|j: int| 0 <= j < i ==> a@[j] == b@[j],
        decreases a.len() - i,
    {
        if a[i] != b[i] {
            return false;
        }
        i += 1;
    }
    assert(a@ =~= b@);
    true
}

/// Unicode's `White_Space` property, which `char::is_whitespace` tests.
pub open spec fn is_white_space(c: char) -> bool {
    let u = c as u32;
    ||| 0x09 <= u <= 0x0d
    ||| u == 0x20
    ||| u == 0x85
    ||| u == 0xa0
    ||| u == 0x1680
    ||| 0x2000 <= u <= 0x200a
    ||| u == 0x2028
    ||| u == 0x2029
    ||| u == 0x202f
    ||| u == 0x205f
    ||| u == 0x3000
}

/// Whether `c` is white space.
pub fn white_space(c: char) -> (r: bool)
    ensures
        r == is_white_space(c),
{
    let u: u32 = c as u32;
    (0x09 <= u && u <= 0x0d) || u == 0x20 || u == 0x85 || u == 0xa0 || u == 0x1680 || (0x2000 <= u
        && u <= 0x200a) || u == 0x2028 || u == 0x2029 || u == 0x202f || u == 0x205f || u == 0x3000
}

/// `s` without the white space at its two ends.
pub open spec fn trimmed(s: Seq<char>) -> Seq<char>
    decreases s.len(),
{
    if s.len() > 0 && is_white_space(s.first()) {
        trimmed(s.drop_first())
    } else if s.len() > 0 && is_white_space(s.last()) {
        trimmed(s.drop_last())
    } else {
        s
    }
}

/// `s` without any `c` at its two ends.
pub open spec fn stripped(s: Seq<char>, c: char) -> Seq<char>
    decreases s.len(),
{
    if s.len() > 0 && s.first() == c {
        stripped(s.drop_first(), c)
    } else if s.len() > 0 && s.last() == c {
        stripped(s.drop_last(), c)
    } else {
        s
    }
}

/// `s` without the white space at its two ends.
pub fn trim(s: &[char]) -> (r: &[char])
    ensures
        r@ == trimmed(s@),
{
    let mut lo: usize = 0;
    let mut hi: usize = s.len();
    assert(s@.subrange(0, s@.len() as int) =~= s@);
    while lo < hi && white_space(s[lo])
        invariant
            lo <= hi == s.len(),
            trimmed(s@) == trimmed(s@.subrange(lo as int, hi as int)),
        decreases hi - lo,
    {
        assert(s@.subrange(lo as int, hi as int).drop_first() =~= s@.subrange(
            lo + 1,
            hi as int,
        ));
        lo += 1;
    }
    while lo < hi && white_space(s[hi - 1])
        invariant
            lo <= hi <= s.len(),
            lo < hi ==> !is_white_space(s@[lo as int]),
            trimmed(s@) == trimmed(s@.subrange(lo as int, hi as int)),
        decreases hi - lo,
    {
        assert(s@.subrange(lo as int, hi as int).drop_last() =~= s@.subrange(
            lo as int,
            hi - 1,
        ));
        hi -= 1;
    }
    &s[lo..hi]
}

/// `s` without any `c` at its two ends.
pub fn strip(s: &[char], c: char) -> (r: &[char])
    ensures
        r@ == stripped(s@, c),
{
    let mut lo: usize = 0;
    let mut hi: usize = s.len();
    assert(s@.subrange(0, s@.len() as int) =~= s@);
    while lo < hi && s[lo] == c
        invariant
            lo <= hi == s.len(),
            stripped(s@, c) == stripped(s@.subrange(lo as int, hi as int), c),
        decreases hi - lo,
    {
        assert(s@.subrange(lo as int, hi as int).drop_first() =~= s@.subrange(
            lo + 1,
            hi as int,
        ));
        lo += 1;
    }
    while lo < hi && s[hi - 1] == c
        invariant
            lo <= hi <= s.len(),
            lo < hi ==> s@[lo as int] != c,
            stripped(s@, c) == stripped(s@.subrange(lo as int, hi as int), c),
        decreases hi - lo,
    {
        assert(s@.subrange(lo as int, hi as int).drop_last() =~= s@.subrange(
            lo as int,
            hi - 1,
        ));
        hi -= 1;
    }
    &s[lo..hi]
}

/// Where `c` first stands in `s`, or the length of `s` where it does not.
pub open spec fn position(s: Seq<char>, c: char) -> int
    decreases s.len(),
{
    if s.len() == 0 || s.first() == c {
        0
    } else {
        1 + position(s.drop_first(), c)
    }
}

/// `position` is the one index before which `c` does not stand and at which
/// `c` stands or `s` ends.
pub proof fn lemma_position(s: Seq<char>, c: char, i: int)
    requires
        0 <= i <= s.len(),
        forall|j: int| 0 <= j < i ==> s[j] != c,
        i < s.len() ==> s[i] == c,
    ensures
        position(s, c) == i,
    decreases i,
{
    if i > 0 {
        assert(s[0] != c);
        lemma_position(s.drop_first(), c, i - 1);
    }
}

/// The pieces of `s` between the separators `sep`.
pub open spec fn split_at(s: Seq<char>, sep: char) -> Seq<Seq<char>>
    decreases s.len(),
{
    let p = position(s, sep);
    if 0 <= p < s.len() {
        seq![s.take(p)] + split_at(s.skip(p + 1), sep)
    } else {
        seq![s]
    }
}

/// What the slices in `v` hold.
pub open spec fn texts(v: Seq<&[char]>) -> Seq<Seq<char>> {
    Seq::new(v.len(), |i: int| v[i]@)
}

/// The pieces of `s` between the separators `sep`.
pub fn split(s: &[char], sep: char) -> (out: Vec<&[char]>)
    ensures
        texts(out@) == split_at(s@, sep),
{
    let mut out: Vec<&[char]> = Vec::new();
    let mut start: usize = 0;
    let mut i: usize = 0;
    assert(s@.skip(0) =~= s@);
    assert(texts(out@) + split_at(s@, sep) =~= split_at(s@, sep));
    while i < s.len()
        invariant
            start <= i <= s.len(),
            forall|j: int| start <= j < i ==> s@[j] != sep,
            split_at(s@, sep) == texts(out@) + split_at(s@.skip(start as int), sep),
        decreases s.len() - i,
    {
        if s[i] == sep {
            let ghost before = texts(out@);
            let piece = &s[start..i];
            proof {
                let rest = s@.skip(start as int);
                lemma_position(rest, sep, i - start);
                assert(rest.take(i - start) =~= piece@);
                assert(rest.skip(i - start + 1) =~= s@.skip(i + 1));
            }
            out.push(piece);
            assert(texts(out@) =~= before.push(piece@));
            assert(before.push(piece@) + split_at(s@.skip(i + 1), sep) =~= before + (
            seq![piece@] + split_at(s@.skip(i + 1), sep)));
            start = i + 1;
        }
        i += 1;
    }
    let piece = &s[start..s.len()];
    proof {
        let rest = s@.skip(start as int);
        lemma_position(rest, sep, rest.len() as int);
        assert(rest =~= piece@);
    }
    let ghost before = texts(out@);
    out.push(piece);
    assert(texts(out@) =~= before + seq![piece@]);
    out
}

/// The text before the first `sep` and the text behind it, where there is one.
pub open spec fn cut_at(s: Seq<char>, sep: char) -> Option<(Seq<char>, Seq<char>)> {
    let p = position(s, sep);
    if 0 <= p < s.len() {
        Some((s.take(p), s.skip(p + 1)))
    } else {
        None
    }
}

/// The text before the first `sep` and the text behind it, where there is one.
pub fn split_once(s: &[char], sep: char) -> (r: Option<(&[char], &[char])>)
    ensures
        r matches Some((a, b)) ==> cut_at(s@, sep) == Some((a@, b@)),
        r is None ==> cut_at(s@, sep) is None,
{
    let mut i: usize = 0;
    while i < s.len()
        invariant
            i <= s.len(),
            forall|j: int| 0 <= j < i ==> s@[j] != sep,
        decreases s.len() - i,
    {
        if s[i] == sep {
            let a = &s[0..i];
            let b = &s[i + 1..s.len()];
            proof {
                lemma_position(s@, sep, i as int);
                assert(a@ =~= s@.take(i as int));
                assert(b@ =~= s@.skip(i + 1));
            }
            return Some((a, b));
        }
        i += 1;
    }
    proof {
        lemma_position(s@, sep, s@.len() as int);
    }
    None
}

/// `s` without the carriage return it ends in, where it does.
pub open spec fn without_cr(s: Seq<char>) -> Seq<char> {
    if s.len() > 0 && s.last() == '\r' {
        s.drop_last()
    } else {
        s
    }
}

/// The lines of `s`: each ends at a line feed, or at a carriage return with a
/// line feed behind it, and the last may lack its end.
pub open spec fn lines_of(s: Seq<char>) -> Seq<Seq<char>>
    decreases s.len(),
{
    let p = position(s, '\n');
    if s.len() == 0 {
        seq![]
    } else if 0 <= p < s.len() {
        seq![without_cr(s.take(p))] + lines_of(s.skip(p + 1))
    } else {
        seq![s]
    }
}

/// The lines of `s`.
pub fn lines(s: &[char]) -> (out: Vec<&[char]>)
    ensures
        texts(out@) == lines_of(s@),
{
    let mut out: Vec<&[char]> = Vec::new();
    let mut start: usize = 0;
    let mut i: usize = 0;
    assert(s@.skip(0) =~= s@);
    assert(texts(out@) + lines_of(s@) =~= lines_of(s@));
    while i < s.len()
        invariant
            start <= i <= s.len(),
            forall|j: int| start <= j < i ==> s@[j] != '\n',
            lines_of(s@) == texts(out@) + lines_of(s@.skip(start as int)),
        decreases s.len() - i,
    {
        if s[i] == '\n' {
            let ghost before = texts(out@);
            let end: usize = if i > start && s[i - 1] == '\r' {
                i - 1
            } else {
                i
            };
            let line = &s[start..end];
            proof {
                let rest = s@.skip(start as int);
                lemma_position(rest, '\n', i - start);
                assert(without_cr(rest.take(i - start)) =~= line@);
                assert(rest.skip(i - start + 1) =~= s@.skip(i + 1));
            }
            out.push(line);
            assert(texts(out@) =~= before.push(line@));
            assert(before.push(line@) + lines_of(s@.skip(i + 1)) =~= before + (seq![line@]
                + lines_of(s@.skip(i + 1))));
            start = i + 1;
        }
        i += 1;
    }
    let ghost rest = s@.skip(start as int);
    proof {
        lemma_position(rest, '\n', rest.len() as int);
    }
    if start < s.len() {
        let ghost before = texts(out@);
        let line = &s[start..s.len()];
        out.push(line);
        assert(rest =~= line@);
        assert(texts(out@) =~= before + seq![line@]);
    } else {
        assert(texts(out@) + lines_of(rest) =~= texts(out@));
    }
    out
}

/// `s` behind the prefix `p`, where `s` begins with it.
pub open spec fn after_prefix(s: Seq<char>, p: Seq<char>) -> Option<Seq<char>> {
    if p.len() <= s.len() && s.take(p.len() as int) == p {
        Some(s.skip(p.len() as int))
    } else {
        None
    }
}

/// `s` behind the prefix `p`, where `s` begins with it.
pub fn strip_prefix<'a>(s: &'a [char], p: &str) -> (r: Option<&'a [char]>)
    ensures
        r matches Some(rest) ==> after_prefix(s@, p@) == Some(rest@),
        r is None ==> after_prefix(s@, p@) is None,
{
    let p = chars_of(p);
    if p.len() > s.len() {
        return None;
    }
    let head = &s[0..p.len()];
    assert(head@ =~= s@.take(p@.len() as int));
    if same(head, p.as_slice()) {
        let rest = &s[p.len()..s.len()];
        assert(rest@ =~= s@.skip(p@.len() as int));
        Some(rest)
    } else {
        None
    }
}

/// Whether `p` stands somewhere in `s`.
pub open spec fn holds(s: Seq<char>, p: Seq<char>) -> bool {
    exists|i: int| 0 <= i <= s.len() - p.len() && #[trigger] s.subrange(i, i + p.len()) == p
}

/// Whether `p` stands somewhere in `s`.
pub fn contains(s: &[char], p: &str) -> (r: bool)
    ensures
        r == holds(s@, p@),
{
    let needle = chars_of(p);
    if needle.len() > s.len() {
        return false;
    }
    let last: usize = s.len() - needle.len();
    let mut i: usize = 0;
    loop
        invariant
            needle@ == p@,
            last == s.len() - needle.len(),
            i <= last,
            forall|j: int| 0 <= j < i ==> #[trigger] s@.subrange(j, j + p@.len()) != p@,
        decreases last - i,
    {
        if same(&s[i..i + needle.len()], needle.as_slice()) {
            assert(s@.subrange(i as int, i + p@.len()) == p@);
            return true;
        }
        if i == last {
            return false;
        }
        i += 1;
    }
}

/// The first run of characters that are not white space, where there is one.
pub open spec fn first_word_of(s: Seq<char>) -> Option<Seq<char>>
    decreases s.len(),
{
    if s.len() == 0 {
        None
    } else if is_white_space(s.first()) {
        first_word_of(s.drop_first())
    } else {
        Some(leading_word(s))
    }
}

/// The characters of `s` before the first white space.
pub open spec fn leading_word(s: Seq<char>) -> Seq<char>
    decreases s.len(),
{
    if s.len() == 0 || is_white_space(s.first()) {
        seq![]
    } else {
        seq![s.first()] + leading_word(s.drop_first())
    }
}

/// The leading word of `s` ends at the first white space.
pub proof fn lemma_leading_word(s: Seq<char>, n: int)
    requires
        0 <= n <= s.len(),
        forall|j: int| 0 <= j < n ==> !is_white_space(#[trigger] s[j]),
        n < s.len() ==> is_white_space(s[n]),
    ensures
        leading_word(s) == s.take(n),
    decreases n,
{
    if n == 0 {
        assert(s.take(0) =~= seq![]);
    } else {
        assert(!is_white_space(s[0]));
        let rest = s.drop_first();
        assert forall|j: int| 0 <= j < n - 1 implies !is_white_space(#[trigger] rest[j]) by {
            assert(rest[j] == s[j + 1]);
        }
        lemma_leading_word(rest, n - 1);
        assert(s.take(n) =~= seq![s.first()] + rest.take(n - 1));
    }
}

/// The first run of characters that are not white space, where there is one.
pub fn first_word(s: &[char]) -> (r: Option<&[char]>)
    ensures
        r matches Some(w) ==> first_word_of(s@) == Some(w@),
        r is None ==> first_word_of(s@) is None,
{
    let mut lo: usize = 0;
    assert(s@.skip(0) =~= s@);
    while lo < s.len() && white_space(s[lo])
        invariant
            lo <= s.len(),
            first_word_of(s@) == first_word_of(s@.skip(lo as int)),
        decreases s.len() - lo,
    {
        assert(s@.skip(lo as int).drop_first() =~= s@.skip(lo + 1));
        lo += 1;
    }
    if lo == s.len() {
        return None;
    }
    let mut hi: usize = lo;
    while hi < s.len() && !white_space(s[hi])
        invariant
            lo <= hi <= s.len(),
            forall|j: int| lo <= j < hi ==> !is_white_space(#[trigger] s@[j]),
        decreases s.len() - hi,
    {
        hi += 1;
    }
    let word = &s[lo..hi];
    proof {
        lemma_leading_word(s@.skip(lo as int), hi - lo);
        assert(s@.skip(lo as int).take(hi - lo) =~= word@);
    }
    Some(word)
}

/// Behind its own prefix stands the rest.
pub proof fn lemma_after_own_prefix(p: Seq<char>, rest: Seq<char>)
    ensures
        after_prefix(p + rest, p) == Some(rest),
{
    assert((p + rest).take(p.len() as int) =~= p);
    assert((p + rest).skip(p.len() as int) =~= rest);
}

/// Whether `c` does not stand in `s`.
pub open spec fn lacks(s: Seq<char>, c: char) -> bool {
    forall|i: int| 0 <= i < s.len() ==> #[trigger] s[i] != c
}

/// A text without a separator is one piece.
pub proof fn lemma_split_one(s: Seq<char>, sep: char)
    requires
        lacks(s, sep),
    ensures
        split_at(s, sep) == seq![s],
{
    lemma_position(s, sep, s.len() as int);
}

/// The pieces of two texts with a separator between them are the pieces of
/// both.
pub proof fn lemma_split_two(a: Seq<char>, b: Seq<char>, sep: char)
    ensures
        split_at(a.push(sep) + b, sep) == split_at(a, sep) + split_at(b, sep),
    decreases a.len(),
{
    let s = a.push(sep) + b;
    if lacks(a, sep) {
        lemma_split_one(a, sep);
        assert forall|j: int| 0 <= j < a.len() implies s[j] != sep by {
            assert(s[j] == a[j]);
        }
        lemma_position(s, sep, a.len() as int);
        assert(s.take(a.len() as int) =~= a);
        assert(s.skip(a.len() as int + 1) =~= b);
    } else {
        let p = position(a, sep);
        lemma_position_found(a, sep);
        assert forall|j: int| 0 <= j < p implies s[j] != sep by {
            assert(s[j] == a[j]);
        }
        assert(s[p] == a[p]);
        lemma_position(s, sep, p);
        assert(s.take(p) =~= a.take(p));
        assert(s.skip(p + 1) =~= a.skip(p + 1).push(sep) + b);
        lemma_split_two(a.skip(p + 1), b, sep);
        assert(split_at(s, sep) =~= split_at(a, sep) + split_at(b, sep));
    }
}

/// Where a character stands in a text, `position` finds it.
pub proof fn lemma_position_found(s: Seq<char>, c: char)
    ensures
        0 <= position(s, c) <= s.len(),
        forall|j: int| 0 <= j < position(s, c) ==> s[j] != c,
        position(s, c) < s.len() ==> s[position(s, c)] == c,
        position(s, c) == s.len() ==> lacks(s, c),
    decreases s.len(),
{
    if s.len() > 0 && s.first() != c {
        let rest = s.drop_first();
        lemma_position_found(rest, c);
        let p = position(s, c);
        assert forall|j: int| 0 <= j < p implies s[j] != c by {
            if j > 0 {
                assert(rest[j - 1] == s[j]);
            }
        }
        if p < s.len() {
            assert(rest[p - 1] == s[p]);
        }
    }
}

/// Whether `s` is white space and nothing else.
pub open spec fn is_blank(s: Seq<char>) -> bool {
    forall|i: int| 0 <= i < s.len() ==> is_white_space(#[trigger] s[i])
}

/// White space around a text is trimmed away.
pub proof fn lemma_trimmed_around(before: Seq<char>, s: Seq<char>, after: Seq<char>)
    requires
        is_blank(before),
        is_blank(after),
    ensures
        trimmed(before + s + after) == trimmed(s),
    decreases before.len() + s.len() + after.len(),
{
    let all = before + s + after;
    if before.len() > 0 {
        assert(all.first() == before[0]);
        assert(all.drop_first() =~= before.drop_first() + s + after);
        assert(is_blank(before.drop_first()));
        lemma_trimmed_around(before.drop_first(), s, after);
    } else if s.len() > 0 && is_white_space(s.first()) {
        assert(all.first() == s.first());
        assert(all.drop_first() =~= before + s.drop_first() + after);
        lemma_trimmed_around(before, s.drop_first(), after);
    } else if s.len() == 0 && after.len() > 0 {
        assert(all.first() == after[0]);
        assert(all.drop_first() =~= before + s + after.drop_first());
        assert(is_blank(after.drop_first()));
        lemma_trimmed_around(before, s, after.drop_first());
    } else if after.len() > 0 {
        assert(all.first() == s.first());
        assert(all.last() == after[after.len() - 1]);
        assert(all.drop_last() =~= before + s + after.drop_last());
        assert(is_blank(after.drop_last()));
        lemma_trimmed_around(before, s, after.drop_last());
    } else {
        assert(all =~= s);
    }
}

/// A text that begins with no white space is cut behind its last character
/// that is none.
pub proof fn lemma_trimmed_behind(s: Seq<char>) -> (n: int)
    requires
        s.len() > 0,
        !is_white_space(s.first()),
    ensures
        1 <= n <= s.len(),
        trimmed(s) == s.take(n),
        !is_white_space(s[n - 1]),
        is_blank(s.skip(n)),
    decreases s.len(),
{
    if is_white_space(s.last()) {
        let rest = s.drop_last();
        assert(rest.first() == s.first());
        let n = lemma_trimmed_behind(rest);
        assert(rest.take(n) =~= s.take(n));
        assert forall|i: int| 0 <= i < s.skip(n).len() implies is_white_space(
            #[trigger] s.skip(n)[i],
        ) by {
            if i < rest.skip(n).len() {
                assert(rest.skip(n)[i] == s.skip(n)[i]);
            } else {
                assert(s.skip(n)[i] == s.last());
            }
        }
        n
    } else {
        assert(s.take(s.len() as int) =~= s);
        s.len() as int
    }
}

/// Whether every line of `s` has its end.
pub open spec fn is_whole_lines(s: Seq<char>) -> bool {
    s.len() == 0 || s.last() == '\n'
}

/// The lines of two texts, of which the first ends with a line, are the lines
/// of both.
pub proof fn lemma_lines_both(a: Seq<char>, b: Seq<char>)
    requires
        is_whole_lines(a),
    ensures
        lines_of(a + b) == lines_of(a) + lines_of(b),
    decreases a.len(),
{
    if a.len() == 0 {
        assert(a + b =~= b);
        assert(lines_of(a) + lines_of(b) =~= lines_of(b));
    } else {
        let s = a + b;
        let p = position(a, '\n');
        lemma_position_found(a, '\n');
        assert(a[a.len() - 1] == '\n');
        assert forall|j: int| 0 <= j < p implies s[j] != '\n' by {
            assert(s[j] == a[j]);
        }
        assert(s[p] == a[p]);
        lemma_position(s, '\n', p);
        let rest = a.skip(p + 1);
        assert(s.take(p) =~= a.take(p));
        assert(s.skip(p + 1) =~= rest + b);
        lemma_lines_both(rest, b);
        assert(lines_of(s) =~= lines_of(a) + lines_of(b));
    }
}

/// A text without a line feed, and one behind it, is one line.
pub proof fn lemma_one_line(line: Seq<char>)
    requires
        lacks(line, '\n'),
    ensures
        is_whole_lines(line.push('\n')),
        lines_of(line.push('\n')) == seq![without_cr(line)],
{
    let s = line.push('\n');
    assert forall|j: int| 0 <= j < line.len() implies s[j] != '\n' by {
        assert(s[j] == line[j]);
    }
    lemma_position(s, '\n', line.len() as int);
    assert(s.take(line.len() as int) =~= line);
    let rest = s.skip(line.len() as int + 1);
    assert(rest.len() == 0);
    assert(lines_of(rest) == Seq::<Seq<char>>::empty());
    assert(lines_of(s) =~= seq![without_cr(line)]);
}

/// The digit of value `d`, in lower case.
pub open spec fn digit(d: nat) -> char {
    if d == 0 {
        '0'
    } else if d == 1 {
        '1'
    } else if d == 2 {
        '2'
    } else if d == 3 {
        '3'
    } else if d == 4 {
        '4'
    } else if d == 5 {
        '5'
    } else if d == 6 {
        '6'
    } else if d == 7 {
        '7'
    } else if d == 8 {
        '8'
    } else if d == 9 {
        '9'
    } else if d == 10 {
        'a'
    } else if d == 11 {
        'b'
    } else if d == 12 {
        'c'
    } else if d == 13 {
        'd'
    } else if d == 14 {
        'e'
    } else {
        'f'
    }
}

/// The digit of value `d`, in lower case.
fn digit_of(d: u8) -> (c: char)
    requires
        d < 16,
    ensures
        c == digit(d as nat),
{
    match d {
        0 => '0',
        1 => '1',
        2 => '2',
        3 => '3',
        4 => '4',
        5 => '5',
        6 => '6',
        7 => '7',
        8 => '8',
        9 => '9',
        10 => 'a',
        11 => 'b',
        12 => 'c',
        13 => 'd',
        14 => 'e',
        _ => 'f',
    }
}

/// `n` in base ten, without leading zeros.
pub open spec fn decimal(n: nat) -> Seq<char>
    decreases n,
{
    if n < 10 {
        seq![digit(n)]
    } else {
        decimal(n / 10).push(digit(n % 10))
    }
}

/// `n` in base ten, with a minus sign where it is negative.
pub open spec fn signed_decimal(n: int) -> Seq<char> {
    if n < 0 {
        seq!['-'] + decimal((-n) as nat)
    } else {
        decimal(n as nat)
    }
}

/// `n` in base sixteen, in lower case, without leading zeros.
pub open spec fn hexadecimal(n: nat) -> Seq<char>
    decreases n,
{
    if n < 16 {
        seq![digit(n)]
    } else {
        hexadecimal(n / 16).push(digit(n % 16))
    }
}

/// Two digits in base sixteen for each byte.
pub open spec fn hex_of_bytes(bytes: Seq<u8>) -> Seq<char>
    decreases bytes.len(),
{
    if bytes.len() == 0 {
        seq![]
    } else {
        hex_of_bytes(bytes.drop_last()).push(digit((bytes.last() / 16) as nat)).push(
            digit((bytes.last() % 16) as nat),
        )
    }
}

/// There are two digits for each byte.
pub proof fn lemma_hex_len(bytes: Seq<u8>)
    ensures
        hex_of_bytes(bytes).len() == 2 * bytes.len(),
    decreases bytes.len(),
{
    if bytes.len() > 0 {
        lemma_hex_len(bytes.drop_last());
    }
}

/// Puts `n` in base ten behind the characters of `out`.
pub fn push_decimal(out: &mut String, n: u64)
    ensures
        final(out)@ == old(out)@ + decimal(n as nat),
    decreases n,
{
    let ghost before = out@;
    if n >= 10 {
        push_decimal(out, n / 10);
    } else {
        assert(before + Seq::<char>::empty() =~= before);
    }
    out.push(digit_of((n % 10) as u8));
    assert(out@ =~= before + decimal(n as nat));
}

/// Puts `n` in base ten, with its sign, behind the characters of `out`.
pub fn push_signed(out: &mut String, n: i64)
    ensures
        final(out)@ == old(out)@ + signed_decimal(n as int),
{
    let ghost before = out@;
    if n < 0 {
        out.push('-');
        push_decimal(out, (-(n + 1)) as u64 + 1);
    } else {
        push_decimal(out, n as u64);
    }
    assert(out@ =~= before + signed_decimal(n as int));
}

/// Puts `n` in base sixteen behind the characters of `out`.
pub fn push_hex(out: &mut String, n: u32)
    ensures
        final(out)@ == old(out)@ + hexadecimal(n as nat),
    decreases n,
{
    let ghost before = out@;
    if n >= 16 {
        push_hex(out, n / 16);
    } else {
        assert(before + Seq::<char>::empty() =~= before);
    }
    out.push(digit_of((n % 16) as u8));
    assert(out@ =~= before + hexadecimal(n as nat));
}

/// Two digits in base sixteen for each byte.
pub fn hex_text(bytes: &[u8]) -> (out: String)
    ensures
        out@ == hex_of_bytes(bytes@),
{
    let mut out = String::new();
    let mut i: usize = 0;
    while i < bytes.len()
        invariant
            i <= bytes.len(),
            out@ == hex_of_bytes(bytes@.take(i as int)),
        decreases bytes.len() - i,
    {
        let b: u8 = bytes[i];
        out.push(digit_of(b / 16));
        out.push(digit_of(b % 16));
        assert(bytes@.take(i + 1).drop_last() =~= bytes@.take(i as int));
        i += 1;
    }
    assert(bytes@.take(bytes@.len() as int) =~= bytes@);
    out
}

/// Whether `c` is one of the ten digits.
pub open spec fn is_digit(c: char) -> bool {
    '0' <= c <= '9'
}

/// Whether `s` is made of digits alone.
pub open spec fn all_digits(s: Seq<char>) -> bool {
    forall|i: int| 0 <= i < s.len() ==> is_digit(#[trigger] s[i])
}

/// The number that the digits `s` write in base ten.
pub open spec fn decimal_value(s: Seq<char>) -> int
    decreases s.len(),
{
    if s.len() == 0 {
        0
    } else {
        10 * decimal_value(s.drop_last()) + (s.last() as int - '0' as int)
    }
}

/// The digits of a number that may begin with a plus sign.
pub open spec fn unsigned_digits(s: Seq<char>) -> Seq<char> {
    if s.len() > 0 && s.first() == '+' {
        s.drop_first()
    } else {
        s
    }
}

/// The number of sixteen bits that `s` writes in base ten: digits, at least
/// one, behind at most one plus sign.
pub open spec fn u16_of(s: Seq<char>) -> Option<u16> {
    let d = unsigned_digits(s);
    if d.len() > 0 && all_digits(d) && decimal_value(d) <= u16::MAX {
        Some(decimal_value(d) as u16)
    } else {
        None
    }
}

/// More digits write no smaller number.
proof fn lemma_decimal_value_grows(s: Seq<char>, n: int)
    requires
        all_digits(s),
        0 <= n <= s.len(),
    ensures
        0 <= decimal_value(s.take(n)) <= decimal_value(s),
    decreases s.len(),
{
    if n < s.len() {
        let head = s.drop_last();
        assert(all_digits(head)) by {
            assert forall|i: int| 0 <= i < head.len() implies is_digit(#[trigger] head[i]) by {
                assert(head[i] == s[i]);
            }
        }
        lemma_decimal_value_grows(head, n);
        assert(head.take(n) =~= s.take(n));
        assert(is_digit(s[s.len() - 1]));
    } else {
        assert(s.take(n) =~= s);
        if s.len() > 0 {
            let head = s.drop_last();
            assert(all_digits(head)) by {
                assert forall|i: int| 0 <= i < head.len() implies is_digit(#[trigger] head[i]) by {
                    assert(head[i] == s[i]);
                }
            }
            lemma_decimal_value_grows(head, 0);
            assert(head.take(0) =~= Seq::<char>::empty());
            assert(is_digit(s[s.len() - 1]));
        }
    }
}

/// The number of sixteen bits that `s` writes in base ten.
pub fn parse_u16(s: &[char]) -> (r: Option<u16>)
    ensures
        r == u16_of(s@),
{
    let start: usize = if s.len() > 0 && s[0] == '+' {
        1
    } else {
        0
    };
    let ghost d = unsigned_digits(s@);
    assert(d =~= s@.skip(start as int));
    if start == s.len() {
        return None;
    }
    let mut n: u32 = 0;
    let mut i: usize = start;
    assert(d.take(0) =~= Seq::<char>::empty());
    while i < s.len()
        invariant
            start <= i <= s.len(),
            d == s@.skip(start as int),
            d == unsigned_digits(s@),
            all_digits(d.take(i - start)),
            n == decimal_value(d.take(i - start)),
            n <= 0xffff,
        decreases s.len() - i,
    {
        let c: char = s[i];
        let ghost k = i - start;
        assert(d[k] == c);
        if c < '0' || c > '9' {
            assert(!is_digit(d[k]));
            return None;
        }
        n = n * 10 + (c as u32 - '0' as u32);
        i += 1;
        proof {
            assert(d.take(k + 1).drop_last() =~= d.take(k));
            assert(all_digits(d.take(k + 1))) by {
                assert forall|j: int| 0 <= j < k + 1 implies is_digit(
                    #[trigger] d.take(k + 1)[j],
                ) by {
                    if j < k {
                        assert(d.take(k)[j] == d.take(k + 1)[j]);
                    }
                }
            }
        }
        if n > 0xffff {
            proof {
                if all_digits(d) {
                    lemma_decimal_value_grows(d, k + 1);
                }
            }
            return None;
        }
    }
    assert(d.take(d.len() as int) =~= d);
    Some(n as u16)
}

/// What `decimal` writes are digits, and they are read back as the number.
pub proof fn lemma_decimal(n: nat)
    ensures
        decimal(n).len() > 0,
        all_digits(decimal(n)),
        decimal_value(decimal(n)) == n,
    decreases n,
{
    if n >= 10 {
        lemma_decimal(n / 10);
        let d = decimal(n);
        assert(d.drop_last() =~= decimal(n / 10));
        assert forall|i: int| 0 <= i < d.len() implies is_digit(#[trigger] d[i]) by {
            if i < d.len() - 1 {
                assert(d[i] == decimal(n / 10)[i]);
            }
        }
    } else {
        let d = decimal(n);
        assert(d.drop_last() =~= Seq::<char>::empty());
        assert(decimal_value(d.drop_last()) == 0);
    }
}

/// A port is read back from what is written of it.
pub proof fn port_round_trip(port: u16)
    ensures
        u16_of(decimal(port as nat)) == Some(port),
{
    lemma_decimal(port as nat);
    let d = decimal(port as nat);
    assert(is_digit(d[0]));
}

/// The first word is found behind white space, and ends before the next.
pub proof fn lemma_first_word(space: Seq<char>, word: Seq<char>, rest: Seq<char>)
    requires
        is_blank(space),
        word.len() > 0,
        forall|i: int| 0 <= i < word.len() ==> !is_white_space(#[trigger] word[i]),
        rest.len() > 0 ==> is_white_space(rest[0]),
    ensures
        first_word_of(space + word + rest) == Some(word),
    decreases space.len(),
{
    let all = space + word + rest;
    if space.len() > 0 {
        assert(all.first() == space[0]);
        assert(all.drop_first() =~= space.drop_first() + word + rest);
        assert(is_blank(space.drop_first()));
        lemma_first_word(space.drop_first(), word, rest);
    } else {
        assert(all =~= word + rest);
        assert(all.first() == word[0]);
        assert forall|j: int| 0 <= j < word.len() implies !is_white_space(#[trigger] all[j]) by {
            assert(all[j] == word[j]);
        }
        lemma_leading_word(all, word.len() as int);
        assert(all.take(word.len() as int) =~= word);
    }
}

/// What is white space has no word.
pub proof fn blank_text_has_no_word(s: Seq<char>)
    requires
        is_blank(s),
    ensures
        first_word_of(s) is None,
        trimmed(s).len() == 0,
    decreases s.len(),
{
    if s.len() > 0 {
        assert(is_white_space(s[0]));
        assert(is_blank(s.drop_first()));
        blank_text_has_no_word(s.drop_first());
    }
}

/// The characters that are white space.
pub open spec fn white_space_characters() -> Seq<char> {
    seq![
        '\u{9}',
        '\u{a}',
        '\u{b}',
        '\u{c}',
        '\u{d}',
        '\u{20}',
        '\u{85}',
        '\u{a0}',
        '\u{1680}',
        '\u{2000}',
        '\u{2001}',
        '\u{2002}',
        '\u{2003}',
        '\u{2004}',
        '\u{2005}',
        '\u{2006}',
        '\u{2007}',
        '\u{2008}',
        '\u{2009}',
        '\u{200a}',
        '\u{2028}',
        '\u{2029}',
        '\u{202f}',
        '\u{205f}',
        '\u{3000}',
    ]
}

/// White space is these characters and no others.
pub proof fn white_space_is_known(c: char)
    ensures
        is_white_space(c) <==> white_space_characters().contains(c),
{
    let all = white_space_characters();
    let u = c as u32;
    if is_white_space(c) {
        let i: int = if u <= 0x0d {
            u - 9
        } else if u == 0x20 {
            5
        } else if u == 0x85 {
            6
        } else if u == 0xa0 {
            7
        } else if u == 0x1680 {
            8
        } else if u <= 0x200a {
            9 + (u - 0x2000)
        } else if u == 0x2028 {
            20
        } else if u == 0x2029 {
            21
        } else if u == 0x202f {
            22
        } else if u == 0x205f {
            23
        } else {
            24
        };
        assert(all[i] == c);
    }
}

/// Trimming takes white space away at the two ends, all of it, and nothing else.
pub proof fn trimming_takes_white_space_from_the_ends(s: Seq<char>) -> (ends: (Seq<char>, Seq<char>))
    ensures
        s == ends.0 + trimmed(s) + ends.1,
        is_blank(ends.0),
        is_blank(ends.1),
        trimmed(s).len() > 0 ==> !is_white_space(trimmed(s)[0]) && !is_white_space(
            trimmed(s).last(),
        ),
    decreases s.len(),
{
    let empty = Seq::<char>::empty();
    if s.len() > 0 && is_white_space(s.first()) {
        let ends = trimming_takes_white_space_from_the_ends(s.drop_first());
        let before = seq![s.first()] + ends.0;
        assert(s =~= seq![s.first()] + s.drop_first());
        assert(s =~= before + trimmed(s) + ends.1);
        (before, ends.1)
    } else if s.len() > 0 && is_white_space(s.last()) {
        let ends = trimming_takes_white_space_from_the_ends(s.drop_last());
        let after = ends.1.push(s.last());
        assert(s =~= s.drop_last().push(s.last()));
        assert(s =~= ends.0 + trimmed(s) + after);
        (ends.0, after)
    } else {
        assert(s =~= empty + trimmed(s) + empty);
        (empty, empty)
    }
}

/// Pieces with the separator between them.
pub open spec fn joined(pieces: Seq<Seq<char>>, sep: char) -> Seq<char>
    decreases pieces.len(),
{
    if pieces.len() == 0 {
        seq![]
    } else if pieces.len() == 1 {
        pieces[0]
    } else {
        pieces[0].push(sep) + joined(pieces.drop_first(), sep)
    }
}

/// The pieces of a text hold no separator, and with separators between them they
/// are the text.
pub proof fn pieces_make_the_text(s: Seq<char>, sep: char)
    ensures
        split_at(s, sep).len() > 0,
        joined(split_at(s, sep), sep) == s,
        forall|i: int| 0 <= i < split_at(s, sep).len() ==> lacks(#[trigger] split_at(s, sep)[i], sep),
    decreases s.len(),
{
    let p = position(s, sep);
    lemma_position_found(s, sep);
    let pieces = split_at(s, sep);
    if p < s.len() {
        let rest = s.skip(p + 1);
        pieces_make_the_text(rest, sep);
        assert(pieces.drop_first() =~= split_at(rest, sep));
        assert(pieces[0] == s.take(p));
        assert(joined(pieces, sep) =~= s);
        assert forall|i: int| 0 <= i < pieces.len() implies lacks(#[trigger] pieces[i], sep) by {
            if i > 0 {
                assert(pieces[i] == split_at(rest, sep)[i - 1]);
            }
        }
    } else {
        assert(pieces =~= seq![s]);
    }
}

/// A text is cut at the first separator, and only where it has one.
pub proof fn a_text_is_cut_at_the_first_separator(s: Seq<char>, sep: char)
    ensures
        cut_at(s, sep) is None <==> lacks(s, sep),
        cut_at(s, sep) matches Some((a, b)) ==> s == a + seq![sep] + b && lacks(a, sep),
{
    lemma_position_found(s, sep);
    let p = position(s, sep);
    if p < s.len() {
        assert(s =~= s.take(p) + seq![sep] + s.skip(p + 1));
        assert(!lacks(s, sep)) by {
            assert(s[p] == sep);
        }
    }
}

/// What stands behind a prefix is the rest of the text, and there is a rest only
/// behind a prefix.
pub proof fn a_prefix_is_told_by_its_rest(s: Seq<char>, p: Seq<char>)
    ensures
        after_prefix(s, p) matches Some(rest) ==> s == p + rest,
        after_prefix(s, p) is Some <==> p.is_prefix_of(s),
{
    if p.len() <= s.len() {
        assert(s.take(p.len() as int) == s.subrange(0, p.len() as int));
        if s.take(p.len() as int) == p {
            assert(s =~= p + s.skip(p.len() as int));
        }
    }
}

/// The digits in the order of their values.
pub open spec fn digits() -> Seq<char> {
    "0123456789abcdef"@
}

/// The place of a digit is its value.
pub proof fn digits_stand_at_their_values(d: nat)
    requires
        d < 16,
    ensures
        digits().len() == 16,
        digit(d) == digits()[d as int],
{
    reveal_strlit("0123456789abcdef");
}

/// The number that digits write in base sixteen.
pub open spec fn hexadecimal_value(s: Seq<char>) -> int
    decreases s.len(),
{
    if s.len() == 0 {
        0
    } else {
        16 * hexadecimal_value(s.drop_last()) + digits().index_of(s.last())
    }
}

proof fn lemma_digit_index(d: nat)
    requires
        d < 16,
    ensures
        digits().index_of(digit(d)) == d,
{
    reveal_strlit("0123456789abcdef");
    let all = digits();
    assert(all[d as int] == digit(d));
    let i = all.index_of(digit(d));
    assert(all.contains(digit(d)));
    assert(0 <= i < 16 && all[i] == digit(d));
}

/// A number is read back from what is written of it in base sixteen, and is
/// written without leading zeros.
pub proof fn a_number_is_written_in_base_sixteen(n: nat)
    ensures
        hexadecimal_value(hexadecimal(n)) == n,
        hexadecimal(n).len() > 0,
        n > 0 ==> hexadecimal(n)[0] != '0',
    decreases n,
{
    let s = hexadecimal(n);
    lemma_digit_index(n % 16);
    if n >= 16 {
        a_number_is_written_in_base_sixteen(n / 16);
        assert(s.drop_last() =~= hexadecimal(n / 16));
        assert(s[0] == hexadecimal(n / 16)[0]);
    } else {
        assert(s.drop_last() =~= seq![]);
        assert(hexadecimal_value(s.drop_last()) == 0);
    }
}

/// The same in base ten, with a minus sign before what is negative.
pub proof fn a_number_is_written_in_base_ten(n: int)
    ensures
        n >= 0 ==> decimal_value(signed_decimal(n)) == n && all_digits(signed_decimal(n)),
        n > 0 ==> signed_decimal(n)[0] != '0',
        n < 0 ==> signed_decimal(n)[0] == '-' && signed_decimal(n).skip(1) == signed_decimal(-n),
{
    if n >= 0 {
        lemma_decimal(n as nat);
        lemma_no_leading_zero(n as nat);
    } else {
        lemma_decimal((-n) as nat);
        assert(signed_decimal(n).skip(1) =~= signed_decimal(-n));
    }
}

proof fn lemma_no_leading_zero(n: nat)
    ensures
        decimal(n).len() > 0,
        n > 0 ==> decimal(n)[0] != '0',
    decreases n,
{
    if n >= 10 {
        lemma_no_leading_zero(n / 10);
        assert(decimal(n)[0] == decimal(n / 10)[0]);
    }
}

/// Each byte is written by the digits of its two halves.
pub proof fn bytes_are_written_by_their_halves(bytes: Seq<u8>, i: int)
    requires
        0 <= i < bytes.len(),
    ensures
        hex_of_bytes(bytes).len() == 2 * bytes.len(),
        hex_of_bytes(bytes)[2 * i] == digits()[bytes[i] as int / 16],
        hex_of_bytes(bytes)[2 * i + 1] == digits()[bytes[i] as int % 16],
    decreases bytes.len(),
{
    lemma_hex_len(bytes);
    lemma_hex_len(bytes.drop_last());
    digits_stand_at_their_values((bytes[i] / 16) as nat);
    digits_stand_at_their_values((bytes[i] % 16) as nat);
    if i < bytes.len() - 1 {
        bytes_are_written_by_their_halves(bytes.drop_last(), i);
    }
}

/// A port may be written with a plus sign and leading zeros; what holds anything
/// but digits, or is too large, is none.
pub proof fn a_port_is_a_number_of_sixteen_bits(s: Seq<char>, n: nat, i: int)
    ensures
        n <= 65_535 ==> u16_of(decimal(n)) == Some(n as u16) && u16_of(seq!['+'] + decimal(n))
            == Some(n as u16),
        n > 65_535 ==> u16_of(decimal(n)) is None,
        u16_of(s) is Some ==> s.len() > 0 && (0 < i < s.len() ==> is_digit(s[i])) && (is_digit(
            s[0],
        ) || s[0] == '+'),
        u16_of(seq![]) is None,
        u16_of(seq!['+']) is None,
        s.len() > 0 && all_digits(s) ==> u16_of(seq!['0'] + s) == u16_of(s),
{
    lemma_decimal(n);
    assert(is_digit(decimal(n)[0]));
    assert((seq!['+'] + decimal(n)).drop_first() =~= decimal(n));
    assert(seq!['+'].drop_first() =~= seq![]);
    let d = unsigned_digits(s);
    if u16_of(s) is Some {
        if s[0] == '+' {
            assert(0 < i < s.len() ==> is_digit(d[i - 1]));
        } else {
            assert(is_digit(d[0]));
        }
    }
    if s.len() > 0 && all_digits(s) {
        assert(is_digit(s[0]));
        lemma_leading_zero(s);
        let z = seq!['0'] + s;
        assert(all_digits(z)) by {
            assert forall|j: int| 0 <= j < z.len() implies is_digit(#[trigger] z[j]) by {
                if j > 0 {
                    assert(z[j] == s[j - 1]);
                }
            }
        }
    }
}

proof fn lemma_leading_zero(s: Seq<char>)
    ensures
        decimal_value(seq!['0'] + s) == decimal_value(s),
    decreases s.len(),
{
    let z = seq!['0'] + s;
    if s.len() == 0 {
        assert(z.drop_last() =~= seq![]);
        assert(decimal_value(z.drop_last()) == 0);
    } else {
        assert(z.drop_last() =~= seq!['0'] + s.drop_last());
        lemma_leading_zero(s.drop_last());
    }
}

/// Stripping takes a character away at the two ends, as often as it stands there,
/// and nothing else.
pub proof fn stripping_takes_a_character_from_the_ends(s: Seq<char>, c: char) -> (ends: (nat, nat))
    ensures
        s == Seq::new(ends.0, |i: int| c) + stripped(s, c) + Seq::new(ends.1, |i: int| c),
        stripped(s, c).len() > 0 ==> stripped(s, c)[0] != c && stripped(s, c).last() != c,
    decreases s.len(),
{
    if s.len() > 0 && s.first() == c {
        let ends = stripping_takes_a_character_from_the_ends(s.drop_first(), c);
        let more = ((ends.0 + 1) as nat, ends.1);
        assert(s =~= seq![c] + s.drop_first());
        assert(s =~= Seq::new(more.0, |i: int| c) + stripped(s, c) + Seq::new(more.1, |i: int| c));
        more
    } else if s.len() > 0 && s.last() == c {
        let ends = stripping_takes_a_character_from_the_ends(s.drop_last(), c);
        let more = (ends.0, (ends.1 + 1) as nat);
        assert(s =~= s.drop_last().push(c));
        assert(s =~= Seq::new(more.0, |i: int| c) + stripped(s, c) + Seq::new(more.1, |i: int| c));
        more
    } else {
        let ends = (0nat, 0nat);
        assert(s =~= Seq::new(ends.0, |i: int| c) + stripped(s, c) + Seq::new(ends.1, |i: int| c));
        ends
    }
}

/// The lines of a text are told one by one: each ends at a line feed, with or
/// without a carriage return before it, and the last may lack its end.
pub proof fn lines_are_told_one_by_one(line: Seq<char>, rest: Seq<char>)
    requires
        lacks(line, '\n'),
        line.len() > 0 ==> line.last() != '\r',
    ensures
        lines_of(line + seq!['\n'] + rest) == seq![line] + lines_of(rest),
        lines_of(line + seq!['\r', '\n'] + rest) == seq![line] + lines_of(rest),
        line.len() > 0 ==> lines_of(line) == seq![line],
        lines_of(seq![]) == Seq::<Seq<char>>::empty(),
{
    let cr = line.push('\r');
    assert(lacks(cr, '\n')) by {
        assert forall|i: int| 0 <= i < cr.len() implies #[trigger] cr[i] != '\n' by {
            if i < line.len() {
                assert(cr[i] == line[i]);
            }
        }
    }
    lemma_one_line(line);
    lemma_one_line(cr);
    assert(without_cr(cr) =~= line);
    lemma_lines_both(line.push('\n'), rest);
    lemma_lines_both(cr.push('\n'), rest);
    assert(line + seq!['\n'] + rest =~= line.push('\n') + rest);
    assert(line + seq!['\r', '\n'] + rest =~= cr.push('\n') + rest);
    lemma_position(line, '\n', line.len() as int);
}

} // verus!
