//! Text helpers: searching, cutting, trimming, decimal numbers and the byte order of names.

use vstd::prelude::*;
use vstd::string::*;
use vstd::utf8::{encode_utf8, encode_utf8_decode_utf8};

verus! {

/// Where `c` first stands in `s`, or the length of `s` where it does not occur.
pub open spec fn position(s: Seq<char>, c: char) -> nat
    decreases s.len(),
{
    if s.len() == 0 || s[0] == c {
        0
    } else {
        1 + position(s.drop_first(), c)
    }
}

/// The part of `s` before the first `c`; all of `s` where `c` does not occur.
pub open spec fn before_first(s: Seq<char>, c: char) -> Seq<char> {
    s.take(position(s, c) as int)
}

/// The part of `s` behind the last `c`; all of `s` where `c` does not occur.
pub open spec fn after_last(s: Seq<char>, c: char) -> Seq<char>
    decreases s.len(),
{
    if s.len() == 0 || s.last() == c {
        Seq::empty()
    } else {
        after_last(s.drop_last(), c).push(s.last())
    }
}

/// The part of `s` behind the first `://`; all of `s` where there is none.
pub open spec fn after_scheme(s: Seq<char>) -> Seq<char> {
    match scheme_end(s) {
        Some(end) => s.skip(end as int),
        None => s,
    }
}

/// The position behind the first `://` of `s`.
pub open spec fn scheme_end(s: Seq<char>) -> Option<nat>
    decreases s.len(),
{
    if s.len() < 3 {
        None
    } else if s[0] == ':' && s[1] == '/' && s[2] == '/' {
        Some(3)
    } else {
        match scheme_end(s.drop_first()) {
            Some(end) => Some(end + 1),
            None => None,
        }
    }
}

/// A position that is preceded by no `c`, and holds `c` unless it is the end, is `position`.
pub proof fn lemma_position_is(s: Seq<char>, c: char, p: nat)
    requires
        p <= s.len(),
        forall|i: int| 0 <= i < p ==> s[i] != c,
        p < s.len() ==> s[p as int] == c,
    ensures
        position(s, c) == p,
    decreases p,
{
    if p > 0 {
        let rest = s.drop_first();
        assert forall|i: int| 0 <= i < p - 1 implies rest[i] != c by {
            assert(rest[i] == s[i + 1]);
        }
        lemma_position_is(rest, c, (p - 1) as nat);
    }
}

/// What `position` says of a text.
pub proof fn lemma_position(s: Seq<char>, c: char)
    ensures
        position(s, c) <= s.len(),
        forall|i: int| 0 <= i < position(s, c) ==> s[i] != c,
        position(s, c) < s.len() ==> s[position(s, c) as int] == c,
    decreases s.len(),
{
    if s.len() > 0 && s[0] != c {
        let rest = s.drop_first();
        lemma_position(rest, c);
        assert forall|i: int| 0 <= i < position(s, c) implies s[i] != c by {
            if i > 0 {
                assert(s[i] == rest[i - 1]);
            }
        }
    }
}

/// The characters of a text.
pub fn chars_of(s: &str) -> (chars: Vec<char>)
    ensures
        chars@ == s@,
{
    let mut chars: Vec<char> = Vec::new();
    for c in it: s.chars()
        invariant
            chars@ == it.seq().take(it.index()),
            it.seq() == s@,
    {
        chars.push(c);
    }
    assert(s@.take(s@.len() as int) == s@);
    chars
}

/// The part of `s` before the first `c`; all of `s` where `c` does not occur.
pub fn cut_before<'a>(s: &'a str, c: char) -> (part: &'a str)
    ensures
        part@ == before_first(s@, c),
{
    let chars = chars_of(s);
    let mut i: usize = 0;
    while i < chars.len() && chars[i] != c
        invariant
            i <= chars.len(),
            chars@ == s@,
            forall|j: int| 0 <= j < i ==> chars@[j] != c,
        decreases chars.len() - i,
    {
        i += 1;
    }
    proof {
        lemma_position_is(s@, c, i as nat);
    }
    let part = s.substring_char(0, i);
    assert(part@ == s@.take(i as int));
    part
}

/// A cut behind which no `c` stands, and before which `c` stands unless it is the start, is
/// the one that `after_last` makes.
pub proof fn lemma_after_last_is(s: Seq<char>, c: char, p: nat)
    requires
        p <= s.len(),
        forall|i: int| p <= i < s.len() ==> s[i] != c,
        p > 0 ==> s[p - 1] == c,
    ensures
        after_last(s, c) == s.skip(p as int),
    decreases s.len(),
{
    if s.len() > 0 && s.last() != c {
        let front = s.drop_last();
        lemma_after_last_is(front, c, p);
        assert(front.skip(p as int).push(s.last()) == s.skip(p as int));
    } else {
        assert(s.skip(p as int) == Seq::<char>::empty());
    }
}

/// The part of `s` behind the last `c`; all of `s` where `c` does not occur.
pub fn cut_after_last<'a>(s: &'a str, c: char) -> (part: &'a str)
    ensures
        part@ == after_last(s@, c),
{
    let chars = chars_of(s);
    let mut i: usize = chars.len();
    while i > 0 && chars[i - 1] != c
        invariant
            i <= chars.len(),
            chars@ == s@,
            forall|j: int| i <= j < chars.len() ==> chars@[j] != c,
        decreases i,
    {
        i -= 1;
    }
    proof {
        lemma_after_last_is(s@, c, i as nat);
    }
    let part = s.substring_char(i, chars.len());
    assert(part@ == s@.skip(i as int));
    part
}

/// Whether `://` stands at position `i` of `s`.
spec fn scheme_mark_at(s: Seq<char>, i: int) -> bool {
    i + 3 <= s.len() && s[i] == ':' && s[i + 1] == '/' && s[i + 2] == '/'
}

proof fn lemma_scheme_end_is(s: Seq<char>, p: nat)
    requires
        p <= s.len(),
        forall|i: int| 0 <= i < p ==> !#[trigger] scheme_mark_at(s, i),
    ensures
        scheme_mark_at(s, p as int) ==> scheme_end(s) == Some(p + 3),
        p + 3 > s.len() ==> scheme_end(s) is None,
    decreases p,
{
    if p > 0 {
        let rest = s.drop_first();
        assert(!scheme_mark_at(s, 0));
        assert forall|i: int| 0 <= i < p - 1 implies !#[trigger] scheme_mark_at(rest, i) by {
            assert(!scheme_mark_at(s, i + 1));
        }
        lemma_scheme_end_is(rest, (p - 1) as nat);
        if scheme_mark_at(s, p as int) {
            assert(scheme_mark_at(rest, p - 1));
        }
    }
}

/// The part of `s` behind the first `://`; all of `s` where there is none.
pub fn cut_scheme<'a>(s: &'a str) -> (part: &'a str)
    ensures
        part@ == after_scheme(s@),
{
    let chars = chars_of(s);
    let n: usize = chars.len();
    let mut i: usize = 0;
    while n - i >= 3
        invariant
            i <= n,
            n == chars.len(),
            chars@ == s@,
            forall|j: int| 0 <= j < i ==> !#[trigger] scheme_mark_at(s@, j),
        decreases n - i,
    {
        if chars[i] == ':' && chars[i + 1] == '/' && chars[i + 2] == '/' {
            proof {
                assert(scheme_mark_at(s@, i as int));
                lemma_scheme_end_is(s@, i as nat);
            }
            let part = s.substring_char(i + 3, n);
            assert(part@ == s@.skip(i + 3));
            return part;
        }
        i += 1;
    }
    proof {
        lemma_scheme_end_is(s@, i as nat);
    }
    s
}

/// Unicode's `White_Space` property.
pub open spec fn is_white_space(c: char) -> bool {
    ||| '\u{9}' <= c <= '\u{d}'
    ||| c == '\u{20}'
    ||| c == '\u{85}'
    ||| c == '\u{a0}'
    ||| c == '\u{1680}'
    ||| '\u{2000}' <= c <= '\u{200a}'
    ||| c == '\u{2028}'
    ||| c == '\u{2029}'
    ||| c == '\u{202f}'
    ||| c == '\u{205f}'
    ||| c == '\u{3000}'
}

/// `s` without the white space at its start.
pub open spec fn trimmed_start(s: Seq<char>) -> Seq<char>
    decreases s.len(),
{
    if s.len() > 0 && is_white_space(s[0]) {
        trimmed_start(s.drop_first())
    } else {
        s
    }
}

/// `s` without the white space at its end.
pub open spec fn trimmed_end(s: Seq<char>) -> Seq<char>
    decreases s.len(),
{
    if s.len() > 0 && is_white_space(s.last()) {
        trimmed_end(s.drop_last())
    } else {
        s
    }
}

/// `s` without the white space at both ends.
pub open spec fn trimmed(s: Seq<char>) -> Seq<char> {
    trimmed_end(trimmed_start(s))
}

fn white_space(c: char) -> (yes: bool)
    ensures
        yes == is_white_space(c),
{
    ('\u{9}' <= c && c <= '\u{d}') || c == '\u{20}' || c == '\u{85}' || c == '\u{a0}'
        || c == '\u{1680}' || ('\u{2000}' <= c && c <= '\u{200a}') || c == '\u{2028}'
        || c == '\u{2029}' || c == '\u{202f}' || c == '\u{205f}' || c == '\u{3000}'
}

proof fn lemma_trimmed_start_is(s: Seq<char>, p: nat)
    requires
        p <= s.len(),
        forall|i: int| 0 <= i < p ==> is_white_space(#[trigger] s[i]),
        p < s.len() ==> !is_white_space(s[p as int]),
    ensures
        trimmed_start(s) == s.skip(p as int),
    decreases p,
{
    if p > 0 {
        let rest = s.drop_first();
        assert(is_white_space(s[0]));
        assert forall|i: int| 0 <= i < p - 1 implies is_white_space(#[trigger] rest[i]) by {
            assert(rest[i] == s[i + 1]);
        }
        lemma_trimmed_start_is(rest, (p - 1) as nat);
        assert(rest.skip(p - 1) == s.skip(p as int));
    } else {
        assert(s.skip(0) == s);
    }
}

proof fn lemma_trimmed_end_is(s: Seq<char>, p: nat)
    requires
        p <= s.len(),
        forall|i: int| p <= i < s.len() ==> is_white_space(#[trigger] s[i]),
        p > 0 ==> !is_white_space(s[p - 1]),
    ensures
        trimmed_end(s) == s.take(p as int),
    decreases s.len(),
{
    if p < s.len() {
        let front = s.drop_last();
        assert(is_white_space(s.last()));
        lemma_trimmed_end_is(front, p);
        assert(front.take(p as int) == s.take(p as int));
    } else {
        assert(s.take(p as int) == s);
    }
}

/// `s` without the white space at both ends.
pub fn trim<'a>(s: &'a str) -> (part: &'a str)
    ensures
        part@ == trimmed(s@),
{
    let chars = chars_of(s);
    let n: usize = chars.len();
    let mut start: usize = 0;
    while start < n && white_space(chars[start])
        invariant
            start <= n,
            n == chars.len(),
            chars@ == s@,
            forall|j: int| 0 <= j < start ==> is_white_space(#[trigger] s@[j]),
        decreases n - start,
    {
        start += 1;
    }
    proof {
        lemma_trimmed_start_is(s@, start as nat);
    }
    let ghost rest = s@.skip(start as int);
    let mut end: usize = n;
    while end > start && white_space(chars[end - 1])
        invariant
            start <= end <= n,
            n == chars.len(),
            chars@ == s@,
            forall|j: int| end <= j < n ==> is_white_space(#[trigger] s@[j]),
        decreases end,
    {
        end -= 1;
    }
    proof {
        assert forall|i: int| end - start <= i < rest.len() implies is_white_space(
            #[trigger] rest[i],
        ) by {
            assert(rest[i] == s@[i + start]);
        }
        lemma_trimmed_end_is(rest, (end - start) as nat);
    }
    let part = s.substring_char(start, end);
    assert(part@ == rest.take(end - start));
    part
}

/// Whether a text is nothing but white space.
pub open spec fn all_white_space(s: Seq<char>) -> bool {
    forall|i: int| 0 <= i < s.len() ==> is_white_space(#[trigger] s[i])
}

/// Trimming undoes padding: it takes away exactly the white space that was put around a text that
/// neither starts nor ends with any.
pub proof fn trimming_undoes_padding(before: Seq<char>, s: Seq<char>, after: Seq<char>)
    requires
        all_white_space(before),
        all_white_space(after),
        s.len() > 0 ==> !is_white_space(s[0]) && !is_white_space(s.last()),
    ensures
        trimmed(before + s + after) == s,
{
    let padded = before + s + after;
    if s.len() == 0 {
        assert forall|i: int| 0 <= i < padded.len() implies is_white_space(#[trigger] padded[i]) by {
            if i < before.len() {
                assert(padded[i] == before[i]);
            } else {
                assert(padded[i] == after[i - before.len()]);
            }
        }
        lemma_trimmed_start_is(padded, padded.len());
        assert(padded.skip(padded.len() as int) =~= s);
    } else {
        assert forall|i: int| 0 <= i < before.len() implies is_white_space(#[trigger] padded[i]) by {
            assert(padded[i] == before[i]);
        }
        assert(padded[before.len() as int] == s[0]);
        lemma_trimmed_start_is(padded, before.len());
        let rest = padded.skip(before.len() as int);
        assert(rest =~= s + after);
        assert forall|i: int| s.len() <= i < rest.len() implies is_white_space(
            #[trigger] rest[i],
        ) by {
            assert(rest[i] == after[i - s.len()]);
        }
        assert(rest[s.len() - 1] == s.last());
        lemma_trimmed_end_is(rest, s.len());
        assert(rest.take(s.len() as int) =~= s);
    }
}

/// Whether `s` starts with `prefix`.
pub open spec fn has_prefix(s: Seq<char>, prefix: Seq<char>) -> bool {
    prefix.len() <= s.len() && s.take(prefix.len() as int) == prefix
}

/// Whether two texts hold the same characters.
pub fn same_text(a: &str, b: &str) -> (same: bool)
    ensures
        same == (a@ == b@),
{
    a.to_owned() == b.to_owned()
}

/// Whether `s` starts with `prefix`.
pub fn starts_with(s: &str, prefix: &str) -> (yes: bool)
    ensures
        yes == has_prefix(s@, prefix@),
{
    let n: usize = prefix.unicode_len();
    if s.unicode_len() < n {
        return false;
    }
    let head = s.substring_char(0, n);
    assert(head@ == s@.take(n as int));
    same_text(head, prefix)
}

/// The decimal digit `d`.
pub open spec fn digit(d: nat) -> Seq<char> {
    seq![(('0' as nat) + d) as char]
}

/// `n` in decimal, without leading zeros.
pub open spec fn decimal_text(n: nat) -> Seq<char>
    decreases n,
{
    if n < 10 {
        digit(n)
    } else {
        decimal_text(n / 10) + digit(n % 10)
    }
}

/// A decimal number holds digits only, at least one.
pub proof fn lemma_decimal_digits(n: nat)
    ensures
        decimal_text(n).len() > 0,
        forall|i: int|
            0 <= i < decimal_text(n).len() ==> '0' <= #[trigger] decimal_text(n)[i] <= '9',
    decreases n,
{
    if n >= 10 {
        lemma_decimal_digits(n / 10);
    }
}

/// Different numbers have different decimal texts.
pub proof fn decimals_differ(a: nat, b: nat)
    requires
        a != b,
    ensures
        decimal_text(a) != decimal_text(b),
    decreases a,
{
    lemma_decimal_digits(a / 10);
    lemma_decimal_digits(b / 10);
    let x = decimal_text(a);
    let y = decimal_text(b);
    if x == y {
        assert(x.last() == digit(a % 10)[0]);
        assert(y.last() == digit(b % 10)[0]);
        assert(a % 10 == b % 10);
        if a >= 10 && b >= 10 {
            assert(x.drop_last() =~= decimal_text(a / 10));
            assert(y.drop_last() =~= decimal_text(b / 10));
            decimals_differ(a / 10, b / 10);
        } else {
            assert(x.len() == 1 <==> a < 10);
            assert(y.len() == 1 <==> b < 10);
        }
    }
}

fn digit_of(d: u64) -> (text: &'static str)
    requires
        d < 10,
    ensures
        text@ == digit(d as nat),
{
    proof {
        reveal_strlit("0");
        reveal_strlit("1");
        reveal_strlit("2");
        reveal_strlit("3");
        reveal_strlit("4");
        reveal_strlit("5");
        reveal_strlit("6");
        reveal_strlit("7");
        reveal_strlit("8");
        reveal_strlit("9");
    }
    match d {
        0 => "0",
        1 => "1",
        2 => "2",
        3 => "3",
        4 => "4",
        5 => "5",
        6 => "6",
        7 => "7",
        8 => "8",
        _ => "9",
    }
}

/// `n` in decimal, without leading zeros.
pub fn decimal(n: u64) -> (text: String)
    ensures
        text@ == decimal_text(n as nat),
    decreases n,
{
    if n < 10 {
        digit_of(n).to_owned()
    } else {
        let mut text = decimal(n / 10);
        text.append(digit_of(n % 10));
        text
    }
}

/// The lexicographic order of byte strings.
pub open spec fn bytes_before(a: Seq<u8>, b: Seq<u8>) -> bool
    decreases a.len(),
{
    if b.len() == 0 {
        false
    } else if a.len() == 0 {
        true
    } else if a[0] != b[0] {
        a[0] < b[0]
    } else {
        bytes_before(a.drop_first(), b.drop_first())
    }
}

/// The order of names: that of their UTF-8 bytes.
pub open spec fn name_before(a: Seq<char>, b: Seq<char>) -> bool {
    bytes_before(encode_utf8(a), encode_utf8(b))
}

proof fn lemma_bytes_before_transitive(a: Seq<u8>, b: Seq<u8>, c: Seq<u8>)
    requires
        bytes_before(a, b),
        bytes_before(b, c),
    ensures
        bytes_before(a, c),
    decreases a.len(),
{
    if a.len() > 0 && a[0] == b[0] && b[0] == c[0] {
        lemma_bytes_before_transitive(a.drop_first(), b.drop_first(), c.drop_first());
    }
}

proof fn lemma_bytes_before_total(a: Seq<u8>, b: Seq<u8>)
    ensures
        a == b || bytes_before(a, b) || bytes_before(b, a),
    decreases a.len(),
{
    if a.len() > 0 && b.len() > 0 && a[0] == b[0] {
        lemma_bytes_before_total(a.drop_first(), b.drop_first());
        if a.drop_first() == b.drop_first() {
            assert(a == seq![a[0]] + a.drop_first());
            assert(b == seq![b[0]] + b.drop_first());
        }
    } else if a.len() == 0 && b.len() == 0 {
        assert(a == b);
    }
}

proof fn lemma_bytes_before_irreflexive(a: Seq<u8>)
    ensures
        !bytes_before(a, a),
    decreases a.len(),
{
    if a.len() > 0 {
        lemma_bytes_before_irreflexive(a.drop_first());
    }
}

/// The order of names is transitive.
pub proof fn lemma_name_before_transitive(a: Seq<char>, b: Seq<char>, c: Seq<char>)
    requires
        name_before(a, b),
        name_before(b, c),
    ensures
        name_before(a, c),
{
    lemma_bytes_before_transitive(encode_utf8(a), encode_utf8(b), encode_utf8(c));
}

/// Of two different names one is before the other.
pub proof fn lemma_name_before_total(a: Seq<char>, b: Seq<char>)
    ensures
        a == b || name_before(a, b) || name_before(b, a),
{
    lemma_bytes_before_total(encode_utf8(a), encode_utf8(b));
    encode_utf8_decode_utf8(a);
    encode_utf8_decode_utf8(b);
}

/// No name is before itself.
pub proof fn lemma_name_before_irreflexive(a: Seq<char>)
    ensures
        !name_before(a, a),
{
    lemma_bytes_before_irreflexive(encode_utf8(a));
}

/// Whether `a` is before `b` in the order of names.
pub fn is_name_before(a: &str, b: &str) -> (yes: bool)
    ensures
        yes == name_before(a@, b@),
{
    let x = a.as_bytes();
    let y = b.as_bytes();
    let mut i: usize = 0;
    proof {
        assert(x@.skip(0) == x@);
        assert(y@.skip(0) == y@);
    }
    loop
        invariant
            i <= x@.len(),
            i <= y@.len(),
            x@ == encode_utf8(a@),
            y@ == encode_utf8(b@),
            bytes_before(x@, y@) == bytes_before(x@.skip(i as int), y@.skip(i as int)),
        decreases x@.len() - i,
    {
        if i == y.len() {
            return false;
        }
        if i == x.len() {
            return true;
        }
        if x[i] != y[i] {
            return x[i] < y[i];
        }
        proof {
            assert(x@.skip(i as int).drop_first() == x@.skip(i + 1));
            assert(y@.skip(i as int).drop_first() == y@.skip(i + 1));
        }
        i += 1;
    }
}

/// The bytes of two texts in a row are their bytes in a row.
pub proof fn lemma_encode_concat(a: Seq<char>, b: Seq<char>)
    ensures
        encode_utf8(a + b) == encode_utf8(a) + encode_utf8(b),
    decreases a.len(),
{
    if a.len() == 0 {
        assert(a + b =~= b);
    } else {
        lemma_encode_concat(a.drop_first(), b);
        assert((a + b).drop_first() =~= a.drop_first() + b);
    }
}

/// What stands before the first mark, the mark and the rest make up the text again; a text without
/// the mark is left whole.
pub proof fn cutting_before_a_mark(head: Seq<char>, c: char, rest: Seq<char>)
    requires
        !head.contains(c),
    ensures
        before_first(head + seq![c] + rest, c) == head,
        before_first(head, c) == head,
{
    let s = head + seq![c] + rest;
    assert forall|i: int| 0 <= i < head.len() implies s[i] != c && head[i] != c by {
        assert(head.contains(head[i]));
    }
    lemma_position_is(s, c, head.len());
    lemma_position_is(head, c, head.len());
    assert(s.take(head.len() as int) =~= head);
    assert(head.take(head.len() as int) =~= head);
}

/// What stands behind the last mark is found whatever stands before it; a text without the mark is
/// left whole.
pub proof fn cutting_behind_a_mark(head: Seq<char>, c: char, rest: Seq<char>)
    requires
        !rest.contains(c),
    ensures
        after_last(head + seq![c] + rest, c) == rest,
        after_last(rest, c) == rest,
{
    let s = head + seq![c] + rest;
    let p = head.len() + 1;
    assert(s[p - 1] == c);
    assert forall|i: int| p <= i < s.len() implies s[i] != c by {
        assert(s[i] == rest[i - p]);
    }
    assert forall|i: int| 0 <= i < rest.len() implies rest[i] != c by {
        assert(rest.contains(rest[i]));
    }
    lemma_after_last_is(s, c, p);
    lemma_after_last_is(rest, c, 0);
    assert(s.skip(p as int) =~= rest);
    assert(rest.skip(0) =~= rest);
}

/// What stands behind a scheme is found where the scheme holds no colon, whatever follows; a text
/// without a colon is left whole.
pub proof fn cutting_a_scheme(scheme: Seq<char>, rest: Seq<char>)
    requires
        !scheme.contains(':'),
    ensures
        after_scheme(scheme + seq![':', '/', '/'] + rest) == rest,
        after_scheme(scheme) == scheme,
{
    let s = scheme + seq![':', '/', '/'] + rest;
    assert forall|i: int| 0 <= i < scheme.len() implies !#[trigger] scheme_mark_at(s, i)
        && !scheme_mark_at(scheme, i) by {
        assert(scheme.contains(scheme[i]));
        assert(s[i] == scheme[i]);
    }
    assert(s[scheme.len() as int] == ':');
    assert(s[scheme.len() as int + 1] == '/');
    assert(s[scheme.len() as int + 2] == '/');
    assert(scheme_mark_at(s, scheme.len() as int));
    lemma_scheme_end_is(s, scheme.len());
    lemma_scheme_end_is(scheme, scheme.len());
    assert(s.skip(scheme.len() as int + 3) =~= rest);
}

/// White space is what Unicode calls so: 25 characters, by their numbers.
pub proof fn white_space_by_number(c: char)
    ensures
        is_white_space(c) <==> {
            let n = c as u32;
            ||| 0x9 <= n <= 0xd
            ||| n == 0x20 || n == 0x85 || n == 0xa0 || n == 0x1680
            ||| 0x2000 <= n <= 0x200a
            ||| n == 0x2028 || n == 0x2029 || n == 0x202f || n == 0x205f || n == 0x3000
        },
{
}

/// Trimming twice trims no more, and a text is its trimmed text with white space around it.
pub proof fn trimming_takes_white_space_only(s: Seq<char>) -> (parts: (Seq<char>, Seq<char>))
    ensures
        s == parts.0 + trimmed(s) + parts.1,
        forall|i: int| 0 <= i < parts.0.len() ==> is_white_space(#[trigger] parts.0[i]),
        forall|i: int| 0 <= i < parts.1.len() ==> is_white_space(#[trigger] parts.1[i]),
        trimmed(s).len() > 0 ==> !is_white_space(trimmed(s)[0]) && !is_white_space(
            trimmed(s)[trimmed(s).len() - 1],
        ),
{
    let before = lemma_trimmed_start(s);
    let after = lemma_trimmed_end(trimmed_start(s));
    assert(s =~= before + trimmed(s) + after);
    if trimmed(s).len() > 0 {
        assert(trimmed_start(s)[0] == trimmed(s)[0]);
    }
    (before, after)
}

proof fn lemma_trimmed_start(s: Seq<char>) -> (before: Seq<char>)
    ensures
        s == before + trimmed_start(s),
        all_white_space(before),
        trimmed_start(s).len() > 0 ==> !is_white_space(trimmed_start(s)[0]),
    decreases s.len(),
{
    if s.len() > 0 && is_white_space(s[0]) {
        let before = lemma_trimmed_start(s.drop_first());
        let all = seq![s[0]] + before;
        assert(s =~= seq![s[0]] + s.drop_first());
        assert(s =~= all + trimmed_start(s));
        all
    } else {
        assert(s =~= Seq::<char>::empty() + s);
        Seq::empty()
    }
}

proof fn lemma_trimmed_end(s: Seq<char>) -> (after: Seq<char>)
    ensures
        s == trimmed_end(s) + after,
        all_white_space(after),
        trimmed_end(s).len() > 0 ==> !is_white_space(trimmed_end(s).last()),
    decreases s.len(),
{
    if s.len() > 0 && is_white_space(s.last()) {
        let after = lemma_trimmed_end(s.drop_last());
        let all = after.push(s.last());
        assert(s =~= s.drop_last().push(s.last()));
        assert(s =~= trimmed_end(s) + all);
        all
    } else {
        assert(s =~= s + Seq::<char>::empty());
        Seq::empty()
    }
}

/// A text starts with a prefix exactly where it is the prefix with something behind it.
pub proof fn prefix_is_in_front(s: Seq<char>, prefix: Seq<char>, rest: Seq<char>)
    ensures
        has_prefix(prefix + rest, prefix),
        has_prefix(s, prefix) ==> s == prefix + s.skip(prefix.len() as int),
{
    assert((prefix + rest).take(prefix.len() as int) =~= prefix);
    if has_prefix(s, prefix) {
        assert(s =~= s.take(prefix.len() as int) + s.skip(prefix.len() as int));
    }
}

/// The number that decimal digits stand for.
pub open spec fn number_of(digits: Seq<char>) -> int
    decreases digits.len(),
{
    if digits.len() == 0 {
        0
    } else {
        10 * number_of(digits.drop_last()) + (digits.last() as int - '0' as int)
    }
}

/// A number in decimal reads back as the number; it is digits only, and starts with a zero only
/// where it is zero.
pub proof fn decimal_reads_back(n: nat)
    ensures
        number_of(decimal_text(n)) == n,
        decimal_text(n).len() > 0,
        forall|i: int|
            0 <= i < decimal_text(n).len() ==> '0' <= #[trigger] decimal_text(n)[i] <= '9',
        decimal_text(n)[0] == '0' ==> n == 0,
    decreases n,
{
    lemma_decimal_digits(n);
    if n < 10 {
        reveal_with_fuel(number_of, 2);
        assert(decimal_text(n).drop_last() =~= Seq::<char>::empty());
    } else {
        decimal_reads_back(n / 10);
        assert(decimal_text(n).drop_last() =~= decimal_text(n / 10));
        assert(decimal_text(n)[0] == decimal_text(n / 10)[0]);
    }
}

/// One name is before another exactly where its bytes are before the other's: at the first byte in
/// which they differ its byte is smaller, or the other goes on where it ends.
pub proof fn names_are_compared_by_bytes(a: Seq<char>, b: Seq<char>)
    ensures
        name_before(a, b) <==> exists|k: int|
            {
                &&& 0 <= k <= encode_utf8(a).len() && k < encode_utf8(b).len()
                &&& #[trigger] encode_utf8(a).take(k) == encode_utf8(b).take(k)
                &&& k == encode_utf8(a).len() || encode_utf8(a)[k] < encode_utf8(b)[k]
            },
{
    lemma_bytes_before_at(encode_utf8(a), encode_utf8(b));
}

proof fn lemma_bytes_before_at(x: Seq<u8>, y: Seq<u8>)
    ensures
        bytes_before(x, y) <==> exists|k: int|
            {
                &&& 0 <= k <= x.len() && k < y.len()
                &&& #[trigger] x.take(k) == y.take(k)
                &&& k == x.len() || x[k] < y[k]
            },
    decreases x.len(),
{
    if x.len() > 0 && y.len() > 0 && x[0] == y[0] {
        let u = x.drop_first();
        let v = y.drop_first();
        lemma_bytes_before_at(u, v);
        if bytes_before(u, v) {
            let k = choose|k: int|
                {
                    &&& 0 <= k <= u.len() && k < v.len()
                    &&& #[trigger] u.take(k) == v.take(k)
                    &&& k == u.len() || u[k] < v[k]
                };
            assert(x.take(k + 1) =~= seq![x[0]] + u.take(k));
            assert(y.take(k + 1) =~= seq![y[0]] + v.take(k));
            assert(x.take(k + 1) == y.take(k + 1));
        }
        if exists|k: int|
            {
                &&& 0 <= k <= x.len() && k < y.len()
                &&& #[trigger] x.take(k) == y.take(k)
                &&& k == x.len() || x[k] < y[k]
            } {
            let k = choose|k: int|
                {
                    &&& 0 <= k <= x.len() && k < y.len()
                    &&& #[trigger] x.take(k) == y.take(k)
                    &&& k == x.len() || x[k] < y[k]
                };
            assert(k > 0);
            assert(u.take(k - 1) =~= x.take(k).drop_first());
            assert(v.take(k - 1) =~= y.take(k).drop_first());
            assert(u.take(k - 1) == v.take(k - 1));
        }
    } else if bytes_before(x, y) {
        assert(x.take(0) =~= y.take(0));
    } else {
        assert forall|k: int| 0 <= k <= x.len() && k < y.len() && #[trigger] x.take(k)
            == y.take(k) implies !(k == x.len() || x[k] < y[k]) by {
            if k > 0 {
                assert(x.take(k)[0] == y.take(k)[0]);
            }
        }
    }
}

/// A text that holds no colon with two slashes behind it has no scheme to cut.
pub proof fn lemma_no_scheme(s: Seq<char>)
    requires
        forall|i: int|
            0 <= i && i + 2 < s.len() && #[trigger] s[i] == ':' ==> s[i + 1] != '/' || s[i + 2]
                != '/',
    ensures
        after_scheme(s) == s,
{
    lemma_scheme_end_is(s, s.len());
}

} // verus!
