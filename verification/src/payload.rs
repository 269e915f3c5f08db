//! The memo that a transaction carries: the provider it is sent through and a random tail that
//! keeps transactions of one round apart.

use crate::codec::{base58_encode, blake3_hash};
use crate::text::decimal;
use vstd::prelude::*;
use vstd::string::*;

verus! {

/// What the random tail of a memo is made of: the provider, the time and a running number.
pub open spec fn payload_seed(provider: Seq<char>, now: Seq<char>, count: u64) -> Seq<char> {
    provider + "|"@ + now + "|"@ + crate::text::decimal_text(count as nat)
}

/// The hash that the random tail of a memo stands for.
pub open spec fn payload_digest(provider: Seq<char>, now: Seq<char>, count: u64) -> Seq<u8> {
    crate::codec::blake3_digest(vstd::utf8::encode_utf8(payload_seed(provider, now, count)))
}

/// The random tail of a memo.
pub open spec fn payload_tail(provider: Seq<char>, now: Seq<char>, count: u64) -> Seq<char> {
    crate::codec::base58_encoded(payload_digest(provider, now, count))
}

/// Whether the random tail of a memo stands for its hash, which has 32 bytes.
pub open spec fn tail_is_sound(provider: Seq<char>, now: Seq<char>, count: u64) -> bool {
    &&& payload_digest(provider, now, count).len() == 32
    &&& crate::codec::stands_for(
        payload_tail(provider, now, count),
        payload_digest(provider, now, count),
    )
}

/// The text of a memo: the provider, a bar, and the random tail.
pub open spec fn memo_text(provider: Seq<char>, tail: Seq<char>) -> Seq<char> {
    provider + "|"@ + tail
}

/// The bytes of a memo with a given tail.
pub fn memo_payload(provider: &str, tail: &str) -> (data: Vec<u8>)
    ensures
        data@ == vstd::utf8::encode_utf8(memo_text(provider@, tail@)),
        data@ == vstd::utf8::encode_utf8(provider@ + "|"@ + tail@),
{
    let mut text = provider.to_owned();
    text.append("|");
    text.append(tail);
    text.as_str().as_bytes_vec()
}

/// The seed of the random tail of a memo.
pub fn seed_text(provider: &str, now: &str, count: u64) -> (seed: String)
    ensures
        seed@ == payload_seed(provider@, now@, count),
        seed@ == provider@ + "|"@ + now@ + "|"@ + crate::text::decimal_text(count as nat),
{
    let mut seed = provider.to_owned();
    seed.append("|");
    seed.append(now);
    seed.append("|");
    seed.append(decimal(count).as_str());
    seed
}

/// The bytes of a memo for a provider. `now` is the time of sending, in seconds with six decimals,
/// and `count` the number of memos made before.
pub fn random_ix_payload(provider: &str, now: &str, count: u64) -> (data: Vec<u8>)
    ensures
        data@ == vstd::utf8::encode_utf8(
            memo_text(provider@, payload_tail(provider@, now@, count)),
        ),
        tail_is_sound(provider@, now@, count),
{
    let seed = seed_text(provider, now, count);
    let hash = blake3_hash(seed.as_str().as_bytes());
    let tail = base58_encode(hash.as_slice());
    memo_payload(provider, tail.as_str())
}

/// A memo names the provider it was made for, unless that provider's own name holds a bar.
pub proof fn memo_names_its_provider(provider: Seq<char>, tail: Seq<char>)
    ensures
        crate::book::memo_provider(memo_text(provider, tail)) == provider <==> !provider.contains(
            '|',
        ),
{
    reveal_strlit("|");
    let memo = memo_text(provider, tail);
    assert(memo[provider.len() as int] == '|');
    crate::text::lemma_position(memo, '|');
    if !provider.contains('|') {
        assert forall|i: int| 0 <= i < provider.len() implies memo[i] != '|' by {
            assert(memo[i] == provider[i]);
        }
        crate::text::lemma_position_is(memo, '|', provider.len());
        assert(memo.take(provider.len() as int) =~= provider);
    } else {
        let i = choose|i: int| 0 <= i < provider.len() && provider[i] == '|';
        assert(memo[i] == '|');
        assert(crate::text::position(memo, '|') <= i);
        assert(crate::book::memo_provider(memo).len() < provider.len());
    }
}

/// The bytes of a memo are read back as its text.
pub proof fn memo_reads_back(provider: Seq<char>, tail: Seq<char>)
    ensures
        ({
            let data = vstd::utf8::encode_utf8(memo_text(provider, tail));
            &&& vstd::utf8::valid_utf8(data)
            &&& vstd::utf8::decode_utf8(data) == memo_text(provider, tail)
        }),
{
    vstd::utf8::encode_utf8_valid_utf8(memo_text(provider, tail));
    vstd::utf8::encode_utf8_decode_utf8(memo_text(provider, tail));
}

/// The number that a counter gives out after another; it starts again at zero behind the largest.
pub open spec fn count_after(count: u64) -> u64 {
    if count == u64::MAX {
        0
    } else {
        (count + 1) as u64
    }
}

/// Counts the memos of a process.
#[derive(Debug)]
pub struct MemoCounter {
    next: u64,
}

impl View for MemoCounter {
    type V = u64;

    closed spec fn view(&self) -> u64 {
        self.next
    }
}

impl MemoCounter {
    /// A counter that starts at zero.
    pub fn new() -> (counter: MemoCounter)
        ensures
            counter@ == 0,
    {
        MemoCounter { next: 0 }
    }

    /// The number of the next memo.
    pub fn take(&mut self) -> (count: u64)
        ensures
            count == old(self)@,
            final(self)@ == count_after(old(self)@),
    {
        let count = self.next;
        self.next = count.wrapping_add(1);
        count
    }
}

/// The number that a new counter gives out when it is asked for the `n`-th time, from zero.
pub open spec fn nth_count(n: nat) -> u64
    decreases n,
{
    if n == 0 {
        0
    } else {
        count_after(nth_count((n - 1) as nat))
    }
}

proof fn lemma_nth_count(n: nat)
    requires
        n <= u64::MAX,
    ensures
        nth_count(n) == n,
    decreases n,
{
    if n > 0 {
        lemma_nth_count((n - 1) as nat);
    }
}

proof fn lemma_behind_last_bar(head: Seq<char>, end: Seq<char>)
    requires
        !end.contains('|'),
    ensures
        crate::text::after_last(head + "|"@ + end, '|') == end,
{
    reveal_strlit("|");
    let text = head + "|"@ + end;
    let p = head.len() + 1;
    assert(text[p - 1] == '|');
    assert forall|i: int| p <= i < text.len() implies text[i] != '|' by {
        assert(text[i] == end[i - p]);
    }
    crate::text::lemma_after_last_is(text, '|', p);
    assert(text.skip(p as int) =~= end);
}

/// A seed says its number: seeds with different numbers differ, and so do their bytes.
pub proof fn seeds_differ(
    provider1: Seq<char>,
    now1: Seq<char>,
    count1: u64,
    provider2: Seq<char>,
    now2: Seq<char>,
    count2: u64,
)
    requires
        count1 != count2,
    ensures
        vstd::utf8::encode_utf8(payload_seed(provider1, now1, count1)) != vstd::utf8::encode_utf8(
            payload_seed(provider2, now2, count2),
        ),
{
    crate::text::lemma_decimal_digits(count1 as nat);
    crate::text::lemma_decimal_digits(count2 as nat);
    lemma_behind_last_bar(
        provider1 + "|"@ + now1,
        crate::text::decimal_text(count1 as nat),
    );
    lemma_behind_last_bar(
        provider2 + "|"@ + now2,
        crate::text::decimal_text(count2 as nat),
    );
    crate::text::decimals_differ(count1 as nat, count2 as nat);
    vstd::utf8::encode_utf8_decode_utf8(payload_seed(provider1, now1, count1));
    vstd::utf8::encode_utf8_decode_utf8(payload_seed(provider2, now2, count2));
}

/// Two memos are the same only where the hashes in them are.
pub proof fn same_memo_has_same_hash(
    provider1: Seq<char>,
    now1: Seq<char>,
    count1: u64,
    provider2: Seq<char>,
    now2: Seq<char>,
    count2: u64,
)
    requires
        tail_is_sound(provider1, now1, count1),
        tail_is_sound(provider2, now2, count2),
        vstd::utf8::encode_utf8(memo_text(provider1, payload_tail(provider1, now1, count1)))
            == vstd::utf8::encode_utf8(memo_text(provider2, payload_tail(provider2, now2, count2))),
    ensures
        payload_digest(provider1, now1, count1) == payload_digest(provider2, now2, count2),
{
    let tail1 = payload_tail(provider1, now1, count1);
    let tail2 = payload_tail(provider2, now2, count2);
    assert(!tail1.contains('|')) by {
        if tail1.contains('|') {
            let i = choose|i: int| 0 <= i < tail1.len() && tail1[i] == '|';
            assert(crate::codec::is_base58(tail1[i]));
        }
    }
    assert(!tail2.contains('|')) by {
        if tail2.contains('|') {
            let i = choose|i: int| 0 <= i < tail2.len() && tail2[i] == '|';
            assert(crate::codec::is_base58(tail2[i]));
        }
    }
    lemma_behind_last_bar(provider1, tail1);
    lemma_behind_last_bar(provider2, tail2);
    vstd::utf8::encode_utf8_decode_utf8(memo_text(provider1, tail1));
    vstd::utf8::encode_utf8_decode_utf8(memo_text(provider2, tail2));
}

/// The memos of a process differ, whatever their providers and times: each takes another number of
/// its counter into what is hashed, so that two of the first 2^64 are the same only where BLAKE3
/// gives different seeds the same hash.
pub proof fn memos_differ(
    i: nat,
    provider1: Seq<char>,
    now1: Seq<char>,
    j: nat,
    provider2: Seq<char>,
    now2: Seq<char>,
)
    requires
        i < j <= u64::MAX,
        tail_is_sound(provider1, now1, nth_count(i)),
        tail_is_sound(provider2, now2, nth_count(j)),
        payload_digest(provider1, now1, nth_count(i)) == payload_digest(
            provider2,
            now2,
            nth_count(j),
        ) ==> vstd::utf8::encode_utf8(payload_seed(provider1, now1, nth_count(i)))
            == vstd::utf8::encode_utf8(payload_seed(provider2, now2, nth_count(j))),
    ensures
        vstd::utf8::encode_utf8(
            memo_text(provider1, payload_tail(provider1, now1, nth_count(i))),
        ) != vstd::utf8::encode_utf8(
            memo_text(provider2, payload_tail(provider2, now2, nth_count(j))),
        ),
{
    lemma_nth_count(i);
    lemma_nth_count(j);
    let count1 = nth_count(i);
    let count2 = nth_count(j);
    seeds_differ(provider1, now1, count1, provider2, now2, count2);
    if vstd::utf8::encode_utf8(memo_text(provider1, payload_tail(provider1, now1, count1)))
        == vstd::utf8::encode_utf8(memo_text(provider2, payload_tail(provider2, now2, count2))) {
        same_memo_has_same_hash(provider1, now1, count1, provider2, now2, count2);
    }
}

/// A memo is 33 to 45 bytes longer than the name of its provider: a bar, and a tail of 32 to 44
/// letters and digits.
pub proof fn memo_is_short(provider: Seq<char>, now: Seq<char>, count: u64)
    requires
        tail_is_sound(provider, now, count),
    ensures
        32 <= payload_tail(provider, now, count).len() <= 44,
        ({
            let name = vstd::utf8::encode_utf8(provider);
            let memo = vstd::utf8::encode_utf8(
                memo_text(provider, payload_tail(provider, now, count)),
            );
            name.len() + 33 <= memo.len() <= name.len() + 45
        }),
{
    let tail = payload_tail(provider, now, count);
    reveal_strlit("|");
    crate::text::lemma_encode_concat(provider + "|"@, tail);
    crate::text::lemma_encode_concat(provider, "|"@);
    assert(vstd::utf8::is_ascii_chars("|"@));
    assert forall|i: int| 0 <= i < tail.len() implies '\0' <= #[trigger] tail[i] <= '\u{7f}' by {
        assert(crate::codec::is_base58(tail[i]));
    }
    vstd::utf8::is_ascii_chars_encode_utf8("|"@);
    vstd::utf8::is_ascii_chars_encode_utf8(tail);
}

/// What is hashed tells provider, time and number apart: seeds whose providers and times hold no bar
/// are the same only where all three are.
pub proof fn seeds_tell_their_parts(
    provider1: Seq<char>,
    now1: Seq<char>,
    count1: u64,
    provider2: Seq<char>,
    now2: Seq<char>,
    count2: u64,
)
    requires
        !provider1.contains('|') && !now1.contains('|'),
        !provider2.contains('|') && !now2.contains('|'),
        payload_seed(provider1, now1, count1) == payload_seed(provider2, now2, count2),
    ensures
        provider1 == provider2,
        now1 == now2,
        count1 == count2,
{
    reveal_strlit("|");
    if count1 != count2 {
        seeds_differ(provider1, now1, count1, provider2, now2, count2);
    }
    let digits = crate::text::decimal_text(count1 as nat);
    let rest1 = now1 + "|"@ + digits;
    let rest2 = now2 + "|"@ + digits;
    let seed = payload_seed(provider1, now1, count1);
    assert(seed =~= provider1 + seq!['|'] + rest1);
    assert(seed =~= provider2 + seq!['|'] + rest2);
    crate::text::cutting_before_a_mark(provider1, '|', rest1);
    crate::text::cutting_before_a_mark(provider2, '|', rest2);
    assert(rest1 =~= seed.skip(provider1.len() as int + 1));
    assert(rest2 =~= seed.skip(provider2.len() as int + 1));
    crate::text::cutting_before_a_mark(now1, '|', digits);
    crate::text::cutting_before_a_mark(now2, '|', digits);
    assert(rest1 =~= now1 + seq!['|'] + digits);
    assert(rest2 =~= now2 + seq!['|'] + digits);
}

/// A memo is a name, a bar and a tail; what is hashed for its tail is the name, the time and the
/// number in decimal, with bars between.
pub proof fn memos_and_seeds_are_made_of(
    provider: Seq<char>,
    now: Seq<char>,
    count: u64,
    tail: Seq<char>,
)
    ensures
        memo_text(provider, tail) == provider + seq!['|'] + tail,
        payload_seed(provider, now, count) == provider + seq!['|'] + now + seq!['|']
            + crate::text::decimal_text(count as nat),
        payload_tail(provider, now, count) == crate::codec::base58_encoded(
            crate::codec::blake3_digest(
                vstd::utf8::encode_utf8(
                    provider + seq!['|'] + now + seq!['|'] + crate::text::decimal_text(
                        count as nat,
                    ),
                ),
            ),
        ),
{
    reveal_strlit("|");
    assert("|"@ =~= seq!['|']);
}

/// A counter gives out one number after the other: the number after `n` is `n + 1`, up to the
/// largest, and then zero.
pub proof fn counter_goes_up(n: nat, count: u64)
    ensures
        count < u64::MAX ==> count_after(count) == count + 1,
        count_after(u64::MAX) == 0,
        n <= u64::MAX ==> nth_count(n) == n,
{
    if n <= u64::MAX {
        lemma_nth_count(n);
    }
}

} // verus!
