//! The Internet checksum: the one's complement of the one's complement sum of
//! a packet's 16-bit words.
use vstd::prelude::*;

use crate::wire::read_word;

verus! {

/// The `i`-th big-endian word of `bytes`. A last odd byte is padded with zero.
pub open spec fn word_at(bytes: Seq<u8>, i: int) -> u16 {
    crate::wire::word(
        bytes[2 * i],
        if 2 * i + 1 < bytes.len() {
            bytes[2 * i + 1]
        } else {
            0
        },
    )
}

/// How many words `bytes` holds, a last odd byte counted as one.
pub open spec fn word_count(bytes: Seq<u8>) -> nat {
    (bytes.len() + 1) / 2
}

/// The sum of the first `n` words of `bytes`.
pub open spec fn sum_of_words(bytes: Seq<u8>, n: nat) -> nat
    decreases n,
{
    if n == 0 {
        0
    } else {
        sum_of_words(bytes, (n - 1) as nat) + word_at(bytes, n - 1) as nat
    }
}

/// The sum of all words of `bytes`.
pub open spec fn word_sum(bytes: Seq<u8>) -> nat {
    sum_of_words(bytes, word_count(bytes))
}

/// `sum` as a 16-bit one's complement number: its remainder modulo 65535,
/// where a nonzero multiple of 65535 is the number with all bits set.
pub open spec fn ones_complement(sum: nat) -> nat {
    if sum > 0 && sum % 0xffff == 0 {
        0xffff
    } else {
        sum % 0xffff
    }
}

/// The checksum of `bytes`.
pub open spec fn checksum(bytes: Seq<u8>) -> u16 {
    (0xffff - ones_complement(word_sum(bytes))) as u16
}

/// Adding the carry of a sum to its low half keeps its remainder, and keeps it
/// nonzero.
proof fn lemma_fold(sum: u32)
    requires
        sum > 0xffff,
    ensures
        ((sum & 0xffff) + (sum >> 16)) % 0xffff == sum % 0xffff,
        0 < (sum & 0xffff) + (sum >> 16) < sum,
{
    assert(sum & 0xffff == sum % 0x10000) by (bit_vector);
    assert(sum >> 16 == sum / 0x10000) by (bit_vector);
    let high: int = (sum / 0x10000) as int;
    let low: int = (sum % 0x10000) as int;
    assert(sum == high * 0xffff + (high + low));
    vstd::arithmetic::div_mod::lemma_mod_multiples_vanish(high, high + low, 0xffff);
}

/// A one's complement sum grows with the plain sum it stands for.
proof fn lemma_add(folded: nat, sum: nat, more: nat)
    requires
        folded == ones_complement(sum),
    ensures
        (folded + more) % 0xffff == (sum + more) % 0xffff,
        folded + more == 0 <==> sum + more == 0,
{
    assert((folded + more) % 0xffff == (sum + more) % 0xffff) by (nonlinear_arith)
        requires
            folded % 0xffff == sum % 0xffff,
    ;
}

/// The Internet checksum of `bytes`.
pub fn internet_checksum(bytes: &[u8]) -> (sum: u16)
    ensures
        sum == checksum(bytes@),
{
    let mut sum: u32 = 0;
    let mut at: usize = 0;
    let len: usize = bytes.len();
    let ghost mut words: nat = 0;
    while at < len
        invariant
            len == bytes@.len(),
            at <= len,
            at == 2 * words || (at == len && 2 * words == len + 1),
            words <= word_count(bytes@),
            sum == ones_complement(sum_of_words(bytes@, words)),
        decreases len - at,
    {
        let high: u8 = bytes[at];
        let mut low: u8 = 0;
        let mut next: usize = len;
        if len - at > 1 {
            low = bytes[at + 1];
            next = at + 2;
        }
        let word: u16 = read_word(high, low);
        let ghost before: nat = sum_of_words(bytes@, words);
        proof {
            lemma_add(sum as nat, before, word as nat);
            words = words + 1;
        }
        assert(word == word_at(bytes@, words - 1));
        sum = sum + word as u32;
        while sum > 0xffff
            invariant
                sum % 0xffff == (before + word) % 0xffff,
                sum == 0 <==> before + word == 0,
            decreases sum,
        {
            proof {
                lemma_fold(sum);
            }
            sum = (sum & 0xffff) + (sum >> 16);
        }
        at = next;
    }
    assert(words == word_count(bytes@));
    let folded: u16 = sum as u16;
    assert(!folded == 0xffff - folded) by (bit_vector);
    !folded
}

/// `bytes` with `sum` as its word number `k`, counted from zero.
pub open spec fn with_checksum(bytes: Seq<u8>, k: int, sum: u16) -> Seq<u8> {
    bytes.update(2 * k, crate::wire::word_bytes(sum)[0]).update(
        2 * k + 1,
        crate::wire::word_bytes(sum)[1],
    )
}

proof fn lemma_sum_with_checksum(bytes: Seq<u8>, k: int, sum: u16, n: nat)
    requires
        0 <= 2 * k < bytes.len() - 1,
        bytes[2 * k] == 0,
        bytes[2 * k + 1] == 0,
        n <= word_count(bytes),
    ensures
        sum_of_words(with_checksum(bytes, k, sum), n) == sum_of_words(bytes, n) + if n > k {
            sum as nat
        } else {
            0
        },
    decreases n,
{
    if n > 0 {
        lemma_sum_with_checksum(bytes, k, sum, (n - 1) as nat);
        let filled = with_checksum(bytes, k, sum);
        if n == k + 1 {
            crate::wire::law_word_round_trip(sum);
            assert(word_at(filled, k) == sum);
            assert(word_at(bytes, k) == 0);
        } else {
            assert(word_at(filled, n - 1) == word_at(bytes, n - 1));
        }
    }
}

/// A packet that carries its own checksum has the checksum zero: whatever the
/// packet, and whichever of its words is the checksum field, its checksum over a
/// zero checksum field, written into that field, makes the whole validate.
pub proof fn law_checksum_validates(bytes: Seq<u8>, k: int)
    requires
        0 <= 2 * k < bytes.len() - 1,
        bytes[2 * k] == 0,
        bytes[2 * k + 1] == 0,
    ensures
        checksum(with_checksum(bytes, k, checksum(bytes))) == 0,
{
    let sum = word_sum(bytes);
    let own = checksum(bytes);
    lemma_sum_with_checksum(bytes, k, own, word_count(bytes));
    let total = word_sum(with_checksum(bytes, k, own));
    assert(total == sum + own);
    lemma_add(ones_complement(sum), sum, own as nat);
}

/// A zero byte appended to a packet leaves its checksum as it is.
pub proof fn law_checksum_ignores_zero_padding(bytes: Seq<u8>)
    ensures
        checksum(bytes.push(0)) == checksum(bytes),
{
    let padded = bytes.push(0);
    lemma_sum_of_prefix(bytes, padded, word_count(bytes));
    if bytes.len() % 2 == 0 {
        assert(word_count(padded) == word_count(bytes) + 1);
        assert(word_at(padded, word_count(bytes) as int) == 0);
    }
}

proof fn lemma_sum_of_prefix(bytes: Seq<u8>, padded: Seq<u8>, n: nat)
    requires
        padded == bytes.push(0),
        n <= word_count(bytes),
    ensures
        sum_of_words(padded, n) == sum_of_words(bytes, n),
    decreases n,
{
    if n > 0 {
        lemma_sum_of_prefix(bytes, padded, (n - 1) as nat);
        assert(word_at(padded, n - 1) == word_at(bytes, n - 1));
    }
}

proof fn lemma_sum_of_same_words(a: Seq<u8>, b: Seq<u8>, n: nat)
    requires
        forall|i: int| 0 <= i < n ==> #[trigger] word_at(a, i) == word_at(b, i),
    ensures
        sum_of_words(a, n) == sum_of_words(b, n),
    decreases n,
{
    if n > 0 {
        lemma_sum_of_same_words(a, b, (n - 1) as nat);
        assert(word_at(a, n - 1) == word_at(b, n - 1));
    }
}

/// The words of a packet add up two bytes at a time: behind an even number of
/// bytes a byte counts 256 times, and the byte behind it once.
pub proof fn law_words_add_up(bytes: Seq<u8>, high: u8, low: u8)
    requires
        bytes.len() % 2 == 0,
    ensures
        word_sum(Seq::empty()) == 0,
        word_sum(bytes.push(high)) == word_sum(bytes) + 256 * high,
        word_sum(bytes.push(high).push(low)) == word_sum(bytes) + 256 * high + low,
{
    let n = word_count(bytes);
    let odd = bytes.push(high);
    let even = odd.push(low);
    assert forall|i: int| 0 <= i < n implies #[trigger] word_at(odd, i) == word_at(bytes, i) by {}
    assert forall|i: int| 0 <= i < n implies #[trigger] word_at(even, i) == word_at(bytes, i) by {}
    lemma_sum_of_same_words(odd, bytes, n);
    lemma_sum_of_same_words(even, bytes, n);
    crate::wire::law_words_are_big_endian(high, 0, 0);
    crate::wire::law_words_are_big_endian(high, low, 0);
    assert(word_at(odd, n as int) == 256 * high);
    assert(word_at(even, n as int) == 256 * high + low);
    assert(word_count(odd) == n + 1);
    assert(word_count(even) == n + 1);
}

/// The checksum is what is missing from the sum of the words to a multiple of
/// 65535. It has all bits set only where there is nothing but zeros.
pub proof fn law_checksum_complements_the_sum(bytes: Seq<u8>)
    ensures
        (word_sum(bytes) + checksum(bytes)) % 65535 == 0,
        checksum(bytes) == 0xffff <==> word_sum(bytes) == 0,
{
    let sum = word_sum(bytes);
    lemma_add(ones_complement(sum), sum, checksum(bytes) as nat);
    assert(ones_complement(sum) + checksum(bytes) == 0xffff);
}

} // verus!
