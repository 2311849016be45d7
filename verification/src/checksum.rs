//! The RFC 1071 Internet checksum: the ones'-complement of the
//! end-around-carry sum of the input taken as big-endian 16-bit words.

use vstd::arithmetic::div_mod::{
    lemma_fundamental_div_mod, lemma_mod_multiples_basic, lemma_mod_multiples_vanish,
    lemma_small_mod,
};
use vstd::prelude::*;

verus! {

/// The 16-bit word made of bytes `2*i` and `2*i + 1`; a final lone byte
/// stands in the high position with a zero low byte.
pub open spec fn word_at(data: Seq<u8>, i: int) -> int {
    (data[2 * i] as int) * 256 + if 2 * i + 1 < data.len() {
        data[2 * i + 1] as int
    } else {
        0
    }
}

/// How many 16-bit words a byte sequence of length `len` splits into.
pub open spec fn word_count(len: int) -> int {
    (len + 1) / 2
}

/// Sum of the first `k` words of `data`.
pub open spec fn sum_of_words_prefix(data: Seq<u8>, k: int) -> int
    decreases k,
{
    if k <= 0 {
        0
    } else {
        sum_of_words_prefix(data, k - 1) + word_at(data, k - 1)
    }
}

/// Sum of all 16-bit words of `data`.
pub open spec fn sum_of_words(data: Seq<u8>) -> int {
    sum_of_words_prefix(data, word_count(data.len() as int))
}

/// End-around carry: fold the bits above the low 16 back in until none
/// remain.
pub open spec fn fold_carries(s: int) -> int
    recommends
        s >= 0,
    decreases s,
    via fold_carries_decreases
{
    if s < 0x10000 {
        s
    } else {
        fold_carries(s % 0x10000 + s / 0x10000)
    }
}

/// One carry fold strictly shrinks an accumulator that still has high
/// bits, so repeated folding terminates.
pub proof fn lemma_fold_step(s: int)
    requires
        s >= 0x10000,
    ensures
        0 <= s % 0x10000 + s / 0x10000 < s,
{
    lemma_fundamental_div_mod(s, 0x10000);
    assert(s / 0x10000 >= 1) by (nonlinear_arith)
        requires
            s >= 0x10000,
    ;
    assert(s % 0x10000 + s / 0x10000 < s) by (nonlinear_arith)
        requires
            s >= 0x10000,
            s / 0x10000 >= 1,
            s == 0x10000 * (s / 0x10000) + s % 0x10000,
            0 <= s % 0x10000 < 0x10000,
    ;
}

#[via_fn]
proof fn fold_carries_decreases(s: int) {
    if s >= 0x10000 {
        lemma_fold_step(s);
    }
}

/// The checksum: the bitwise complement of the folded word sum.
pub open spec fn checksum_spec(data: Seq<u8>) -> u16 {
    (0xFFFF - fold_carries(sum_of_words(data))) as u16
}

/// Every word lies in `[0, 0xFFFF]`, so prefix sums are bounded.
pub proof fn lemma_sum_of_words_prefix_bounds(data: Seq<u8>, k: int)
    requires
        k >= 0,
    ensures
        0 <= sum_of_words_prefix(data, k) <= k * 0xFFFF,
    decreases k,
{
    if k > 0 {
        lemma_sum_of_words_prefix_bounds(data, k - 1);
        assert(0 <= word_at(data, k - 1) <= 0xFFFF);
        assert((k - 1) * 0xFFFF + 0xFFFF == k * 0xFFFF) by (nonlinear_arith);
    }
}

/// Folding always lands in the 16-bit range and never turns a positive
/// sum into zero.
pub proof fn lemma_fold_carries_bounds(s: int)
    requires
        s >= 0,
    ensures
        0 <= fold_carries(s) < 0x10000,
        s > 0 ==> fold_carries(s) > 0,
    decreases s,
{
    if s >= 0x10000 {
        lemma_fold_step(s);
        lemma_fold_carries_bounds(s % 0x10000 + s / 0x10000);
    }
}

/// Folding preserves the accumulator's residue modulo `0xFFFF`, because
/// `0x10000` is congruent to 1.
pub proof fn lemma_fold_carries_mod(s: int)
    requires
        s >= 0,
    ensures
        fold_carries(s) % 0xFFFF == s % 0xFFFF,
    decreases s,
{
    if s >= 0x10000 {
        let q = s / 0x10000;
        let r = s % 0x10000;
        lemma_fundamental_div_mod(s, 0x10000);
        assert(s == 0xFFFF * q + (q + r));
        lemma_mod_multiples_vanish(q, q + r, 0xFFFF);
        lemma_fold_step(s);
        lemma_fold_carries_mod(r + q);
    }
}

/// A positive multiple of `0xFFFF` folds to exactly `0xFFFF`, whose
/// complement is zero: the verification identity's final step.
pub proof fn lemma_fold_carries_of_multiple(s: int)
    requires
        s > 0,
        s % 0xFFFF == 0,
    ensures
        fold_carries(s) == 0xFFFF,
{
    lemma_fold_carries_bounds(s);
    lemma_fold_carries_mod(s);
    let f = fold_carries(s);
    if f < 0xFFFF {
        lemma_small_mod(f as nat, 0xFFFF as nat);
    }
}

/// The high byte of a 16-bit word.
pub open spec fn high_byte(w: u16) -> u8 {
    (w / 256) as u8
}

/// The low byte of a 16-bit word.
pub open spec fn low_byte(w: u16) -> u8 {
    (w % 256) as u8
}

/// `data` with the 16-bit checksum `cs` stored big-endian in its
/// checksum field, bytes 2 and 3.
pub open spec fn with_checksum(data: Seq<u8>, cs: u16) -> Seq<u8> {
    data.update(2, high_byte(cs)).update(3, low_byte(cs))
}

/// Two inputs whose words agree everywhere but at word `j` have prefix
/// sums that differ exactly by the words' difference at `j`.
proof fn lemma_sum_prefix_agree_except(d1: Seq<u8>, d2: Seq<u8>, j: int, k: int)
    requires
        d1.len() == d2.len(),
        0 <= j,
        k <= word_count(d1.len() as int),
        forall|i: int|
            0 <= i < word_count(d1.len() as int) && i != j ==> word_at(d1, i) == word_at(d2, i),
    ensures
        k <= j ==> sum_of_words_prefix(d1, k) == sum_of_words_prefix(d2, k),
        k > j ==> sum_of_words_prefix(d1, k) == sum_of_words_prefix(d2, k) + word_at(d1, j)
            - word_at(d2, j),
    decreases k,
{
    if k > 0 {
        lemma_sum_prefix_agree_except(d1, d2, j, k - 1);
    }
}

/// The checksum verification identity: store into a packet whose
/// checksum field is zero the checksum computed over it, and the
/// checksum recomputed over the stored form is `0x0000`.
pub proof fn lemma_checksum_round_trip(data: Seq<u8>)
    requires
        data.len() >= 4,
        data[2] == 0,
        data[3] == 0,
    ensures
        checksum_spec(with_checksum(data, checksum_spec(data))) == 0,
{
    let s = sum_of_words(data);
    let f = fold_carries(s);
    let cs = checksum_spec(data);
    let stored = with_checksum(data, cs);
    lemma_sum_of_words_prefix_bounds(data, word_count(data.len() as int));
    lemma_fold_carries_bounds(s);
    assert(cs == 0xFFFF - f);
    // Storing the checksum changes only word 1, from zero to `cs`.
    assert(word_at(data, 1) == 0);
    lemma_fundamental_div_mod(cs as int, 256);
    assert(word_at(stored, 1) == cs);
    assert(stored.len() == data.len());
    assert forall|i: int|
        0 <= i < word_count(stored.len() as int) && i != 1 implies word_at(stored, i) == word_at(
        data,
        i,
    ) by {
        assert(2 * i != 2 && 2 * i != 3 && 2 * i + 1 != 2 && 2 * i + 1 != 3);
    }
    lemma_sum_prefix_agree_except(stored, data, 1, word_count(stored.len() as int));
    let s2 = sum_of_words(stored);
    assert(s2 == s + 0xFFFF - f);
    // The stored sum is a positive multiple of 0xFFFF.
    lemma_fold_carries_mod(s);
    lemma_fundamental_div_mod(s, 0xFFFF);
    lemma_fundamental_div_mod(f, 0xFFFF);
    let a = s / 0xFFFF;
    let b = f / 0xFFFF;
    assert(s2 == (a - b + 1) * 0xFFFF) by (nonlinear_arith)
        requires
            s == 0xFFFF * a + s % 0xFFFF,
            f == 0xFFFF * b + f % 0xFFFF,
            s % 0xFFFF == f % 0xFFFF,
            s2 == s + 0xFFFF - f,
    ;
    lemma_mod_multiples_basic(a - b + 1, 0xFFFF);
    if s2 == 0 {
        // Then f == s + 0xFFFF >= 0xFFFF, so f == 0xFFFF and s == 0;
        // but an empty sum folds to 0, a contradiction.
        assert(s == 0 && f == 0xFFFF);
        assert(fold_carries(0) == 0);
    }
    lemma_fold_carries_of_multiple(s2);
}

/// The detection half of the verification identity, on the alterations
/// the checksum can see: a packet that verifies stops verifying once its
/// word sum moves by anything but a multiple of `0xFFFF`. (A move by a
/// multiple of `0xFFFF` — one word changed from `0x0000` to `0xFFFF`,
/// say — is invisible to a ones'-complement sum.)
pub proof fn lemma_altered_packet_detected(original: Seq<u8>, altered: Seq<u8>)
    requires
        checksum_spec(original) == 0,
        (sum_of_words(altered) - sum_of_words(original)) % 0xFFFF != 0,
    ensures
        checksum_spec(altered) != 0,
{
    let s = sum_of_words(original);
    let s2 = sum_of_words(altered);
    lemma_sum_of_words_prefix_bounds(original, word_count(original.len() as int));
    lemma_sum_of_words_prefix_bounds(altered, word_count(altered.len() as int));
    lemma_fold_carries_bounds(s);
    // A zero checksum means the original's sum folds to exactly 0xFFFF.
    assert(fold_carries(s) == 0xFFFF);
    lemma_fold_carries_mod(s);
    lemma_mod_multiples_basic(1, 0xFFFF);
    assert(s % 0xFFFF == 0);
    lemma_fundamental_div_mod(s, 0xFFFF);
    let q = s / 0xFFFF;
    // Subtracting the multiple `s` does not change the residue, so the
    // altered sum is not a multiple of 0xFFFF.
    lemma_mod_multiples_vanish(-q, s2, 0xFFFF);
    assert(0xFFFF * (-q) + s2 == s2 - s);
    assert(s2 % 0xFFFF != 0);
    lemma_fold_carries_bounds(s2);
    lemma_fold_carries_mod(s2);
    if fold_carries(s2) == 0xFFFF {
        lemma_mod_multiples_basic(1, 0xFFFF);
    }
    assert(fold_carries(s2) != 0xFFFF);
}

/// Computes the RFC 1071 Internet checksum of `data`: sum the 16-bit
/// big-endian words (a trailing lone byte padded with a zero low byte),
/// fold the carries back in, and complement the low 16 bits. The length
/// bound keeps the doubled word index inside `usize` and the 64-bit
/// accumulator clear of overflow; ICMP datagrams are far smaller.
pub fn checksum(data: &[u8]) -> (r: u16)
    requires
        data@.len() < 0x8000_0000,
    ensures
        r == checksum_spec(data@),
{
    let n: usize = data.len();
    let mut sum: u64 = 0;
    let mut i: usize = 0;
    while 2 * i < n
        invariant
            n == data@.len() < 0x8000_0000,
            0 <= i <= word_count(n as int),
            sum == sum_of_words_prefix(data@, i as int),
            sum <= i * 0xFFFF,
        decreases n + 1 - 2 * i,
    {
        let hi = data[2 * i] as u64;
        let val: u64 = if 2 * i + 1 < n {
            hi * 256 + (data[2 * i + 1] as u64)
        } else {
            hi * 256
        };
        proof {
            assert(val == word_at(data@, i as int));
            assert((i + 1) * 0xFFFF == i * 0xFFFF + 0xFFFF) by (nonlinear_arith);
        }
        sum = sum + val;
        i = i + 1;
    }
    proof {
        assert(i == word_count(n as int));
        assert(sum == sum_of_words(data@));
    }
    while sum >= 0x10000
        invariant
            sum >= 0,
            fold_carries(sum as int) == fold_carries(sum_of_words(data@)),
        decreases sum,
    {
        proof {
            lemma_fold_step(sum as int);
        }
        sum = sum % 0x10000 + sum / 0x10000;
    }
    proof {
        assert(fold_carries(sum as int) == sum as int);
    }
    (0xFFFF - sum) as u16
}

} // verus!
