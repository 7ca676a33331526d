//! The 16-bit frame checksum of the control-message protocol.
//!
//! The checksum of a byte range is the bitwise NOT of the wrapping sum of its
//! big-endian 16-bit words; an odd trailing byte counts as the high byte of a
//! final word with an implicit zero low byte.

use vstd::prelude::*;
use vstd::arithmetic::div_mod::lemma_add_mod_noop;
use vstd::arithmetic::div_mod::lemma_mod_twice;
use vstd::arithmetic::div_mod::lemma_mod_sub_multiples_vanish;
use vstd::arithmetic::div_mod::lemma_small_mod;

verus! {

/// Unwrapped big-endian word sum of `s[i..]`, for even `i`.
pub open spec fn word_sum(s: Seq<u8>, i: int) -> int
    decreases s.len() - i,
{
    if i < 0 || i >= s.len() {
        0
    } else if i + 1 == s.len() {
        s[i] * 0x100
    } else {
        s[i] * 0x100 + s[i + 1] + word_sum(s, i + 2)
    }
}

/// What `checksum` computes: bitwise NOT of the word sum, reduced mod 2^16.
pub open spec fn checksum_spec(s: Seq<u8>) -> u16 {
    (0xffff - (word_sum(s, 0) % 0x10000)) as u16
}

pub proof fn lemma_word_sum_nonneg(s: Seq<u8>, i: int)
    ensures
        word_sum(s, i) >= 0,
    decreases s.len() - i,
{
    if 0 <= i && i + 1 < s.len() {
        lemma_word_sum_nonneg(s, i + 2);
    }
}

/// The word sum reads nothing below index `i`: two buffers that agree from
/// `i` on have the same partial sum.
pub proof fn lemma_word_sum_congruent(s1: Seq<u8>, s2: Seq<u8>, i: int)
    requires
        s1.len() == s2.len(),
        forall|j: int| i <= j < s1.len() ==> s1[j] == s2[j],
    ensures
        word_sum(s1, i) == word_sum(s2, i),
    decreases s1.len() - i,
{
    if 0 <= i && i + 1 < s1.len() {
        lemma_word_sum_congruent(s1, s2, i + 2);
    }
}

/// Weight of byte `p` in the word sum: high byte of its word when `p` is
/// even, low byte when odd.
pub open spec fn byte_weight(p: int) -> int {
    if p % 2 == 0 {
        0x100
    } else {
        1
    }
}

/// Changing the single byte at `p` moves the word sum by the byte delta
/// times that byte's weight.
pub proof fn lemma_word_sum_point_diff(s1: Seq<u8>, s2: Seq<u8>, p: int, i: int)
    requires
        s1.len() == s2.len(),
        0 <= p < s1.len(),
        forall|j: int| 0 <= j < s1.len() && j != p ==> s1[j] == s2[j],
        0 <= i <= p,
        i % 2 == 0,
    ensures
        word_sum(s2, i) - word_sum(s1, i) == (s2[p] - s1[p]) * byte_weight(p),
    decreases p - i,
{
    if i + 2 <= p {
        lemma_word_sum_point_diff(s1, s2, p, i + 2);
    } else if i == p {
        if i + 1 < s1.len() {
            lemma_word_sum_congruent(s1, s2, i + 2);
        }
    } else {
        // i == p - 1, so p is odd and sits in the low byte of word i.
        lemma_word_sum_congruent(s1, s2, i + 2);
    }
}

proof fn lemma_mod_shift_ne(a: int, d: int, m: int)
    requires
        m > 0,
        d != 0,
        -m < d < m,
    ensures
        a % m != (a + d) % m,
{
    vstd::arithmetic::div_mod::lemma_fundamental_div_mod(a, m);
    vstd::arithmetic::div_mod::lemma_fundamental_div_mod(a + d, m);
    if a % m == (a + d) % m {
        let q1 = a / m;
        let q2 = (a + d) / m;
        assert(d == m * (q2 - q1)) by (nonlinear_arith)
            requires
                a == m * q1 + a % m,
                a + d == m * q2 + (a + d) % m,
                a % m == (a + d) % m,
        ;
        assert(false) by (nonlinear_arith)
            requires
                d == m * (q2 - q1),
                d != 0,
                -m < d < m,
                m > 0,
        ;
    }
}

/// The checksum is self-verifying against single-bit corruption: flipping
/// any one bit of the covered range changes the checksum.
pub proof fn lemma_checksum_bit_flip(s: Seq<u8>, p: int, b: u8)
    requires
        0 <= p < s.len(),
        b < 8,
    ensures
        checksum_spec(s.update(p, s[p] ^ (1u8 << b))) != checksum_spec(s),
{
    let x = s[p];
    let y = x ^ (1u8 << b);
    assert(y != x) by (bit_vector)
        requires
            y == x ^ (1u8 << b),
            b < 8,
    ;
    let s2 = s.update(p, y);
    lemma_word_sum_point_diff(s, s2, p, 0);
    let d = (s2[p] - s[p]) * byte_weight(p);
    assert(d != 0 && -0x10000 < d < 0x10000) by (nonlinear_arith)
        requires
            d == (s2[p] - s[p]) * byte_weight(p),
            s2[p] != s[p],
            0 <= s[p] < 0x100,
            0 <= s2[p] < 0x100,
            byte_weight(p) == 1 || byte_weight(p) == 0x100,
    ;
    lemma_word_sum_nonneg(s, 0);
    lemma_word_sum_nonneg(s2, 0);
    lemma_mod_shift_ne(word_sum(s, 0), d, 0x10000);
    vstd::arithmetic::div_mod::lemma_mod_pos_bound(word_sum(s, 0), 0x10000);
    vstd::arithmetic::div_mod::lemma_mod_pos_bound(word_sum(s2, 0), 0x10000);
}

/// Big-endian word-sum checksum over a whole byte slice.
pub fn checksum(buf: &[u8]) -> (r: u16)
    ensures
        r == checksum_spec(buf@),
{
    let n = buf.len();
    let mut i: usize = n;
    let mut sum: u16 = 0;
    if n % 2 == 1 {
        i = n - 1;
        sum = (buf[i] as u16) * 0x100;
        proof {
            lemma_small_mod((buf@[i as int] * 0x100) as nat, 0x10000);
        }
    } else {
        proof {
            lemma_small_mod(0, 0x10000);
        }
    }
    while i >= 2
        invariant
            i <= n,
            n == buf@.len(),
            i % 2 == 0,
            sum == word_sum(buf@, i as int) % 0x10000,
        decreases i,
    {
        i = i - 2;
        let w: u32 = (buf[i] as u32) * 0x100 + (buf[i + 1] as u32);
        let t: u32 = sum as u32 + w;
        let new_sum: u16 = if t >= 0x10000 {
            (t - 0x10000) as u16
        } else {
            t as u16
        };
        proof {
            let s = buf@;
            let wv = s[i as int] * 0x100 + s[i + 1];
            let tail = word_sum(s, i + 2);
            lemma_word_sum_nonneg(s, i + 2);
            assert(word_sum(s, i as int) == wv + tail);
            // (wv + tail) % m == (wv + tail % m) % m == t % m
            lemma_add_mod_noop(wv, tail, 0x10000);
            lemma_small_mod(wv as nat, 0x10000);
            lemma_mod_twice(tail, 0x10000);
            lemma_add_mod_noop(wv, tail % 0x10000, 0x10000);
            // t < 2^17, so one conditional subtraction reduces it mod 2^16.
            if t >= 0x10000 {
                lemma_mod_sub_multiples_vanish(t as int, 0x10000);
                lemma_small_mod((t - 0x10000) as nat, 0x10000);
            } else {
                lemma_small_mod(t as nat, 0x10000);
            }
        }
        sum = new_sum;
    }
    0xffff - sum
}

} // verus!
