use vstd::prelude::*;

use crate::constants::SHARE_TRIPLES_boolean_bitwise_fake;
use crate::rss3::single_boolean::RSS3Share_single_boolean;
use crate::rss3::single_boolean::RSS3_single_boolean;
use crate::rss3::single_boolean::bit_party;
use crate::rss3::single_boolean::bit_not;
use crate::rss3::single_boolean::bit_value;
use crate::rss3::single_boolean::is_bit_sharing;
use crate::rss3::single_boolean::lemma_bit_not;

verus! {

/// Bit `i` (counting from the least significant) of `v`.
pub open spec fn bit_of(v: u64, i: int) -> bool {
    (v >> (i as u64)) & 1u64 == 1u64
}

/// The word whose bit `j` is `bits[j]` for `j < n`, and whose other bits are clear.
pub open spec fn word_from_bits(bits: Seq<bool>, n: nat) -> u64
    decreases n,
{
    if n == 0 {
        0
    } else {
        let w = word_from_bits(bits, (n - 1) as nat);
        if bits[n - 1] {
            w | (1u64 << ((n - 1) as u64))
        } else {
            w
        }
    }
}

proof fn lemma_bit_of_or_shift(w: u64, k: u64, j: u64)
    requires
        k < 64,
        j < 64,
    ensures
        ((w | (1u64 << k)) >> j) & 1u64 == 1u64 <==> ((w >> j) & 1u64 == 1u64 || j == k),
{
    assert(((w | (1u64 << k)) >> j) & 1u64 == 1u64 <==> ((w >> j) & 1u64 == 1u64 || j == k))
        by (bit_vector)
        requires
            k < 64,
            j < 64,
    ;
}

proof fn lemma_bit_of_zero(j: u64)
    ensures
        (0u64 >> j) & 1u64 != 1u64,
{
    assert((0u64 >> j) & 1u64 != 1u64) by (bit_vector);
}

/// The bits of `word_from_bits(bits, n)` are the first `n` entries of `bits`.
pub proof fn lemma_word_from_bits(bits: Seq<bool>, n: nat, j: int)
    requires
        n <= 64,
        0 <= j < 64,
    ensures
        bit_of(word_from_bits(bits, n), j) == (j < n && bits[j]),
    decreases n,
{
    if n == 0 {
        lemma_bit_of_zero(j as u64);
    } else {
        lemma_word_from_bits(bits, (n - 1) as nat, j);
        let w = word_from_bits(bits, (n - 1) as nat);
        if bits[n - 1] {
            lemma_bit_of_or_shift(w, (n - 1) as u64, j as u64);
        }
    }
}

/// Two words with the same bits are equal.
pub proof fn lemma_bits_extensional(a: u64, b: u64)
    requires
        forall|j: int| 0 <= j < 64 ==> bit_of(a, j) == bit_of(b, j),
    ensures
        a == b,
{
    lemma_shifted_equal(a, b, 0);
    assert(a >> 0u64 == a && b >> 0u64 == b) by (bit_vector);
}

proof fn lemma_shifted_equal(a: u64, b: u64, n: u64)
    requires
        n <= 64,
        forall|j: int| 0 <= j < 64 ==> bit_of(a, j) == bit_of(b, j),
    ensures
        a >> n == b >> n,
    decreases 64 - n,
{
    if n == 64 {
        assert(a >> 64u64 == 0u64 && b >> 64u64 == 0u64) by (bit_vector);
    } else {
        lemma_shifted_equal(a, b, (n + 1) as u64);
        assert(bit_of(a, n as int) == bit_of(b, n as int));
        assert(a >> n == b >> n) by (bit_vector)
            requires
                n < 64,
                a >> ((n + 1) as u64) == b >> ((n + 1) as u64),
                ((a >> n) & 1u64 == 1u64) == ((b >> n) & 1u64 == 1u64),
        ;
    }
}

/// Bit `j` of the bit vector is bit `j` of `v`.
pub open spec fn bits_of(v: u64) -> Seq<bool> {
    Seq::new(64, |j: int| bit_of(v, j))
}

/// Position-wise XOR of two bit vectors.
pub open spec fn bits_xor(a: Seq<bool>, b: Seq<bool>) -> Seq<bool> {
    Seq::new(64, |j: int| a[j] ^ b[j])
}

/// Position-wise XOR of three bit vectors.
pub open spec fn bits_xor3(a: Seq<bool>, b: Seq<bool>, c: Seq<bool>) -> Seq<bool> {
    Seq::new(64, |j: int| a[j] ^ b[j] ^ c[j])
}

/// Position-wise AND of two bit vectors.
pub open spec fn bits_and(a: Seq<bool>, b: Seq<bool>) -> Seq<bool> {
    Seq::new(64, |j: int| a[j] && b[j])
}

/// The abstract content of a bit-vector sharing: for each party, its two bit vectors.
pub type BitwiseView = ((Seq<bool>, Seq<bool>), (Seq<bool>, Seq<bool>), (Seq<bool>, Seq<bool>));

/// The bit vectors each party holds.
pub open spec fn bw_view(sh: [RSS3Share_boolean_bitwise; 3]) -> BitwiseView {
    (
        (sh[0].shares.0@, sh[0].shares.1@),
        (sh[1].shares.0@, sh[1].shares.1@),
        (sh[2].shares.0@, sh[2].shares.1@),
    )
}

/// The word that the first two parties reconstruct: the word with bits `x1 ^ a2`.
pub open spec fn bw_value(w: BitwiseView) -> u64 {
    word_from_bits(bits_xor(w.0.0, w.1.1), 64)
}

/// At position `j`, the first components XOR to `false` and party `i` holds
/// `x_(i-1) ^ bit_of(s, j)` (indices cyclic).
pub open spec fn is_bw_sharing_at(w: BitwiseView, s: u64, j: int) -> bool {
    &&& !(w.0.0[j] ^ w.1.0[j] ^ w.2.0[j])
    &&& w.0.1[j] == w.2.0[j] ^ bit_of(s, j)
    &&& w.1.1[j] == w.0.0[j] ^ bit_of(s, j)
    &&& w.2.1[j] == w.1.0[j] ^ bit_of(s, j)
}

/// `w` is a replicated XOR-sharing of `s`, position by position.
pub open spec fn is_bw_sharing(w: BitwiseView, s: u64) -> bool {
    forall|j: int| 0 <= j < 64 ==> #[trigger] is_bw_sharing_at(w, s, j)
}

/// The mask triple used both by `share` and in the AND protocol.
pub open spec fn bw_triple() -> (Seq<bool>, Seq<bool>, Seq<bool>) {
    let t = SHARE_TRIPLES_boolean_bitwise_fake[0];
    (t.0@, t.1@, t.2@)
}

/// What `share` hands out for `s`.
pub open spec fn bw_share(s: u64) -> BitwiseView {
    let (x1, x2, x3) = bw_triple();
    let b = bits_of(s);
    ((x1, bits_xor(x3, b)), (x2, bits_xor(x1, b)), (x3, bits_xor(x2, b)))
}

/// Party-wise XOR of two bit-vector sharings.
pub open spec fn bw_xor(v1: BitwiseView, v2: BitwiseView) -> BitwiseView {
    (
        (bits_xor(v1.0.0, v2.0.0), bits_xor(v1.0.1, v2.0.1)),
        (bits_xor(v1.1.0, v2.1.0), bits_xor(v1.1.1, v2.1.1)),
        (bits_xor(v1.2.0, v2.2.0), bits_xor(v1.2.1, v2.2.1)),
    )
}

/// The sharing the AND protocol produces, position by position as for single bits.
pub open spec fn bw_and(v1: BitwiseView, v2: BitwiseView) -> BitwiseView {
    let (alpha, beta, gamma) = bw_triple();
    let r1 = bits_xor3(bits_and(v1.0.0, v2.0.0), bits_and(v1.0.1, v2.0.1), alpha);
    let r2 = bits_xor3(bits_and(v1.1.0, v2.1.0), bits_and(v1.1.1, v2.1.1), beta);
    let r3 = bits_xor3(bits_and(v1.2.0, v2.2.0), bits_and(v1.2.1, v2.2.1), gamma);
    ((bits_xor(r1, r3), r1), (bits_xor(r2, r1), r2), (bits_xor(r3, r2), r3))
}

/// The single-bit sharing formed by position `i` of every party's bit vectors.
pub open spec fn bw_column(w: BitwiseView, i: int) -> [RSS3Share_single_boolean; 3] {
    [bit_party(w.0.0[i], w.0.1[i]), bit_party(w.1.0[i], w.1.1[i]), bit_party(w.2.0[i], w.2.1[i])]
}

/// What `equal` produces: the negation of the sharing at position 0 of `v1 ^ v2`.
pub open spec fn bw_equal(v1: BitwiseView, v2: BitwiseView) -> [RSS3Share_single_boolean; 3] {
    bit_not(bw_column(bw_xor(v1, v2), 0))
}

// ---------------------------------------------------------------------------
// Laws
// ---------------------------------------------------------------------------

proof fn lemma_bit_of_xor(a: u64, b: u64, j: int)
    requires
        0 <= j < 64,
    ensures
        bit_of(a ^ b, j) == (bit_of(a, j) ^ bit_of(b, j)),
{
    let k = j as u64;
    assert((((a ^ b) >> k) & 1u64 == 1u64) == (((a >> k) & 1u64 == 1u64) ^ ((b >> k) & 1u64 == 1u64)))
        by (bit_vector);
}

proof fn lemma_bit_of_and(a: u64, b: u64, j: int)
    requires
        0 <= j < 64,
    ensures
        bit_of(a & b, j) == (bit_of(a, j) && bit_of(b, j)),
{
    let k = j as u64;
    assert((((a & b) >> k) & 1u64 == 1u64) == (((a >> k) & 1u64 == 1u64) && ((b >> k) & 1u64 == 1u64)))
        by (bit_vector);
}

/// The word rebuilt from the bits of `v` is `v`.
pub proof fn lemma_bits_roundtrip(v: u64)
    ensures
        word_from_bits(bits_of(v), 64) == v,
{
    assert forall|j: int| 0 <= j < 64 implies bit_of(word_from_bits(bits_of(v), 64), j) == bit_of(v, j) by {
        lemma_word_from_bits(bits_of(v), 64, j);
    }
    lemma_bits_extensional(word_from_bits(bits_of(v), 64), v);
}

/// What `share` hands out for `s` is a sharing of `s`.
pub proof fn lemma_bw_share_is_sharing(s: u64)
    ensures
        is_bw_sharing(bw_share(s), s),
{
    let (x1, x2, x3) = bw_triple();
    assert forall|j: int| 0 <= j < 64 implies is_bw_sharing_at(bw_share(s), s, j) by {
        assert(x1[j] == false && x2[j] == false && x3[j] == false);
    }
}

/// Any bit-vector sharing of `s` reconstructs to `s`.
pub proof fn lemma_bw_sharing_reconstructs(w: BitwiseView, s: u64)
    requires
        is_bw_sharing(w, s),
    ensures
        bw_value(w) == s,
{
    assert forall|j: int| 0 <= j < 64 implies bit_of(bw_value(w), j) == bit_of(s, j) by {
        lemma_word_from_bits(bits_xor(w.0.0, w.1.1), 64, j);
        assert(is_bw_sharing_at(w, s, j));
    }
    lemma_bits_extensional(bw_value(w), s);
}

/// XOR commutes with reconstruction, for any bit vectors.
pub proof fn lemma_bw_xor_reconstructs(v1: BitwiseView, v2: BitwiseView)
    ensures
        bw_value(bw_xor(v1, v2)) == bw_value(v1) ^ bw_value(v2),
{
    let l = bw_value(bw_xor(v1, v2));
    let r = bw_value(v1) ^ bw_value(v2);
    assert forall|j: int| 0 <= j < 64 implies bit_of(l, j) == bit_of(r, j) by {
        lemma_word_from_bits(bits_xor(bw_xor(v1, v2).0.0, bw_xor(v1, v2).1.1), 64, j);
        lemma_word_from_bits(bits_xor(v1.0.0, v1.1.1), 64, j);
        lemma_word_from_bits(bits_xor(v2.0.0, v2.1.1), 64, j);
        lemma_bit_of_xor(bw_value(v1), bw_value(v2), j);
    }
    lemma_bits_extensional(l, r);
}

/// The party-wise XOR of sharings of `s` and `t` is a sharing of `s ^ t`.
pub proof fn lemma_bw_xor_sharing(v1: BitwiseView, v2: BitwiseView, s: u64, t: u64)
    requires
        is_bw_sharing(v1, s),
        is_bw_sharing(v2, t),
    ensures
        is_bw_sharing(bw_xor(v1, v2), s ^ t),
{
    let w = bw_xor(v1, v2);
    assert forall|j: int| 0 <= j < 64 implies is_bw_sharing_at(w, s ^ t, j) by {
        assert(is_bw_sharing_at(v1, s, j));
        assert(is_bw_sharing_at(v2, t, j));
        lemma_bit_of_xor(s, t, j);
        assert(!(v1.0.0[j] ^ v1.1.0[j] ^ v1.2.0[j]));
        assert(!(v2.0.0[j] ^ v2.1.0[j] ^ v2.2.0[j]));
    }
}

/// The AND protocol applied to sharings of `s` and `t` yields a sharing of `s & t`.
pub proof fn lemma_bw_and_sharing(v1: BitwiseView, v2: BitwiseView, s: u64, t: u64)
    requires
        is_bw_sharing(v1, s),
        is_bw_sharing(v2, t),
    ensures
        is_bw_sharing(bw_and(v1, v2), s & t),
{
    let w = bw_and(v1, v2);
    let (alpha, beta, gamma) = bw_triple();
    assert forall|j: int| 0 <= j < 64 implies is_bw_sharing_at(w, s & t, j) by {
        assert(is_bw_sharing_at(v1, s, j));
        assert(is_bw_sharing_at(v2, t, j));
        lemma_bit_of_and(s, t, j);
        assert(!(v1.0.0[j] ^ v1.1.0[j] ^ v1.2.0[j]));
        assert(!(v2.0.0[j] ^ v2.1.0[j] ^ v2.2.0[j]));
        assert(alpha[j] == false && beta[j] == false && gamma[j] == false);
    }
}

/// AND commutes with reconstruction on sharings.
pub proof fn lemma_bw_and_reconstructs(v1: BitwiseView, v2: BitwiseView, s: u64, t: u64)
    requires
        is_bw_sharing(v1, s),
        is_bw_sharing(v2, t),
    ensures
        bw_value(bw_and(v1, v2)) == bw_value(v1) & bw_value(v2),
{
    lemma_bw_and_sharing(v1, v2, s, t);
    lemma_bw_sharing_reconstructs(bw_and(v1, v2), s & t);
    lemma_bw_sharing_reconstructs(v1, s);
    lemma_bw_sharing_reconstructs(v2, t);
}

/// `equal` reconstructs to whether the two reconstructed words agree in their lowest bit,
/// for any bit vectors.
pub proof fn lemma_bw_equal_reconstructs(v1: BitwiseView, v2: BitwiseView)
    ensures
        bit_value(bw_equal(v1, v2)) == (bit_of(bw_value(v1), 0) == bit_of(bw_value(v2), 0)),
{
    lemma_word_from_bits(bits_xor(v1.0.0, v1.1.1), 64, 0);
    lemma_word_from_bits(bits_xor(v2.0.0, v2.1.1), 64, 0);
    lemma_bit_not(bw_column(bw_xor(v1, v2), 0), false);
}

/// On sharings of words `a` and `b` that agree above their lowest bit,
/// `equal` reconstructs to whether `a == b`.
pub proof fn lemma_bw_equal_sharing(v1: BitwiseView, v2: BitwiseView, a: u64, b: u64)
    requires
        is_bw_sharing(v1, a),
        is_bw_sharing(v2, b),
        a >> 1u64 == b >> 1u64,
    ensures
        bit_value(bw_equal(v1, v2)) == (a == b),
{
    lemma_bw_equal_reconstructs(v1, v2);
    lemma_bw_sharing_reconstructs(v1, a);
    lemma_bw_sharing_reconstructs(v2, b);
    assert((a == b) == (((a >> 0u64) & 1u64 == 1u64) == ((b >> 0u64) & 1u64 == 1u64))) by (bit_vector)
        requires
            a >> 1u64 == b >> 1u64,
    ;
}

/// Sharing two words bit by bit, combining the sharings and reconstructing gives the
/// XOR and AND of the words; `equal` reconstructs to `a == b` when the words agree
/// above their lowest bit.
pub proof fn lemma_shared_bw_ops(a: u64, b: u64)
    ensures
        bw_value(bw_share(a)) == a,
        bw_value(bw_xor(bw_share(a), bw_share(b))) == a ^ b,
        bw_value(bw_and(bw_share(a), bw_share(b))) == a & b,
        a >> 1u64 == b >> 1u64 ==> bit_value(bw_equal(bw_share(a), bw_share(b))) == (a == b),
{
    lemma_bw_share_is_sharing(a);
    lemma_bw_share_is_sharing(b);
    lemma_bw_sharing_reconstructs(bw_share(a), a);
    lemma_bw_xor_sharing(bw_share(a), bw_share(b), a, b);
    lemma_bw_and_sharing(bw_share(a), bw_share(b), a, b);
    lemma_bw_sharing_reconstructs(bw_xor(bw_share(a), bw_share(b)), a ^ b);
    lemma_bw_sharing_reconstructs(bw_and(bw_share(a), bw_share(b)), a & b);
    if a >> 1u64 == b >> 1u64 {
        lemma_bw_equal_sharing(bw_share(a), bw_share(b), a, b);
    }
}

/// Position `i` of a bit-vector sharing of `a` is a single-bit sharing of bit `i` of `a`.
pub proof fn lemma_bw_column_sharing(w: BitwiseView, a: u64, i: int)
    requires
        is_bw_sharing(w, a),
        0 <= i < 64,
    ensures
        is_bit_sharing(bw_column(w, i), bit_of(a, i)),
{
    assert(is_bw_sharing_at(w, a, i));
}

/// On sharings of `a` and `b`, `equal` yields a replicated single-bit sharing (every pair of
/// parties reconstructs the same bit) of whether `a` and `b` agree in their lowest bit.
pub proof fn lemma_bw_equal_is_sharing(v1: BitwiseView, v2: BitwiseView, a: u64, b: u64)
    requires
        is_bw_sharing(v1, a),
        is_bw_sharing(v2, b),
    ensures
        is_bit_sharing(bw_equal(v1, v2), bit_of(a, 0) == bit_of(b, 0)),
{
    lemma_bw_xor_sharing(v1, v2, a, b);
    lemma_bw_column_sharing(bw_xor(v1, v2), a ^ b, 0);
    lemma_bit_of_xor(a, b, 0);
    lemma_bit_not(bw_column(bw_xor(v1, v2), 0), bit_of(a ^ b, 0));
}

/// A replicated XOR-sharing of a 64-bit word held bit by bit: three parties, each holds two bit vectors.
pub struct RSS3Share_boolean_bitwise {
    pub shares: ([bool; 64], [bool; 64]),
}

/// Operations on bit-vector sharings.
pub struct RSS3S_boolean_bitwise {}

impl RSS3S_boolean_bitwise {
    /// The bits of `value`, least significant first.
    pub fn u64_to_bits(value: u64) -> (bits: [bool; 64])
        ensures
            forall|j: int| 0 <= j < 64 ==> bits[j] == bit_of(value, j),
    {
        let mut bits = [false; 64];
        for i in 0..64
            invariant
                forall|j: int| 0 <= j < i ==> bits[j] == bit_of(value, j),
        {
            proof {
                let k = i as u64;
                assert(((value & (1u64 << k)) != 0u64) == ((value >> k) & 1u64 == 1u64)) by (bit_vector)
                    requires
                        k < 64,
                ;
            }
            bits[i] = (value & (1u64 << (i as u64))) != 0;
        }
        bits
    }

    /// The word whose bit `j` is `bits[j]`.
    pub fn bits_to_u64(bits: &[bool; 64]) -> (value: u64)
        ensures
            value == word_from_bits(bits@, 64),
            forall|j: int| 0 <= j < 64 ==> bit_of(value, j) == bits[j],
    {
        let mut value = 0u64;
        for i in 0..64
            invariant
                value == word_from_bits(bits@, i as nat),
        {
            if bits[i] {
                value |= 1u64 << (i as u64);
            }
        }
        proof {
            assert forall|j: int| 0 <= j < 64 implies bit_of(value, j) == bits[j] by {
                lemma_word_from_bits(bits@, 64, j);
            }
        }
        value
    }

    /// Position-wise XOR of two bit vectors.
    pub fn bool_xor(a: &[bool; 64], b: &[bool; 64]) -> (result: [bool; 64])
        ensures
            result@ == bits_xor(a@, b@),
            forall|j: int| 0 <= j < 64 ==> result[j] == (a[j] ^ b[j]),
    {
        let mut result = [false; 64];
        for i in 0..64
            invariant
                forall|j: int| 0 <= j < i ==> result[j] == (a[j] ^ b[j]),
        {
            result[i] = a[i] ^ b[i];
        }
        assert(result@ =~= bits_xor(a@, b@));
        result
    }

    /// Position-wise XOR of three bit vectors.
    pub fn bool_xor_three(a: &[bool; 64], b: &[bool; 64], c: &[bool; 64]) -> (result: [bool; 64])
        ensures
            result@ == bits_xor3(a@, b@, c@),
            forall|j: int| 0 <= j < 64 ==> result[j] == (a[j] ^ b[j] ^ c[j]),
    {
        let mut result = [false; 64];
        for i in 0..64
            invariant
                forall|j: int| 0 <= j < i ==> result[j] == (a[j] ^ b[j] ^ c[j]),
        {
            result[i] = a[i] ^ b[i] ^ c[i];
        }
        assert(result@ =~= bits_xor3(a@, b@, c@));
        result
    }

    /// Position-wise AND of two bit vectors.
    pub fn bool_and(a: &[bool; 64], b: &[bool; 64]) -> (result: [bool; 64])
        ensures
            result@ == bits_and(a@, b@),
            forall|j: int| 0 <= j < 64 ==> result[j] == (a[j] && b[j]),
    {
        let mut result = [false; 64];
        for i in 0..64
            invariant
                forall|j: int| 0 <= j < i ==> result[j] == (a[j] && b[j]),
        {
            result[i] = a[i] && b[i];
        }
        assert(result@ =~= bits_and(a@, b@));
        result
    }

    /// Secret-share a word into three bit-vector XOR shares.
    pub fn share(secret: u64) -> (r: [RSS3Share_boolean_bitwise; 3])
        ensures
            bw_view(r) == bw_share(secret),
            is_bw_sharing(bw_view(r), secret),
    {
        let (x1, x2, x3) = SHARE_TRIPLES_boolean_bitwise_fake[0];
        let secret_bits = Self::u64_to_bits(secret);
        let a1 = Self::bool_xor(&x3, &secret_bits);
        let a2 = Self::bool_xor(&x1, &secret_bits);
        let a3 = Self::bool_xor(&x2, &secret_bits);
        proof {
            assert(secret_bits@ =~= bits_of(secret));
        }
        let r = [
            RSS3Share_boolean_bitwise { shares: (x1, a1) },
            RSS3Share_boolean_bitwise { shares: (x2, a2) },
            RSS3Share_boolean_bitwise { shares: (x3, a3) },
        ];
        proof {
            lemma_bw_share_is_sharing(secret);
        }
        r
    }

    /// Reconstruct the secret word from the first two parties.
    pub fn reconstruct(shares: &[RSS3Share_boolean_bitwise; 3]) -> (r: u64)
        ensures
            r == bw_value(bw_view(*shares)),
            forall|s: u64| #[trigger] is_bw_sharing(bw_view(*shares), s) ==> r == s,
    {
        proof {
            assert forall|s: u64| #[trigger] is_bw_sharing(bw_view(*shares), s) implies bw_value(bw_view(*shares)) == s by {
                lemma_bw_sharing_reconstructs(bw_view(*shares), s);
            }
        }
        let (x1, _) = shares[0].shares;
        let (_, a2) = shares[1].shares;
        let result_bits = Self::bool_xor(&x1, &a2);
        Self::bits_to_u64(&result_bits)
    }

    /// XOR over secret shares, computed party-wise and position-wise.
    pub fn xor(v1: &[RSS3Share_boolean_bitwise; 3], v2: &[RSS3Share_boolean_bitwise; 3]) -> (r: [RSS3Share_boolean_bitwise; 3])
        ensures
            bw_view(r) == bw_xor(bw_view(*v1), bw_view(*v2)),
            forall|s: u64, t: u64|
                #[trigger] is_bw_sharing(bw_view(*v1), s) && #[trigger] is_bw_sharing(bw_view(*v2), t)
                    ==> is_bw_sharing(bw_view(r), s ^ t),
    {
        proof {
            assert forall|s: u64, t: u64|
                #[trigger] is_bw_sharing(bw_view(*v1), s) && #[trigger] is_bw_sharing(bw_view(*v2), t)
                    implies is_bw_sharing(bw_xor(bw_view(*v1), bw_view(*v2)), s ^ t) by {
                lemma_bw_xor_sharing(bw_view(*v1), bw_view(*v2), s, t);
            }
        }
        [
            RSS3Share_boolean_bitwise {
                shares: (Self::bool_xor(&v1[0].shares.0, &v2[0].shares.0), Self::bool_xor(&v1[0].shares.1, &v2[0].shares.1)),
            },
            RSS3Share_boolean_bitwise {
                shares: (Self::bool_xor(&v1[1].shares.0, &v2[1].shares.0), Self::bool_xor(&v1[1].shares.1, &v2[1].shares.1)),
            },
            RSS3Share_boolean_bitwise {
                shares: (Self::bool_xor(&v1[2].shares.0, &v2[2].shares.0), Self::bool_xor(&v1[2].shares.1, &v2[2].shares.1)),
            },
        ]
    }

    /// AND over secret shares, applying the single-bit AND protocol at every position.
    pub fn and(v1: &[RSS3Share_boolean_bitwise; 3], v2: &[RSS3Share_boolean_bitwise; 3]) -> (r: [RSS3Share_boolean_bitwise; 3])
        ensures
            bw_view(r) == bw_and(bw_view(*v1), bw_view(*v2)),
            forall|s: u64, t: u64|
                #[trigger] is_bw_sharing(bw_view(*v1), s) && #[trigger] is_bw_sharing(bw_view(*v2), t)
                    ==> is_bw_sharing(bw_view(r), s & t),
    {
        proof {
            assert forall|s: u64, t: u64|
                #[trigger] is_bw_sharing(bw_view(*v1), s) && #[trigger] is_bw_sharing(bw_view(*v2), t)
                    implies is_bw_sharing(bw_and(bw_view(*v1), bw_view(*v2)), s & t) by {
                lemma_bw_and_sharing(bw_view(*v1), bw_view(*v2), s, t);
            }
        }
        let (alpha, beta, gamma) = SHARE_TRIPLES_boolean_bitwise_fake[0];

        let (x1, a1) = v1[0].shares;
        let (y1, b1) = v2[0].shares;
        let r1 = Self::bool_xor_three(&Self::bool_and(&x1, &y1), &Self::bool_and(&a1, &b1), &alpha);

        let (x2, a2) = v1[1].shares;
        let (y2, b2) = v2[1].shares;
        let r2 = Self::bool_xor_three(&Self::bool_and(&x2, &y2), &Self::bool_and(&a2, &b2), &beta);

        let (x3, a3) = v1[2].shares;
        let (y3, b3) = v2[2].shares;
        let r3 = Self::bool_xor_three(&Self::bool_and(&x3, &y3), &Self::bool_and(&a3, &b3), &gamma);

        let z1 = Self::bool_xor(&r1, &r3);
        let z2 = Self::bool_xor(&r2, &r1);
        let z3 = Self::bool_xor(&r3, &r2);

        let c1 = r1;
        let c2 = r2;
        let c3 = r3;

        [
            RSS3Share_boolean_bitwise { shares: (z1, c1) },
            RSS3Share_boolean_bitwise { shares: (z2, c2) },
            RSS3Share_boolean_bitwise { shares: (z3, c3) },
        ]
    }

    /// Split a bit-vector sharing into its 64 single-bit sharings, one per position.
    pub fn RSS3Share_boolean_bitwise64bits_to_SingleBooleanArray(v: &[RSS3Share_boolean_bitwise; 3]) -> (r: [[RSS3Share_single_boolean; 3]; 64])
        ensures
            forall|i: int| 0 <= i < 64 ==> r[i] == bw_column(bw_view(*v), i),
            forall|i: int, a: u64|
                0 <= i < 64 && #[trigger] is_bw_sharing(bw_view(*v), a) ==> is_bit_sharing(#[trigger] r[i], bit_of(a, i)),
    {
        let blank = RSS3Share_single_boolean { shares: (false, false) };
        let mut r = [[blank; 3]; 64];
        for i in 0..64
            invariant
                forall|k: int| 0 <= k < i ==> r[k] == bw_column(bw_view(*v), k),
        {
            let column = [
                RSS3Share_single_boolean { shares: (v[0].shares.0[i], v[0].shares.1[i]) },
                RSS3Share_single_boolean { shares: (v[1].shares.0[i], v[1].shares.1[i]) },
                RSS3Share_single_boolean { shares: (v[2].shares.0[i], v[2].shares.1[i]) },
            ];
            assert(column =~= bw_column(bw_view(*v), i as int));
            r[i] = column;
        }
        proof {
            assert forall|i: int, a: u64|
                0 <= i < 64 && #[trigger] is_bw_sharing(bw_view(*v), a) implies is_bit_sharing(#[trigger] r[i], bit_of(a, i)) by {
                lemma_bw_column_sharing(bw_view(*v), a, i);
            }
        }
        r
    }

    /// The single-bit sharing at the lowest position of a bit-vector sharing.
    pub fn shares_bit_and(v: &[RSS3Share_boolean_bitwise; 3]) -> (r: [RSS3Share_single_boolean; 3])
        ensures
            r == bw_column(bw_view(*v), 0),
            forall|a: u64| #[trigger] is_bw_sharing(bw_view(*v), a) ==> is_bit_sharing(r, bit_of(a, 0)),
    {
        let columns = Self::RSS3Share_boolean_bitwise64bits_to_SingleBooleanArray(v);
        proof {
            assert forall|a: u64| #[trigger] is_bw_sharing(bw_view(*v), a) implies is_bit_sharing(columns[0], bit_of(a, 0)) by {
                lemma_bw_column_sharing(bw_view(*v), a, 0);
            }
        }
        columns[0]
    }

    /// The negation of the lowest-position sharing of `v1 ^ v2`.
    pub fn equal(v1: &[RSS3Share_boolean_bitwise; 3], v2: &[RSS3Share_boolean_bitwise; 3]) -> (r: [RSS3Share_single_boolean; 3])
        ensures
            r == bw_equal(bw_view(*v1), bw_view(*v2)),
            forall|a: u64, b: u64|
                #[trigger] is_bw_sharing(bw_view(*v1), a) && #[trigger] is_bw_sharing(bw_view(*v2), b)
                    ==> is_bit_sharing(r, bit_of(a, 0) == bit_of(b, 0)),
    {
        let diff = Self::xor(v1, v2);
        let and_result = Self::shares_bit_and(&diff);
        let result = RSS3_single_boolean::not(&and_result);
        proof {
            assert forall|a: u64, b: u64|
                #[trigger] is_bw_sharing(bw_view(*v1), a) && #[trigger] is_bw_sharing(bw_view(*v2), b)
                    implies is_bit_sharing(result, bit_of(a, 0) == bit_of(b, 0)) by {
                lemma_bw_equal_is_sharing(bw_view(*v1), bw_view(*v2), a, b);
            }
        }
        result
    }
}

} // verus!
