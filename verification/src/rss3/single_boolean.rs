use vstd::prelude::*;

use crate::constants::SHARE_TRIPLES_single_boolean;

verus! {

/// A replicated XOR-sharing of one bit: three parties, each holds two bits.
#[derive(Clone, Copy)]
pub struct RSS3Share_single_boolean {
    pub shares: (bool, bool),
}

/// Operations on XOR-shared bits.
pub struct RSS3_single_boolean {}

/// The correlated triple used to mask shared bits and in the AND protocol.
pub open spec fn bit_triple() -> (bool, bool, bool) {
    SHARE_TRIPLES_single_boolean[0]
}

/// The correlated triple used to share the constant `true`.
pub open spec fn bit_one_triple() -> (bool, bool, bool) {
    SHARE_TRIPLES_single_boolean[1]
}

/// The pair of shares `(x, a)` held by one party.
pub open spec fn bit_party(x: bool, a: bool) -> RSS3Share_single_boolean {
    RSS3Share_single_boolean { shares: (x, a) }
}

/// The bit that the first two parties reconstruct: `x1 ^ a2`.
pub open spec fn bit_value(sh: [RSS3Share_single_boolean; 3]) -> bool {
    sh[1].shares.1 ^ sh[0].shares.0
}

/// `sh` is a replicated XOR-sharing of the bit `s`: the first components XOR to `false` and
/// party `i` holds `a_i = x_(i-1) ^ s` (indices taken cyclically).
pub open spec fn is_bit_sharing(sh: [RSS3Share_single_boolean; 3], s: bool) -> bool {
    &&& !(sh[0].shares.0 ^ sh[1].shares.0 ^ sh[2].shares.0)
    &&& sh[0].shares.1 == sh[2].shares.0 ^ s
    &&& sh[1].shares.1 == sh[0].shares.0 ^ s
    &&& sh[2].shares.1 == sh[1].shares.0 ^ s
}

/// The shares of `s` masked with the triple `(x1, x2, x3)`.
pub open spec fn bit_share_with(t: (bool, bool, bool), s: bool) -> [RSS3Share_single_boolean; 3] {
    let (x1, x2, x3) = t;
    [bit_party(x1, x3 ^ s), bit_party(x2, x1 ^ s), bit_party(x3, x2 ^ s)]
}

/// Party-wise XOR of two sharings.
pub open spec fn bit_xor(v1: [RSS3Share_single_boolean; 3], v2: [RSS3Share_single_boolean; 3]) -> [RSS3Share_single_boolean; 3] {
    [
        bit_party(v1[0].shares.0 ^ v2[0].shares.0, v1[0].shares.1 ^ v2[0].shares.1),
        bit_party(v1[1].shares.0 ^ v2[1].shares.0, v1[1].shares.1 ^ v2[1].shares.1),
        bit_party(v1[2].shares.0 ^ v2[2].shares.0, v1[2].shares.1 ^ v2[2].shares.1),
    ]
}

/// The bit a party computes locally in the AND protocol from its shares `(x, a)` and `(y, b)`.
pub open spec fn bit_cross(x: bool, a: bool, y: bool, b: bool, alpha: bool) -> bool {
    (x && y) ^ (a && b) ^ alpha
}

/// The sharing that `and` produces: party `i` holds `(r_i ^ r_(i-1), r_i)`.
pub open spec fn bit_and(v1: [RSS3Share_single_boolean; 3], v2: [RSS3Share_single_boolean; 3]) -> [RSS3Share_single_boolean; 3] {
    let (alpha, beta, gamma) = bit_triple();
    let r1 = bit_cross(v1[0].shares.0, v1[0].shares.1, v2[0].shares.0, v2[0].shares.1, alpha);
    let r2 = bit_cross(v1[1].shares.0, v1[1].shares.1, v2[1].shares.0, v2[1].shares.1, beta);
    let r3 = bit_cross(v1[2].shares.0, v1[2].shares.1, v2[2].shares.0, v2[2].shares.1, gamma);
    [bit_party(r1 ^ r3, r1), bit_party(r2 ^ r1, r2), bit_party(r3 ^ r2, r3)]
}

/// Negation: XOR with the sharing of `true`.
pub open spec fn bit_not(v: [RSS3Share_single_boolean; 3]) -> [RSS3Share_single_boolean; 3] {
    bit_xor(v, bit_share_with(bit_one_triple(), true))
}

// ---------------------------------------------------------------------------
// Laws
// ---------------------------------------------------------------------------

/// What `share` hands out for `s` is a sharing of `s`, and `one_share` is a sharing of `true`.
pub proof fn lemma_bit_share_is_sharing(s: bool)
    ensures
        is_bit_sharing(bit_share_with(bit_triple(), s), s),
        is_bit_sharing(bit_share_with(bit_one_triple(), true), true),
{
}

/// Any sharing of `s` reconstructs to `s`.
pub proof fn lemma_bit_sharing_reconstructs(sh: [RSS3Share_single_boolean; 3], s: bool)
    requires
        is_bit_sharing(sh, s),
    ensures
        bit_value(sh) == s,
{
}

/// XOR commutes with reconstruction, for any three pairs of bits.
pub proof fn lemma_bit_xor_reconstructs(v1: [RSS3Share_single_boolean; 3], v2: [RSS3Share_single_boolean; 3])
    ensures
        bit_value(bit_xor(v1, v2)) == bit_value(v1) ^ bit_value(v2),
{
}

/// The party-wise XOR of sharings of `s` and `t` is a sharing of `s ^ t`.
pub proof fn lemma_bit_xor_sharing(v1: [RSS3Share_single_boolean; 3], v2: [RSS3Share_single_boolean; 3], s: bool, t: bool)
    requires
        is_bit_sharing(v1, s),
        is_bit_sharing(v2, t),
    ensures
        is_bit_sharing(bit_xor(v1, v2), s ^ t),
{
}

/// The AND protocol applied to sharings of `s` and `t` yields a sharing of `s && t`,
/// which therefore reconstructs to `s & t`.
pub proof fn lemma_bit_and_sharing(v1: [RSS3Share_single_boolean; 3], v2: [RSS3Share_single_boolean; 3], s: bool, t: bool)
    requires
        is_bit_sharing(v1, s),
        is_bit_sharing(v2, t),
    ensures
        is_bit_sharing(bit_and(v1, v2), s && t),
        bit_value(bit_and(v1, v2)) == (bit_value(v1) && bit_value(v2)),
{
}

/// Negation flips the reconstructed bit, for any three pairs of bits,
/// and turns a sharing of `s` into a sharing of `!s`.
pub proof fn lemma_bit_not(v: [RSS3Share_single_boolean; 3], s: bool)
    ensures
        bit_value(bit_not(v)) == !bit_value(v),
        is_bit_sharing(v, s) ==> is_bit_sharing(bit_not(v), !s),
{
}

/// Sharing two bits, combining the sharings and reconstructing gives the XOR, AND and
/// negation of the bits.
pub proof fn lemma_shared_bit_ops(a: bool, b: bool)
    ensures
        bit_value(bit_xor(bit_share_with(bit_triple(), a), bit_share_with(bit_triple(), b))) == a ^ b,
        bit_value(bit_and(bit_share_with(bit_triple(), a), bit_share_with(bit_triple(), b))) == (a && b),
        bit_value(bit_not(bit_share_with(bit_triple(), a))) == !a,
{
    lemma_bit_and_sharing(bit_share_with(bit_triple(), a), bit_share_with(bit_triple(), b), a, b);
    lemma_bit_not(bit_share_with(bit_triple(), a), a);
}

// ---------------------------------------------------------------------------
// Protocol
// ---------------------------------------------------------------------------

impl RSS3_single_boolean {
    /// Secret-share a bit into three XOR shares.
    pub fn share(secret: bool) -> (r: [RSS3Share_single_boolean; 3])
        ensures
            r == bit_share_with(bit_triple(), secret),
            is_bit_sharing(r, secret),
    {
        let (x1, x2, x3) = SHARE_TRIPLES_single_boolean[0];
        let a1 = x3 ^ secret;
        let a2 = x1 ^ secret;
        let a3 = x2 ^ secret;
        let r = [
            RSS3Share_single_boolean { shares: (x1, a1) },
            RSS3Share_single_boolean { shares: (x2, a2) },
            RSS3Share_single_boolean { shares: (x3, a3) },
        ];
        proof {
            assert(r =~= bit_share_with(bit_triple(), secret));
            lemma_bit_share_is_sharing(secret);
        }
        r
    }

    /// A sharing of the constant `true`, masked with the second correlated triple.
    pub fn one_share() -> (r: [RSS3Share_single_boolean; 3])
        ensures
            r == bit_share_with(bit_one_triple(), true),
            is_bit_sharing(r, true),
    {
        let (x1, x2, x3) = SHARE_TRIPLES_single_boolean[1];
        let a1 = x3 ^ true;
        let a2 = x1 ^ true;
        let a3 = x2 ^ true;
        let r = [
            RSS3Share_single_boolean { shares: (x1, a1) },
            RSS3Share_single_boolean { shares: (x2, a2) },
            RSS3Share_single_boolean { shares: (x3, a3) },
        ];
        proof {
            assert(r =~= bit_share_with(bit_one_triple(), true));
            lemma_bit_share_is_sharing(true);
        }
        r
    }

    /// Reconstruct the secret bit from the first two parties.
    pub fn reconstruct(shares: &[RSS3Share_single_boolean; 3]) -> (r: bool)
        ensures
            r == bit_value(*shares),
            forall|s: bool| #[trigger] is_bit_sharing(*shares, s) ==> r == s,
    {
        proof {
            assert forall|s: bool| #[trigger] is_bit_sharing(*shares, s) implies bit_value(*shares) == s by {
                lemma_bit_sharing_reconstructs(*shares, s);
            }
        }
        let (x1, _) = shares[0].shares;
        let (_, a2) = shares[1].shares;
        a2 ^ x1
    }

    /// XOR over secret shares, computed party-wise.
    pub fn xor(v1: &[RSS3Share_single_boolean; 3], v2: &[RSS3Share_single_boolean; 3]) -> (r: [RSS3Share_single_boolean; 3])
        ensures
            r == bit_xor(*v1, *v2),
            forall|s: bool, t: bool|
                #[trigger] is_bit_sharing(*v1, s) && #[trigger] is_bit_sharing(*v2, t)
                    ==> is_bit_sharing(r, s ^ t),
    {
        proof {
            assert forall|s: bool, t: bool|
                #[trigger] is_bit_sharing(*v1, s) && #[trigger] is_bit_sharing(*v2, t)
                    implies is_bit_sharing(bit_xor(*v1, *v2), s ^ t) by {
                lemma_bit_xor_sharing(*v1, *v2, s, t);
            }
        }
        let r = [
            RSS3Share_single_boolean { shares: (v1[0].shares.0 ^ v2[0].shares.0, v1[0].shares.1 ^ v2[0].shares.1) },
            RSS3Share_single_boolean { shares: (v1[1].shares.0 ^ v2[1].shares.0, v1[1].shares.1 ^ v2[1].shares.1) },
            RSS3Share_single_boolean { shares: (v1[2].shares.0 ^ v2[2].shares.0, v1[2].shares.1 ^ v2[2].shares.1) },
        ];
        proof {
            assert(r =~= bit_xor(*v1, *v2));
        }
        r
    }

    /// AND over secret shares: each party computes its cross term locally, then the
    /// cross terms are re-shared as a fresh replicated sharing.
    pub fn and(v1: &[RSS3Share_single_boolean; 3], v2: &[RSS3Share_single_boolean; 3]) -> (r: [RSS3Share_single_boolean; 3])
        ensures
            r == bit_and(*v1, *v2),
            forall|s: bool, t: bool|
                #[trigger] is_bit_sharing(*v1, s) && #[trigger] is_bit_sharing(*v2, t)
                    ==> is_bit_sharing(r, s && t),
    {
        proof {
            assert forall|s: bool, t: bool|
                #[trigger] is_bit_sharing(*v1, s) && #[trigger] is_bit_sharing(*v2, t)
                    implies is_bit_sharing(bit_and(*v1, *v2), s && t) by {
                lemma_bit_and_sharing(*v1, *v2, s, t);
            }
        }
        let (alpha, beta, gamma) = SHARE_TRIPLES_single_boolean[0];

        let (x1, a1) = v1[0].shares;
        let (y1, b1) = v2[0].shares;
        let r1 = (x1 && y1) ^ (a1 && b1) ^ alpha;

        let (x2, a2) = v1[1].shares;
        let (y2, b2) = v2[1].shares;
        let r2 = (x2 && y2) ^ (a2 && b2) ^ beta;

        let (x3, a3) = v1[2].shares;
        let (y3, b3) = v2[2].shares;
        let r3 = (x3 && y3) ^ (a3 && b3) ^ gamma;

        let z1 = r1 ^ r3;
        let z2 = r2 ^ r1;
        let z3 = r3 ^ r2;

        let c1 = r1;
        let c2 = r2;
        let c3 = r3;

        let r = [
            RSS3Share_single_boolean { shares: (z1, c1) },
            RSS3Share_single_boolean { shares: (z2, c2) },
            RSS3Share_single_boolean { shares: (z3, c3) },
        ];
        proof {
            assert(r =~= bit_and(*v1, *v2));
        }
        r
    }

    /// Negate a shared bit.
    pub fn not(v: &[RSS3Share_single_boolean; 3]) -> (r: [RSS3Share_single_boolean; 3])
        ensures
            r == bit_not(*v),
            forall|s: bool| #[trigger] is_bit_sharing(*v, s) ==> is_bit_sharing(r, !s),
            bit_value(r) == !bit_value(*v),
    {
        proof {
            lemma_bit_not(*v, false);
            assert forall|s: bool| #[trigger] is_bit_sharing(*v, s) implies is_bit_sharing(bit_not(*v), !s) by {
                lemma_bit_not(*v, s);
            }
        }
        let one = Self::one_share();
        Self::xor(v, &one)
    }
}

} // verus!
