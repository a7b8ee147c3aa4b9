use vstd::prelude::*;

use crate::constants::SHARE_TRIPLES_U64;

verus! {

/// A replicated XOR-sharing of a 64-bit word: three parties, each holds two words.
pub struct RSS3Share_boolean {
    pub shares: (u64, u64),
}

/// Operations on XOR-shared 64-bit words.
pub struct RSS3_boolean {}

/// The XOR-correlated triple used both to mask the shares and in the AND protocol.
pub open spec fn xor_triple() -> (u64, u64, u64) {
    SHARE_TRIPLES_U64[0]
}

/// The pair of shares `(x, a)` held by one party.
pub open spec fn word_party(x: u64, a: u64) -> RSS3Share_boolean {
    RSS3Share_boolean { shares: (x, a) }
}

/// The word that the first two parties reconstruct: `x1 ^ a2`.
pub open spec fn word_value(sh: [RSS3Share_boolean; 3]) -> u64 {
    sh[1].shares.1 ^ sh[0].shares.0
}

/// The word that the second and third parties reconstruct: `x2 ^ a3`.
pub open spec fn word_value_23(sh: [RSS3Share_boolean; 3]) -> u64 {
    sh[2].shares.1 ^ sh[1].shares.0
}

/// `sh` is a replicated XOR-sharing of `s`: the first components XOR to zero and
/// party `i` holds `a_i = x_(i-1) ^ s` (indices taken cyclically).
pub open spec fn is_word_sharing(sh: [RSS3Share_boolean; 3], s: u64) -> bool {
    &&& sh[0].shares.0 ^ sh[1].shares.0 ^ sh[2].shares.0 == 0
    &&& sh[0].shares.1 == sh[2].shares.0 ^ s
    &&& sh[1].shares.1 == sh[0].shares.0 ^ s
    &&& sh[2].shares.1 == sh[1].shares.0 ^ s
}

/// The three shares that `share` hands out for `s`.
pub open spec fn word_share(s: u64) -> [RSS3Share_boolean; 3] {
    let (x1, x2, x3) = xor_triple();
    [word_party(x1, x3 ^ s), word_party(x2, x1 ^ s), word_party(x3, x2 ^ s)]
}

/// Party-wise XOR of two sharings.
pub open spec fn word_xor(v1: [RSS3Share_boolean; 3], v2: [RSS3Share_boolean; 3]) -> [RSS3Share_boolean; 3] {
    [
        word_party(v1[0].shares.0 ^ v2[0].shares.0, v1[0].shares.1 ^ v2[0].shares.1),
        word_party(v1[1].shares.0 ^ v2[1].shares.0, v1[1].shares.1 ^ v2[1].shares.1),
        word_party(v1[2].shares.0 ^ v2[2].shares.0, v1[2].shares.1 ^ v2[2].shares.1),
    ]
}

/// The value a party computes locally in the AND protocol from its shares `(x, a)` and `(y, b)`.
pub open spec fn word_cross(x: u64, a: u64, y: u64, b: u64, alpha: u64) -> u64 {
    (x & y) ^ (a & b) ^ alpha
}

/// The sharing that `and` produces: party `i` holds `(r_i ^ r_(i-1), r_i)`.
pub open spec fn word_and(v1: [RSS3Share_boolean; 3], v2: [RSS3Share_boolean; 3]) -> [RSS3Share_boolean; 3] {
    let (alpha, beta, gamma) = xor_triple();
    let r1 = word_cross(v1[0].shares.0, v1[0].shares.1, v2[0].shares.0, v2[0].shares.1, alpha);
    let r2 = word_cross(v1[1].shares.0, v1[1].shares.1, v2[1].shares.0, v2[1].shares.1, beta);
    let r3 = word_cross(v1[2].shares.0, v1[2].shares.1, v2[2].shares.0, v2[2].shares.1, gamma);
    [word_party(r1 ^ r3, r1), word_party(r2 ^ r1, r2), word_party(r3 ^ r2, r3)]
}

// ---------------------------------------------------------------------------
// Laws
// ---------------------------------------------------------------------------

/// What `share` hands out for `s` is a sharing of `s`.
pub proof fn lemma_word_share_is_sharing(s: u64)
    ensures
        is_word_sharing(word_share(s), s),
{
    let (x1, x2, x3) = xor_triple();
    assert(x1 == 0b1010u64 && x2 == 0b0110u64 && x3 == 0b1100u64);
    assert(0b1010u64 ^ 0b0110u64 ^ 0b1100u64 == 0u64) by (bit_vector);
}

/// Any sharing of `s` reconstructs to `s`, from either pair of parties.
pub proof fn lemma_word_sharing_reconstructs(sh: [RSS3Share_boolean; 3], s: u64)
    requires
        is_word_sharing(sh, s),
    ensures
        word_value(sh) == s,
        word_value_23(sh) == s,
{
    let x1 = sh[0].shares.0;
    let x2 = sh[1].shares.0;
    let x3 = sh[2].shares.0;
    let a2 = sh[1].shares.1;
    let a3 = sh[2].shares.1;
    assert(a2 ^ x1 == s) by (bit_vector)
        requires
            a2 == x1 ^ s,
    ;
    assert(a3 ^ x2 == s) by (bit_vector)
        requires
            a3 == x2 ^ s,
    ;
}

/// XOR commutes with reconstruction, for any three pairs of words.
pub proof fn lemma_word_xor_reconstructs(v1: [RSS3Share_boolean; 3], v2: [RSS3Share_boolean; 3])
    ensures
        word_value(word_xor(v1, v2)) == word_value(v1) ^ word_value(v2),
{
    let x1 = v1[0].shares.0;
    let a2 = v1[1].shares.1;
    let y1 = v2[0].shares.0;
    let b2 = v2[1].shares.1;
    assert((a2 ^ b2) ^ (x1 ^ y1) == (a2 ^ x1) ^ (b2 ^ y1)) by (bit_vector);
}

/// The party-wise XOR of sharings of `s` and `t` is a sharing of `s ^ t`.
pub proof fn lemma_word_xor_sharing(v1: [RSS3Share_boolean; 3], v2: [RSS3Share_boolean; 3], s: u64, t: u64)
    requires
        is_word_sharing(v1, s),
        is_word_sharing(v2, t),
    ensures
        is_word_sharing(word_xor(v1, v2), s ^ t),
{
    let (x1, a1, x2, a2, x3, a3) = (
        v1[0].shares.0,
        v1[0].shares.1,
        v1[1].shares.0,
        v1[1].shares.1,
        v1[2].shares.0,
        v1[2].shares.1,
    );
    let (y1, b1, y2, b2, y3, b3) = (
        v2[0].shares.0,
        v2[0].shares.1,
        v2[1].shares.0,
        v2[1].shares.1,
        v2[2].shares.0,
        v2[2].shares.1,
    );
    assert((x1 ^ y1) ^ (x2 ^ y2) ^ (x3 ^ y3) == 0 && a1 ^ b1 == (x3 ^ y3) ^ (s ^ t) && a2 ^ b2 == (
    x1 ^ y1) ^ (s ^ t) && a3 ^ b3 == (x2 ^ y2) ^ (s ^ t)) by (bit_vector)
        requires
            x1 ^ x2 ^ x3 == 0,
            y1 ^ y2 ^ y3 == 0,
            a1 == x3 ^ s,
            a2 == x1 ^ s,
            a3 == x2 ^ s,
            b1 == y3 ^ t,
            b2 == y1 ^ t,
            b3 == y2 ^ t,
    ;
}

/// The AND protocol applied to sharings of `s` and `t` yields a sharing of `s & t`.
pub proof fn lemma_word_and_sharing(v1: [RSS3Share_boolean; 3], v2: [RSS3Share_boolean; 3], s: u64, t: u64)
    requires
        is_word_sharing(v1, s),
        is_word_sharing(v2, t),
    ensures
        is_word_sharing(word_and(v1, v2), s & t),
{
    let (alpha, beta, gamma) = xor_triple();
    assert(alpha == 0b1010u64 && beta == 0b0110u64 && gamma == 0b1100u64);
    assert(0b1010u64 ^ 0b0110u64 ^ 0b1100u64 == 0u64) by (bit_vector);
    let (x1, a1, x2, a2, x3, a3) = (
        v1[0].shares.0,
        v1[0].shares.1,
        v1[1].shares.0,
        v1[1].shares.1,
        v1[2].shares.0,
        v1[2].shares.1,
    );
    let (y1, b1, y2, b2, y3, b3) = (
        v2[0].shares.0,
        v2[0].shares.1,
        v2[1].shares.0,
        v2[1].shares.1,
        v2[2].shares.0,
        v2[2].shares.1,
    );
    let r1 = (x1 & y1) ^ (a1 & b1) ^ alpha;
    let r2 = (x2 & y2) ^ (a2 & b2) ^ beta;
    let r3 = (x3 & y3) ^ (a3 & b3) ^ gamma;
    assert(r1 ^ r2 ^ r3 == s & t) by (bit_vector)
        requires
            x1 ^ x2 ^ x3 == 0,
            y1 ^ y2 ^ y3 == 0,
            a1 == x3 ^ s,
            a2 == x1 ^ s,
            a3 == x2 ^ s,
            b1 == y3 ^ t,
            b2 == y1 ^ t,
            b3 == y2 ^ t,
            alpha ^ beta ^ gamma == 0,
            r1 == (x1 & y1) ^ (a1 & b1) ^ alpha,
            r2 == (x2 & y2) ^ (a2 & b2) ^ beta,
            r3 == (x3 & y3) ^ (a3 & b3) ^ gamma,
    ;
    assert((r1 ^ r3) ^ (r2 ^ r1) ^ (r3 ^ r2) == 0 && r1 == (r3 ^ r2) ^ (s & t) && r2 == (r1 ^ r3) ^ (s
        & t) && r3 == (r2 ^ r1) ^ (s & t)) by (bit_vector)
        requires
            r1 ^ r2 ^ r3 == s & t,
    ;
}

/// AND commutes with reconstruction on sharings.
pub proof fn lemma_word_and_reconstructs(v1: [RSS3Share_boolean; 3], v2: [RSS3Share_boolean; 3], s: u64, t: u64)
    requires
        is_word_sharing(v1, s),
        is_word_sharing(v2, t),
    ensures
        word_value(word_and(v1, v2)) == word_value(v1) & word_value(v2),
{
    lemma_word_and_sharing(v1, v2, s, t);
    lemma_word_sharing_reconstructs(word_and(v1, v2), s & t);
    lemma_word_sharing_reconstructs(v1, s);
    lemma_word_sharing_reconstructs(v2, t);
}

/// Sharing two words, combining the sharings with XOR or AND and reconstructing (from
/// either pair of parties) gives the XOR or AND of the words.
pub proof fn lemma_shared_word_ops(a: u64, b: u64)
    ensures
        word_value(word_xor(word_share(a), word_share(b))) == a ^ b,
        word_value_23(word_xor(word_share(a), word_share(b))) == a ^ b,
        word_value(word_and(word_share(a), word_share(b))) == a & b,
        word_value_23(word_and(word_share(a), word_share(b))) == a & b,
{
    lemma_word_share_is_sharing(a);
    lemma_word_share_is_sharing(b);
    lemma_word_xor_sharing(word_share(a), word_share(b), a, b);
    lemma_word_and_sharing(word_share(a), word_share(b), a, b);
    lemma_word_sharing_reconstructs(word_xor(word_share(a), word_share(b)), a ^ b);
    lemma_word_sharing_reconstructs(word_and(word_share(a), word_share(b)), a & b);
}

// ---------------------------------------------------------------------------
// Protocol
// ---------------------------------------------------------------------------

impl RSS3_boolean {
    /// Secret-share a word into three XOR shares.
    pub fn share(secret: u64) -> (r: [RSS3Share_boolean; 3])
        ensures
            r == word_share(secret),
            is_word_sharing(r, secret),
    {
        let (x1, x2, x3) = SHARE_TRIPLES_U64[0];
        let a1 = x3 ^ secret;
        let a2 = x1 ^ secret;
        let a3 = x2 ^ secret;
        let r = [
            RSS3Share_boolean { shares: (x1, a1) },
            RSS3Share_boolean { shares: (x2, a2) },
            RSS3Share_boolean { shares: (x3, a3) },
        ];
        proof {
            assert(r =~= word_share(secret));
            lemma_word_share_is_sharing(secret);
        }
        r
    }

    /// Reconstruct the secret from the first two parties.
    pub fn reconstruct(shares: &[RSS3Share_boolean; 3]) -> (r: u64)
        ensures
            r == word_value(*shares),
            forall|s: u64| #[trigger] is_word_sharing(*shares, s) ==> r == s,
    {
        proof {
            assert forall|s: u64| #[trigger] is_word_sharing(*shares, s) implies word_value(*shares) == s by {
                lemma_word_sharing_reconstructs(*shares, s);
            }
        }
        let (x1, _) = shares[0].shares;
        let (_, a2) = shares[1].shares;
        a2 ^ x1
    }

    /// Reconstruct the secret from the second and third parties.
    pub fn reconstruct_2_test(shares: &[RSS3Share_boolean; 3]) -> (r: u64)
        ensures
            r == word_value_23(*shares),
            forall|s: u64| #[trigger] is_word_sharing(*shares, s) ==> r == s,
    {
        proof {
            assert forall|s: u64| #[trigger] is_word_sharing(*shares, s) implies word_value_23(*shares) == s by {
                lemma_word_sharing_reconstructs(*shares, s);
            }
        }
        let (x2, _) = shares[1].shares;
        let (_, a3) = shares[2].shares;
        a3 ^ x2
    }

    /// XOR over secret shares (the addition of the boolean ring), computed party-wise.
    pub fn xor(v1: &[RSS3Share_boolean; 3], v2: &[RSS3Share_boolean; 3]) -> (r: [RSS3Share_boolean; 3])
        ensures
            r == word_xor(*v1, *v2),
            forall|s: u64, t: u64|
                #[trigger] is_word_sharing(*v1, s) && #[trigger] is_word_sharing(*v2, t)
                    ==> is_word_sharing(r, s ^ t),
    {
        proof {
            assert forall|s: u64, t: u64|
                #[trigger] is_word_sharing(*v1, s) && #[trigger] is_word_sharing(*v2, t)
                    implies is_word_sharing(word_xor(*v1, *v2), s ^ t) by {
                lemma_word_xor_sharing(*v1, *v2, s, t);
            }
        }
        let r = [
            RSS3Share_boolean { shares: (v1[0].shares.0 ^ v2[0].shares.0, v1[0].shares.1 ^ v2[0].shares.1) },
            RSS3Share_boolean { shares: (v1[1].shares.0 ^ v2[1].shares.0, v1[1].shares.1 ^ v2[1].shares.1) },
            RSS3Share_boolean { shares: (v1[2].shares.0 ^ v2[2].shares.0, v1[2].shares.1 ^ v2[2].shares.1) },
        ];
        proof {
            assert(r =~= word_xor(*v1, *v2));
        }
        r
    }

    /// AND over secret shares: each party computes its cross term locally, then the
    /// cross terms are re-shared as a fresh replicated sharing.
    pub fn and(v1: &[RSS3Share_boolean; 3], v2: &[RSS3Share_boolean; 3]) -> (r: [RSS3Share_boolean; 3])
        ensures
            r == word_and(*v1, *v2),
            forall|s: u64, t: u64|
                #[trigger] is_word_sharing(*v1, s) && #[trigger] is_word_sharing(*v2, t)
                    ==> is_word_sharing(r, s & t),
    {
        proof {
            assert forall|s: u64, t: u64|
                #[trigger] is_word_sharing(*v1, s) && #[trigger] is_word_sharing(*v2, t)
                    implies is_word_sharing(word_and(*v1, *v2), s & t) by {
                lemma_word_and_sharing(*v1, *v2, s, t);
            }
        }
        let (alpha, beta, gamma) = SHARE_TRIPLES_U64[0];

        let (x1, a1) = v1[0].shares;
        let (y1, b1) = v2[0].shares;
        let r1 = (x1 & y1) ^ (a1 & b1) ^ alpha;

        let (x2, a2) = v1[1].shares;
        let (y2, b2) = v2[1].shares;
        let r2 = (x2 & y2) ^ (a2 & b2) ^ beta;

        let (x3, a3) = v1[2].shares;
        let (y3, b3) = v2[2].shares;
        let r3 = (x3 & y3) ^ (a3 & b3) ^ gamma;

        let z1 = r1 ^ r3;
        let z2 = r2 ^ r1;
        let z3 = r3 ^ r2;

        let c1 = r1;
        let c2 = r2;
        let c3 = r3;

        let r = [
            RSS3Share_boolean { shares: (z1, c1) },
            RSS3Share_boolean { shares: (z2, c2) },
            RSS3Share_boolean { shares: (z3, c3) },
        ];
        proof {
            assert(r =~= word_and(*v1, *v2));
        }
        r
    }
}

} // verus!
