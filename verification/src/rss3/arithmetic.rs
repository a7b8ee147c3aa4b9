use vstd::prelude::*;
use vstd::arithmetic::div_mod::*;

use crate::constants::MODULUS_Zmod2n;
use crate::constants::SHARE_TRIPLES_arithmetic;
use crate::constants::inverse_modulus_Zmod2n;

verus! {

/// The size of the share ring, 2^63.
pub open spec fn ring() -> int {
    0x8000_0000_0000_0000
}

/// The size of a machine word, 2^64.
pub open spec fn word() -> int {
    0x1_0000_0000_0000_0000
}

/// The residue of `v` in the share ring, as a machine word.
pub open spec fn ring_mod(v: int) -> u64 {
    (v % ring()) as u64
}

/// The correlated triple used both to mask the shares and in multiplication.
pub open spec fn arith_triple() -> (u64, u64, u64) {
    SHARE_TRIPLES_arithmetic[0]
}

/// A secret share in RSS3: three parties, each holds two shares.
#[derive(Clone, Copy, Debug)]
pub struct RSS3Share_arithmetic {
    pub shares: (u64, u64),
}

/// Operations on arithmetic sharings.
pub struct RSS3_arithmetic {}

/// The value that the first two parties reconstruct: `x1 - a2` in the ring.
pub open spec fn arith_value(sh: [RSS3Share_arithmetic; 3]) -> int {
    (sh[0].shares.0 - sh[1].shares.1) % ring()
}

/// `sh` is a replicated sharing of `s`: the first components `x1, x2, x3` sum to zero
/// and party `i` holds `a_i = x_(i-1) - s` (indices taken cyclically), all in the ring.
pub open spec fn is_arith_sharing(sh: [RSS3Share_arithmetic; 3], s: int) -> bool {
    &&& (sh[0].shares.0 + sh[1].shares.0 + sh[2].shares.0) % ring() == 0
    &&& (sh[0].shares.1 - (sh[2].shares.0 - s)) % ring() == 0
    &&& (sh[1].shares.1 - (sh[0].shares.0 - s)) % ring() == 0
    &&& (sh[2].shares.1 - (sh[1].shares.0 - s)) % ring() == 0
}

/// The pair of shares `(x, a)` held by one party.
pub open spec fn arith_party(x: u64, a: u64) -> RSS3Share_arithmetic {
    RSS3Share_arithmetic { shares: (x, a) }
}

/// The three shares that `share` hands out for `s`.
pub open spec fn arith_share(s: int) -> [RSS3Share_arithmetic; 3] {
    let (x1, x2, x3) = arith_triple();
    [
        arith_party(x1, ring_mod(x3 - s)),
        arith_party(x2, ring_mod(x1 - s)),
        arith_party(x3, ring_mod(x2 - s)),
    ]
}

/// Party-wise sum of two sharings, reduced into the ring.
pub open spec fn arith_add(x: [RSS3Share_arithmetic; 3], y: [RSS3Share_arithmetic; 3]) -> [RSS3Share_arithmetic; 3] {
    [
        arith_party(ring_mod(x[0].shares.0 + y[0].shares.0), ring_mod(x[0].shares.1 + y[0].shares.1)),
        arith_party(ring_mod(x[1].shares.0 + y[1].shares.0), ring_mod(x[1].shares.1 + y[1].shares.1)),
        arith_party(ring_mod(x[2].shares.0 + y[2].shares.0), ring_mod(x[2].shares.1 + y[2].shares.1)),
    ]
}

/// Party-wise difference of two sharings, reduced into the ring.
pub open spec fn arith_sub(x: [RSS3Share_arithmetic; 3], y: [RSS3Share_arithmetic; 3]) -> [RSS3Share_arithmetic; 3] {
    [
        arith_party(ring_mod(x[0].shares.0 - y[0].shares.0), ring_mod(x[0].shares.1 - y[0].shares.1)),
        arith_party(ring_mod(x[1].shares.0 - y[1].shares.0), ring_mod(x[1].shares.1 - y[1].shares.1)),
        arith_party(ring_mod(x[2].shares.0 - y[2].shares.0), ring_mod(x[2].shares.1 - y[2].shares.1)),
    ]
}

/// The inverse of 3 in the ring.
pub open spec fn inv3() -> int {
    inverse_modulus_Zmod2n as int
}

/// The value a party sends during multiplication: `(a*b - (x*y + alpha)) / 3` in the ring,
/// where `(x, a)` and `(y, b)` are its shares of the two factors.
pub open spec fn cross_term(x: u64, a: u64, y: u64, b: u64, alpha: u64) -> int {
    ((a * b - (x * y + alpha)) * inv3()) % ring()
}

/// The sharing that `mul` produces from the cross terms `r1, r2, r3`:
/// party `i` holds `(r_(i-1) - r_i, -2 r_(i-1) - r_i)`.
pub open spec fn arith_mul(v1: [RSS3Share_arithmetic; 3], v2: [RSS3Share_arithmetic; 3]) -> [RSS3Share_arithmetic; 3] {
    let (alpha, beta, gamma) = arith_triple();
    let r1 = cross_term(v1[0].shares.0, v1[0].shares.1, v2[0].shares.0, v2[0].shares.1, alpha);
    let r2 = cross_term(v1[1].shares.0, v1[1].shares.1, v2[1].shares.0, v2[1].shares.1, beta);
    let r3 = cross_term(v1[2].shares.0, v1[2].shares.1, v2[2].shares.0, v2[2].shares.1, gamma);
    [
        arith_party(ring_mod(r3 - r1), ring_mod(-2 * r3 - r1)),
        arith_party(ring_mod(r1 - r2), ring_mod(-2 * r1 - r2)),
        arith_party(ring_mod(r2 - r3), ring_mod(-2 * r2 - r3)),
    ]
}

// ---------------------------------------------------------------------------
// Modular arithmetic helpers
// ---------------------------------------------------------------------------

proof fn lemma_ring_div(v: int)
    ensures
        v == ring() * (v / ring()) + v % ring(),
        0 <= v % ring() < ring(),
{
    lemma_fundamental_div_mod(v, ring());
    lemma_mod_bound(v, ring());
}

proof fn lemma_ring_multiple(q: int, v: int)
    requires
        v == ring() * q,
    ensures
        v % ring() == 0,
{
    lemma_mod_multiples_vanish(q, 0, ring());
}

proof fn lemma_word_div(v: int)
    ensures
        v == word() * (v / word()) + v % word(),
        0 <= v % word() < word(),
{
    lemma_fundamental_div_mod(v, word());
    lemma_mod_bound(v, word());
}

/// Reducing modulo 2^64 first does not change the residue modulo 2^63.
proof fn lemma_word_then_ring(v: int)
    ensures
        (v % word()) % ring() == v % ring(),
{
    lemma_mod_mod(v, ring(), 2);
    assert(ring() * 2 == word());
}

proof fn lemma_wrapping_add(x: u64, y: u64)
    ensures
        vstd::wrapping::u64_specs::wrapping_add(x, y) as int == (x + y) % word(),
{
    lemma_word_div(x + y);
}

proof fn lemma_wrapping_sub(x: u64, y: u64)
    ensures
        vstd::wrapping::u64_specs::wrapping_sub(x, y) as int == (x - y) % word(),
{
    lemma_word_div(x - y);
}

proof fn lemma_wrapping_mul(x: u64, y: u64)
    ensures
        vstd::wrapping::u64_specs::wrapping_mul(x, y) as int == (x * y) % word(),
{
    lemma_word_div(x * y);
}

/// `(x.wrapping_sub(y)) % 2^63` is the ring difference.
proof fn lemma_ring_sub(x: u64, y: u64)
    ensures
        vstd::wrapping::u64_specs::wrapping_sub(x, y) % (ring() as u64) == ring_mod(x - y),
{
    lemma_wrapping_sub(x, y);
    lemma_word_then_ring(x - y);
    lemma_ring_div(x - y);
}

/// `(x.wrapping_add(y)) % 2^63` is the ring sum.
proof fn lemma_ring_add(x: u64, y: u64)
    ensures
        vstd::wrapping::u64_specs::wrapping_add(x, y) % (ring() as u64) == ring_mod(x + y),
{
    lemma_wrapping_add(x, y);
    lemma_word_then_ring(x + y);
    lemma_ring_div(x + y);
}

/// `(2^63).wrapping_add(x).wrapping_sub(y) % 2^63` is the ring difference.
proof fn lemma_ring_offset_sub(x: u64, y: u64)
    ensures
        vstd::wrapping::u64_specs::wrapping_sub(
            vstd::wrapping::u64_specs::wrapping_add(MODULUS_Zmod2n, x),
            y,
        ) % (ring() as u64) == ring_mod(x - y),
{
    let u = vstd::wrapping::u64_specs::wrapping_add(MODULUS_Zmod2n, x);
    lemma_wrapping_add(MODULUS_Zmod2n, x);
    lemma_wrapping_sub(u, y);
    lemma_sub_mod_noop(ring() + x, y as int, word());
    lemma_small_mod(y as nat, word() as nat);
    lemma_word_then_ring(ring() + x - y);
    lemma_mod_multiples_vanish(1, x - y, ring());
    lemma_ring_div(x - y);
}

/// `(2^63).wrapping_sub(2 * r).wrapping_sub(q) % 2^63` is `-2r - q` in the ring.
proof fn lemma_ring_double_sub(r: u64, q: u64)
    requires
        r < ring(),
    ensures
        vstd::wrapping::u64_specs::wrapping_sub(
            vstd::wrapping::u64_specs::wrapping_sub(MODULUS_Zmod2n, (2 * r) as u64),
            q,
        ) % (ring() as u64) == ring_mod(-2 * r - q),
{
    let u = vstd::wrapping::u64_specs::wrapping_sub(MODULUS_Zmod2n, (2 * r) as u64);
    lemma_wrapping_sub(MODULUS_Zmod2n, (2 * r) as u64);
    lemma_wrapping_sub(u, q);
    lemma_sub_mod_noop(ring() - 2 * r, q as int, word());
    lemma_small_mod(q as nat, word() as nat);
    lemma_word_then_ring(ring() - 2 * r - q);
    lemma_mod_multiples_vanish(1, -2 * r - q, ring());
    lemma_ring_div(-2 * r - q);
}

/// The machine computation of a cross term agrees with `cross_term`.
proof fn lemma_cross_term(x: u64, a: u64, y: u64, b: u64, alpha: u64)
    ensures
        vstd::wrapping::u64_specs::wrapping_mul(
            vstd::wrapping::u64_specs::wrapping_sub(
                vstd::wrapping::u64_specs::wrapping_mul(a, b),
                vstd::wrapping::u64_specs::wrapping_add(
                    vstd::wrapping::u64_specs::wrapping_mul(x, y),
                    alpha,
                ),
            ),
            inverse_modulus_Zmod2n,
        ) as int % ring() == cross_term(x, a, y, b, alpha),
{
    let p = vstd::wrapping::u64_specs::wrapping_mul(a, b);
    let xy = vstd::wrapping::u64_specs::wrapping_mul(x, y);
    let q = vstd::wrapping::u64_specs::wrapping_add(xy, alpha);
    let d = vstd::wrapping::u64_specs::wrapping_sub(p, q);
    let w = vstd::wrapping::u64_specs::wrapping_mul(d, inverse_modulus_Zmod2n);
    let e = a * b - (x * y + alpha);
    lemma_wrapping_mul(a, b);
    lemma_wrapping_mul(x, y);
    lemma_wrapping_add(xy, alpha);
    lemma_wrapping_sub(p, q);
    lemma_wrapping_mul(d, inverse_modulus_Zmod2n);
    lemma_small_mod(alpha as nat, word() as nat);
    lemma_add_mod_noop(x * y, alpha as int, word());
    assert(q as int == (x * y + alpha) % word());
    lemma_sub_mod_noop(a * b, x * y + alpha, word());
    assert(d as int == e % word());
    lemma_mul_mod_noop_left(e, inv3(), word());
    assert(w as int == (e * inv3()) % word());
    lemma_word_then_ring(e * inv3());
}

proof fn lemma_product_shift(u: int, v: int, k: int, l: int)
    ensures
        (u + ring() * k) * (v + ring() * l) == u * v + ring() * (k * v + l * u + ring() * k * l),
{
    assert((u + ring() * k) * (v + ring() * l) == u * v + ring() * (k * v + l * u + ring() * k * l))
        by (nonlinear_arith);
}

proof fn lemma_expand_product(x: int, y: int, s: int, t: int)
    ensures
        (x - s) * (y - t) == x * y - t * x - s * y + s * t,
{
    assert((x - s) * (y - t) == x * y - t * x - s * y + s * t) by (nonlinear_arith);
}

proof fn lemma_distribute3(c: int, u1: int, u2: int, u3: int)
    ensures
        c * u1 + c * u2 + c * u3 == c * (u1 + u2 + u3),
        u1 * c + u2 * c + u3 * c == (u1 + u2 + u3) * c,
{
    assert(c * u1 + c * u2 + c * u3 == c * (u1 + u2 + u3)) by (nonlinear_arith);
    assert(u1 * c + u2 * c + u3 * c == (u1 + u2 + u3) * c) by (nonlinear_arith);
}

proof fn lemma_cross_sum_identity(
    x1: int, x2: int, x3: int, y1: int, y2: int, y3: int, s: int, t: int,
)
    ensures
        (x3 - s) * (y3 - t) - x1 * y1 + (x1 - s) * (y1 - t) - x2 * y2 + (x2 - s) * (y2 - t) - x3 * y3
            == 3 * (s * t) - t * (x1 + x2 + x3) - s * (y1 + y2 + y3),
{
    lemma_expand_product(x1, y1, s, t);
    lemma_expand_product(x2, y2, s, t);
    lemma_expand_product(x3, y3, s, t);
    lemma_distribute3(t, x1, x2, x3);
    lemma_distribute3(s, y1, y2, y3);
}

proof fn lemma_scale_multiple(t: int, k: int)
    ensures
        t * (ring() * k) == ring() * (t * k),
{
    assert(t * (ring() * k) == ring() * (t * k)) by (nonlinear_arith);
}

proof fn lemma_scaled_product(p: int, q: int)
    ensures
        (3 * p + ring() * q) * inv3() == p + ring() * (p + q * inv3()),
{
    assert(3 * inv3() == ring() + 1);
    assert((3 * p + ring() * q) * inv3() == p + ring() * (p + q * inv3())) by (nonlinear_arith)
        requires
            3 * inv3() == ring() + 1,
    ;
}

/// The three cross terms of sharings of `s` and `t` sum to `s * t` in the ring.
proof fn lemma_cross_terms_sum(v1: [RSS3Share_arithmetic; 3], v2: [RSS3Share_arithmetic; 3], s: int, t: int)
    requires
        is_arith_sharing(v1, s),
        is_arith_sharing(v2, t),
    ensures
        ({
            let (alpha, beta, gamma) = arith_triple();
            let r1 = cross_term(v1[0].shares.0, v1[0].shares.1, v2[0].shares.0, v2[0].shares.1, alpha);
            let r2 = cross_term(v1[1].shares.0, v1[1].shares.1, v2[1].shares.0, v2[1].shares.1, beta);
            let r3 = cross_term(v1[2].shares.0, v1[2].shares.1, v2[2].shares.0, v2[2].shares.1, gamma);
            (r1 + r2 + r3 - s * t) % ring() == 0
        }),
{
    let (alpha, beta, gamma) = arith_triple();
    let x1 = v1[0].shares.0 as int;
    let a1 = v1[0].shares.1 as int;
    let x2 = v1[1].shares.0 as int;
    let a2 = v1[1].shares.1 as int;
    let x3 = v1[2].shares.0 as int;
    let a3 = v1[2].shares.1 as int;
    let y1 = v2[0].shares.0 as int;
    let b1 = v2[0].shares.1 as int;
    let y2 = v2[1].shares.0 as int;
    let b2 = v2[1].shares.1 as int;
    let y3 = v2[2].shares.0 as int;
    let b3 = v2[2].shares.1 as int;
    let m = ring();
    // witnesses of the sharing congruences
    lemma_ring_div(x1 + x2 + x3);
    lemma_ring_div(a1 - (x3 - s));
    lemma_ring_div(a2 - (x1 - s));
    lemma_ring_div(a3 - (x2 - s));
    lemma_ring_div(y1 + y2 + y3);
    lemma_ring_div(b1 - (y3 - t));
    lemma_ring_div(b2 - (y1 - t));
    lemma_ring_div(b3 - (y2 - t));
    let kx = (x1 + x2 + x3) / m;
    let k1 = (a1 - (x3 - s)) / m;
    let k2 = (a2 - (x1 - s)) / m;
    let k3 = (a3 - (x2 - s)) / m;
    let ky = (y1 + y2 + y3) / m;
    let l1 = (b1 - (y3 - t)) / m;
    let l2 = (b2 - (y1 - t)) / m;
    let l3 = (b3 - (y2 - t)) / m;
    assert(a1 == (x3 - s) + m * k1);
    assert(b1 == (y3 - t) + m * l1);
    lemma_product_shift(x3 - s, y3 - t, k1, l1);
    lemma_product_shift(x1 - s, y1 - t, k2, l2);
    lemma_product_shift(x2 - s, y2 - t, k3, l3);
    let q1 = k1 * (y3 - t) + l1 * (x3 - s) + m * k1 * l1;
    let q2 = k2 * (y1 - t) + l2 * (x1 - s) + m * k2 * l2;
    let q3 = k3 * (y2 - t) + l3 * (x2 - s) + m * k3 * l3;
    assert(a1 * b1 == (x3 - s) * (y3 - t) + m * q1);
    assert(a2 * b2 == (x1 - s) * (y1 - t) + m * q2);
    assert(a3 * b3 == (x2 - s) * (y2 - t) + m * q3);
    lemma_cross_sum_identity(x1, x2, x3, y1, y2, y3, s, t);
    lemma_scale_multiple(t, kx);
    lemma_scale_multiple(s, ky);
    assert(alpha + beta + gamma == 2 * m);
    let e1 = a1 * b1 - (x1 * y1 + alpha);
    let e2 = a2 * b2 - (x2 * y2 + beta);
    let e3 = a3 * b3 - (x3 * y3 + gamma);
    let big_q = q1 + q2 + q3 - t * kx - s * ky - 2;
    assert(e1 + e2 + e3 == 3 * (s * t) + m * big_q);
    // each cross term is its scaled value minus a multiple of the ring size
    lemma_ring_div(e1 * inv3());
    lemma_ring_div(e2 * inv3());
    lemma_ring_div(e3 * inv3());
    let d1 = (e1 * inv3()) / m;
    let d2 = (e2 * inv3()) / m;
    let d3 = (e3 * inv3()) / m;
    let r1 = (e1 * inv3()) % m;
    let r2 = (e2 * inv3()) % m;
    let r3 = (e3 * inv3()) % m;
    assert(3 * inv3() == m + 1);
    lemma_distribute3(inv3(), e1, e2, e3);
    lemma_scaled_product(s * t, big_q);
    assert(r1 + r2 + r3 - s * t == m * (s * t + big_q * inv3() - d1 - d2 - d3));
    lemma_ring_multiple(s * t + big_q * inv3() - d1 - d2 - d3, r1 + r2 + r3 - s * t);
}

// ---------------------------------------------------------------------------
// Laws
// ---------------------------------------------------------------------------

/// What `share` hands out for `s` is a sharing of `s`.
pub proof fn lemma_share_is_sharing(s: int)
    ensures
        is_arith_sharing(arith_share(s), s),
{
    let (x1, x2, x3) = arith_triple();
    assert(x1 + x2 + x3 == ring() * 2);
    lemma_ring_multiple(2, x1 + x2 + x3);
    lemma_ring_div(x3 - s);
    lemma_ring_div(x1 - s);
    lemma_ring_div(x2 - s);
    lemma_ring_multiple(-((x3 - s) / ring()), (x3 - s) % ring() - (x3 - s));
    lemma_ring_multiple(-((x1 - s) / ring()), (x1 - s) % ring() - (x1 - s));
    lemma_ring_multiple(-((x2 - s) / ring()), (x2 - s) % ring() - (x2 - s));
}

/// Any sharing of `s` reconstructs to `s` in the ring.
pub proof fn lemma_sharing_reconstructs(sh: [RSS3Share_arithmetic; 3], s: int)
    requires
        is_arith_sharing(sh, s),
    ensures
        arith_value(sh) == s % ring(),
{
    let x1 = sh[0].shares.0 as int;
    let a2 = sh[1].shares.1 as int;
    lemma_ring_div(a2 - (x1 - s));
    let k = (a2 - (x1 - s)) / ring();
    assert(x1 - a2 == ring() * (-k) + s);
    lemma_mod_multiples_vanish(-k, s, ring());
}

/// Reconstruction is additive: the sum of two sharings reconstructs to the sum of their values.
pub proof fn lemma_add_reconstructs(x: [RSS3Share_arithmetic; 3], y: [RSS3Share_arithmetic; 3])
    ensures
        arith_value(arith_add(x, y)) == (arith_value(x) + arith_value(y)) % ring(),
{
    let z = arith_add(x, y);
    let u = x[0].shares.0 + y[0].shares.0;
    let v = x[1].shares.1 + y[1].shares.1;
    lemma_ring_div(u);
    lemma_ring_div(v);
    assert(z[0].shares.0 - z[1].shares.1 == (u - v) - ring() * ((u / ring()) - (v / ring())));
    lemma_mod_multiples_vanish(-((u / ring()) - (v / ring())), u - v, ring());
    let px = x[0].shares.0 - x[1].shares.1;
    let py = y[0].shares.0 - y[1].shares.1;
    lemma_add_mod_noop(px, py, ring());
    assert(u - v == px + py);
}

/// Reconstruction is subtractive: the difference of two sharings reconstructs to the difference.
pub proof fn lemma_sub_reconstructs(x: [RSS3Share_arithmetic; 3], y: [RSS3Share_arithmetic; 3])
    ensures
        arith_value(arith_sub(x, y)) == (arith_value(x) - arith_value(y)) % ring(),
{
    let z = arith_sub(x, y);
    let u = x[0].shares.0 - y[0].shares.0;
    let v = x[1].shares.1 - y[1].shares.1;
    lemma_ring_div(u);
    lemma_ring_div(v);
    assert(z[0].shares.0 - z[1].shares.1 == (u - v) - ring() * ((u / ring()) - (v / ring())));
    lemma_mod_multiples_vanish(-((u / ring()) - (v / ring())), u - v, ring());
    let px = x[0].shares.0 - x[1].shares.1;
    let py = y[0].shares.0 - y[1].shares.1;
    lemma_sub_mod_noop(px, py, ring());
    assert(u - v == px - py);
}

/// The party-wise sum of sharings of `s` and `t` is a sharing of `s + t`.
pub proof fn lemma_add_sharing(x: [RSS3Share_arithmetic; 3], y: [RSS3Share_arithmetic; 3], s: int, t: int)
    requires
        is_arith_sharing(x, s),
        is_arith_sharing(y, t),
    ensures
        is_arith_sharing(arith_add(x, y), s + t),
{
    let z = arith_add(x, y);
    let m = ring();
    let q00 = (x[0].shares.0 + y[0].shares.0) / m;
    let q10 = (x[1].shares.0 + y[1].shares.0) / m;
    let q20 = (x[2].shares.0 + y[2].shares.0) / m;
    let q01 = (x[0].shares.1 + y[0].shares.1) / m;
    let q11 = (x[1].shares.1 + y[1].shares.1) / m;
    let q21 = (x[2].shares.1 + y[2].shares.1) / m;
    lemma_ring_div(x[0].shares.0 + y[0].shares.0);
    lemma_ring_div(x[1].shares.0 + y[1].shares.0);
    lemma_ring_div(x[2].shares.0 + y[2].shares.0);
    lemma_ring_div(x[0].shares.1 + y[0].shares.1);
    lemma_ring_div(x[1].shares.1 + y[1].shares.1);
    lemma_ring_div(x[2].shares.1 + y[2].shares.1);
    let kx = (x[0].shares.0 + x[1].shares.0 + x[2].shares.0) / m;
    let ky = (y[0].shares.0 + y[1].shares.0 + y[2].shares.0) / m;
    let k1 = (x[0].shares.1 - (x[2].shares.0 - s)) / m;
    let k2 = (x[1].shares.1 - (x[0].shares.0 - s)) / m;
    let k3 = (x[2].shares.1 - (x[1].shares.0 - s)) / m;
    let l1 = (y[0].shares.1 - (y[2].shares.0 - t)) / m;
    let l2 = (y[1].shares.1 - (y[0].shares.0 - t)) / m;
    let l3 = (y[2].shares.1 - (y[1].shares.0 - t)) / m;
    lemma_ring_div(x[0].shares.0 + x[1].shares.0 + x[2].shares.0);
    lemma_ring_div(y[0].shares.0 + y[1].shares.0 + y[2].shares.0);
    lemma_ring_div(x[0].shares.1 - (x[2].shares.0 - s));
    lemma_ring_div(x[1].shares.1 - (x[0].shares.0 - s));
    lemma_ring_div(x[2].shares.1 - (x[1].shares.0 - s));
    lemma_ring_div(y[0].shares.1 - (y[2].shares.0 - t));
    lemma_ring_div(y[1].shares.1 - (y[0].shares.0 - t));
    lemma_ring_div(y[2].shares.1 - (y[1].shares.0 - t));
    lemma_ring_multiple(kx + ky - q00 - q10 - q20, z[0].shares.0 + z[1].shares.0 + z[2].shares.0);
    lemma_ring_multiple(k1 + l1 - q01 + q20, z[0].shares.1 - (z[2].shares.0 - (s + t)));
    lemma_ring_multiple(k2 + l2 - q11 + q00, z[1].shares.1 - (z[0].shares.0 - (s + t)));
    lemma_ring_multiple(k3 + l3 - q21 + q10, z[2].shares.1 - (z[1].shares.0 - (s + t)));
}

/// The party-wise difference of sharings of `s` and `t` is a sharing of `s - t`.
pub proof fn lemma_sub_sharing(x: [RSS3Share_arithmetic; 3], y: [RSS3Share_arithmetic; 3], s: int, t: int)
    requires
        is_arith_sharing(x, s),
        is_arith_sharing(y, t),
    ensures
        is_arith_sharing(arith_sub(x, y), s - t),
{
    let z = arith_sub(x, y);
    let m = ring();
    let q00 = (x[0].shares.0 - y[0].shares.0) / m;
    let q10 = (x[1].shares.0 - y[1].shares.0) / m;
    let q20 = (x[2].shares.0 - y[2].shares.0) / m;
    let q01 = (x[0].shares.1 - y[0].shares.1) / m;
    let q11 = (x[1].shares.1 - y[1].shares.1) / m;
    let q21 = (x[2].shares.1 - y[2].shares.1) / m;
    lemma_ring_div(x[0].shares.0 - y[0].shares.0);
    lemma_ring_div(x[1].shares.0 - y[1].shares.0);
    lemma_ring_div(x[2].shares.0 - y[2].shares.0);
    lemma_ring_div(x[0].shares.1 - y[0].shares.1);
    lemma_ring_div(x[1].shares.1 - y[1].shares.1);
    lemma_ring_div(x[2].shares.1 - y[2].shares.1);
    let kx = (x[0].shares.0 + x[1].shares.0 + x[2].shares.0) / m;
    let ky = (y[0].shares.0 + y[1].shares.0 + y[2].shares.0) / m;
    let k1 = (x[0].shares.1 - (x[2].shares.0 - s)) / m;
    let k2 = (x[1].shares.1 - (x[0].shares.0 - s)) / m;
    let k3 = (x[2].shares.1 - (x[1].shares.0 - s)) / m;
    let l1 = (y[0].shares.1 - (y[2].shares.0 - t)) / m;
    let l2 = (y[1].shares.1 - (y[0].shares.0 - t)) / m;
    let l3 = (y[2].shares.1 - (y[1].shares.0 - t)) / m;
    lemma_ring_div(x[0].shares.0 + x[1].shares.0 + x[2].shares.0);
    lemma_ring_div(y[0].shares.0 + y[1].shares.0 + y[2].shares.0);
    lemma_ring_div(x[0].shares.1 - (x[2].shares.0 - s));
    lemma_ring_div(x[1].shares.1 - (x[0].shares.0 - s));
    lemma_ring_div(x[2].shares.1 - (x[1].shares.0 - s));
    lemma_ring_div(y[0].shares.1 - (y[2].shares.0 - t));
    lemma_ring_div(y[1].shares.1 - (y[0].shares.0 - t));
    lemma_ring_div(y[2].shares.1 - (y[1].shares.0 - t));
    lemma_ring_multiple(kx - ky - q00 - q10 - q20, z[0].shares.0 + z[1].shares.0 + z[2].shares.0);
    lemma_ring_multiple(k1 - l1 - q01 + q20, z[0].shares.1 - (z[2].shares.0 - (s - t)));
    lemma_ring_multiple(k2 - l2 - q11 + q00, z[1].shares.1 - (z[0].shares.0 - (s - t)));
    lemma_ring_multiple(k3 - l3 - q21 + q10, z[2].shares.1 - (z[1].shares.0 - (s - t)));
}

/// The product protocol applied to sharings of `s` and `t` yields a sharing of `s * t`.
pub proof fn lemma_mul_sharing(v1: [RSS3Share_arithmetic; 3], v2: [RSS3Share_arithmetic; 3], s: int, t: int)
    requires
        is_arith_sharing(v1, s),
        is_arith_sharing(v2, t),
    ensures
        is_arith_sharing(arith_mul(v1, v2), s * t),
{
    let (alpha, beta, gamma) = arith_triple();
    let r1 = cross_term(v1[0].shares.0, v1[0].shares.1, v2[0].shares.0, v2[0].shares.1, alpha);
    let r2 = cross_term(v1[1].shares.0, v1[1].shares.1, v2[1].shares.0, v2[1].shares.1, beta);
    let r3 = cross_term(v1[2].shares.0, v1[2].shares.1, v2[2].shares.0, v2[2].shares.1, gamma);
    let z = arith_mul(v1, v2);
    let m = ring();
    lemma_cross_terms_sum(v1, v2, s, t);
    let st = s * t;
    lemma_ring_div(r1 + r2 + r3 - st);
    let w = (r1 + r2 + r3 - st) / m;
    lemma_ring_div(r3 - r1);
    lemma_ring_div(r1 - r2);
    lemma_ring_div(r2 - r3);
    lemma_ring_div(-2 * r3 - r1);
    lemma_ring_div(-2 * r1 - r2);
    lemma_ring_div(-2 * r2 - r3);
    let qz1 = (r3 - r1) / m;
    let qz2 = (r1 - r2) / m;
    let qz3 = (r2 - r3) / m;
    let qc1 = (-2 * r3 - r1) / m;
    let qc2 = (-2 * r1 - r2) / m;
    let qc3 = (-2 * r2 - r3) / m;
    lemma_ring_multiple(-(qz1 + qz2 + qz3), z[0].shares.0 + z[1].shares.0 + z[2].shares.0);
    lemma_ring_multiple(-w - qc1 + qz3, z[0].shares.1 - (z[2].shares.0 - st));
    lemma_ring_multiple(-w - qc2 + qz1, z[1].shares.1 - (z[0].shares.0 - st));
    lemma_ring_multiple(-w - qc3 + qz2, z[2].shares.1 - (z[1].shares.0 - st));
}

/// Multiplying sharings of `s` and `t` and reconstructing gives `s * t` in the ring.
pub proof fn lemma_mul_reconstructs(v1: [RSS3Share_arithmetic; 3], v2: [RSS3Share_arithmetic; 3], s: int, t: int)
    requires
        is_arith_sharing(v1, s),
        is_arith_sharing(v2, t),
    ensures
        arith_value(arith_mul(v1, v2)) == (arith_value(v1) * arith_value(v2)) % ring(),
{
    lemma_mul_sharing(v1, v2, s, t);
    lemma_sharing_reconstructs(arith_mul(v1, v2), s * t);
    lemma_sharing_reconstructs(v1, s);
    lemma_sharing_reconstructs(v2, t);
    lemma_mul_mod_noop(s, t, ring());
}

/// Sharing two secrets, multiplying the sharings and reconstructing gives the product of
/// the secrets in the ring.
pub proof fn lemma_shared_mul(a: int, b: int)
    ensures
        arith_value(arith_mul(arith_share(a), arith_share(b))) == (a * b) % ring(),
{
    lemma_share_is_sharing(a);
    lemma_share_is_sharing(b);
    lemma_mul_sharing(arith_share(a), arith_share(b), a, b);
    lemma_sharing_reconstructs(arith_mul(arith_share(a), arith_share(b)), a * b);
}

/// Sharing two secrets, adding (or subtracting) the sharings and reconstructing gives the
/// sum (or difference) of the secrets in the ring.
pub proof fn lemma_shared_add_sub(a: int, b: int)
    ensures
        arith_value(arith_add(arith_share(a), arith_share(b))) == (a + b) % ring(),
        arith_value(arith_sub(arith_share(a), arith_share(b))) == (a - b) % ring(),
{
    lemma_share_is_sharing(a);
    lemma_share_is_sharing(b);
    lemma_add_sharing(arith_share(a), arith_share(b), a, b);
    lemma_sub_sharing(arith_share(a), arith_share(b), a, b);
    lemma_sharing_reconstructs(arith_add(arith_share(a), arith_share(b)), a + b);
    lemma_sharing_reconstructs(arith_sub(arith_share(a), arith_share(b)), a - b);
}

// ---------------------------------------------------------------------------
// Protocol
// ---------------------------------------------------------------------------

/// The value reconstructed from the shares of the first two parties: `x1 - a2` in the ring.
pub open spec fn pair_value(shares0: (u64, u64), shares1: (u64, u64)) -> int {
    (shares0.0 - shares1.1) % ring()
}

/// Reconstructing from the shares of the first two parties agrees with `reconstruct` on
/// any three pairs of words, and on a sharing of `s` gives `s` in the ring.
pub proof fn lemma_pair_reconstructs(sh: [RSS3Share_arithmetic; 3], s: int)
    ensures
        pair_value(sh[0].shares, sh[1].shares) == arith_value(sh),
        is_arith_sharing(sh, s) ==> pair_value(sh[0].shares, sh[1].shares) == s % ring(),
{
    if is_arith_sharing(sh, s) {
        lemma_sharing_reconstructs(sh, s);
    }
}

impl RSS3_arithmetic {
    /// Secret-share a value into three shares.
    ///
    /// Party `i` receives `(x_i, x_(i-1) - secret)`, where `(x1, x2, x3)` is the first
    /// correlated triple; the secret must not exceed its smallest entry.
    pub fn share(secret: u64) -> (r: [RSS3Share_arithmetic; 3])
        requires
            secret <= arith_triple().0,
        ensures
            r == arith_share(secret as int),
            is_arith_sharing(r, secret as int),
            arith_value(r) == secret,
    {
        let (x1, x2, x3) = SHARE_TRIPLES_arithmetic[0];
        let a1 = (x3 - secret) % MODULUS_Zmod2n;
        let a2 = (x1 - secret) % MODULUS_Zmod2n;
        let a3 = (x2 - secret) % MODULUS_Zmod2n;
        let r = [
            RSS3Share_arithmetic { shares: (x1, a1) },
            RSS3Share_arithmetic { shares: (x2, a2) },
            RSS3Share_arithmetic { shares: (x3, a3) },
        ];
        proof {
            lemma_share_is_sharing(secret as int);
            assert(r =~= arith_share(secret as int));
            lemma_sharing_reconstructs(r, secret as int);
            lemma_small_mod(secret as nat, ring() as nat);
        }
        r
    }

    /// Reconstruct secret from three parties.
    pub fn reconstruct(shares: &[RSS3Share_arithmetic; 3]) -> (r: u64)
        ensures
            r == arith_value(*shares),
            forall|s: int| #[trigger] is_arith_sharing(*shares, s) ==> r == s % ring(),
    {
        proof {
            assert forall|s: int| #[trigger] is_arith_sharing(*shares, s) implies arith_value(*shares) == s % ring() by {
                lemma_sharing_reconstructs(*shares, s);
            }
        }
        let (x1, _a1) = shares[0].shares;
        let (_x2, a2) = shares[1].shares;
        MODULUS_Zmod2n.wrapping_add(x1).wrapping_sub(a2) % MODULUS_Zmod2n
    }

    /// Reconstruct the secret from the shares of the first two parties alone.
    pub fn reconstruct_fromS0andS1(shares0: (u64, u64), shares1: (u64, u64)) -> (r: u64)
        ensures
            r == pair_value(shares0, shares1),
            r == (shares0.0 - shares1.1) % ring(),
            forall|sh: [RSS3Share_arithmetic; 3], s: int|
                #[trigger] is_arith_sharing(sh, s) && sh[0].shares == shares0 && sh[1].shares == shares1
                    ==> r == s % ring(),
    {
        proof {
            assert forall|sh: [RSS3Share_arithmetic; 3], s: int|
                #[trigger] is_arith_sharing(sh, s) && sh[0].shares == shares0 && sh[1].shares == shares1
                    implies (shares0.0 - shares1.1) % ring() == s % ring() by {
                lemma_sharing_reconstructs(sh, s);
            }
        }
        let (x1, _a1) = shares0;
        let (_x2, a2) = shares1;
        MODULUS_Zmod2n.wrapping_add(x1).wrapping_sub(a2) % MODULUS_Zmod2n
    }

    /// Addition over secret shares.
    pub fn add(x: &[RSS3Share_arithmetic; 3], y: &[RSS3Share_arithmetic; 3]) -> (r: [RSS3Share_arithmetic; 3])
        ensures
            r == arith_add(*x, *y),
            forall|s: int, t: int|
                #[trigger] is_arith_sharing(*x, s) && #[trigger] is_arith_sharing(*y, t)
                    ==> is_arith_sharing(r, s + t),
    {
        proof {
            assert forall|s: int, t: int|
                #[trigger] is_arith_sharing(*x, s) && #[trigger] is_arith_sharing(*y, t)
                    implies is_arith_sharing(arith_add(*x, *y), s + t) by {
                lemma_add_sharing(*x, *y, s, t);
            }
        }
        proof {
            lemma_ring_add(x[0].shares.0, y[0].shares.0);
            lemma_ring_add(x[0].shares.1, y[0].shares.1);
            lemma_ring_add(x[1].shares.0, y[1].shares.0);
            lemma_ring_add(x[1].shares.1, y[1].shares.1);
            lemma_ring_add(x[2].shares.0, y[2].shares.0);
            lemma_ring_add(x[2].shares.1, y[2].shares.1);
        }
        let r = [
            RSS3Share_arithmetic {
                shares: (
                    (x[0].shares.0.wrapping_add(y[0].shares.0)) % MODULUS_Zmod2n,
                    (x[0].shares.1.wrapping_add(y[0].shares.1)) % MODULUS_Zmod2n,
                ),
            },
            RSS3Share_arithmetic {
                shares: (
                    (x[1].shares.0.wrapping_add(y[1].shares.0)) % MODULUS_Zmod2n,
                    (x[1].shares.1.wrapping_add(y[1].shares.1)) % MODULUS_Zmod2n,
                ),
            },
            RSS3Share_arithmetic {
                shares: (
                    (x[2].shares.0.wrapping_add(y[2].shares.0)) % MODULUS_Zmod2n,
                    (x[2].shares.1.wrapping_add(y[2].shares.1)) % MODULUS_Zmod2n,
                ),
            },
        ];
        proof {
            assert(r =~= arith_add(*x, *y));
        }
        r
    }

    /// Subtraction over secret shares.
    pub fn sub(x: &[RSS3Share_arithmetic; 3], y: &[RSS3Share_arithmetic; 3]) -> (r: [RSS3Share_arithmetic; 3])
        ensures
            r == arith_sub(*x, *y),
            forall|s: int, t: int|
                #[trigger] is_arith_sharing(*x, s) && #[trigger] is_arith_sharing(*y, t)
                    ==> is_arith_sharing(r, s - t),
    {
        proof {
            assert forall|s: int, t: int|
                #[trigger] is_arith_sharing(*x, s) && #[trigger] is_arith_sharing(*y, t)
                    implies is_arith_sharing(arith_sub(*x, *y), s - t) by {
                lemma_sub_sharing(*x, *y, s, t);
            }
        }
        proof {
            lemma_ring_offset_sub(x[0].shares.0, y[0].shares.0);
            lemma_ring_offset_sub(x[0].shares.1, y[0].shares.1);
            lemma_ring_offset_sub(x[1].shares.0, y[1].shares.0);
            lemma_ring_offset_sub(x[1].shares.1, y[1].shares.1);
            lemma_ring_offset_sub(x[2].shares.0, y[2].shares.0);
            lemma_ring_offset_sub(x[2].shares.1, y[2].shares.1);
        }
        let r = [
            RSS3Share_arithmetic {
                shares: (
                    (MODULUS_Zmod2n.wrapping_add(x[0].shares.0).wrapping_sub(y[0].shares.0)) % MODULUS_Zmod2n,
                    (MODULUS_Zmod2n.wrapping_add(x[0].shares.1).wrapping_sub(y[0].shares.1)) % MODULUS_Zmod2n,
                ),
            },
            RSS3Share_arithmetic {
                shares: (
                    (MODULUS_Zmod2n.wrapping_add(x[1].shares.0).wrapping_sub(y[1].shares.0)) % MODULUS_Zmod2n,
                    (MODULUS_Zmod2n.wrapping_add(x[1].shares.1).wrapping_sub(y[1].shares.1)) % MODULUS_Zmod2n,
                ),
            },
            RSS3Share_arithmetic {
                shares: (
                    (MODULUS_Zmod2n.wrapping_add(x[2].shares.0).wrapping_sub(y[2].shares.0)) % MODULUS_Zmod2n,
                    (MODULUS_Zmod2n.wrapping_add(x[2].shares.1).wrapping_sub(y[2].shares.1)) % MODULUS_Zmod2n,
                ),
            },
        ];
        proof {
            assert(r =~= arith_sub(*x, *y));
        }
        r
    }

    /// Multiplication over secret shares: each party computes its cross term, and the
    /// parties re-share the sum of the cross terms as a fresh replicated sharing.
    pub fn mul(v1: &[RSS3Share_arithmetic; 3], v2: &[RSS3Share_arithmetic; 3]) -> (r: [RSS3Share_arithmetic; 3])
        ensures
            r == arith_mul(*v1, *v2),
            forall|s: int, t: int|
                #[trigger] is_arith_sharing(*v1, s) && #[trigger] is_arith_sharing(*v2, t)
                    ==> is_arith_sharing(r, s * t),
    {
        proof {
            assert forall|s: int, t: int|
                #[trigger] is_arith_sharing(*v1, s) && #[trigger] is_arith_sharing(*v2, t)
                    implies is_arith_sharing(arith_mul(*v1, *v2), s * t) by {
                lemma_mul_sharing(*v1, *v2, s, t);
            }
        }
        let (alpha, beta, gamma) = SHARE_TRIPLES_arithmetic[0];
        let (x1, a1) = v1[0].shares;
        let (x2, a2) = v1[1].shares;
        let (x3, a3) = v1[2].shares;
        let (y1, b1) = v2[0].shares;
        let (y2, b2) = v2[1].shares;
        let (y3, b3) = v2[2].shares;

        let r1 = (a1.wrapping_mul(b1).wrapping_sub(x1.wrapping_mul(y1).wrapping_add(alpha))).wrapping_mul(
            inverse_modulus_Zmod2n,
        ) % MODULUS_Zmod2n;
        let r2 = (a2.wrapping_mul(b2).wrapping_sub(x2.wrapping_mul(y2).wrapping_add(beta))).wrapping_mul(
            inverse_modulus_Zmod2n,
        ) % MODULUS_Zmod2n;
        let r3 = (a3.wrapping_mul(b3).wrapping_sub(x3.wrapping_mul(y3).wrapping_add(gamma))).wrapping_mul(
            inverse_modulus_Zmod2n,
        ) % MODULUS_Zmod2n;
        proof {
            lemma_cross_term(x1, a1, y1, b1, alpha);
            lemma_cross_term(x2, a2, y2, b2, beta);
            lemma_cross_term(x3, a3, y3, b3, gamma);
        }

        let z1 = r3.wrapping_sub(r1) % MODULUS_Zmod2n;
        let c1 = (MODULUS_Zmod2n.wrapping_sub(2 * r3).wrapping_sub(r1)) % MODULUS_Zmod2n;
        let z2 = r1.wrapping_sub(r2) % MODULUS_Zmod2n;
        let c2 = (MODULUS_Zmod2n.wrapping_sub(2 * r1).wrapping_sub(r2)) % MODULUS_Zmod2n;
        let z3 = r2.wrapping_sub(r3) % MODULUS_Zmod2n;
        let c3 = (MODULUS_Zmod2n.wrapping_sub(2 * r2).wrapping_sub(r3)) % MODULUS_Zmod2n;
        proof {
            lemma_ring_sub(r3, r1);
            lemma_ring_sub(r1, r2);
            lemma_ring_sub(r2, r3);
            lemma_ring_double_sub(r3, r1);
            lemma_ring_double_sub(r1, r2);
            lemma_ring_double_sub(r2, r3);
        }
        let r = [
            RSS3Share_arithmetic { shares: (z1, c1) },
            RSS3Share_arithmetic { shares: (z2, c2) },
            RSS3Share_arithmetic { shares: (z3, c3) },
        ];
        proof {
            assert(r =~= arith_mul(*v1, *v2));
        }
        r
    }
}

} // verus!
