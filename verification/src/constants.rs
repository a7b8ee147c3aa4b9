use vstd::prelude::*;

verus! {

/// Largest number of entries a bucket may hold.
pub const MAX_BUCKET_SIZE: usize = 65536;

/// Scale factor of the benchmark data.
pub const SCALE_FACTOR: u32 = 2;

/// A large prime modulus.
pub const MODULUS: u64 = 9114733978116259;

/// The ring of arithmetic shares is the integers modulo 2^63.
pub const MODULUS_Zmod2n: u64 = 9223372036854775808;

/// The inverse of 3 modulo 2^63.
pub const inverse_modulus_Zmod2n: u64 = 3074457345618258603;

/// XOR-correlated triples (each triple XORs to zero) for 64-bit boolean shares.
pub const SHARE_TRIPLES_U64: [(u64, u64, u64); 2] = [
    (0b1010, 0b0110, 0b1100),
    (0b1111, 0b0001, 0b1110),
];

/// Additively correlated triples (each triple sums to zero modulo 2^63 and 2^64).
pub const SHARE_TRIPLES_arithmetic: [(u64, u64, u64); 2] = [
    (23006664470262279, 16439908748041893412, 1983828661197395925),
    (10385717825052324162, 17674106093612811965, 8833664228753967105),
];

/// XOR-correlated triples for single-bit shares.
pub const SHARE_TRIPLES_single_boolean: [(bool, bool, bool); 2] = [
    (false, false, false),
    (true, false, true),
];

/// XOR-correlated triples (each triple XORs to all-false) for bit-vector shares.
pub const SHARE_TRIPLES_boolean_bitwise_fake: [([bool; 64], [bool; 64], [bool; 64]); 2] = [
    (
        [
            false, false, false, false, false, false, false, false,
            false, false, false, false, false, false, false, false,
            false, false, false, false, false, false, false, false,
            false, false, false, false, false, false, false, false,
            false, false, false, false, false, false, false, false,
            false, false, false, false, false, false, false, false,
            false, false, false, false, false, false, false, false,
            false, false, false, false, false, false, false, false,
        ],
        [
            false, false, false, false, false, false, false, false,
            false, false, false, false, false, false, false, false,
            false, false, false, false, false, false, false, false,
            false, false, false, false, false, false, false, false,
            false, false, false, false, false, false, false, false,
            false, false, false, false, false, false, false, false,
            false, false, false, false, false, false, false, false,
            false, false, false, false, false, false, false, false,
        ],
        [
            false, false, false, false, false, false, false, false,
            false, false, false, false, false, false, false, false,
            false, false, false, false, false, false, false, false,
            false, false, false, false, false, false, false, false,
            false, false, false, false, false, false, false, false,
            false, false, false, false, false, false, false, false,
            false, false, false, false, false, false, false, false,
            false, false, false, false, false, false, false, false,
        ],
    ),
    (
        [
            true, true, false, false, false, false, false, false,
            false, false, false, false, false, false, false, false,
            false, false, false, false, false, false, false, false,
            false, false, false, false, false, false, false, false,
            false, false, false, false, false, false, false, false,
            false, false, false, false, false, false, false, false,
            false, false, false, false, false, false, false, false,
            false, false, false, false, false, false, false, false,
        ],
        [
            true, true, false, false, false, false, false, false,
            false, false, false, false, false, false, false, false,
            false, false, false, false, false, false, false, false,
            false, false, false, false, false, false, false, false,
            false, false, false, false, false, false, false, false,
            false, false, false, false, false, false, false, false,
            false, false, false, false, false, false, false, false,
            false, false, false, false, false, false, false, false,
        ],
        [
            true, true, false, false, false, false, false, false,
            false, false, false, false, false, false, false, false,
            false, false, false, false, false, false, false, false,
            false, false, false, false, false, false, false, false,
            false, false, false, false, false, false, false, false,
            false, false, false, false, false, false, false, false,
            false, false, false, false, false, false, false, false,
            false, false, false, false, false, false, false, false,
        ],
    ),
];

} // verus!
