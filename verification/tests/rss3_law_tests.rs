use obliquery::constants::MODULUS_Zmod2n;
use obliquery::rss3::RSS3S_boolean_bitwise;
use obliquery::rss3::RSS3Share_arithmetic;
use obliquery::rss3::RSS3_arithmetic;
use obliquery::rss3::RSS3_boolean;
use obliquery::rss3::RSS3_single_boolean;

fn pairs(v: &[RSS3Share_arithmetic; 3]) -> [(u64, u64); 3] {
    [v[0].shares, v[1].shares, v[2].shares]
}

#[test]
fn arithmetic_share_exact_components() {
    let v = RSS3_arithmetic::share(12345);
    assert_eq!(
        pairs(&v),
        [
            (23006664470262279, 1983828661197383580),
            (16439908748041893412, 23006664470249934),
            (1983828661197395925, 7216536711187105259),
        ]
    );
}

#[test]
fn arithmetic_share_largest_secret() {
    let secret = 23006664470262279;
    let v = RSS3_arithmetic::share(secret);
    assert_eq!(RSS3_arithmetic::reconstruct(&v), secret);
    assert_eq!(v[1].shares.1, 0);
}

#[test]
fn arithmetic_share_zero() {
    let v = RSS3_arithmetic::share(0);
    assert_eq!(RSS3_arithmetic::reconstruct(&v), 0);
}

#[test]
fn arithmetic_any_two_parties_agree_on_a_sharing() {
    let v = RSS3_arithmetic::share(99);
    let p = pairs(&v);
    assert_eq!(RSS3_arithmetic::reconstruct_fromS0andS1(p[0], p[1]), 99);
    let m = MODULUS_Zmod2n as i128;
    assert_eq!((p[1].0 as i128 - p[2].1 as i128).rem_euclid(m), 99);
    assert_eq!((p[2].0 as i128 - p[0].1 as i128).rem_euclid(m), 99);
}

#[test]
fn arithmetic_reconstruct_pair_matches_reconstruct() {
    let v = [
        RSS3Share_arithmetic { shares: (5, 11) },
        RSS3Share_arithmetic { shares: (7, 9) },
        RSS3Share_arithmetic { shares: (1, 2) },
    ];
    let r = RSS3_arithmetic::reconstruct(&v);
    assert_eq!(r, MODULUS_Zmod2n - 4);
    assert_eq!(RSS3_arithmetic::reconstruct_fromS0andS1(v[0].shares, v[1].shares), r);
}

#[test]
fn arithmetic_add_is_additive_on_arbitrary_shares() {
    let x = [
        RSS3Share_arithmetic { shares: (u64::MAX, 3) },
        RSS3Share_arithmetic { shares: (4, u64::MAX - 1) },
        RSS3Share_arithmetic { shares: (0, 0) },
    ];
    let y = [
        RSS3Share_arithmetic { shares: (10, 20) },
        RSS3Share_arithmetic { shares: (30, 40) },
        RSS3Share_arithmetic { shares: (50, 60) },
    ];
    let z = RSS3_arithmetic::add(&x, &y);
    assert_eq!(z[0].shares, ((u64::MAX as u128 + 10) as u64 % MODULUS_Zmod2n, 23));
    assert_eq!(z[2].shares, (50, 60));
    let rx = RSS3_arithmetic::reconstruct(&x);
    let ry = RSS3_arithmetic::reconstruct(&y);
    let rz = RSS3_arithmetic::reconstruct(&z);
    assert_eq!(rz, (rx + ry) % MODULUS_Zmod2n);
}

#[test]
fn arithmetic_add_wraps_in_the_ring() {
    let a = 23006664470262279;
    let sa = RSS3_arithmetic::share(a);
    let mut sum = RSS3_arithmetic::share(0);
    for _ in 0..500 {
        sum = RSS3_arithmetic::add(&sum, &sa);
    }
    let expected = ((a as u128 * 500) % (MODULUS_Zmod2n as u128)) as u64;
    assert_eq!(RSS3_arithmetic::reconstruct(&sum), expected);
}

#[test]
fn arithmetic_sub_is_subtractive() {
    let sa = RSS3_arithmetic::share(7);
    let sb = RSS3_arithmetic::share(7);
    let d = RSS3_arithmetic::sub(&sa, &sb);
    assert_eq!(RSS3_arithmetic::reconstruct(&d), 0);
    let sc = RSS3_arithmetic::share(8);
    let e = RSS3_arithmetic::sub(&sa, &sc);
    assert_eq!(RSS3_arithmetic::reconstruct(&e), MODULUS_Zmod2n - 1);
}

#[test]
fn arithmetic_mul_exact_components() {
    let m = RSS3_arithmetic::mul(&RSS3_arithmetic::share(7), &RSS3_arithmetic::share(6));
    assert_eq!(
        pairs(&m),
        [
            (800303225272048554, 3434381090187244882),
            (4988687721395482330, 800303225272048512),
            (3434381090187244924, 4988687721395482288),
        ]
    );
    assert_eq!(RSS3_arithmetic::reconstruct(&m), 42);
}

#[test]
fn arithmetic_mul_reduces_in_the_ring() {
    let a = 3037000499;
    let b = 3037000501;
    let m = RSS3_arithmetic::mul(&RSS3_arithmetic::share(a), &RSS3_arithmetic::share(b));
    assert_eq!(RSS3_arithmetic::reconstruct(&m), 145474191);
    let c = 23006664470262279;
    let m2 = RSS3_arithmetic::mul(&RSS3_arithmetic::share(c), &RSS3_arithmetic::share(c));
    assert_eq!(RSS3_arithmetic::reconstruct(&m2), 2856440246450273329);
}

#[test]
fn arithmetic_mul_result_is_a_sharing_again() {
    let m = RSS3_arithmetic::mul(&RSS3_arithmetic::share(12), &RSS3_arithmetic::share(11));
    let m2 = RSS3_arithmetic::mul(&m, &RSS3_arithmetic::share(3));
    assert_eq!(RSS3_arithmetic::reconstruct(&m2), 396);
    let s = RSS3_arithmetic::add(&m2, &RSS3_arithmetic::share(4));
    assert_eq!(RSS3_arithmetic::reconstruct(&s), 400);
}

#[test]
fn boolean_share_exact_components() {
    let v = RSS3_boolean::share(0b1);
    assert_eq!(v[0].shares, (0b1010, 0b1101));
    assert_eq!(v[1].shares, (0b0110, 0b1011));
    assert_eq!(v[2].shares, (0b1100, 0b0111));
}

#[test]
fn boolean_xor_and_on_arbitrary_words() {
    let a = u64::MAX - 5;
    let b = 0x0123_4567_89ab_cdef;
    let sa = RSS3_boolean::share(a);
    let sb = RSS3_boolean::share(b);
    let x = RSS3_boolean::xor(&sa, &sb);
    assert_eq!(RSS3_boolean::reconstruct(&x), a ^ b);
    assert_eq!(RSS3_boolean::reconstruct_2_test(&x), a ^ b);
    let y = RSS3_boolean::and(&sa, &sb);
    assert_eq!(RSS3_boolean::reconstruct(&y), a & b);
    assert_eq!(RSS3_boolean::reconstruct_2_test(&y), a & b);
    let z = RSS3_boolean::and(&y, &x);
    assert_eq!(RSS3_boolean::reconstruct(&z), (a & b) & (a ^ b));
}

#[test]
fn single_boolean_truth_tables() {
    for a in [false, true] {
        for b in [false, true] {
            let sa = RSS3_single_boolean::share(a);
            let sb = RSS3_single_boolean::share(b);
            assert_eq!(RSS3_single_boolean::reconstruct(&sa), a);
            assert_eq!(RSS3_single_boolean::reconstruct(&RSS3_single_boolean::xor(&sa, &sb)), a ^ b);
            assert_eq!(RSS3_single_boolean::reconstruct(&RSS3_single_boolean::and(&sa, &sb)), a && b);
            assert_eq!(RSS3_single_boolean::reconstruct(&RSS3_single_boolean::not(&sa)), !a);
        }
    }
}

#[test]
fn single_boolean_one_share_is_true() {
    let one = RSS3_single_boolean::one_share();
    assert_eq!(one[0].shares, (true, false));
    assert_eq!(one[1].shares, (false, false));
    assert_eq!(one[2].shares, (true, true));
    assert!(RSS3_single_boolean::reconstruct(&one));
    let not_one = RSS3_single_boolean::not(&one);
    assert!(!RSS3_single_boolean::reconstruct(&not_one));
}

#[test]
fn bitwise_bits_roundtrip() {
    for v in [0u64, 1, 2, 0x8000_0000_0000_0000, u64::MAX, 0xdead_beef_0bad_f00d] {
        let bits = RSS3S_boolean_bitwise::u64_to_bits(v);
        for i in 0..64 {
            assert_eq!(bits[i], (v >> i) & 1 == 1);
        }
        assert_eq!(RSS3S_boolean_bitwise::bits_to_u64(&bits), v);
    }
}

#[test]
fn bitwise_vector_helpers() {
    let a = RSS3S_boolean_bitwise::u64_to_bits(0b1100);
    let b = RSS3S_boolean_bitwise::u64_to_bits(0b1010);
    let c = RSS3S_boolean_bitwise::u64_to_bits(0b0110);
    assert_eq!(RSS3S_boolean_bitwise::bits_to_u64(&RSS3S_boolean_bitwise::bool_xor(&a, &b)), 0b0110);
    assert_eq!(RSS3S_boolean_bitwise::bits_to_u64(&RSS3S_boolean_bitwise::bool_and(&a, &b)), 0b1000);
    assert_eq!(RSS3S_boolean_bitwise::bits_to_u64(&RSS3S_boolean_bitwise::bool_xor_three(&a, &b, &c)), 0);
}

#[test]
fn bitwise_operations_on_distinct_words() {
    let a = 0x0f0f_1234_5678_9abc;
    let b = 0xffff_0000_ffff_0001;
    let sa = RSS3S_boolean_bitwise::share(a);
    let sb = RSS3S_boolean_bitwise::share(b);
    assert_eq!(RSS3S_boolean_bitwise::reconstruct(&sb), b);
    assert_eq!(RSS3S_boolean_bitwise::reconstruct(&RSS3S_boolean_bitwise::xor(&sa, &sb)), a ^ b);
    assert_eq!(RSS3S_boolean_bitwise::reconstruct(&RSS3S_boolean_bitwise::and(&sa, &sb)), a & b);
}

#[test]
fn bitwise_split_into_single_bits() {
    let sa = RSS3S_boolean_bitwise::share(0b101);
    let columns = RSS3S_boolean_bitwise::RSS3Share_boolean_bitwise64bits_to_SingleBooleanArray(&sa);
    assert!(RSS3_single_boolean::reconstruct(&columns[0]));
    assert!(!RSS3_single_boolean::reconstruct(&columns[1]));
    assert!(RSS3_single_boolean::reconstruct(&columns[2]));
    assert!(!RSS3_single_boolean::reconstruct(&columns[63]));
    let low = RSS3S_boolean_bitwise::shares_bit_and(&sa);
    assert!(RSS3_single_boolean::reconstruct(&low));
}

#[test]
fn bitwise_equal_compares_the_lowest_bit() {
    let s0 = RSS3S_boolean_bitwise::share(0);
    let s1 = RSS3S_boolean_bitwise::share(1);
    let s2 = RSS3S_boolean_bitwise::share(2);
    assert!(RSS3_single_boolean::reconstruct(&RSS3S_boolean_bitwise::equal(&s0, &s0)));
    assert!(!RSS3_single_boolean::reconstruct(&RSS3S_boolean_bitwise::equal(&s0, &s1)));
    assert!(!RSS3_single_boolean::reconstruct(&RSS3S_boolean_bitwise::equal(&s2, &s1)));
    // words that differ only above the lowest bit are reported equal
    assert!(RSS3_single_boolean::reconstruct(&RSS3S_boolean_bitwise::equal(&s0, &s2)));
}
