use feth::u256::U256;

fn big(limbs: [u64; 4]) -> U256 {
    U256::from_limbs(limbs)
}

#[test]
fn small_values_sit_in_the_first_limb() {
    assert_eq!(U256::zero().limbs, [0, 0, 0, 0]);
    assert_eq!(U256::one().limbs, [1, 0, 0, 0]);
    assert_eq!(U256::from_u64(42).limbs, [42, 0, 0, 0]);
    assert_eq!(U256::max_value().limbs, [u64::MAX; 4]);
    assert!(U256::zero().is_zero());
    assert!(!U256::one().is_zero());
    assert!(!big([0, 0, 0, 1]).is_zero());
}

#[test]
fn addition_carries_across_limbs() {
    let a = big([u64::MAX, u64::MAX, 0, 0]);
    assert_eq!(a.checked_add(&U256::one()), Some(big([0, 0, 1, 0])));
    let b = big([u64::MAX, 1, 2, 3]);
    let c = big([2, u64::MAX, u64::MAX, 4]);
    assert_eq!(b.checked_add(&c), Some(big([1, 1, 2, 8])));
    assert_eq!(U256::from_u64(7).checked_add(&U256::zero()), Some(U256::from_u64(7)));
}

#[test]
fn addition_beyond_the_range_gives_nothing() {
    assert_eq!(U256::max_value().checked_add(&U256::one()), None);
    assert_eq!(big([0, 0, 0, 1 << 63]).checked_add(&big([0, 0, 0, 1 << 63])), None);
    assert_eq!(
        U256::max_value().checked_add(&U256::zero()),
        Some(U256::max_value())
    );
}

#[test]
fn subtraction_borrows_across_limbs() {
    assert_eq!(big([0, 0, 1, 0]).checked_sub(&U256::one()), Some(big([u64::MAX, u64::MAX, 0, 0])));
    assert_eq!(big([1, 1, 2, 8]).checked_sub(&big([2, u64::MAX, u64::MAX, 4])), Some(big([u64::MAX, 1, 2, 3])));
    assert_eq!(U256::from_u64(5).checked_sub(&U256::from_u64(5)), Some(U256::zero()));
    assert_eq!(U256::max_value().checked_sub(&U256::max_value()), Some(U256::zero()));
}

#[test]
fn subtraction_below_zero_gives_nothing() {
    assert_eq!(U256::zero().checked_sub(&U256::one()), None);
    assert_eq!(big([0, 0, 1, 0]).checked_sub(&big([0, 0, 0, 1])), None);
}

#[test]
fn multiplication_by_a_word() {
    // 10^17 * 10 = 10^18
    assert_eq!(
        U256::from_u64(100_000_000_000_000_000).checked_mul_u64(10),
        Some(U256::from_u64(1_000_000_000_000_000_000))
    );
    // (2^64 - 1)^2 = 2^128 - 2^65 + 1
    assert_eq!(
        U256::from_u64(u64::MAX).checked_mul_u64(u64::MAX),
        Some(big([1, u64::MAX - 1, 0, 0]))
    );
    assert_eq!(big([5, 6, 7, 8]).checked_mul_u64(0), Some(U256::zero()));
    assert_eq!(big([5, 6, 7, 8]).checked_mul_u64(1), Some(big([5, 6, 7, 8])));
    assert_eq!(
        big([u64::MAX, u64::MAX, u64::MAX, 0]).checked_mul_u64(2),
        Some(big([u64::MAX - 1, u64::MAX, u64::MAX, 1]))
    );
}

#[test]
fn multiplication_beyond_the_range_gives_nothing() {
    assert_eq!(U256::max_value().checked_mul_u64(2), None);
    assert_eq!(big([0, 0, 0, 1 << 63]).checked_mul_u64(2), None);
    assert_eq!(big([0, 0, 0, 1 << 62]).checked_mul_u64(2), Some(big([0, 0, 0, 1 << 63])));
}

#[test]
fn order_goes_by_the_high_limbs_first() {
    let small = big([u64::MAX, u64::MAX, u64::MAX, 0]);
    let large = big([0, 0, 0, 1]);
    assert!(small.is_lt(&large));
    assert!(!large.is_lt(&small));
    assert!(small.is_le(&large));
    assert!(!large.is_le(&small));
    assert!(!small.is_lt(&small));
    assert!(small.is_le(&small));
    assert!(big([1, 0, 0, 0]).is_lt(&big([2, 0, 0, 0])));
    assert!(big([9, 1, 0, 0]).is_lt(&big([0, 2, 0, 0])));
    assert!(big([9, 9, 1, 0]).is_lt(&big([0, 0, 2, 0])));
}

#[test]
fn equality_is_that_of_the_limbs() {
    assert!(big([1, 2, 3, 4]).is_eq(&big([1, 2, 3, 4])));
    for other in [[0, 2, 3, 4], [1, 0, 3, 4], [1, 2, 0, 4], [1, 2, 3, 0]] {
        assert!(!big([1, 2, 3, 4]).is_eq(&big(other)));
    }
}

#[test]
fn a_value_is_a_u64_when_its_high_limbs_are_zero() {
    assert_eq!(U256::from_u64(u64::MAX).as_u64(), Some(u64::MAX));
    assert_eq!(U256::zero().as_u64(), Some(0));
    assert_eq!(big([0, 1, 0, 0]).as_u64(), None);
    assert_eq!(big([7, 0, 1, 0]).as_u64(), None);
    assert_eq!(big([7, 0, 0, 1]).as_u64(), None);
}

#[test]
fn the_limbs_are_those_of_the_chain_library() {
    // The same number in the type that nodes are asked with.
    let ours = U256::from_u64(100_000_000_000_000_000).checked_mul_u64(12_345).unwrap();
    let theirs = web3::types::U256::exp10(17) * web3::types::U256::from(12_345u64);
    assert_eq!(ours.limbs, theirs.0);
    let ours = U256::max_value().checked_sub(&U256::from_u64(99)).unwrap();
    let theirs = web3::types::U256::MAX - web3::types::U256::from(99u64);
    assert_eq!(ours.limbs, theirs.0);
}

/// A sequence of numbers that looks random and is the same each time.
fn pseudo(seed: &mut u64) -> u64 {
    *seed ^= *seed << 13;
    *seed ^= *seed >> 7;
    *seed ^= *seed << 17;
    *seed
}

fn some_value(seed: &mut u64) -> U256 {
    let mut limbs = [0u64; 4];
    // Values of every size, many of them close to a power of two.
    let used = pseudo(seed) % 5;
    for (i, limb) in limbs.iter_mut().enumerate() {
        if (i as u64) < used {
            *limb = match pseudo(seed) % 4 {
                0 => u64::MAX,
                1 => 0,
                _ => pseudo(seed),
            };
        }
    }
    big(limbs)
}

#[test]
fn the_arithmetic_is_that_of_the_chain_library() {
    let mut seed = 0x9e37_79b9_7f4a_7c15u64;
    for _ in 0..2000 {
        let a = some_value(&mut seed);
        let b = some_value(&mut seed);
        let m = match pseudo(&mut seed) % 3 {
            0 => u64::MAX,
            1 => pseudo(&mut seed) % 1000,
            _ => pseudo(&mut seed),
        };
        let (x, y) = (web3::types::U256(a.limbs), web3::types::U256(b.limbs));
        assert_eq!(a.checked_add(&b).map(|r| r.limbs), x.checked_add(y).map(|r| r.0));
        assert_eq!(a.checked_sub(&b).map(|r| r.limbs), x.checked_sub(y).map(|r| r.0));
        assert_eq!(
            a.checked_mul_u64(m).map(|r| r.limbs),
            x.checked_mul(web3::types::U256::from(m)).map(|r| r.0)
        );
        assert_eq!(a.is_lt(&b), x < y);
        assert_eq!(a.is_le(&b), x <= y);
        assert_eq!(a.is_eq(&b), x == y);
        assert_eq!(a.is_zero(), x.is_zero());
        assert_eq!(a.as_u64().is_some(), x <= web3::types::U256::from(u64::MAX));
    }
}
