//! Unsigned 256-bit integers, as Ethereum counts wei and nonces.
//!
//! A value is four 64-bit limbs, least significant first; its view is the
//! natural number those limbs spell.

use vstd::prelude::*;

verus! {

/// 2^64.
pub open spec fn pow64() -> nat {
    0x1_0000_0000_0000_0000
}

/// 2^128.
pub open spec fn pow128() -> nat {
    0x1_0000_0000_0000_0000_0000_0000_0000_0000nat
}

/// 2^192.
pub open spec fn pow192() -> nat {
    0x1_0000_0000_0000_0000_0000_0000_0000_0000_0000_0000_0000_0000nat
}

/// 2^256.
pub open spec fn pow256() -> nat {
    0x1_0000_0000_0000_0000_0000_0000_0000_0000_0000_0000_0000_0000_0000_0000_0000_0000nat
}

/// The number that four limbs spell, least significant first.
pub open spec fn limbs_value(l0: u64, l1: u64, l2: u64, l3: u64) -> nat {
    (l0 as nat) + (l1 as nat) * pow64() + (l2 as nat) * pow128() + (l3 as nat) * pow192()
}

/// An unsigned 256-bit integer.
#[derive(Clone, Copy, Debug, PartialEq, Eq, Hash)]
pub struct U256 {
    /// The limbs, least significant first.
    pub limbs: [u64; 4],
}

impl View for U256 {
    type V = nat;

    open spec fn view(&self) -> nat {
        limbs_value(self.limbs[0], self.limbs[1], self.limbs[2], self.limbs[3])
    }
}

/// Every value is below 2^256.
pub proof fn lemma_value_bound(x: U256)
    ensures
        x@ < pow256(),
{
    let l1 = x.limbs[1] as nat;
    let l2 = x.limbs[2] as nat;
    let l3 = x.limbs[3] as nat;
    assert(l1 * pow64() <= (pow64() - 1) * pow64()) by (nonlinear_arith)
        requires
            l1 <= pow64() - 1,
    ;
    assert(l2 * pow128() <= (pow64() - 1) * pow128()) by (nonlinear_arith)
        requires
            l2 <= pow64() - 1,
    ;
    assert(l3 * pow192() <= (pow64() - 1) * pow192()) by (nonlinear_arith)
        requires
            l3 <= pow64() - 1,
    ;
}

/// Two values that denote the same number have the same limbs.
pub proof fn lemma_value_injective(x: U256, y: U256)
    requires
        x@ == y@,
    ensures
        x == y,
{
    lemma_limbs_injective(
        x.limbs[0],
        x.limbs[1],
        x.limbs[2],
        x.limbs[3],
        y.limbs[0],
        y.limbs[1],
        y.limbs[2],
        y.limbs[3],
    );
    assert(x.limbs@ =~= y.limbs@);
    assert(x.limbs == y.limbs);
}

proof fn lemma_limbs_injective(
    a0: u64,
    a1: u64,
    a2: u64,
    a3: u64,
    b0: u64,
    b1: u64,
    b2: u64,
    b3: u64,
)
    requires
        limbs_value(a0, a1, a2, a3) == limbs_value(b0, b1, b2, b3),
    ensures
        a0 == b0,
        a1 == b1,
        a2 == b2,
        a3 == b3,
{
    let p = pow64() as int;
    let ha = (a1 as int) + (a2 as int) * p + (a3 as int) * p * p;
    let hb = (b1 as int) + (b2 as int) * p + (b3 as int) * p * p;
    assert(pow128() == p * p) by (nonlinear_arith)
        requires
            p == pow64(),
    ;
    assert(pow192() == p * p * p) by (nonlinear_arith)
        requires
            p == pow64(),
    ;
    assert(limbs_value(a0, a1, a2, a3) == a0 + ha * p) by (nonlinear_arith)
        requires
            limbs_value(a0, a1, a2, a3) == a0 + a1 * p + a2 * (p * p) + a3 * (p * p * p),
            ha == a1 + a2 * p + a3 * p * p,
    ;
    assert(limbs_value(b0, b1, b2, b3) == b0 + hb * p) by (nonlinear_arith)
        requires
            limbs_value(b0, b1, b2, b3) == b0 + b1 * p + b2 * (p * p) + b3 * (p * p * p),
            hb == b1 + b2 * p + b3 * p * p,
    ;
    lemma_split_unique(a0 as int, ha, b0 as int, hb, p);
    let ga = (a2 as int) + (a3 as int) * p;
    let gb = (b2 as int) + (b3 as int) * p;
    assert(ha == a1 + ga * p) by (nonlinear_arith)
        requires
            ha == a1 + a2 * p + a3 * p * p,
            ga == a2 + a3 * p,
    ;
    assert(hb == b1 + gb * p) by (nonlinear_arith)
        requires
            hb == b1 + b2 * p + b3 * p * p,
            gb == b2 + b3 * p,
    ;
    lemma_split_unique(a1 as int, ga, b1 as int, gb, p);
    lemma_split_unique(a2 as int, a3 as int, b2 as int, b3 as int, p);
}

/// A number has one way to be written as `low + high * base` with
/// `0 <= low < base`.
proof fn lemma_split_unique(low_a: int, high_a: int, low_b: int, high_b: int, base: int)
    requires
        0 <= low_a < base,
        0 <= low_b < base,
        low_a + high_a * base == low_b + high_b * base,
    ensures
        low_a == low_b,
        high_a == high_b,
{
    if high_a < high_b {
        assert((high_b - high_a) * base >= base) by (nonlinear_arith)
            requires
                high_b - high_a >= 1,
                base > 0,
        ;
        assert(high_b * base - high_a * base == (high_b - high_a) * base) by (nonlinear_arith);
    } else if high_b < high_a {
        assert((high_a - high_b) * base >= base) by (nonlinear_arith)
            requires
                high_a - high_b >= 1,
                base > 0,
        ;
        assert(high_a * base - high_b * base == (high_a - high_b) * base) by (nonlinear_arith);
    }
}

impl U256 {
    /// The number zero.
    pub fn zero() -> (r: U256)
        ensures
            r@ == 0,
    {
        U256 { limbs: [0, 0, 0, 0] }
    }

    /// The number one.
    pub fn one() -> (r: U256)
        ensures
            r@ == 1,
    {
        U256 { limbs: [1, 0, 0, 0] }
    }

    /// The largest value, 2^256 - 1.
    pub fn max_value() -> (r: U256)
        ensures
            r@ == pow256() - 1,
    {
        U256 { limbs: [u64::MAX, u64::MAX, u64::MAX, u64::MAX] }
    }

    /// The value `x`.
    pub fn from_u64(x: u64) -> (r: U256)
        ensures
            r@ == x,
    {
        U256 { limbs: [x, 0, 0, 0] }
    }

    /// The value from its limbs, least significant first.
    pub fn from_limbs(limbs: [u64; 4]) -> (r: U256)
        ensures
            r.limbs == limbs,
            r@ == limbs_value(limbs[0], limbs[1], limbs[2], limbs[3]),
    {
        U256 { limbs }
    }

    /// Whether the value is zero.
    pub fn is_zero(&self) -> (r: bool)
        ensures
            r == (self@ == 0),
    {
        self.limbs[0] == 0 && self.limbs[1] == 0 && self.limbs[2] == 0 && self.limbs[3] == 0
    }

    /// Whether both denote the same number.
    pub fn is_eq(&self, other: &U256) -> (r: bool)
        ensures
            r == (self@ == other@),
            r == (*self == *other),
    {
        let same = self.limbs[0] == other.limbs[0] && self.limbs[1] == other.limbs[1]
            && self.limbs[2] == other.limbs[2] && self.limbs[3] == other.limbs[3];
        proof {
            if same {
                assert(self.limbs@ =~= other.limbs@);
            }
            if self@ == other@ {
                lemma_value_injective(*self, *other);
            }
        }
        same
    }

    /// Whether `self` is the smaller number.
    pub fn is_lt(&self, other: &U256) -> (r: bool)
        ensures
            r == (self@ < other@),
    {
        proof {
            lemma_order(
                self.limbs[0],
                self.limbs[1],
                self.limbs[2],
                self.limbs[3],
                other.limbs[0],
                other.limbs[1],
                other.limbs[2],
                other.limbs[3],
            );
        }
        if self.limbs[3] != other.limbs[3] {
            self.limbs[3] < other.limbs[3]
        } else if self.limbs[2] != other.limbs[2] {
            self.limbs[2] < other.limbs[2]
        } else if self.limbs[1] != other.limbs[1] {
            self.limbs[1] < other.limbs[1]
        } else {
            self.limbs[0] < other.limbs[0]
        }
    }

    /// Whether `self` is at most `other`.
    pub fn is_le(&self, other: &U256) -> (r: bool)
        ensures
            r == (self@ <= other@),
    {
        !other.is_lt(self)
    }

    /// The value as a `u64`, where it fits.
    pub fn as_u64(&self) -> (r: Option<u64>)
        ensures
            r is Some <==> self@ <= u64::MAX,
            r matches Some(x) ==> x == self@,
    {
        proof {
            lemma_high_limbs(self.limbs[0], self.limbs[1], self.limbs[2], self.limbs[3]);
        }
        if self.limbs[1] == 0 && self.limbs[2] == 0 && self.limbs[3] == 0 {
            Some(self.limbs[0])
        } else {
            None
        }
    }

    /// The sum, where it is below 2^256.
    pub fn checked_add(&self, other: &U256) -> (r: Option<U256>)
        ensures
            r is Some <==> self@ + other@ < pow256(),
            r matches Some(sum) ==> sum@ == self@ + other@,
    {
        let p: u128 = 0x1_0000_0000_0000_0000;
        let s0: u128 = self.limbs[0] as u128 + other.limbs[0] as u128;
        let s1: u128 = self.limbs[1] as u128 + other.limbs[1] as u128 + s0 / p;
        let s2: u128 = self.limbs[2] as u128 + other.limbs[2] as u128 + s1 / p;
        let s3: u128 = self.limbs[3] as u128 + other.limbs[3] as u128 + s2 / p;
        let r0: u64 = (s0 % p) as u64;
        let r1: u64 = (s1 % p) as u64;
        let r2: u64 = (s2 % p) as u64;
        let r3: u64 = (s3 % p) as u64;
        let carry: u128 = s3 / p;
        let sum = U256 { limbs: [r0, r1, r2, r3] };
        proof {
            lemma_value_bound(sum);
            lemma_carry_chain(
                self@ + other@,
                s0 as nat,
                s1 as nat,
                s2 as nat,
                s3 as nat,
                self.limbs[0] as nat + other.limbs[0] as nat,
                self.limbs[1] as nat + other.limbs[1] as nat,
                self.limbs[2] as nat + other.limbs[2] as nat,
                self.limbs[3] as nat + other.limbs[3] as nat,
            );
            assert(self@ + other@ == sum@ + (carry as nat) * pow256());
            if carry >= 1 {
                assert((carry as nat) * pow256() >= pow256()) by (nonlinear_arith)
                    requires
                        carry >= 1,
                ;
            }
        }
        if carry == 0 {
            Some(sum)
        } else {
            None
        }
    }

    /// The difference, where `other` is not the larger.
    pub fn checked_sub(&self, other: &U256) -> (r: Option<U256>)
        ensures
            r is Some <==> other@ <= self@,
            r matches Some(diff) ==> diff@ == self@ - other@,
    {
        if self.is_lt(other) {
            return None;
        }
        let p: u128 = 0x1_0000_0000_0000_0000;
        // Each step adds 2^64 before subtracting and notes whether it was used.
        let d0: u128 = p + self.limbs[0] as u128 - other.limbs[0] as u128;
        let b0: u128 = 1 - d0 / p;
        let d1: u128 = p + self.limbs[1] as u128 - other.limbs[1] as u128 - b0;
        let b1: u128 = 1 - d1 / p;
        let d2: u128 = p + self.limbs[2] as u128 - other.limbs[2] as u128 - b1;
        let b2: u128 = 1 - d2 / p;
        let d3: u128 = p + self.limbs[3] as u128 - other.limbs[3] as u128 - b2;
        let b3: u128 = 1 - d3 / p;
        let diff = U256 {
            limbs: [(d0 % p) as u64, (d1 % p) as u64, (d2 % p) as u64, (d3 % p) as u64],
        };
        proof {
            lemma_value_bound(diff);
            lemma_value_bound(*self);
            lemma_value_bound(*other);
            lemma_borrow_chain(
                self.limbs[0] as int - other.limbs[0] as int,
                self.limbs[1] as int - other.limbs[1] as int,
                self.limbs[2] as int - other.limbs[2] as int,
                self.limbs[3] as int - other.limbs[3] as int,
                d0 as int,
                d1 as int,
                d2 as int,
                d3 as int,
            );
            assert(self@ - other@ == diff@ - (b3 as int) * pow256());
        }
        Some(diff)
    }

    /// The product with `factor`, where it is below 2^256.
    pub fn checked_mul_u64(&self, factor: u64) -> (r: Option<U256>)
        ensures
            r is Some <==> self@ * factor < pow256(),
            r matches Some(product) ==> product@ == self@ * factor,
    {
        let p: u128 = 0x1_0000_0000_0000_0000;
        let f: u128 = factor as u128;
        proof {
            lemma_mul_fits(self.limbs[0], factor);
            lemma_mul_fits(self.limbs[1], factor);
            lemma_mul_fits(self.limbs[2], factor);
            lemma_mul_fits(self.limbs[3], factor);
        }
        let m0: u128 = self.limbs[0] as u128 * f;
        let m1: u128 = self.limbs[1] as u128 * f;
        let m2: u128 = self.limbs[2] as u128 * f;
        let m3: u128 = self.limbs[3] as u128 * f;
        let s0: u128 = m0;
        let s1: u128 = m1 + s0 / p;
        let s2: u128 = m2 + s1 / p;
        let s3: u128 = m3 + s2 / p;
        let carry: u128 = s3 / p;
        let product = U256 {
            limbs: [(s0 % p) as u64, (s1 % p) as u64, (s2 % p) as u64, (s3 % p) as u64],
        };
        proof {
            lemma_value_bound(product);
            lemma_scale(
                self.limbs[0] as nat,
                self.limbs[1] as nat,
                self.limbs[2] as nat,
                self.limbs[3] as nat,
                factor as nat,
            );
            lemma_carry_chain(
                self@ * (factor as nat),
                s0 as nat,
                s1 as nat,
                s2 as nat,
                s3 as nat,
                m0 as nat,
                m1 as nat,
                m2 as nat,
                m3 as nat,
            );
            assert(self@ * factor == product@ + (carry as nat) * pow256());
            if carry >= 1 {
                assert((carry as nat) * pow256() >= pow256()) by (nonlinear_arith)
                    requires
                        carry >= 1,
                ;
            }
        }
        if carry == 0 {
            Some(product)
        } else {
            None
        }
    }
}

/// The product of two 64-bit numbers leaves room for a 64-bit carry.
proof fn lemma_mul_fits(a: u64, b: u64)
    ensures
        (a as nat) * (b as nat) <= 0xffff_ffff_ffff_fffe_0000_0000_0000_0001,
{
    assert((a as nat) * (b as nat) <= 0xffff_ffff_ffff_ffff * 0xffff_ffff_ffff_ffff)
        by (nonlinear_arith)
        requires
            a <= 0xffff_ffff_ffff_ffff,
            b <= 0xffff_ffff_ffff_ffff,
    ;
}

/// The limbs scaled by `f` spell the value scaled by `f`.
proof fn lemma_scale(l0: nat, l1: nat, l2: nat, l3: nat, f: nat)
    ensures
        (l0 + l1 * pow64() + l2 * pow128() + l3 * pow192()) * f == l0 * f + (l1 * f) * pow64() + (
        l2 * f) * pow128() + (l3 * f) * pow192(),
{
    let x1 = l1 * pow64();
    let x2 = l2 * pow128();
    let x3 = l3 * pow192();
    assert((l0 + x1 + x2 + x3) * f == l0 * f + x1 * f + x2 * f + x3 * f) by (nonlinear_arith);
    assert(x1 * f == (l1 * f) * pow64()) by (nonlinear_arith)
        requires
            x1 == l1 * pow64(),
    ;
    assert(x2 * f == (l2 * f) * pow128()) by (nonlinear_arith)
        requires
            x2 == l2 * pow128(),
    ;
    assert(x3 * f == (l3 * f) * pow192()) by (nonlinear_arith)
        requires
            x3 == l3 * pow192(),
    ;
}

/// Adding column sums with carries: where each `s` is its column `m` plus
/// the carry out of the column below, the low halves of the `s` and the last
/// carry spell the total of the columns.
proof fn lemma_carry_chain(
    total: nat,
    s0: nat,
    s1: nat,
    s2: nat,
    s3: nat,
    m0: nat,
    m1: nat,
    m2: nat,
    m3: nat,
)
    requires
        total == m0 + m1 * pow64() + m2 * pow128() + m3 * pow192(),
        s0 == m0,
        s1 == m1 + s0 / pow64(),
        s2 == m2 + s1 / pow64(),
        s3 == m3 + s2 / pow64(),
    ensures
        total == (s0 % pow64()) + (s1 % pow64()) * pow64() + (s2 % pow64()) * pow128() + (s3
            % pow64()) * pow192() + (s3 / pow64()) * pow256(),
{
    let p = pow64();
    let (q0, r0) = (s0 / p, s0 % p);
    let (q1, r1) = (s1 / p, s1 % p);
    let (q2, r2) = (s2 / p, s2 % p);
    let (q3, r3) = (s3 / p, s3 % p);
    assert(s0 == q0 * p + r0 && s1 == q1 * p + r1 && s2 == q2 * p + r2 && s3 == q3 * p + r3);
    let square = pow128();
    let cube = pow192();
    let fourth = pow256();
    assert(square == p * p && cube == square * p && fourth == cube * p) by (nonlinear_arith)
        requires
            p == pow64(),
            square == pow128(),
            cube == pow192(),
            fourth == pow256(),
    ;
    assert(m1 * p + q0 * p == q1 * square + r1 * p) by (nonlinear_arith)
        requires
            m1 + q0 == q1 * p + r1,
            square == p * p,
    ;
    assert(m2 * square + q1 * square == q2 * cube + r2 * square) by (nonlinear_arith)
        requires
            m2 + q1 == q2 * p + r2,
            cube == square * p,
    ;
    assert(m3 * cube + q2 * cube == q3 * fourth + r3 * cube) by (nonlinear_arith)
        requires
            m3 + q2 == q3 * p + r3,
            fourth == cube * p,
    ;
}

/// Subtracting column by column with borrows: each `d` is 2^64 plus its
/// column difference less the borrow of the column below.
proof fn lemma_borrow_chain(
    c0: int,
    c1: int,
    c2: int,
    c3: int,
    d0: int,
    d1: int,
    d2: int,
    d3: int,
)
    requires
        d0 == pow64() + c0,
        d1 == pow64() + c1 - (1 - d0 / (pow64() as int)),
        d2 == pow64() + c2 - (1 - d1 / (pow64() as int)),
        d3 == pow64() + c3 - (1 - d2 / (pow64() as int)),
        0 <= d0 < 2 * pow64(),
        0 <= d1 < 2 * pow64(),
        0 <= d2 < 2 * pow64(),
        0 <= d3 < 2 * pow64(),
    ensures
        c0 + c1 * pow64() + c2 * pow128() + c3 * pow192() == (d0 % (pow64() as int)) + (d1 % (
        pow64() as int)) * pow64() + (d2 % (pow64() as int)) * pow128() + (d3 % (pow64() as int))
            * pow192() - (1 - d3 / (pow64() as int)) * pow256(),
{
    let p = pow64() as int;
    let (q0, r0) = (d0 / p, d0 % p);
    let (q1, r1) = (d1 / p, d1 % p);
    let (q2, r2) = (d2 / p, d2 % p);
    let (q3, r3) = (d3 / p, d3 % p);
    assert(d0 == q0 * p + r0 && d1 == q1 * p + r1 && d2 == q2 * p + r2 && d3 == q3 * p + r3);
    let square = pow128() as int;
    let cube = pow192() as int;
    let fourth = pow256() as int;
    assert(square == p * p && cube == square * p && fourth == cube * p) by (nonlinear_arith)
        requires
            p == pow64(),
            square == pow128(),
            cube == pow192(),
            fourth == pow256(),
    ;
    assert(c0 == (q0 - 1) * p + r0);
    assert(c1 * p == (q1 - 1) * square + r1 * p - (q0 - 1) * p) by (nonlinear_arith)
        requires
            c1 + (q0 - 1) == (q1 - 1) * p + r1,
            square == p * p,
    ;
    assert(c2 * square == (q2 - 1) * cube + r2 * square - (q1 - 1) * square) by (nonlinear_arith)
        requires
            c2 + (q1 - 1) == (q2 - 1) * p + r2,
            cube == square * p,
    ;
    assert(c3 * cube == (q3 - 1) * fourth + r3 * cube - (q2 - 1) * cube) by (nonlinear_arith)
        requires
            c3 + (q2 - 1) == (q3 - 1) * p + r3,
            fourth == cube * p,
    ;
    assert((1 - q3) * fourth == -((q3 - 1) * fourth)) by (nonlinear_arith);
}

/// A value fits 64 bits exactly when its three high limbs are zero.
proof fn lemma_high_limbs(l0: u64, l1: u64, l2: u64, l3: u64)
    ensures
        limbs_value(l0, l1, l2, l3) <= u64::MAX <==> (l1 == 0 && l2 == 0 && l3 == 0),
{
    if l1 != 0 {
        assert((l1 as nat) * pow64() >= pow64()) by (nonlinear_arith)
            requires
                l1 >= 1,
        ;
    }
    if l2 != 0 {
        assert((l2 as nat) * pow128() >= pow128()) by (nonlinear_arith)
            requires
                l2 >= 1,
        ;
    }
    if l3 != 0 {
        assert((l3 as nat) * pow192() >= pow192()) by (nonlinear_arith)
            requires
                l3 >= 1,
        ;
    }
}

/// Values compare as their limbs do, most significant first.
proof fn lemma_order(a0: u64, a1: u64, a2: u64, a3: u64, b0: u64, b1: u64, b2: u64, b3: u64)
    ensures
        limbs_value(a0, a1, a2, a3) < limbs_value(b0, b1, b2, b3) <==> (if a3 != b3 {
            a3 < b3
        } else if a2 != b2 {
            a2 < b2
        } else if a1 != b1 {
            a1 < b1
        } else {
            a0 < b0
        }),
{
    let p = pow64() as int;
    assert(pow128() == p * p && pow192() == p * p * p) by (nonlinear_arith)
        requires
            p == pow64(),
    ;
    let la = (a0 as int) + (a1 as int) * p + (a2 as int) * (p * p);
    let lb = (b0 as int) + (b1 as int) * p + (b2 as int) * (p * p);
    assert(0 <= la < p * p * p && 0 <= lb < p * p * p) by (nonlinear_arith)
        requires
            la == a0 + a1 * p + a2 * (p * p),
            lb == b0 + b1 * p + b2 * (p * p),
            0 <= a0 < p,
            0 <= a1 < p,
            0 <= a2 < p,
            0 <= b0 < p,
            0 <= b1 < p,
            0 <= b2 < p,
    ;
    let ma = (a0 as int) + (a1 as int) * p;
    let mb = (b0 as int) + (b1 as int) * p;
    assert(0 <= ma < p * p && 0 <= mb < p * p) by (nonlinear_arith)
        requires
            ma == a0 + a1 * p,
            mb == b0 + b1 * p,
            0 <= a0 < p,
            0 <= a1 < p,
            0 <= b0 < p,
            0 <= b1 < p,
    ;
    if a3 != b3 {
        lemma_high_decides(la, a3 as int, lb, b3 as int, p * p * p);
    } else if a2 != b2 {
        lemma_high_decides(ma, a2 as int, mb, b2 as int, p * p);
    } else if a1 != b1 {
        lemma_high_decides(a0 as int, a1 as int, b0 as int, b1 as int, p);
    }
}

/// Of `low_a + high_a * base` and `low_b + high_b * base` with both lows
/// below `base`, the one with the larger high part is the larger.
proof fn lemma_high_decides(low_a: int, high_a: int, low_b: int, high_b: int, base: int)
    requires
        0 <= low_a < base,
        0 <= low_b < base,
        high_a != high_b,
    ensures
        (low_a + high_a * base < low_b + high_b * base) <==> high_a < high_b,
{
    if high_a < high_b {
        assert(high_b * base - high_a * base >= base) by (nonlinear_arith)
            requires
                high_b - high_a >= 1,
                base > 0,
        ;
    } else {
        assert(high_a * base - high_b * base >= base) by (nonlinear_arith)
            requires
                high_a - high_b >= 1,
                base > 0,
        ;
    }
}


/// The value that denotes `n`, for `n` below 2^256.
pub open spec fn u256_of(n: nat) -> U256 {
    choose|x: U256| x@ == n
}

/// `u256_of` undoes the view.
pub proof fn lemma_u256_of(x: U256)
    ensures
        u256_of(x@) == x,
{
    lemma_value_injective(u256_of(x@), x);
}

/// `u256_of` gives a value that denotes its argument, where one exists.
pub proof fn lemma_u256_of_value(n: nat)
    requires
        n < pow256(),
    ensures
        u256_of(n)@ == n,
{
    let p = pow64();
    let l0 = (n % p) as u64;
    let l1 = ((n / p) % p) as u64;
    let l2 = ((n / (p * p)) % p) as u64;
    let l3 = (n / (p * p * p)) as u64;
    assert(pow128() == p * p && pow192() == p * p * p && pow256() == p
        * p * p * p) by (nonlinear_arith)
        requires
            p == pow64(),
    ;
    let a = n / p;
    let b = a / p;
    let c = b / p;
    assert(n == a * p + n % p);
    assert(a == b * p + a % p);
    assert(b == c * p + b % p);
    assert(n / (p * p) == b) by (nonlinear_arith)
        requires
            a == n / p,
            b == a / p,
            p > 0,
    ;
    assert(n / (p * p * p) == c) by (nonlinear_arith)
        requires
            a == n / p,
            b == a / p,
            c == b / p,
            p > 0,
    ;
    assert(c < p) by (nonlinear_arith)
        requires
            n < p * p * p * p,
            c == n / (p * p * p),
            p > 0,
    ;
    assert(n == (n % p) + (a % p) * p + (b % p) * (p * p) + c * (p * p * p)) by (nonlinear_arith)
        requires
            n == a * p + n % p,
            a == b * p + a % p,
            b == c * p + b % p,
    ;
    let x = U256 { limbs: [l0, l1, l2, l3] };
    assert(x@ == n);
}

} // verus!
