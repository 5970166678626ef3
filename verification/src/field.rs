//! Elements of the BN254 scalar field, held as four little-endian 64-bit limbs.
//!
//! Every circuit quantity (a bid, a bound, a secret, a digest) is a `Scalar`.
//! A `Scalar` is always canonical: the integer its limbs spell is below the
//! field's modulus. Subtraction and multiplication are those of `halo2curves`.

use vstd::prelude::*;
use vstd::arithmetic::div_mod::{
    lemma_add_mod_noop,
    lemma_fundamental_div_mod,
    lemma_fundamental_div_mod_converse,
    lemma_mod_bound,
    lemma_small_mod,
};
use halo2curves::bn256::Fr;

verus! {

/// The prime order of the BN254 scalar field.
pub open spec fn modulus() -> nat {
    21888242871839275222246405745257275088548364400416034343698204186575808495617nat
}

/// The integer that four little-endian 64-bit limbs spell.
pub open spec fn limbs_value(l0: u64, l1: u64, l2: u64, l3: u64) -> nat {
    (l0 as nat) + (l1 as nat) * 18446744073709551616nat
        + (l2 as nat) * 340282366920938463463374607431768211456nat
        + (l3 as nat) * 6277101735386680763835789423207666416102355444464034512896nat
}

/// Field addition on representatives.
pub open spec fn fadd(a: int, b: int) -> int {
    (a + b) % (modulus() as int)
}

/// Field subtraction on representatives.
pub open spec fn fsub(a: int, b: int) -> int {
    (a - b) % (modulus() as int)
}

/// Field negation on representatives.
pub open spec fn fneg(a: int) -> int {
    (-a) % (modulus() as int)
}

/// Field multiplication on representatives.
pub open spec fn fmul(a: int, b: int) -> int {
    (a * b) % (modulus() as int)
}

/// A representative is reduced into `[0, modulus())` by every field operation.
pub proof fn lemma_field_bounds(a: int, b: int)
    ensures
        0 <= fadd(a, b) < modulus(),
        0 <= fsub(a, b) < modulus(),
        0 <= fmul(a, b) < modulus(),
        0 <= fneg(a) < modulus(),
{
    let p = modulus() as int;
    lemma_mod_bound(a + b, p);
    lemma_mod_bound(a - b, p);
    lemma_mod_bound(a * b, p);
    lemma_mod_bound(-a, p);
}

/// Adding the negation is subtracting.
pub proof fn lemma_add_negation(a: int, b: int)
    ensures
        fadd(a, fneg(b)) == fsub(a, b),
{
    let p = modulus() as int;
    lemma_add_mod_noop(a, -b, p);
    lemma_mod_bound(a, p);
    lemma_small_mod((a % p) as nat, p as nat);
    lemma_add_mod_noop(a, (-b) % p, p);
    lemma_mod_bound(-b, p);
    lemma_small_mod(((-b) % p) as nat, p as nat);
}

/// A difference vanishes in the field exactly when both sides are congruent.
pub proof fn lemma_difference_vanishes(a: int, b: int)
    ensures
        fsub(a, b) == 0 <==> a % (modulus() as int) == b % (modulus() as int),
{
    let p = modulus() as int;
    lemma_fundamental_div_mod(a, p);
    lemma_fundamental_div_mod(b, p);
    lemma_fundamental_div_mod(a - b, p);
    lemma_mod_bound(a, p);
    lemma_mod_bound(b, p);
    lemma_mod_bound(a - b, p);
    if a % p == b % p {
        lemma_fundamental_div_mod_converse(a - b, p, a / p - b / p, 0);
    }
    if (a - b) % p == 0 {
        lemma_fundamental_div_mod_converse(a, p, (a - b) / p + b / p, b % p);
    }
}

/// The difference of two integers below 2^64, taken in the field, is their
/// integer difference when that is not negative, and lies above 2^64 when it
/// is.
pub proof fn lemma_small_difference(a: int, b: int)
    requires
        0 <= a < 0x1_0000_0000_0000_0000,
        0 <= b < 0x1_0000_0000_0000_0000,
    ensures
        a >= b ==> fsub(a, b) == a - b,
        a < b ==> fsub(a, b) == modulus() + a - b && fsub(a, b) >= 0x1_0000_0000_0000_0000,
{
    let p = modulus() as int;
    if a >= b {
        lemma_small_mod((a - b) as nat, p as nat);
    } else {
        lemma_fundamental_div_mod_converse(a - b, p, -1, p + a - b);
    }
}

/// Adding back what was subtracted gives the minuend, reduced.
pub proof fn lemma_add_difference(a: int, b: int)
    ensures
        fadd(a, fsub(b, a)) == b % (modulus() as int),
{
    let p = modulus() as int;
    lemma_add_mod_noop(a, b - a, p);
    lemma_mod_bound(a, p);
    lemma_small_mod((a % p) as nat, p as nat);
    lemma_add_mod_noop(a, (b - a) % p, p);
    lemma_mod_bound(b - a, p);
    lemma_small_mod(((b - a) % p) as nat, p as nat);
}

/// Multiplying by one reduces; multiplying by zero annihilates.
pub proof fn lemma_mul_unit(x: int)
    ensures
        fmul(1, x) == x % (modulus() as int),
        fmul(0, x) == 0,
{
    assert(1 * x == x);
    assert(0 * x == 0);
}

/// The lowest limb is the value modulo 2^64, and the value fits in 64 bits
/// exactly when the other limbs are zero.
pub proof fn lemma_low_limb(l0: u64, l1: u64, l2: u64, l3: u64)
    ensures
        limbs_value(l0, l1, l2, l3) % 0x1_0000_0000_0000_0000 == l0,
        limbs_value(l0, l1, l2, l3) < 0x1_0000_0000_0000_0000 <==> l1 == 0 && l2 == 0 && l3 == 0,
{
    let high = (l1 as int) + (l2 as int) * 0x1_0000_0000_0000_0000 + (l3 as int)
        * 0x1_0000_0000_0000_0000_0000_0000_0000_0000;
    assert(limbs_value(l0, l1, l2, l3) == 0x1_0000_0000_0000_0000 * high + l0) by {
        assert(0x1_0000_0000_0000_0000 * ((l2 as int) * 0x1_0000_0000_0000_0000) == (l2 as int)
            * 340282366920938463463374607431768211456);
        assert(0x1_0000_0000_0000_0000 * ((l3 as int) * 0x1_0000_0000_0000_0000_0000_0000_0000_0000)
            == (l3 as int) * 6277101735386680763835789423207666416102355444464034512896);
    }
    lemma_fundamental_div_mod_converse(
        limbs_value(l0, l1, l2, l3) as int,
        0x1_0000_0000_0000_0000,
        high,
        l0 as int,
    );
}

/// The least significant limb of the modulus.
pub const MODULUS_L0: u64 = 0x43e1f593f0000001;

/// The second limb of the modulus.
pub const MODULUS_L1: u64 = 0x2833e84879b97091;

/// The third limb of the modulus.
pub const MODULUS_L2: u64 = 0xb85045b68181585d;

/// The most significant limb of the modulus.
pub const MODULUS_L3: u64 = 0x30644e72e131a029;

/// The four limb constants spell the modulus.
pub proof fn lemma_modulus_limbs()
    ensures
        limbs_value(MODULUS_L0, MODULUS_L1, MODULUS_L2, MODULUS_L3) == modulus(),
{
}

/// A canonical element of the scalar field.
#[derive(Clone, Copy, Debug, PartialEq, Eq, Structural)]
pub struct Scalar {
    l0: u64,
    l1: u64,
    l2: u64,
    l3: u64,
}

impl Scalar {
    #[verifier::type_invariant]
    spec fn canonical(self) -> bool {
        limbs_value(self.l0, self.l1, self.l2, self.l3) < modulus()
    }

    /// The field element as an integer in `[0, modulus())`.
    pub closed spec fn value(self) -> nat {
        limbs_value(self.l0, self.l1, self.l2, self.l3) % modulus()
    }

    /// The four limbs, least significant first.
    pub closed spec fn limbs(self) -> (u64, u64, u64, u64) {
        (self.l0, self.l1, self.l2, self.l3)
    }

    /// Every value lies below the modulus.
    pub broadcast proof fn lemma_value_bound(self)
        ensures
            #[trigger] self.value() < modulus(),
    {
    }

    /// The additive identity.
    pub fn zero() -> (r: Scalar)
        ensures
            r == Scalar::of_u64(0),
            r.value() == 0,
    {
        Scalar { l0: 0, l1: 0, l2: 0, l3: 0 }
    }

    /// The multiplicative identity.
    pub fn one() -> (r: Scalar)
        ensures
            r == Scalar::of_u64(1),
            r.value() == 1,
    {
        Scalar { l0: 1, l1: 0, l2: 0, l3: 0 }
    }

    /// The scalar that stands for a native integer.
    pub closed spec fn of_u64(v: u64) -> Scalar {
        Scalar { l0: v, l1: 0, l2: 0, l3: 0 }
    }

    /// The scalar of a native integer has that integer as its value.
    pub broadcast proof fn lemma_of_u64_value(v: u64)
        ensures
            #[trigger] Scalar::of_u64(v).value() == v,
    {
    }

    /// Embeds a native integer; every `u64` is below the modulus.
    pub fn from_u64(v: u64) -> (r: Scalar)
        ensures
            r == Scalar::of_u64(v),
            r.value() == v,
    {
        Scalar { l0: v, l1: 0, l2: 0, l3: 0 }
    }

    /// The low 64 bits of the value.
    pub fn low_u64(&self) -> (r: u64)
        ensures
            r == self.value() % 0x1_0000_0000_0000_0000,
    {
        proof {
            use_type_invariant(self);
            lemma_small_mod(limbs_value(self.l0, self.l1, self.l2, self.l3), modulus());
            lemma_low_limb(self.l0, self.l1, self.l2, self.l3);
        }
        self.l0
    }

    /// Builds a scalar from four little-endian limbs, or `None` when the
    /// integer they spell is not below the modulus.
    pub fn from_limbs(l0: u64, l1: u64, l2: u64, l3: u64) -> (r: Option<Scalar>)
        ensures
            r.is_some() <==> limbs_value(l0, l1, l2, l3) < modulus(),
            r.is_some() ==> r.unwrap().value() == limbs_value(l0, l1, l2, l3),
            r.is_some() ==> r.unwrap().limbs() == (l0, l1, l2, l3),
    {
        proof {
            lemma_modulus_limbs();
        }
        let below = if l3 != MODULUS_L3 {
            l3 < MODULUS_L3
        } else if l2 != MODULUS_L2 {
            l2 < MODULUS_L2
        } else if l1 != MODULUS_L1 {
            l1 < MODULUS_L1
        } else {
            l0 < MODULUS_L0
        };
        if below {
            Some(Scalar { l0, l1, l2, l3 })
        } else {
            None
        }
    }

    /// The four limbs, least significant first.
    pub fn to_limbs(&self) -> (r: [u64; 4])
        ensures
            (r[0], r[1], r[2], r[3]) == self.limbs(),
            limbs_value(r[0], r[1], r[2], r[3]) == self.value(),
    {
        proof {
            use_type_invariant(self);
            lemma_small_mod(limbs_value(self.l0, self.l1, self.l2, self.l3), modulus());
        }
        [self.l0, self.l1, self.l2, self.l3]
    }

    /// The value as a native integer, when it fits in 64 bits.
    pub fn to_u64(&self) -> (r: Option<u64>)
        ensures
            r.is_some() <==> self.value() < 0x1_0000_0000_0000_0000,
            r.is_some() ==> r.unwrap() == self.value(),
    {
        proof {
            use_type_invariant(self);
            lemma_small_mod(limbs_value(self.l0, self.l1, self.l2, self.l3), modulus());
            lemma_low_limb(self.l0, self.l1, self.l2, self.l3);
        }
        if self.l1 == 0 && self.l2 == 0 && self.l3 == 0 {
            Some(self.l0)
        } else {
            None
        }
    }

    /// Whether this is the additive identity.
    pub fn is_zero(&self) -> (r: bool)
        ensures
            r == (self.value() == 0),
    {
        proof {
            use_type_invariant(self);
            lemma_small_mod(limbs_value(self.l0, self.l1, self.l2, self.l3), modulus());
            lemma_low_limb(self.l0, self.l1, self.l2, self.l3);
        }
        self.l0 == 0 && self.l1 == 0 && self.l2 == 0 && self.l3 == 0
    }

    /// Builds a scalar from its 32-byte little-endian encoding, or `None`
    /// when the integer the bytes spell is not below the modulus.
    pub fn from_bytes_le(bytes: &[u8; 32]) -> (r: Option<Scalar>)
        ensures
            r.is_some() <==> bytes_value(bytes@) < modulus(),
            r.is_some() ==> r.unwrap().value() == bytes_value(bytes@),
    {
        Scalar::from_limbs(
            le_limb(bytes, 0),
            le_limb(bytes, 8),
            le_limb(bytes, 16),
            le_limb(bytes, 24),
        )
    }

    /// `self - rhs` in the field.
    pub fn sub(&self, rhs: &Scalar) -> (r: Scalar)
        ensures
            r.value() == fsub(self.value() as int, rhs.value() as int),
    {
        let d = fr_sub(self.to_limbs(), rhs.to_limbs());
        proof {
            lemma_field_bounds(self.value() as int, rhs.value() as int);
        }
        match Scalar::from_bytes_le(&d) {
            Some(r) => r,
            None => unreached(),
        }
    }

    /// `self * rhs` in the field.
    pub fn mul(&self, rhs: &Scalar) -> (r: Scalar)
        ensures
            r.value() == fmul(self.value() as int, rhs.value() as int),
    {
        let d = fr_mul(self.to_limbs(), rhs.to_limbs());
        proof {
            lemma_field_bounds(self.value() as int, rhs.value() as int);
        }
        match Scalar::from_bytes_le(&d) {
            Some(r) => r,
            None => unreached(),
        }
    }
}

/// The integer that eight bytes spell, least significant first, starting at
/// `at`.
pub open spec fn le_u64(b: Seq<u8>, at: int) -> nat {
    (b[at] as nat) + (b[at + 1] as nat) * 0x100 + (b[at + 2] as nat) * 0x1_0000 + (b[at + 3] as nat)
        * 0x100_0000 + (b[at + 4] as nat) * 0x1_0000_0000 + (b[at + 5] as nat) * 0x100_0000_0000
        + (b[at + 6] as nat) * 0x1_0000_0000_0000 + (b[at + 7] as nat) * 0x100_0000_0000_0000
}

/// The integer that 32 bytes spell, least significant first.
pub open spec fn bytes_value(b: Seq<u8>) -> nat {
    le_u64(b, 0) + le_u64(b, 8) * 18446744073709551616nat + le_u64(b, 16)
        * 340282366920938463463374607431768211456nat + le_u64(b, 24)
        * 6277101735386680763835789423207666416102355444464034512896nat
}

/// Reads eight bytes as a little-endian integer.
fn le_limb(bytes: &[u8; 32], at: usize) -> (r: u64)
    requires
        at + 8 <= 32,
    ensures
        r == le_u64(bytes@, at as int),
{
    (bytes[at] as u64) + (bytes[at + 1] as u64) * 0x100 + (bytes[at + 2] as u64) * 0x1_0000 + (
    bytes[at + 3] as u64) * 0x100_0000 + (bytes[at + 4] as u64) * 0x1_0000_0000 + (bytes[at
        + 5] as u64) * 0x100_0000_0000 + (bytes[at + 6] as u64) * 0x1_0000_0000_0000 + (bytes[at
        + 7] as u64) * 0x100_0000_0000_0000
}

/// Field subtraction, computed by `halo2curves`.
///
/// Trusted: `Fr::from_raw` maps four little-endian limbs to the field element
/// congruent to the integer they spell, `-` on `Fr` is subtraction modulo the
/// field's order, and `Fr::to_bytes` returns the canonical little-endian
/// encoding of an element.
#[verifier::external_body]
fn fr_sub(a: [u64; 4], b: [u64; 4]) -> (r: [u8; 32])
    ensures
        bytes_value(r@) == fsub(
            limbs_value(a[0], a[1], a[2], a[3]) as int,
            limbs_value(b[0], b[1], b[2], b[3]) as int,
        ),
{
    (Fr::from_raw(a) - Fr::from_raw(b)).to_bytes()
}

/// Field multiplication, computed by `halo2curves`.
///
/// Trusted: `Fr::from_raw` maps four little-endian limbs to the field element
/// congruent to the integer they spell, `*` on `Fr` is multiplication modulo
/// the field's order, and `Fr::to_bytes` returns the canonical little-endian
/// encoding of an element.
#[verifier::external_body]
fn fr_mul(a: [u64; 4], b: [u64; 4]) -> (r: [u8; 32])
    ensures
        bytes_value(r@) == fmul(
            limbs_value(a[0], a[1], a[2], a[3]) as int,
            limbs_value(b[0], b[1], b[2], b[3]) as int,
        ),
{
    (Fr::from_raw(a) * Fr::from_raw(b)).to_bytes()
}

} // verus!
