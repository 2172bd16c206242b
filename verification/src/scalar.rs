//! Elements of the BLS12-381 scalar field, and the field arithmetic the
//! constraint checker needs. Values are held as plain limbs so that every
//! contract can speak of the integer a value stands for; the arithmetic
//! itself is done by the `bls12_381` crate.

use vstd::prelude::*;

verus! {

/// A scalar, held as four little-endian 64-bit limbs of the integer it
/// stands for. Two values stand for the same field element exactly when
/// their integers are congruent modulo `field_modulus()`; everything the
/// field operations return is fully reduced.
#[derive(Clone, Copy, PartialEq, Eq, Structural, Debug)]
pub struct ScalarValue {
    pub l0: u64,
    pub l1: u64,
    pub l2: u64,
    pub l3: u64,
}

/// The order of the BLS12-381 scalar field.
pub open spec fn field_modulus() -> int {
    0x73eda753299d7d483339d80809a1d80553bda402fffe5bfeffffffff00000001int
}

impl ScalarValue {
    /// The integer this value stands for (its limbs read little-endian).
    pub open spec fn as_int(self) -> int {
        self.l0 + 0x10000000000000000int * (self.l1 + 0x10000000000000000int * (self.l2
            + 0x10000000000000000int * self.l3))
    }

    /// The field's additive identity.
    pub fn zero() -> (r: ScalarValue)
        ensures
            r == spec_zero(),
    {
        ScalarValue { l0: 0, l1: 0, l2: 0, l3: 0 }
    }

    /// The field's multiplicative identity.
    pub fn one() -> (r: ScalarValue)
        ensures
            r == spec_one(),
    {
        ScalarValue { l0: 1, l1: 0, l2: 0, l3: 0 }
    }

    /// The scalar standing for a small integer.
    pub fn from_u64(v: u64) -> (r: ScalarValue)
        ensures
            r.as_int() == v as int,
    {
        ScalarValue { l0: v, l1: 0, l2: 0, l3: 0 }
    }
}

/// The value `ScalarValue::zero` returns.
pub open spec fn spec_zero() -> ScalarValue {
    ScalarValue { l0: 0, l1: 0, l2: 0, l3: 0 }
}

/// The value `ScalarValue::one` returns.
pub open spec fn spec_one() -> ScalarValue {
    ScalarValue { l0: 1, l1: 0, l2: 0, l3: 0 }
}

/// Limb representations are unique: equal integers mean equal values.
pub proof fn lemma_as_int_injective(a: ScalarValue, b: ScalarValue)
    requires
        a.as_int() == b.as_int(),
    ensures
        a == b,
{
    lemma_limb_split(a.l0 as int, a.l1 + 0x10000000000000000int * (a.l2 + 0x10000000000000000int * a.l3),
        b.l0 as int, b.l1 + 0x10000000000000000int * (b.l2 + 0x10000000000000000int * b.l3));
    lemma_limb_split(a.l1 as int, a.l2 + 0x10000000000000000int * a.l3,
        b.l1 as int, b.l2 + 0x10000000000000000int * b.l3);
    lemma_limb_split(a.l2 as int, a.l3 as int, b.l2 as int, b.l3 as int);
}

proof fn lemma_limb_split(x0: int, x1: int, y0: int, y1: int)
    requires
        0 <= x0 < 0x10000000000000000int,
        0 <= y0 < 0x10000000000000000int,
        0 <= x1,
        0 <= y1,
        x0 + 0x10000000000000000int * x1 == y0 + 0x10000000000000000int * y1,
    ensures
        x0 == y0,
        x1 == y1,
{
    assert(x0 == y0 && x1 == y1) by (nonlinear_arith)
        requires
            0 <= x0 < 0x10000000000000000int,
            0 <= y0 < 0x10000000000000000int,
            0 <= x1,
            0 <= y1,
            x0 + 0x10000000000000000int * x1 == y0 + 0x10000000000000000int * y1,
    ;
}

/// Relies on `bls12_381::Scalar`: `from_raw` takes the integer the limbs
/// spell modulo the field order, `+` is field addition, and `to_bytes`
/// returns the canonical little-endian bytes of the result.
#[verifier::external_body]
pub(crate) fn field_add(a: &ScalarValue, b: &ScalarValue) -> (r: ScalarValue)
    ensures
        r.as_int() == (a.as_int() + b.as_int()) % field_modulus(),
{
    let x = bls12_381::Scalar::from_raw([a.l0, a.l1, a.l2, a.l3]);
    let y = bls12_381::Scalar::from_raw([b.l0, b.l1, b.l2, b.l3]);
    let t = (x + y).to_bytes();
    ScalarValue {
        l0: u64::from_le_bytes(t[0..8].try_into().unwrap()),
        l1: u64::from_le_bytes(t[8..16].try_into().unwrap()),
        l2: u64::from_le_bytes(t[16..24].try_into().unwrap()),
        l3: u64::from_le_bytes(t[24..32].try_into().unwrap()),
    }
}

/// Relies on `bls12_381::Scalar`: `from_raw` takes the integer the limbs
/// spell modulo the field order, `*` is field multiplication, and
/// `to_bytes` returns the canonical little-endian bytes of the result.
#[verifier::external_body]
pub(crate) fn field_mul(a: &ScalarValue, b: &ScalarValue) -> (r: ScalarValue)
    ensures
        r.as_int() == (a.as_int() * b.as_int()) % field_modulus(),
{
    let x = bls12_381::Scalar::from_raw([a.l0, a.l1, a.l2, a.l3]);
    let y = bls12_381::Scalar::from_raw([b.l0, b.l1, b.l2, b.l3]);
    let t = (x * y).to_bytes();
    ScalarValue {
        l0: u64::from_le_bytes(t[0..8].try_into().unwrap()),
        l1: u64::from_le_bytes(t[8..16].try_into().unwrap()),
        l2: u64::from_le_bytes(t[16..24].try_into().unwrap()),
        l3: u64::from_le_bytes(t[24..32].try_into().unwrap()),
    }
}

/// Relies on `bls12_381::Scalar`: `from_raw` takes the integer the limbs
/// spell modulo the field order, unary `-` is field negation, and
/// `to_bytes` returns the canonical little-endian bytes of the result.
#[verifier::external_body]
pub(crate) fn field_neg(a: &ScalarValue) -> (r: ScalarValue)
    ensures
        r.as_int() == (field_modulus() - a.as_int() % field_modulus()) % field_modulus(),
{
    let x = bls12_381::Scalar::from_raw([a.l0, a.l1, a.l2, a.l3]);
    let t = (-x).to_bytes();
    ScalarValue {
        l0: u64::from_le_bytes(t[0..8].try_into().unwrap()),
        l1: u64::from_le_bytes(t[8..16].try_into().unwrap()),
        l2: u64::from_le_bytes(t[16..24].try_into().unwrap()),
        l3: u64::from_le_bytes(t[24..32].try_into().unwrap()),
    }
}

} // verus!
