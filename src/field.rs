//! Elements of the BN254 scalar field, with their arithmetic taken from
//! `ark-bn254` and stated over natural numbers modulo the field's prime.
use ark_bn254::Fr;
use ark_ff::{BigInt, Field, PrimeField};
use std::str::FromStr;
use vstd::prelude::*;

verus! {

/// The prime order of the BN254 scalar field.
pub open spec fn modulus() -> nat {
    21888242871839275222246405745257275088548364400416034343698204186575808495617nat
}

/// Field addition on canonical values.
pub open spec fn fadd(a: nat, b: nat) -> nat {
    (a + b) % modulus()
}

/// Field multiplication on canonical values.
pub open spec fn fmul(a: nat, b: nat) -> nat {
    (a * b) % modulus()
}

/// The number written by four little-endian 64-bit limbs.
pub open spec fn limbs_value(l0: u64, l1: u64, l2: u64, l3: u64) -> nat {
    (l0 + l1 * 0x1_0000_0000_0000_0000nat + l2 * 0x1_0000_0000_0000_0000_0000_0000_0000_0000nat
        + l3 * 0x1_0000_0000_0000_0000_0000_0000_0000_0000_0000_0000_0000_0000nat) as nat
}

pub open spec fn is_digit(c: char) -> bool {
    '0' <= c && c <= '9'
}

pub open spec fn digit_value(c: char) -> nat {
    (c as int - '0' as int) as nat
}

/// The number that a string of decimal digits writes, most significant first.
pub open spec fn decimal_value(s: Seq<char>) -> nat
    decreases s.len(),
{
    if s.len() == 0 {
        0
    } else {
        decimal_value(s.drop_last()) * 10 + digit_value(s.last())
    }
}

/// A non-empty string of decimal digits without a superfluous leading zero.
pub open spec fn is_field_literal(s: Seq<char>) -> bool {
    &&& s.len() > 0
    &&& forall|i: int| 0 <= i < s.len() ==> is_digit(#[trigger] s[i])
    &&& (s[0] != '0' || s.len() == 1)
}

/// An element of the BN254 scalar field, held as its canonical value in four
/// little-endian 64-bit limbs.
#[derive(Clone, Copy, Debug, PartialEq, Eq, Structural)]
pub struct Scalar {
    l0: u64,
    l1: u64,
    l2: u64,
    l3: u64,
}

impl View for Scalar {
    type V = nat;

    closed spec fn view(&self) -> nat {
        limbs_value(self.l0, self.l1, self.l2, self.l3)
    }
}

impl Scalar {
    /// The limbs hold a value below the modulus.
    pub open spec fn wf(&self) -> bool {
        self@ < modulus()
    }

    pub fn zero() -> (r: Scalar)
        ensures
            r.wf(),
            r@ == 0,
    {
        Scalar { l0: 0, l1: 0, l2: 0, l3: 0 }
    }

    pub fn from_u64(v: u64) -> (r: Scalar)
        ensures
            r.wf(),
            r@ == v as nat,
    {
        Scalar { l0: v, l1: 0, l2: 0, l3: 0 }
    }

    /// The canonical limbs, least significant first.
    pub fn limbs(&self) -> (r: [u64; 4])
        ensures
            limbs_value(r[0], r[1], r[2], r[3]) == self@,
    {
        [self.l0, self.l1, self.l2, self.l3]
    }

    /// Parses a decimal literal, reducing it modulo the field's prime.
    pub fn from_decimal(s: &str) -> (r: Option<Scalar>)
        ensures
            r.is_some() == is_field_literal(s@),
            r matches Some(x) ==> x.wf() && x@ == decimal_value(s@) % modulus(),
    {
        fr_from_decimal(s)
    }

    pub fn add(&self, other: &Scalar) -> (r: Scalar)
        requires
            self.wf(),
            other.wf(),
        ensures
            r.wf(),
            r@ == fadd(self@, other@),
    {
        fr_add(self, other)
    }

    pub fn mul(&self, other: &Scalar) -> (r: Scalar)
        requires
            self.wf(),
            other.wf(),
        ensures
            r.wf(),
            r@ == fmul(self@, other@),
    {
        fr_mul(self, other)
    }

    pub fn square(&self) -> (r: Scalar)
        requires
            self.wf(),
        ensures
            r.wf(),
            r@ == fmul(self@, self@),
    {
        fr_square(self)
    }
}

/// Relies on `Add for ark_ff::Fp` (ark-ff 0.4) on `ark_bn254::Fr`: the sum
/// modulo the field's prime, read back through `PrimeField::into_bigint` as
/// canonical limbs. Both arguments enter through `From<BigInt>`, which accepts
/// exactly the values below the modulus.
#[verifier::external_body]
fn fr_add(a: &Scalar, b: &Scalar) -> (r: Scalar)
    requires
        a.wf(),
        b.wf(),
    ensures
        r.wf(),
        r@ == fadd(a@, b@),
{
    let x = Fr::from(BigInt::new([a.l0, a.l1, a.l2, a.l3]));
    let y = Fr::from(BigInt::new([b.l0, b.l1, b.l2, b.l3]));
    let l = (x + y).into_bigint().0;
    Scalar { l0: l[0], l1: l[1], l2: l[2], l3: l[3] }
}

/// Relies on `Mul for ark_ff::Fp` (ark-ff 0.4) on `ark_bn254::Fr`: the
/// product modulo the field's prime, converted as in `fr_add`.
#[verifier::external_body]
fn fr_mul(a: &Scalar, b: &Scalar) -> (r: Scalar)
    requires
        a.wf(),
        b.wf(),
    ensures
        r.wf(),
        r@ == fmul(a@, b@),
{
    let x = Fr::from(BigInt::new([a.l0, a.l1, a.l2, a.l3]));
    let y = Fr::from(BigInt::new([b.l0, b.l1, b.l2, b.l3]));
    let l = (x * y).into_bigint().0;
    Scalar { l0: l[0], l1: l[1], l2: l[2], l3: l[3] }
}

/// Relies on `Field::square` (ark-ff 0.4) on `ark_bn254::Fr`: the element
/// times itself modulo the field's prime, converted as in `fr_add`.
#[verifier::external_body]
fn fr_square(a: &Scalar) -> (r: Scalar)
    requires
        a.wf(),
    ensures
        r.wf(),
        r@ == fmul(a@, a@),
{
    let x = Fr::from(BigInt::new([a.l0, a.l1, a.l2, a.l3]));
    let l = x.square().into_bigint().0;
    Scalar { l0: l[0], l1: l[1], l2: l[2], l3: l[3] }
}

/// Relies on `FromStr for ark_ff::Fp` (ark-ff 0.4) on `ark_bn254::Fr`: it
/// accepts exactly the non-empty strings of decimal digits with no
/// superfluous leading zero, and yields the number they write reduced modulo
/// the field's prime.
#[verifier::external_body]
fn fr_from_decimal(s: &str) -> (r: Option<Scalar>)
    ensures
        r.is_some() == is_field_literal(s@),
        r matches Some(x) ==> x.wf() && x@ == decimal_value(s@) % modulus(),
{
    match Fr::from_str(s) {
        Ok(x) => {
            let l = x.into_bigint().0;
            Some(Scalar { l0: l[0], l1: l[1], l2: l[2], l3: l[3] })
        },
        Err(()) => None,
    }
}

} // verus!

verus! {

/// The canonical values of a sequence of field elements.
pub open spec fn values(v: Seq<Scalar>) -> Seq<nat> {
    v.map_values(|x: Scalar| x@)
}

/// The canonical values of a matrix of field elements, row by row.
pub open spec fn matrix_values(m: Seq<Vec<Scalar>>) -> Seq<Seq<nat>> {
    m.map_values(|row: Vec<Scalar>| values(row@))
}

pub open spec fn all_wf(v: Seq<Scalar>) -> bool {
    forall|i: int| 0 <= i < v.len() ==> (#[trigger] v[i]).wf()
}

} // verus!
