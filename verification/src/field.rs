//! Elements of the scalar field of the bn256 curve, held as plain limbs so
//! that contracts can speak of them as natural numbers below the field order.
//! The arithmetic itself is done by the pairing library's `Fr` type behind
//! two trusted wrappers.

use vstd::prelude::*;

use bellman_ce::bn256::Fr;
use bellman_ce::bn256::FrRepr;
use bellman_ce::pairing::ff::Field;
use bellman_ce::pairing::ff::PrimeField;

verus! {

/// The order of the bn256 scalar field: every field value in this library is
/// a natural number below it.
pub open spec fn fr_order() -> nat {
    21888242871839275222246405745257275088548364400416034343698204186575808495617nat
}

/// A field element, as four 64-bit limbs, least significant first.
#[derive(Clone, Copy, PartialEq, Eq, Structural, Debug)]
pub struct Fe {
    limb0: u64,
    limb1: u64,
    limb2: u64,
    limb3: u64,
}

impl View for Fe {
    type V = nat;

    closed spec fn view(&self) -> nat {
        (self.limb0
            + self.limb1 * 0x1_0000_0000_0000_0000nat
            + self.limb2 * 0x1_0000_0000_0000_0000_0000_0000_0000_0000nat
            + self.limb3
                * 0x1_0000_0000_0000_0000_0000_0000_0000_0000_0000_0000_0000_0000nat) as nat
    }
}

impl Fe {
    /// A canonical representative: the value lies below the field order.
    pub open spec fn wf(&self) -> bool {
        self@ < fr_order()
    }

    /// Embeds a 64-bit integer into the field.
    pub fn from_u64(v: u64) -> (r: Fe)
        ensures
            r.wf(),
            r@ == v,
    {
        Fe { limb0: v, limb1: 0, limb2: 0, limb3: 0 }
    }

    /// The limbs, least significant first, for handing a value to code that
    /// talks to the proving backend directly.
    pub fn limbs(&self) -> (r: (u64, u64, u64, u64))
        ensures
            self@ == r.0
                + r.1 * 0x1_0000_0000_0000_0000
                + r.2 * 0x1_0000_0000_0000_0000_0000_0000_0000_0000
                + r.3 * 0x1_0000_0000_0000_0000_0000_0000_0000_0000_0000_0000_0000_0000,
    {
        (self.limb0, self.limb1, self.limb2, self.limb3)
    }
}

/// Two limb vectors with the same value are the same limbs: the base-2^64
/// digits of a number are unique.
pub proof fn lemma_fe_view_injective(a: Fe, b: Fe)
    requires
        a@ == b@,
    ensures
        a == b,
{
    let base: int = 0x1_0000_0000_0000_0000;
    let ra: int = a.limb1 + a.limb2 * base + a.limb3 * base * base;
    let rb: int = b.limb1 + b.limb2 * base + b.limb3 * base * base;
    assert(a@ == a.limb0 + ra * base);
    assert(b@ == b.limb0 + rb * base);
    lemma_digit_unique(a.limb0 as int, ra, b.limb0 as int, rb, base);
    let sa: int = a.limb2 + a.limb3 * base;
    let sb: int = b.limb2 + b.limb3 * base;
    assert(ra == a.limb1 + sa * base);
    assert(rb == b.limb1 + sb * base);
    lemma_digit_unique(a.limb1 as int, sa, b.limb1 as int, sb, base);
    lemma_digit_unique(a.limb2 as int, a.limb3 as int, b.limb2 as int, b.limb3 as int, base);
}

/// If `d0 + hi0 * base == d1 + hi1 * base` with both digits below `base`,
/// the digits agree and so do the high parts.
proof fn lemma_digit_unique(d0: int, hi0: int, d1: int, hi1: int, base: int)
    requires
        0 <= d0 < base,
        0 <= d1 < base,
        0 <= hi0,
        0 <= hi1,
        d0 + hi0 * base == d1 + hi1 * base,
    ensures
        d0 == d1,
        hi0 == hi1,
{
    vstd::arithmetic::div_mod::lemma_mod_multiples_vanish(hi0, d0, base);
    vstd::arithmetic::div_mod::lemma_mod_multiples_vanish(hi1, d1, base);
    vstd::arithmetic::div_mod::lemma_small_mod(d0 as nat, base as nat);
    vstd::arithmetic::div_mod::lemma_small_mod(d1 as nat, base as nat);
    assert((base * hi0 + d0) % base == d0);
    assert((base * hi1 + d1) % base == d1);
    assert(base * hi0 + d0 == base * hi1 + d1) by (nonlinear_arith)
        requires
            d0 + hi0 * base == d1 + hi1 * base,
    ;
    vstd::arithmetic::mul::lemma_mul_equality_converse(base, hi0, hi1);
}

/// Multiplication in the field: the product reduced by the field order.
pub open spec fn fe_mul_spec(a: nat, b: nat) -> nat {
    (a * b) % fr_order()
}

/// Addition in the field: the sum reduced by the field order.
pub open spec fn fe_add_spec(a: nat, b: nat) -> nat {
    (a + b) % fr_order()
}

/// Relies on the pairing library's bn256 scalar field `Fr`: `from_repr`
/// accepts exactly the canonical representatives below the field order,
/// `mul_assign` multiplies modulo that order, and `into_repr` returns the
/// canonical representative, least-significant limb first.
#[verifier::external_body]
pub fn fe_mul(a: &Fe, b: &Fe) -> (r: Fe)
    requires
        a.wf(),
        b.wf(),
    ensures
        r.wf(),
        r@ == fe_mul_spec(a@, b@),
{
    let mut x = Fr::from_repr(FrRepr([a.limb0, a.limb1, a.limb2, a.limb3])).unwrap();
    let y = Fr::from_repr(FrRepr([b.limb0, b.limb1, b.limb2, b.limb3])).unwrap();
    x.mul_assign(&y);
    let l = x.into_repr().0;
    Fe { limb0: l[0], limb1: l[1], limb2: l[2], limb3: l[3] }
}

/// Relies on the pairing library's bn256 scalar field `Fr`: `from_repr`
/// accepts exactly the canonical representatives below the field order,
/// `add_assign` adds modulo that order, and `into_repr` returns the
/// canonical representative, least-significant limb first.
#[verifier::external_body]
pub fn fe_add(a: &Fe, b: &Fe) -> (r: Fe)
    requires
        a.wf(),
        b.wf(),
    ensures
        r.wf(),
        r@ == fe_add_spec(a@, b@),
{
    let mut x = Fr::from_repr(FrRepr([a.limb0, a.limb1, a.limb2, a.limb3])).unwrap();
    let y = Fr::from_repr(FrRepr([b.limb0, b.limb1, b.limb2, b.limb3])).unwrap();
    x.add_assign(&y);
    let l = x.into_repr().0;
    Fe { limb0: l[0], limb1: l[1], limb2: l[2], limb3: l[3] }
}

/// The witness squared, in the field.
pub open spec fn pow2_spec(w: nat) -> nat {
    fe_mul_spec(w, w)
}

/// The witness cubed, in the field.
pub open spec fn pow3_spec(w: nat) -> nat {
    fe_mul_spec(pow2_spec(w), w)
}

/// The witness to the fourth power, in the field.
pub open spec fn pow4_spec(w: nat) -> nat {
    fe_mul_spec(pow3_spec(w), w)
}

/// The quartic relation's right-hand side, evaluated in the field:
/// `w^4 + a*w^3 + b*w^2 + c*w + d`.
pub open spec fn poly_at(w: nat, a: nat, b: nat, c: nat, d: nat) -> nat {
    fe_add_spec(
        fe_add_spec(
            fe_add_spec(fe_add_spec(pow4_spec(w), fe_mul_spec(a, pow3_spec(w))), fe_mul_spec(b, pow2_spec(w))),
            fe_mul_spec(c, w),
        ),
        d,
    )
}

/// `poly_at` is the plain quartic reduced once by the field order.
pub proof fn lemma_poly_at_closed_form(w: nat, a: nat, b: nat, c: nat, d: nat)
    ensures
        poly_at(w, a, b, c, d) == (w * w * w * w + a * (w * w * w) + b * (w * w) + c * w + d)
            % fr_order(),
{
    let p = fr_order() as int;
    let w2: int = (w * w) as int;
    let w3: int = w2 * w;
    let w4: int = w3 * w;
    assert(pow2_spec(w) == w2 % p) by {
        assert(w * w >= 0) by (nonlinear_arith);
    }
    assert(pow3_spec(w) == w3 % p) by {
        vstd::arithmetic::div_mod::lemma_mul_mod_noop_left(w2, w as int, p);
    }
    assert(pow4_spec(w) == w4 % p) by {
        vstd::arithmetic::div_mod::lemma_mul_mod_noop_left(w3, w as int, p);
    }
    lemma_poly_sum_fold(w4, a * w3, b * w2, (c * w) as int, d as int);
    assert(a * (w3 % p) % p == (a * w3) % p) by {
        vstd::arithmetic::div_mod::lemma_mul_mod_noop_right(a as int, w3, p);
    }
    assert(b * (w2 % p) % p == (b * w2) % p) by {
        vstd::arithmetic::div_mod::lemma_mul_mod_noop_right(b as int, w2, p);
    }
    assert(w * w * w == w2 * w);
    assert(w * w * w * w == w3 * w);
}

/// Folding a chain of field additions of reduced summands gives the single
/// reduction of the plain sum.
pub proof fn lemma_poly_sum_fold(t4: int, t3: int, t2: int, t1: int, t0: int)
    requires
        0 <= t4,
        0 <= t3,
        0 <= t2,
        0 <= t1,
        0 <= t0,
    ensures
        fe_add_spec(
            fe_add_spec(
                fe_add_spec(
                    fe_add_spec((t4 % (fr_order() as int)) as nat, (t3 % (fr_order() as int)) as nat),
                    (t2 % (fr_order() as int)) as nat,
                ),
                (t1 % (fr_order() as int)) as nat,
            ),
            t0 as nat,
        ) == (t4 + t3 + t2 + t1 + t0) % (fr_order() as int),
{
    let p = fr_order() as int;
    vstd::arithmetic::div_mod::lemma_add_mod_noop(t4, t3, p);
    vstd::arithmetic::div_mod::lemma_add_mod_noop(t4 + t3, t2, p);
    vstd::arithmetic::div_mod::lemma_mod_twice(t4 + t3, p);
    vstd::arithmetic::div_mod::lemma_add_mod_noop(t4 + t3 + t2, t1, p);
    vstd::arithmetic::div_mod::lemma_mod_twice(t4 + t3 + t2, p);
    vstd::arithmetic::div_mod::lemma_add_mod_noop_right(t0, t4 + t3 + t2 + t1, p);
}

/// Evaluates `w^4 + a*w^3 + b*w^2 + c*w + d` in the field: the same value the
/// circuit's final constraint binds to the public input.
pub fn poly_eval(w: &Fe, a: &Fe, b: &Fe, c: &Fe, d: &Fe) -> (r: Fe)
    requires
        w.wf(),
        a.wf(),
        b.wf(),
        c.wf(),
        d.wf(),
    ensures
        r.wf(),
        r@ == poly_at(w@, a@, b@, c@, d@),
{
    let w2 = fe_mul(w, w);
    let w3 = fe_mul(&w2, w);
    let w4 = fe_mul(&w3, w);
    let t3 = fe_mul(a, &w3);
    let t2 = fe_mul(b, &w2);
    let t1 = fe_mul(c, w);
    let mut acc = fe_add(&w4, &t3);
    acc = fe_add(&acc, &t2);
    acc = fe_add(&acc, &t1);
    fe_add(&acc, d)
}

} // verus!
