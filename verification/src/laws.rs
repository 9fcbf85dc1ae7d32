//! The laws of the encoding: the compiled constraint trace depends only on
//! the coefficients, any assignment satisfying it solves the quartic
//! relation, and the honest assignment satisfies it exactly when the public
//! value is the polynomial at the witness.

use vstd::prelude::*;

use crate::circuit::PolynomialCircuit;
use crate::circuit::poly_lc;
use crate::circuit::quartic_constraints;
use crate::circuit::quartic_final_constraint;
use crate::circuit::square_constraint;
use crate::circuit::term_v;
use crate::circuit::unit_lc;
use crate::field::fe_mul_spec;
use crate::field::fr_order;
use crate::field::lemma_poly_sum_fold;
use crate::field::poly_at;
use crate::field::pow2_spec;
use crate::field::pow3_spec;
use crate::field::pow4_spec;
use crate::r1cs::R1csV;
use crate::r1cs::TermV;
use crate::r1cs::Var;
use crate::r1cs::constraint_holds;
use crate::r1cs::lc_eval;
use crate::r1cs::lc_sum;
use crate::r1cs::satisfied;
use crate::r1cs::var_value;

verus! {

/// The sum of a one-term combination is its coefficient times its variable.
proof fn lemma_lc_sum_singleton(t: TermV, pubs: Seq<nat>, privs: Seq<nat>)
    ensures
        lc_sum(Seq::empty().push(t), pubs, privs) == t.coeff * var_value(t.var, pubs, privs),
{
    assert(Seq::empty().push(t).drop_last() =~= Seq::<TermV>::empty());
    assert(lc_sum(Seq::<TermV>::empty(), pubs, privs) == 0);
    assert(Seq::empty().push(t).last() == t);
}

/// The field value of a one-term combination with coefficient one is the
/// variable's value.
proof fn lemma_unit_eval(v: Var, pubs: Seq<nat>, privs: Seq<nat>)
    requires
        var_value(v, pubs, privs) < fr_order(),
    ensures
        lc_eval(unit_lc(1, v), pubs, privs) == var_value(v, pubs, privs),
{
    lemma_lc_sum_singleton(term_v(1, v), pubs, privs);
    vstd::arithmetic::div_mod::lemma_small_mod(var_value(v, pubs, privs), fr_order());
}

/// A constraint of three one-term sides says exactly that the output
/// variable is the field product of the two input variables.
proof fn lemma_square_meaning(lv: Var, rv: Var, ov: Var, pubs: Seq<nat>, privs: Seq<nat>)
    requires
        var_value(lv, pubs, privs) < fr_order(),
        var_value(rv, pubs, privs) < fr_order(),
        var_value(ov, pubs, privs) < fr_order(),
    ensures
        constraint_holds(square_constraint(lv, rv, ov), pubs, privs) <==> var_value(
            ov,
            pubs,
            privs,
        ) == fe_mul_spec(var_value(lv, pubs, privs), var_value(rv, pubs, privs)),
{
    lemma_unit_eval(lv, pubs, privs);
    lemma_unit_eval(rv, pubs, privs);
    lemma_unit_eval(ov, pubs, privs);
}

/// The sum of a five-term combination, written out.
proof fn lemma_lc_sum_five(
    t0: TermV,
    t1: TermV,
    t2: TermV,
    t3: TermV,
    t4: TermV,
    pubs: Seq<nat>,
    privs: Seq<nat>,
)
    ensures
        lc_sum(Seq::empty().push(t0).push(t1).push(t2).push(t3).push(t4), pubs, privs) == t0.coeff
            * var_value(t0.var, pubs, privs) + t1.coeff * var_value(t1.var, pubs, privs)
            + t2.coeff * var_value(t2.var, pubs, privs) + t3.coeff * var_value(t3.var, pubs, privs)
            + t4.coeff * var_value(t4.var, pubs, privs),
{
    let s1 = Seq::empty().push(t0);
    let s2 = s1.push(t1);
    let s3 = s2.push(t2);
    let s4 = s3.push(t3);
    let s5 = s4.push(t4);
    assert(s5.drop_last() =~= s4);
    assert(s4.drop_last() =~= s3);
    assert(s3.drop_last() =~= s2);
    assert(s2.drop_last() =~= s1);
    assert(s1.drop_last() =~= Seq::<TermV>::empty());
    assert(lc_sum(Seq::<TermV>::empty(), pubs, privs) == 0);
    assert(lc_sum(s1, pubs, privs) == t0.coeff * var_value(t0.var, pubs, privs));
    assert(lc_sum(s2, pubs, privs) == lc_sum(s1, pubs, privs) + t1.coeff * var_value(
        t1.var,
        pubs,
        privs,
    ));
    assert(lc_sum(s3, pubs, privs) == lc_sum(s2, pubs, privs) + t2.coeff * var_value(
        t2.var,
        pubs,
        privs,
    ));
    assert(lc_sum(s4, pubs, privs) == lc_sum(s3, pubs, privs) + t3.coeff * var_value(
        t3.var,
        pubs,
        privs,
    ));
    assert(lc_sum(s5, pubs, privs) == lc_sum(s4, pubs, privs) + t4.coeff * var_value(
        t4.var,
        pubs,
        privs,
    ));
}

/// The sum of the folded polynomial's combination, written out.
proof fn lemma_poly_lc_sum(a: nat, b: nat, c: nat, d: nat, pubs: Seq<nat>, privs: Seq<nat>)
    requires
        pubs.len() >= 1,
        pubs[0] == 1,
        privs.len() == 4,
    ensures
        lc_sum(poly_lc(a, b, c, d, 0), pubs, privs) == privs[3] + a * privs[2] + b * privs[1] + c
            * privs[0] + d,
{
    let t0 = term_v(1, Var::Private(3usize));
    let t1 = term_v(a, Var::Private(2usize));
    let t2 = term_v(b, Var::Private(1usize));
    let t3 = term_v(c, Var::Private(0usize));
    let t4 = term_v(d, Var::Public(0usize));
    lemma_lc_sum_five(t0, t1, t2, t3, t4, pubs, privs);
    assert(poly_lc(a, b, c, d, 0) == Seq::empty().push(t0).push(t1).push(t2).push(t3).push(t4));
    assert(t0.coeff * var_value(t0.var, pubs, privs) == privs[3]);
    assert(t1.coeff * var_value(t1.var, pubs, privs) == a * privs[2]);
    assert(t2.coeff * var_value(t2.var, pubs, privs) == b * privs[1]);
    assert(t3.coeff * var_value(t3.var, pubs, privs) == c * privs[0]);
    assert(t4.coeff * var_value(t4.var, pubs, privs) == d * 1nat);
}

/// The final constraint — the folded polynomial against the constant one —
/// says exactly that the public input is the folded sum of the powers.
proof fn lemma_final_meaning(a: nat, b: nat, c: nat, d: nat, pubs: Seq<nat>, privs: Seq<nat>)
    requires
        a < fr_order(),
        b < fr_order(),
        c < fr_order(),
        d < fr_order(),
        pubs.len() == 2,
        pubs[0] == 1,
        pubs[1] < fr_order(),
        privs.len() == 4,
        privs[0] < fr_order(),
        privs[1] < fr_order(),
        privs[2] < fr_order(),
        privs[3] < fr_order(),
    ensures
        constraint_holds(quartic_final_constraint(a, b, c, d, 1, 0), pubs, privs) <==> pubs[1] == (
        privs[3] + a * privs[2] + b * privs[1] + c * privs[0] + d) % fr_order(),
{
    let p = fr_order();
    lemma_poly_lc_sum(a, b, c, d, pubs, privs);
    lemma_unit_eval(Var::Public(0usize), pubs, privs);
    lemma_unit_eval(Var::Public(1usize), pubs, privs);
    let sum: nat = privs[3] + a * privs[2] + b * privs[1] + c * privs[0] + d;
    assert(lc_eval(poly_lc(a, b, c, d, 0), pubs, privs) == sum % p);
    vstd::arithmetic::div_mod::lemma_mod_bound(sum as int, p as int);
    vstd::arithmetic::div_mod::lemma_small_mod((sum % p) as nat, p);
    assert(fe_mul_spec(sum % p, 1nat) == sum % p);
}

/// The folded sum of the true powers is the polynomial's value.
proof fn lemma_folded_sum_is_poly(w: nat, a: nat, b: nat, c: nat, d: nat)
    ensures
        (pow4_spec(w) + a * pow3_spec(w) + b * pow2_spec(w) + c * w + d) % fr_order() == poly_at(
            w,
            a,
            b,
            c,
            d,
        ),
{
    let p = fr_order();
    vstd::arithmetic::div_mod::lemma_mod_bound((pow3_spec(w) * w) as int, p as int);
    vstd::arithmetic::div_mod::lemma_small_mod(pow4_spec(w), p);
    lemma_poly_sum_fold(
        pow4_spec(w) as int,
        (a * pow3_spec(w)) as int,
        (b * pow2_spec(w)) as int,
        (c * w) as int,
        d as int,
    );
}

/// The compiled trace, constraint by constraint.
proof fn lemma_quartic_constraints_parts(a: nat, b: nat, c: nat, d: nat)
    ensures
        quartic_constraints(a, b, c, d, 1, 0).len() == 4,
        quartic_constraints(a, b, c, d, 1, 0)[0] == square_constraint(
            Var::Private(0usize),
            Var::Private(0usize),
            Var::Private(1usize),
        ),
        quartic_constraints(a, b, c, d, 1, 0)[1] == square_constraint(
            Var::Private(1usize),
            Var::Private(0usize),
            Var::Private(2usize),
        ),
        quartic_constraints(a, b, c, d, 1, 0)[2] == square_constraint(
            Var::Private(2usize),
            Var::Private(0usize),
            Var::Private(3usize),
        ),
        quartic_constraints(a, b, c, d, 1, 0)[3] == quartic_final_constraint(a, b, c, d, 1, 0),
{
}

/// Determinism of structure: two circuits with the same coefficients compile
/// to the same constraint trace, whatever their public values and witnesses.
/// The trace is a function of the coefficients and the slot bases alone.
pub proof fn lemma_structure_deterministic(
    c1: PolynomialCircuit,
    c2: PolynomialCircuit,
    xi: int,
    wi: int,
)
    requires
        c1.a@ == c2.a@,
        c1.b@ == c2.b@,
        c1.c@ == c2.c@,
        c1.d@ == c2.d@,
    ensures
        quartic_constraints(c1.a@, c1.b@, c1.c@, c1.d@, xi, wi) == quartic_constraints(
            c2.a@,
            c2.b@,
            c2.c@,
            c2.d@,
            xi,
            wi,
        ),
{
}

/// Soundness of the encoding: whatever private values an assignment carries
/// — honest powers or not — if it satisfies the compiled constraints, then
/// its public value is the quartic polynomial at its first private value.
pub proof fn lemma_quartic_constraints_sound(a: nat, b: nat, c: nat, d: nat, s: R1csV)
    requires
        a < fr_order(),
        b < fr_order(),
        c < fr_order(),
        d < fr_order(),
        s.constraints == quartic_constraints(a, b, c, d, 1, 0),
        s.public_values.len() == 2,
        s.public_values[0] == 1,
        s.public_values[1] < fr_order(),
        s.private_values.len() == 4,
        forall|i: int| 0 <= i < 4 ==> #[trigger] s.private_values[i] < fr_order(),
        satisfied(s),
    ensures
        s.public_values[1] == poly_at(s.private_values[0], a, b, c, d),
{
    let pubs = s.public_values;
    let privs = s.private_values;
    let x = pubs[1];
    let s0 = privs[0];
    let s1 = privs[1];
    let s2 = privs[2];
    let s3 = privs[3];
    lemma_quartic_constraints_parts(a, b, c, d);
    assert(constraint_holds(s.constraints[0], pubs, privs));
    assert(constraint_holds(s.constraints[1], pubs, privs));
    assert(constraint_holds(s.constraints[2], pubs, privs));
    assert(constraint_holds(s.constraints[3], pubs, privs));
    lemma_square_meaning(
        Var::Private(0usize),
        Var::Private(0usize),
        Var::Private(1usize),
        pubs,
        privs,
    );
    lemma_square_meaning(
        Var::Private(1usize),
        Var::Private(0usize),
        Var::Private(2usize),
        pubs,
        privs,
    );
    lemma_square_meaning(
        Var::Private(2usize),
        Var::Private(0usize),
        Var::Private(3usize),
        pubs,
        privs,
    );
    lemma_final_meaning(a, b, c, d, pubs, privs);
    assert(s1 == pow2_spec(s0));
    assert(s2 == pow3_spec(s0));
    assert(s3 == pow4_spec(s0));
    assert(x == (s3 + a * s2 + b * s1 + c * s0 + d) % fr_order());
    lemma_folded_sum_is_poly(s0, a, b, c, d);
}

/// Completeness of the encoding, and its converse: the honest assignment —
/// the witness with its true powers — satisfies the compiled constraints
/// exactly when the public value is the polynomial at the witness.
pub proof fn lemma_quartic_constraints_complete(a: nat, b: nat, c: nat, d: nat, x: nat, w: nat)
    requires
        a < fr_order(),
        b < fr_order(),
        c < fr_order(),
        d < fr_order(),
        x < fr_order(),
        w < fr_order(),
    ensures
        satisfied(
            R1csV {
                public_values: Seq::empty().push(1nat).push(x),
                private_values: Seq::empty().push(w).push(pow2_spec(w)).push(pow3_spec(w)).push(
                    pow4_spec(w),
                ),
                constraints: quartic_constraints(a, b, c, d, 1, 0),
            },
        ) <==> x == poly_at(w, a, b, c, d),
{
    let p = fr_order();
    let pubs = Seq::empty().push(1nat).push(x);
    let privs = Seq::empty().push(w).push(pow2_spec(w)).push(pow3_spec(w)).push(pow4_spec(w));
    let s = R1csV {
        public_values: pubs,
        private_values: privs,
        constraints: quartic_constraints(a, b, c, d, 1, 0),
    };
    vstd::arithmetic::div_mod::lemma_mod_bound((w * w) as int, p as int);
    vstd::arithmetic::div_mod::lemma_mod_bound((pow2_spec(w) * w) as int, p as int);
    vstd::arithmetic::div_mod::lemma_mod_bound((pow3_spec(w) * w) as int, p as int);
    lemma_quartic_constraints_parts(a, b, c, d);
    lemma_square_meaning(
        Var::Private(0usize),
        Var::Private(0usize),
        Var::Private(1usize),
        pubs,
        privs,
    );
    lemma_square_meaning(
        Var::Private(1usize),
        Var::Private(0usize),
        Var::Private(2usize),
        pubs,
        privs,
    );
    lemma_square_meaning(
        Var::Private(2usize),
        Var::Private(0usize),
        Var::Private(3usize),
        pubs,
        privs,
    );
    lemma_final_meaning(a, b, c, d, pubs, privs);
    lemma_folded_sum_is_poly(w, a, b, c, d);
    assert(var_value(Var::Private(0usize), pubs, privs) == w);
    assert(var_value(Var::Private(1usize), pubs, privs) == pow2_spec(w));
    assert(var_value(Var::Private(2usize), pubs, privs) == pow3_spec(w));
    assert(var_value(Var::Private(3usize), pubs, privs) == pow4_spec(w));
    assert(constraint_holds(s.constraints[0], pubs, privs));
    assert(constraint_holds(s.constraints[1], pubs, privs));
    assert(constraint_holds(s.constraints[2], pubs, privs));
    if x == poly_at(w, a, b, c, d) {
        assert(constraint_holds(s.constraints[3], pubs, privs));
        assert forall|i: int| 0 <= i < s.constraints.len() implies constraint_holds(
            #[trigger] s.constraints[i],
            s.public_values,
            s.private_values,
        ) by {
            assert(i == 0 || i == 1 || i == 2 || i == 3);
        }
        assert(satisfied(s));
    }
    if satisfied(s) {
        assert(constraint_holds(s.constraints[3], pubs, privs));
        assert(x == poly_at(w, a, b, c, d));
    }
}

} // verus!


