//! The circuit for the quartic relation `x = w^4 + a*w^3 + b*w^2 + c*w + d`:
//! four public coefficients, one public input, one private witness, and the
//! synthesis procedure that allocates the witness's powers and emits the
//! constraints binding them to the public input.

use vstd::prelude::*;

use crate::field::Fe;
use crate::field::fe_mul;
use crate::field::pow2_spec;
use crate::field::pow3_spec;
use crate::field::pow4_spec;
use crate::r1cs::Constraint;
use crate::r1cs::ConstraintV;
use crate::r1cs::LinComb;
use crate::r1cs::R1cs;
use crate::r1cs::Term;
use crate::r1cs::TermV;
use crate::r1cs::Var;
use crate::r1cs::ZkError;

verus! {

/// One addend of a constraint side, in the mathematical shadow.
pub open spec fn term_v(coeff: nat, var: Var) -> TermV {
    TermV { coeff, var }
}

/// A one-term combination: a coefficient times a variable.
pub open spec fn unit_lc(coeff: nat, var: Var) -> Seq<TermV> {
    Seq::empty().push(term_v(coeff, var))
}

/// The left side of the final constraint: the polynomial's terms, folded
/// into one combination over the witness's powers and the constant one.
pub open spec fn poly_lc(a: nat, b: nat, c: nat, d: nat, wi: int) -> Seq<TermV> {
    Seq::empty().push(term_v(1, Var::Private((wi + 3) as usize))).push(
        term_v(a, Var::Private((wi + 2) as usize)),
    ).push(term_v(b, Var::Private((wi + 1) as usize))).push(
        term_v(c, Var::Private(wi as usize)),
    ).push(term_v(d, Var::Public(0usize)))
}

/// A multiplication constraint of three one-term sides.
pub open spec fn square_constraint(lv: Var, rv: Var, ov: Var) -> ConstraintV {
    ConstraintV { left: unit_lc(1, lv), right: unit_lc(1, rv), output: unit_lc(1, ov) }
}

/// The final constraint: the folded polynomial, times the constant one,
/// equals the public input at slot `xi`.
pub open spec fn quartic_final_constraint(
    a: nat,
    b: nat,
    c: nat,
    d: nat,
    xi: int,
    wi: int,
) -> ConstraintV {
    ConstraintV {
        left: poly_lc(a, b, c, d, wi),
        right: unit_lc(1, Var::Public(0usize)),
        output: unit_lc(1, Var::Public(xi as usize)),
    }
}

/// The constraint trace that synthesis appends for coefficients
/// `(a, b, c, d)`, when the public input lands at public slot `xi` and the
/// witness's powers at private slots `wi` to `wi + 3`: three squarings
/// chaining the powers, then the full relation against the constant one.
/// It depends on the coefficients and the slot bases alone — not on the
/// public value or the witness.
pub open spec fn quartic_constraints(a: nat, b: nat, c: nat, d: nat, xi: int, wi: int) -> Seq<
    ConstraintV,
> {
    let w = Var::Private(wi as usize);
    let w2 = Var::Private((wi + 1) as usize);
    let w3 = Var::Private((wi + 2) as usize);
    let w4 = Var::Private((wi + 3) as usize);
    Seq::empty().push(square_constraint(w, w, w2)).push(square_constraint(w2, w, w3)).push(
        square_constraint(w3, w, w4),
    ).push(quartic_final_constraint(a, b, c, d, xi, wi))
}

/// The circuit: the optional public value, the optional secret witness, and
/// the four fixed public coefficients that define which relation is proven.
#[derive(Clone, Copy)]
pub struct PolynomialCircuit {
    pub x: Option<Fe>,
    pub w: Option<Fe>,
    pub a: Fe,
    pub b: Fe,
    pub c: Fe,
    pub d: Fe,
}

/// A linear combination of a single term.
fn singleton_lc(coeff: Fe, v: Var) -> (r: LinComb)
    ensures
        r@ =~= seq![TermV { coeff: coeff@, var: v }],
{
    let mut terms: Vec<Term> = Vec::new();
    terms.push(Term { coeff, var: v });
    let r = LinComb { terms };
    proof {
        assert(r@ =~= seq![TermV { coeff: coeff@, var: v }]);
    }
    r
}

impl PolynomialCircuit {
    /// The coefficients are canonical field values, and so are the public
    /// value and the witness where they are present.
    pub open spec fn wf(&self) -> bool {
        &&& self.a.wf()
        &&& self.b.wf()
        &&& self.c.wf()
        &&& self.d.wf()
        &&& (self.x matches Some(v) ==> v.wf())
        &&& (self.w matches Some(v) ==> v.wf())
    }

    /// Emits into the builder exactly the allocations and constraints that
    /// prove the quartic relation: the public input, the witness and its
    /// three higher powers (computed off-circuit as hints), the three
    /// squaring constraints, and the final constraint binding the folded
    /// polynomial to the public input. Fails with `AssignmentMissing`, and
    /// emits nothing further, as soon as a required value is absent.
    pub fn synthesize(&self, cs: &mut R1cs) -> (r: Result<(), ZkError>)
        requires
            self.wf(),
            old(cs).wf(),
        ensures
            final(cs).wf(),
            r is Ok <==> (self.x is Some && self.w is Some),
            r is Err ==> r == Result::<(), ZkError>::Err(ZkError::AssignmentMissing),
            self.x is None ==> *final(cs) == *old(cs),
            self.x matches Some(xv) ==> self.w is None ==> {
                &&& final(cs)@.public_values =~= old(cs)@.public_values.push(xv@)
                &&& final(cs)@.private_values =~= old(cs)@.private_values
                &&& final(cs)@.constraints =~= old(cs)@.constraints
            },
            self.x matches Some(xv) ==> self.w matches Some(wv) ==> {
                &&& final(cs)@.public_values =~= old(cs)@.public_values.push(xv@)
                &&& final(cs)@.private_values =~= old(cs)@.private_values + seq![
                    wv@,
                    pow2_spec(wv@),
                    pow3_spec(wv@),
                    pow4_spec(wv@),
                ]
                &&& final(cs)@.constraints =~= old(cs)@.constraints + quartic_constraints(
                    self.a@,
                    self.b@,
                    self.c@,
                    self.d@,
                    old(cs)@.public_values.len() as int,
                    old(cs)@.private_values.len() as int,
                )
            },
    {
        let x_var = match cs.alloc_public(self.x) {
            Ok(v) => v,
            Err(e) => {
                return Err(e);
            },
        };
        let w_value = match self.w {
            Some(v) => v,
            None => {
                return Err(ZkError::AssignmentMissing);
            },
        };
        let w_sq_value = fe_mul(&w_value, &w_value);
        let w_cu_value = fe_mul(&w_sq_value, &w_value);
        let w_qu_value = fe_mul(&w_cu_value, &w_value);
        let w_var = match cs.alloc_private(Some(w_value)) {
            Ok(v) => v,
            Err(e) => {
                return Err(e);
            },
        };
        let w_sq_var = match cs.alloc_private(Some(w_sq_value)) {
            Ok(v) => v,
            Err(e) => {
                return Err(e);
            },
        };
        let w_cu_var = match cs.alloc_private(Some(w_cu_value)) {
            Ok(v) => v,
            Err(e) => {
                return Err(e);
            },
        };
        let w_qu_var = match cs.alloc_private(Some(w_qu_value)) {
            Ok(v) => v,
            Err(e) => {
                return Err(e);
            },
        };
        let one_fe = Fe::from_u64(1);
        let one_var = cs.one();
        cs.enforce(
            singleton_lc(one_fe, w_var),
            singleton_lc(one_fe, w_var),
            singleton_lc(one_fe, w_sq_var),
        );
        cs.enforce(
            singleton_lc(one_fe, w_sq_var),
            singleton_lc(one_fe, w_var),
            singleton_lc(one_fe, w_cu_var),
        );
        cs.enforce(
            singleton_lc(one_fe, w_cu_var),
            singleton_lc(one_fe, w_var),
            singleton_lc(one_fe, w_qu_var),
        );
        let mut poly_terms: Vec<Term> = Vec::new();
        poly_terms.push(Term { coeff: one_fe, var: w_qu_var });
        poly_terms.push(Term { coeff: self.a, var: w_cu_var });
        poly_terms.push(Term { coeff: self.b, var: w_sq_var });
        poly_terms.push(Term { coeff: self.c, var: w_var });
        poly_terms.push(Term { coeff: self.d, var: one_var });
        let poly_comb = LinComb { terms: poly_terms };
        proof {
            let base_pub = old(cs)@.public_values.len() as int;
            let base_priv = old(cs)@.private_values.len() as int;
            assert(w_var == Var::Private(base_priv as usize));
            assert(w_sq_var == Var::Private((base_priv + 1) as usize));
            assert(w_cu_var == Var::Private((base_priv + 2) as usize));
            assert(w_qu_var == Var::Private((base_priv + 3) as usize));
            assert(x_var == Var::Public(base_pub as usize));
            assert(poly_comb@ =~= poly_lc(self.a@, self.b@, self.c@, self.d@, base_priv));
        }
        cs.enforce(poly_comb, singleton_lc(one_fe, one_var), singleton_lc(one_fe, x_var));
        proof {
            let wv = self.w->Some_0;
            let base_pub = old(cs)@.public_values.len() as int;
            let base_priv = old(cs)@.private_values.len() as int;
            let qc = quartic_constraints(self.a@, self.b@, self.c@, self.d@, base_pub, base_priv);
            assert(final(cs)@.private_values =~= old(cs)@.private_values + seq![
                wv@,
                pow2_spec(wv@),
                pow3_spec(wv@),
                pow4_spec(wv@),
            ]);
            assert(qc[0] == square_constraint(w_var, w_var, w_sq_var));
            assert(qc[1] == square_constraint(w_sq_var, w_var, w_cu_var));
            assert(qc[2] == square_constraint(w_cu_var, w_var, w_qu_var));
            assert(qc[3] == quartic_final_constraint(
                self.a@,
                self.b@,
                self.c@,
                self.d@,
                base_pub,
                base_priv,
            ));
            assert(final(cs)@.constraints =~= old(cs)@.constraints + qc);
        }
        Ok(())
    }

    /// The public-input vector that verification takes: the single public
    /// value. Fails with `AssignmentMissing` when it was never supplied.
    pub fn public_inputs(&self) -> (r: Result<Vec<Fe>, ZkError>)
        ensures
            r is Ok <==> self.x is Some,
            r is Err ==> r == Result::<Vec<Fe>, ZkError>::Err(ZkError::AssignmentMissing),
            r matches Ok(vs) ==> self.x matches Some(xv) ==> vs@ =~= seq![xv],
    {
        match self.x {
            Some(v) => {
                let mut out: Vec<Fe> = Vec::new();
                out.push(v);
                Ok(out)
            },
            None => Err(ZkError::AssignmentMissing),
        }
    }

    /// The arity check verification makes before touching any key or proof:
    /// this relation has exactly one public input, and any other shape is a
    /// structural mismatch, distinct from a `false` verdict.
    pub fn check_public_inputs(inputs: &Vec<Fe>) -> (r: Result<(), ZkError>)
        ensures
            r is Ok <==> inputs@.len() == 1,
            r is Err ==> r == Result::<(), ZkError>::Err(ZkError::StructuralMismatch),
    {
        if inputs.len() == 1 {
            Ok(())
        } else {
            Err(ZkError::StructuralMismatch)
        }
    }
}

} // verus!
