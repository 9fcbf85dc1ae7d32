//! A rank-1 constraint system held as plain data: variables are indices,
//! linear combinations are lists of coefficient-variable pairs, and the
//! builder records the allocated values next to the constraints, so that
//! satisfaction is a statement about natural numbers.

use vstd::prelude::*;

use crate::field::Fe;
use crate::field::fe_add;
use crate::field::fe_add_spec;
use crate::field::fe_mul;
use crate::field::fe_mul_spec;
use crate::field::fr_order;
use crate::field::lemma_fe_view_injective;

verus! {

/// The two ways a proof session fails: a required value was never supplied
/// before synthesis, or the public inputs handed to verification do not have
/// the shape the relation fixes.
#[derive(Clone, Copy, PartialEq, Eq, Structural, Debug)]
pub enum ZkError {
    AssignmentMissing,
    StructuralMismatch,
}

/// A handle to one slot of the constraint system. `Public(0)` is the fixed
/// constant one; further public slots are the relation's public inputs;
/// private slots hold the witness and its auxiliaries.
#[derive(Clone, Copy, PartialEq, Eq, Structural, Debug)]
pub enum Var {
    Public(usize),
    Private(usize),
}

/// One addend of a linear combination: a field coefficient times a variable.
#[derive(Clone, Copy, PartialEq, Eq, Structural, Debug)]
pub struct Term {
    pub coeff: Fe,
    pub var: Var,
}

/// The mathematical shadow of a `Term`: the coefficient as a natural number.
pub struct TermV {
    pub coeff: nat,
    pub var: Var,
}

impl View for Term {
    type V = TermV;

    open spec fn view(&self) -> TermV {
        TermV { coeff: self.coeff@, var: self.var }
    }
}

/// A linear combination of allocated variables.
#[derive(PartialEq, Eq, Debug)]
pub struct LinComb {
    pub terms: Vec<Term>,
}

impl View for LinComb {
    type V = Seq<TermV>;

    open spec fn view(&self) -> Seq<TermV> {
        self.terms@.map_values(|t: Term| t@)
    }
}

/// One rank-1 constraint: `left * right = output`, each side a linear
/// combination.
#[derive(PartialEq, Eq, Debug)]
pub struct Constraint {
    pub left: LinComb,
    pub right: LinComb,
    pub output: LinComb,
}

/// The mathematical shadow of a `Constraint`.
#[verifier::ext_equal]
pub struct ConstraintV {
    pub left: Seq<TermV>,
    pub right: Seq<TermV>,
    pub output: Seq<TermV>,
}

impl View for Constraint {
    type V = ConstraintV;

    open spec fn view(&self) -> ConstraintV {
        ConstraintV { left: self.left@, right: self.right@, output: self.output@ }
    }
}

/// The mathematical shadow of the whole builder: values as natural numbers,
/// constraints as sequences of terms.
#[verifier::ext_equal]
pub struct R1csV {
    pub public_values: Seq<nat>,
    pub private_values: Seq<nat>,
    pub constraints: Seq<ConstraintV>,
}

/// A term is well formed for a system with `n_pub` public and `n_priv`
/// private slots: its coefficient is canonical and its variable allocated.
pub open spec fn term_wf(t: TermV, n_pub: nat, n_priv: nat) -> bool {
    &&& t.coeff < fr_order()
    &&& match t.var {
        Var::Public(i) => i < n_pub,
        Var::Private(i) => i < n_priv,
    }
}

/// Every term of the linear combination is well formed.
pub open spec fn lc_wf(terms: Seq<TermV>, n_pub: nat, n_priv: nat) -> bool {
    forall|i: int| 0 <= i < terms.len() ==> term_wf(#[trigger] terms[i], n_pub, n_priv)
}

/// The value a variable takes under an assignment of values to the public
/// and private slots.
pub open spec fn var_value(v: Var, pubs: Seq<nat>, privs: Seq<nat>) -> nat {
    match v {
        Var::Public(i) => pubs[i as int],
        Var::Private(i) => privs[i as int],
    }
}

/// The plain (unreduced) sum of a linear combination under an assignment.
pub open spec fn lc_sum(terms: Seq<TermV>, pubs: Seq<nat>, privs: Seq<nat>) -> nat
    decreases terms.len(),
{
    if terms.len() == 0 {
        0
    } else {
        lc_sum(terms.drop_last(), pubs, privs) + terms.last().coeff * var_value(
            terms.last().var,
            pubs,
            privs,
        )
    }
}

/// The field value of a linear combination: the sum reduced by the order.
pub open spec fn lc_eval(terms: Seq<TermV>, pubs: Seq<nat>, privs: Seq<nat>) -> nat {
    lc_sum(terms, pubs, privs) % fr_order()
}

/// A constraint holds under an assignment when the field product of its two
/// sides equals the field value of its output.
pub open spec fn constraint_holds(c: ConstraintV, pubs: Seq<nat>, privs: Seq<nat>) -> bool {
    fe_mul_spec(lc_eval(c.left, pubs, privs), lc_eval(c.right, pubs, privs)) == lc_eval(
        c.output,
        pubs,
        privs,
    )
}

/// Every recorded constraint holds under the recorded values.
pub open spec fn satisfied(s: R1csV) -> bool {
    forall|i: int| 0 <= i < s.constraints.len() ==> constraint_holds(
        #[trigger] s.constraints[i],
        s.public_values,
        s.private_values,
    )
}

/// The builder for the constraint system: allocated values and constraints,
/// in allocation order. Slot 0 of the public values is the constant one.
pub struct R1cs {
    pub public_values: Vec<Fe>,
    pub private_values: Vec<Fe>,
    pub constraints: Vec<Constraint>,
}

impl View for R1cs {
    type V = R1csV;

    open spec fn view(&self) -> R1csV {
        R1csV {
            public_values: self.public_values@.map_values(|v: Fe| v@),
            private_values: self.private_values@.map_values(|v: Fe| v@),
            constraints: self.constraints@.map_values(|c: Constraint| c@),
        }
    }
}

impl R1cs {
    /// All stored values are canonical, the constant-one slot is in place,
    /// and every constraint speaks only of allocated slots.
    pub open spec fn wf(&self) -> bool {
        &&& self@.public_values.len() >= 1
        &&& self@.public_values[0] == 1
        &&& forall|i: int|
            0 <= i < self@.public_values.len() ==> #[trigger] self@.public_values[i] < fr_order()
        &&& forall|i: int|
            0 <= i < self@.private_values.len() ==> #[trigger] self@.private_values[i] < fr_order()
        &&& forall|i: int|
            0 <= i < self@.constraints.len() ==> {
                &&& lc_wf(
                    (#[trigger] self@.constraints[i]).left,
                    self@.public_values.len(),
                    self@.private_values.len(),
                )
                &&& lc_wf(self@.constraints[i].right, self@.public_values.len(), self@.private_values.len())
                &&& lc_wf(self@.constraints[i].output, self@.public_values.len(), self@.private_values.len())
            }
    }

    /// A fresh builder: only the constant one is allocated, no constraints.
    pub fn new() -> (r: R1cs)
        ensures
            r.wf(),
            r@.public_values =~= seq![1nat],
            r@.private_values =~= Seq::<nat>::empty(),
            r@.constraints =~= Seq::<ConstraintV>::empty(),
    {
        let one = Fe::from_u64(1);
        let r = R1cs { public_values: vec![one], private_values: Vec::new(), constraints: Vec::new() };
        proof {
            assert(r@.public_values =~= seq![1nat]);
            assert(r@.private_values =~= Seq::<nat>::empty());
            assert(r@.constraints =~= Seq::<ConstraintV>::empty());
        }
        r
    }

    /// The handle of the fixed constant one.
    pub fn one(&self) -> (r: Var)
        ensures
            r == Var::Public(0usize),
    {
        Var::Public(0)
    }

    /// Allocates one public slot bound to the supplied value; fails with
    /// `AssignmentMissing`, leaving the builder unchanged, when no value was
    /// supplied.
    pub fn alloc_public(&mut self, value: Option<Fe>) -> (r: Result<Var, ZkError>)
        requires
            old(self).wf(),
            value matches Some(v) ==> v.wf(),
        ensures
            final(self).wf(),
            value is None ==> r == Result::<Var, ZkError>::Err(ZkError::AssignmentMissing)
                && *final(self) == *old(self),
            value matches Some(v) ==> {
                &&& r == Result::<Var, ZkError>::Ok(Var::Public(old(self).public_values.len()))
                &&& final(self)@.public_values =~= old(self)@.public_values.push(v@)
                &&& final(self)@.private_values =~= old(self)@.private_values
                &&& final(self)@.constraints =~= old(self)@.constraints
            },
    {
        match value {
            None => Err(ZkError::AssignmentMissing),
            Some(v) => {
                let idx = self.public_values.len();
                self.public_values.push(v);
                proof {
                    lemma_map_values_push(old(self).public_values@, |x: Fe| x@, v);
                    assert(final(self)@.constraints =~= old(self)@.constraints);
                    assert(final(self)@.private_values =~= old(self)@.private_values);
                    let np = old(self)@.public_values.len();
                    let nv = old(self)@.private_values.len();
                    assert forall|i: int| 0 <= i < final(self)@.constraints.len() implies {
                        &&& lc_wf((#[trigger] final(self)@.constraints[i]).left, np + 1, nv)
                        &&& lc_wf(final(self)@.constraints[i].right, np + 1, nv)
                        &&& lc_wf(final(self)@.constraints[i].output, np + 1, nv)
                    } by {
                        assert(final(self)@.constraints[i] == old(self)@.constraints[i]);
                        lemma_lc_wf_mono(old(self)@.constraints[i].left, np, nv, np + 1, nv);
                        lemma_lc_wf_mono(old(self)@.constraints[i].right, np, nv, np + 1, nv);
                        lemma_lc_wf_mono(old(self)@.constraints[i].output, np, nv, np + 1, nv);
                    }
                    assert(final(self)@.public_values.len() == np + 1);
                }
                Ok(Var::Public(idx))
            },
        }
    }

    /// Allocates one private slot bound to the supplied value; fails with
    /// `AssignmentMissing`, leaving the builder unchanged, when no value was
    /// supplied.
    pub fn alloc_private(&mut self, value: Option<Fe>) -> (r: Result<Var, ZkError>)
        requires
            old(self).wf(),
            value matches Some(v) ==> v.wf(),
        ensures
            final(self).wf(),
            value is None ==> r == Result::<Var, ZkError>::Err(ZkError::AssignmentMissing)
                && *final(self) == *old(self),
            value matches Some(v) ==> {
                &&& r == Result::<Var, ZkError>::Ok(Var::Private(old(self).private_values.len()))
                &&& final(self)@.private_values =~= old(self)@.private_values.push(v@)
                &&& final(self)@.public_values =~= old(self)@.public_values
                &&& final(self)@.constraints =~= old(self)@.constraints
            },
    {
        match value {
            None => Err(ZkError::AssignmentMissing),
            Some(v) => {
                let idx = self.private_values.len();
                self.private_values.push(v);
                proof {
                    lemma_map_values_push(old(self).private_values@, |x: Fe| x@, v);
                    assert(final(self)@.constraints =~= old(self)@.constraints);
                    assert(final(self)@.public_values =~= old(self)@.public_values);
                    let np = old(self)@.public_values.len();
                    let nv = old(self)@.private_values.len();
                    assert forall|i: int| 0 <= i < final(self)@.constraints.len() implies {
                        &&& lc_wf((#[trigger] final(self)@.constraints[i]).left, np, nv + 1)
                        &&& lc_wf(final(self)@.constraints[i].right, np, nv + 1)
                        &&& lc_wf(final(self)@.constraints[i].output, np, nv + 1)
                    } by {
                        assert(final(self)@.constraints[i] == old(self)@.constraints[i]);
                        lemma_lc_wf_mono(old(self)@.constraints[i].left, np, nv, np, nv + 1);
                        lemma_lc_wf_mono(old(self)@.constraints[i].right, np, nv, np, nv + 1);
                        lemma_lc_wf_mono(old(self)@.constraints[i].output, np, nv, np, nv + 1);
                    }
                    assert(final(self)@.private_values.len() == nv + 1);
                }
                Ok(Var::Private(idx))
            },
        }
    }

    /// Registers the constraint `left * right = output`. Purely structural:
    /// it cannot fail, and it changes no allocated value.
    pub fn enforce(&mut self, left: LinComb, right: LinComb, output: LinComb)
        requires
            old(self).wf(),
            lc_wf(left@, old(self)@.public_values.len(), old(self)@.private_values.len()),
            lc_wf(right@, old(self)@.public_values.len(), old(self)@.private_values.len()),
            lc_wf(output@, old(self)@.public_values.len(), old(self)@.private_values.len()),
        ensures
            final(self).wf(),
            final(self)@.constraints =~= old(self)@.constraints.push(
                ConstraintV { left: left@, right: right@, output: output@ },
            ),
            final(self)@.public_values =~= old(self)@.public_values,
            final(self)@.private_values =~= old(self)@.private_values,
    {
        let ghost c_view = ConstraintV { left: left@, right: right@, output: output@ };
        let ghost prev = self.constraints@;
        self.constraints.push(Constraint { left, right, output });
        proof {
            lemma_map_values_push(prev, |c: Constraint| c@, Constraint { left, right, output });
            assert(final(self)@.public_values =~= old(self)@.public_values);
            assert(final(self)@.private_values =~= old(self)@.private_values);
            let np = old(self)@.public_values.len();
            let nv = old(self)@.private_values.len();
            assert(final(self)@.constraints =~= old(self)@.constraints.push(c_view));
            assert forall|i: int| 0 <= i < final(self)@.constraints.len() implies {
                &&& lc_wf((#[trigger] final(self)@.constraints[i]).left, np, nv)
                &&& lc_wf(final(self)@.constraints[i].right, np, nv)
                &&& lc_wf(final(self)@.constraints[i].output, np, nv)
            } by {
                if i < old(self)@.constraints.len() {
                    assert(final(self)@.constraints[i] == old(self)@.constraints[i]);
                    assert(lc_wf(old(self)@.constraints[i].left, np, nv));
                } else {
                    assert(final(self)@.constraints[i] == c_view);
                }
            }
        }
    }

    /// The field value of a linear combination under the recorded assignment.
    pub fn eval_lc(&self, lc: &LinComb) -> (r: Fe)
        requires
            self.wf(),
            lc_wf(lc@, self@.public_values.len(), self@.private_values.len()),
        ensures
            r.wf(),
            r@ == lc_eval(lc@, self@.public_values, self@.private_values),
    {
        let mut acc = Fe::from_u64(0);
        let mut k: usize = 0;
        proof {
            assert(lc@.subrange(0, 0) =~= Seq::<TermV>::empty());
        }
        while k < lc.terms.len()
            invariant
                self.wf(),
                lc_wf(lc@, self@.public_values.len(), self@.private_values.len()),
                k <= lc.terms.len(),
                lc@.len() == lc.terms.len(),
                acc.wf(),
                acc@ == lc_sum(lc@.subrange(0, k as int), self@.public_values, self@.private_values)
                    % fr_order(),
            decreases lc.terms.len() - k,
        {
            let t = lc.terms[k];
            proof {
                assert(lc@[k as int] == lc.terms@[k as int]@);
                assert(term_wf(lc@[k as int], self@.public_values.len(), self@.private_values.len()));
            }
            let val = match t.var {
                Var::Public(i) => self.public_values[i],
                Var::Private(i) => self.private_values[i],
            };
            proof {
                assert(val@ == var_value(lc@[k as int].var, self@.public_values, self@.private_values));
                assert(val@ < fr_order());
            }
            let prod = fe_mul(&t.coeff, &val);
            let next = fe_add(&acc, &prod);
            proof {
                let pubs = self@.public_values;
                let privs = self@.private_values;
                let pre = lc@.subrange(0, k as int);
                let post = lc@.subrange(0, k as int + 1);
                assert(post.drop_last() =~= pre);
                assert(post.last() == lc@[k as int]);
                let s = lc_sum(pre, pubs, privs);
                let tv = (lc@[k as int].coeff * var_value(lc@[k as int].var, pubs, privs)) as int;
                assert(lc_sum(post, pubs, privs) == s + tv);
                vstd::arithmetic::div_mod::lemma_add_mod_noop(s as int, tv, fr_order() as int);
                assert(next@ == fe_add_spec(acc@, prod@));
                assert(next@ == lc_sum(post, pubs, privs) % fr_order());
            }
            acc = next;
            k = k + 1;
        }
        proof {
            assert(lc@.subrange(0, lc@.len() as int) =~= lc@);
        }
        acc
    }

    /// Whether every recorded constraint holds under the recorded values:
    /// the executable mirror of `satisfied`.
    pub fn is_satisfied(&self) -> (r: bool)
        requires
            self.wf(),
        ensures
            r == satisfied(self@),
    {
        let mut k: usize = 0;
        while k < self.constraints.len()
            invariant
                self.wf(),
                k <= self.constraints.len(),
                self@.constraints.len() == self.constraints.len(),
                forall|i: int| 0 <= i < k ==> constraint_holds(
                    #[trigger] self@.constraints[i],
                    self@.public_values,
                    self@.private_values,
                ),
            decreases self.constraints.len() - k,
        {
            let c = &self.constraints[k];
            proof {
                assert(self@.constraints[k as int] == self.constraints@[k as int]@);
            }
            let lv = self.eval_lc(&c.left);
            let rv = self.eval_lc(&c.right);
            let ov = self.eval_lc(&c.output);
            let prod = fe_mul(&lv, &rv);
            if !(prod == ov) {
                proof {
                    if constraint_holds(self@.constraints[k as int], self@.public_values, self@.private_values) {
                        lemma_fe_view_injective(prod, ov);
                    }
                }
                return false;
            }
            k = k + 1;
        }
        true
    }
}

/// Mapping a view over a sequence commutes with appending one element.
proof fn lemma_map_values_push<A, B>(s: Seq<A>, f: spec_fn(A) -> B, x: A)
    ensures
        s.push(x).map_values(f) =~= s.map_values(f).push(f(x)),
{
}

/// A linear combination that is well formed for a system stays well formed
/// when more slots are allocated.
proof fn lemma_lc_wf_mono(terms: Seq<TermV>, np1: nat, nv1: nat, np2: nat, nv2: nat)
    requires
        lc_wf(terms, np1, nv1),
        np1 <= np2,
        nv1 <= nv2,
    ensures
        lc_wf(terms, np2, nv2),
{
    assert forall|i: int| 0 <= i < terms.len() implies term_wf(#[trigger] terms[i], np2, nv2) by {
        assert(term_wf(terms[i], np1, nv1));
    }
}

} // verus!
