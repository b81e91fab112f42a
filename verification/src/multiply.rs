//! The multiplication circuit: one public output constrained to equal
//! `a * b` for two private witnesses.
//!
//! Synthesis allocates witnesses `a` and `b` and one public input `c`,
//! and enforces the single constraint `a * b = c`.

use vstd::prelude::*;
use crate::field::{fmul, mul_mod};
use crate::r1cs::{
    Variable, VarKind, SynthesisMode, SynthesisError, LinearCombination, ConstraintSystem,
    ConstraintSynthesizer,
};

verus! {

/// The circuit's private state: the optional witnesses `a` and `b`,
/// absent during setup and present during proving.
#[derive(Clone, Copy, PartialEq, Eq, Debug)]
pub struct MultiplyCircuit {
    pub a: Option<u64>,
    pub b: Option<u64>,
}

/// The public output `a * b` in the field.
pub open spec fn multiply_out(m: u64, a: u64, b: u64) -> u64 {
    fmul(m, a, b)
}

/// How a successful multiplication synthesis pass relates the system
/// before (`pre`) to the system after (`post`): witnesses `a` and `b` and
/// the public output appended, one constraint appended, with values
/// attached exactly in proving mode.
pub open spec fn multiply_synthesized(
    pre: ConstraintSystem,
    post: ConstraintSystem,
    a: Option<u64>,
    b: Option<u64>,
) -> bool {
    let m = pre.modulus;
    let n = pre.vars@.len() as int;
    let k = pre.constraints@.len() as int;
    let va = Variable::Slot(n as usize);
    let vb = Variable::Slot((n + 1) as usize);
    let vc = Variable::Slot((n + 2) as usize);
    &&& post.modulus == m
    &&& post.mode == pre.mode
    &&& post.vars@.len() == n + 3
    &&& post.vars@.take(n) == pre.vars@
    &&& post.vars@[n].kind == VarKind::Witness
    &&& post.vars@[n + 1].kind == VarKind::Witness
    &&& post.vars@[n + 2].kind == VarKind::PublicInput
    &&& (pre.mode == SynthesisMode::Setup ==> {
        &&& post.vars@[n].value is None
        &&& post.vars@[n + 1].value is None
        &&& post.vars@[n + 2].value is None
    })
    &&& (pre.mode == SynthesisMode::Prove ==> {
        &&& a is Some
        &&& b is Some
        &&& post.vars@[n].value == Some(a->Some_0)
        &&& post.vars@[n + 1].value == Some(b->Some_0)
        &&& post.vars@[n + 2].value == Some(multiply_out(m, a->Some_0, b->Some_0))
    })
    &&& post.constraints@.len() == k + 1
    &&& post.constraints@.take(k) == pre.constraints@
    &&& post.constraints@[k].a@ == seq![(1u64, va)]
    &&& post.constraints@[k].b@ == seq![(1u64, vb)]
    &&& post.constraints@[k].c@ == seq![(1u64, vc)]
}

/// Constraint satisfaction: the constraint a proving-mode multiplication
/// pass appends holds under the recorded assignment,
/// `eval(A) * eval(B) = eval(C)` in the field.
pub proof fn lemma_multiply_constraints_hold(
    pre: ConstraintSystem,
    post: ConstraintSystem,
    a: Option<u64>,
    b: Option<u64>,
)
    requires
        pre.wf(),
        pre.mode == SynthesisMode::Prove,
        a is Some,
        b is Some,
        a->Some_0 < pre.modulus,
        b->Some_0 < pre.modulus,
        pre.vars@.len() + 3 <= usize::MAX,
        multiply_synthesized(pre, post, a, b),
    ensures
        forall|i: int|
            pre.constraints@.len() <= i < post.constraints@.len() ==> crate::r1cs::constraint_holds(
                post.modulus,
                #[trigger] post.constraints@[i],
                crate::r1cs::values_of(post.vars@),
            ),
{
    let m = pre.modulus;
    let n = pre.vars@.len() as int;
    let k = pre.constraints@.len() as int;
    let av = a->Some_0;
    let bv = b->Some_0;
    let cv = multiply_out(m, av, bv);
    let va = Variable::Slot(n as usize);
    let vb = Variable::Slot((n + 1) as usize);
    let vc = Variable::Slot((n + 2) as usize);
    let values = crate::r1cs::values_of(post.vars@);
    assert(crate::r1cs::var_value(values, va) == av);
    assert(crate::r1cs::var_value(values, vb) == bv);
    assert(crate::r1cs::var_value(values, vc) == cv);
    crate::field::lemma_fmul_bound(m, av, bv);
    crate::r1cs::lemma_eval_single(m, 1u64, va, values);
    crate::r1cs::lemma_eval_single(m, 1u64, vb, values);
    crate::r1cs::lemma_eval_single(m, 1u64, vc, values);
    crate::field::lemma_fmul_one(m, av);
    crate::field::lemma_fmul_one(m, bv);
    crate::field::lemma_fmul_one(m, cv);
    assert(crate::r1cs::constraint_holds(m, post.constraints@[k], values));
}

/// Acceptance of the honest statement: a proving-mode multiplication pass
/// over a fresh system leaves a fully assigned system whose constraint
/// holds, so the satisfaction check accepts it.
pub proof fn lemma_multiply_accepted(pre: ConstraintSystem, post: ConstraintSystem, a: u64, b: u64)
    requires
        pre.wf(),
        pre.mode == SynthesisMode::Prove,
        pre.vars@.len() == 0,
        pre.constraints@.len() == 0,
        a < pre.modulus,
        b < pre.modulus,
        multiply_synthesized(pre, post, Some(a), Some(b)),
    ensures
        crate::r1cs::constraints_assigned(post.constraints@, crate::r1cs::values_of(post.vars@)),
        crate::r1cs::constraints_hold(
            post.modulus,
            post.constraints@,
            crate::r1cs::values_of(post.vars@),
        ),
{
    lemma_multiply_constraints_hold(pre, post, Some(a), Some(b));
    let values = crate::r1cs::values_of(post.vars@);
    assert forall|i: int| 0 <= i < post.constraints@.len() implies crate::r1cs::constraint_assigned(
        #[trigger] post.constraints@[i],
        values,
    ) by {
        assert(crate::r1cs::var_assigned(values, Variable::Slot(0)));
        assert(crate::r1cs::var_assigned(values, Variable::Slot(1)));
        assert(crate::r1cs::var_assigned(values, Variable::Slot(2)));
    }
}

/// The public statement of a proving-mode multiplication pass: the one
/// public input carries exactly `a * b` in the field.
pub proof fn lemma_multiply_public_input(
    pre: ConstraintSystem,
    post: ConstraintSystem,
    a: u64,
    b: u64,
)
    requires
        pre.wf(),
        pre.mode == SynthesisMode::Prove,
        a < pre.modulus,
        b < pre.modulus,
        multiply_synthesized(pre, post, Some(a), Some(b)),
    ensures
        post.vars@[pre.vars@.len() as int + 2].kind == VarKind::PublicInput,
        post.vars@[pre.vars@.len() as int + 2].value == Some(multiply_out(pre.modulus, a, b)),
        multiply_out(pre.modulus, a, b) as int == ((a as int) * (b as int)) % (pre.modulus as int),
{
    vstd::arithmetic::div_mod::lemma_mod_division_less_than_divisor(
        (a as int) * (b as int),
        pre.modulus as int,
    );
}

/// A multiplication pass over a fresh system leaves a public statement of
/// exactly one value: the product.
pub proof fn lemma_multiply_statement(pre: ConstraintSystem, post: ConstraintSystem, a: u64, b: u64)
    requires
        pre.wf(),
        pre.mode == SynthesisMode::Prove,
        pre.vars@.len() == 0,
        a < pre.modulus,
        b < pre.modulus,
        multiply_synthesized(pre, post, Some(a), Some(b)),
    ensures
        crate::r1cs::public_statement(post.vars@) == seq![Some(multiply_out(pre.modulus, a, b))],
{
    reveal_with_fuel(Seq::filter, 5);
    let v = post.vars@;
    assert(v.drop_last().drop_last().drop_last() =~= Seq::<crate::r1cs::VarEntry>::empty());
    assert(crate::r1cs::public_statement(v) =~= seq![
        Some(multiply_out(pre.modulus, a, b)),
    ]);
}

/// Shape invariance: two multiplication passes over systems of equal size
/// and modulus append the same variable kinds and the same constraint,
/// whatever values each pass carried — in particular, a setup pass and a
/// proving pass agree on the circuit's topology.
pub proof fn lemma_multiply_shape_invariance(
    pre1: ConstraintSystem,
    post1: ConstraintSystem,
    a1: Option<u64>,
    b1: Option<u64>,
    pre2: ConstraintSystem,
    post2: ConstraintSystem,
    a2: Option<u64>,
    b2: Option<u64>,
)
    requires
        multiply_synthesized(pre1, post1, a1, b1),
        multiply_synthesized(pre2, post2, a2, b2),
        pre1.modulus == pre2.modulus,
        pre1.vars@.len() == pre2.vars@.len(),
        pre1.constraints@.len() == pre2.constraints@.len(),
    ensures
        post1.vars@.len() == post2.vars@.len(),
        forall|i: int|
            pre1.vars@.len() <= i < post1.vars@.len() ==> post1.vars@[i].kind
                == #[trigger] post2.vars@[i].kind,
        post1.constraints@.len() == post2.constraints@.len(),
        forall|i: int|
            pre1.constraints@.len() <= i < post1.constraints@.len()
                ==> #[trigger] post1.constraints@[i].a@ == post2.constraints@[i].a@
                && post1.constraints@[i].b@ == post2.constraints@[i].b@
                && post1.constraints@[i].c@ == post2.constraints@[i].c@,
{
}

/// Rejection of a wrong statement: replace the recorded public output of
/// a proving-mode multiplication pass with any other residue, and the
/// constraint no longer holds.
pub proof fn lemma_multiply_rejects_wrong_output(
    pre: ConstraintSystem,
    post: ConstraintSystem,
    a: u64,
    b: u64,
    claimed: u64,
)
    requires
        pre.wf(),
        pre.mode == SynthesisMode::Prove,
        a < pre.modulus,
        b < pre.modulus,
        pre.vars@.len() + 3 <= usize::MAX,
        multiply_synthesized(pre, post, Some(a), Some(b)),
        claimed < pre.modulus,
        claimed != multiply_out(pre.modulus, a, b),
    ensures
        !crate::r1cs::constraint_holds(
            post.modulus,
            post.constraints@[post.constraints@.len() - 1],
            crate::r1cs::values_of(post.vars@).update(pre.vars@.len() as int + 2, Some(claimed)),
        ),
{
    let m = pre.modulus;
    let n = pre.vars@.len() as int;
    let k = pre.constraints@.len() as int;
    let cv = multiply_out(m, a, b);
    let va = Variable::Slot(n as usize);
    let vb = Variable::Slot((n + 1) as usize);
    let vc = Variable::Slot((n + 2) as usize);
    let values = crate::r1cs::values_of(post.vars@).update(n + 2, Some(claimed));
    assert(crate::r1cs::var_value(values, va) == a);
    assert(crate::r1cs::var_value(values, vb) == b);
    assert(crate::r1cs::var_value(values, vc) == claimed);
    crate::field::lemma_fmul_bound(m, a, b);
    crate::r1cs::lemma_eval_single(m, 1u64, va, values);
    crate::r1cs::lemma_eval_single(m, 1u64, vb, values);
    crate::r1cs::lemma_eval_single(m, 1u64, vc, values);
    crate::field::lemma_fmul_one(m, a);
    crate::field::lemma_fmul_one(m, b);
    crate::field::lemma_fmul_one(m, claimed);
}

impl ConstraintSynthesizer for MultiplyCircuit {
    open spec fn values_wf(&self, m: u64) -> bool {
        &&& match self.a {
            Some(v) => v < m,
            None => true,
        }
        &&& match self.b {
            Some(v) => v < m,
            None => true,
        }
    }

    fn generate_constraints(self, cs: &mut ConstraintSystem) -> (r: Result<(), SynthesisError>)
        ensures
            (r is Ok <==> (old(cs).mode == SynthesisMode::Setup || (self.a is Some && self.b
                is Some))),
            r is Err ==> r == Err::<(), SynthesisError>(SynthesisError::AssignmentMissing),
            old(cs).mode == SynthesisMode::Prove && self.a is None ==> *final(cs) == *old(cs),
            old(cs).mode == SynthesisMode::Prove && self.a is Some && self.b is None
                ==> final(cs).vars@ == old(cs).vars@.push(
                (crate::r1cs::VarEntry { kind: VarKind::Witness, value: self.a }),
            ) && final(cs).constraints@ == old(cs).constraints@,
            r is Ok ==> multiply_synthesized(*old(cs), *final(cs), self.a, self.b),
    {
        let ghost pre = *cs;
        let m = cs.modulus;
        let a = match cs.new_witness_variable(self.a) {
            Ok(v) => v,
            Err(e) => {
                proof {
                    assert(cs.vars@.take(pre.vars@.len() as int) =~= cs.vars@);
                    assert(cs.constraints@.take(pre.constraints@.len() as int)
                        =~= cs.constraints@);
                }
                return Err(e);
            },
        };
        let b = match cs.new_witness_variable(self.b) {
            Ok(v) => v,
            Err(e) => {
                proof {
                    assert(cs.vars@.take(pre.vars@.len() as int) =~= pre.vars@);
                    assert(cs.constraints@.take(pre.constraints@.len() as int)
                        =~= cs.constraints@);
                }
                return Err(e);
            },
        };
        let c_val = match (self.a, self.b) {
            (Some(av), Some(bv)) => Some(mul_mod(m, av, bv)),
            _ => None,
        };
        let c = match cs.new_input_variable(c_val) {
            Ok(v) => v,
            Err(e) => {
                return Err(e);
            },
        };
        let la = LinearCombination::new().add_var(a);
        let lb = LinearCombination::new().add_var(b);
        let lc = LinearCombination::new().add_var(c);
        proof {
            assert(la@ =~= seq![(1u64, a)]);
            assert(lb@ =~= seq![(1u64, b)]);
            assert(lc@ =~= seq![(1u64, c)]);
        }
        match cs.enforce_constraint(la, lb, lc) {
            Ok(_) => {},
            Err(e) => {
                return Err(e);
            },
        };
        proof {
            assert(cs.vars@.take(pre.vars@.len() as int) =~= pre.vars@);
            assert(cs.constraints@.take(pre.constraints@.len() as int) =~= pre.constraints@);
        }
        Ok(())
    }
}

} // verus!
