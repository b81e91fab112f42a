//! The cubic-polynomial circuit: one public output constrained to equal
//! `x^3 + x + 5` for a private witness `x`.
//!
//! Synthesis allocates three witness variables (`x`, `x^2`, `x^3`) and one
//! public input, and enforces three multiplicative constraints:
//! `x * x = x^2`, `x^2 * x = x^3`, and `(x^3 + x + 5) * 1 = out`.

use vstd::prelude::*;
use crate::field::{fadd, fmul, fcanon, add_mod, mul_mod, from_u32};
use crate::r1cs::{
    Variable, VarKind, SynthesisMode, SynthesisError, LinearCombination, ConstraintSystem,
    ConstraintSynthesizer, constant_one, values_of, constraint_holds, var_value, eval_terms,
    lemma_eval_single,
};

verus! {

/// The circuit's private state: the optional witness `x`, absent during
/// setup and present during proving.
#[derive(Clone, Copy, PartialEq, Eq, Debug)]
pub struct CubicCircuit {
    pub x: Option<u64>,
}

/// The witness square `x^2` in the field.
pub open spec fn cubic_xsq(m: u64, x: u64) -> u64 {
    fmul(m, x, x)
}

/// The witness cube `x^3` in the field.
pub open spec fn cubic_xcube(m: u64, x: u64) -> u64 {
    fmul(m, cubic_xsq(m, x), x)
}

/// The circuit's injected constant: the residue of five.
pub open spec fn cubic_const(m: u64) -> u64 {
    fcanon(m, 5)
}

/// The public output `x^3 + x + 5` in the field.
pub open spec fn cubic_out(m: u64, x: u64) -> u64 {
    fadd(m, fadd(m, cubic_xcube(m, x), x), cubic_const(m))
}

/// How a successful cubic synthesis pass relates the system before (`pre`)
/// to the system after (`post`): four variables appended (witnesses `x`,
/// `x^2`, `x^3`, then the public output), three constraints appended, with
/// values attached exactly in proving mode.
pub open spec fn cubic_synthesized(
    pre: ConstraintSystem,
    post: ConstraintSystem,
    x: Option<u64>,
) -> bool {
    let m = pre.modulus;
    let n = pre.vars@.len() as int;
    let k = pre.constraints@.len() as int;
    let xv = x->Some_0;
    let vx = Variable::Slot(n as usize);
    let vsq = Variable::Slot((n + 1) as usize);
    let vcu = Variable::Slot((n + 2) as usize);
    let vout = Variable::Slot((n + 3) as usize);
    &&& post.modulus == m
    &&& post.mode == pre.mode
    &&& post.vars@.len() == n + 4
    &&& post.vars@.take(n) == pre.vars@
    &&& post.vars@[n].kind == VarKind::Witness
    &&& post.vars@[n + 1].kind == VarKind::Witness
    &&& post.vars@[n + 2].kind == VarKind::Witness
    &&& post.vars@[n + 3].kind == VarKind::PublicInput
    &&& (pre.mode == SynthesisMode::Setup ==> {
        &&& post.vars@[n].value is None
        &&& post.vars@[n + 1].value is None
        &&& post.vars@[n + 2].value is None
        &&& post.vars@[n + 3].value is None
    })
    &&& (pre.mode == SynthesisMode::Prove ==> {
        &&& x is Some
        &&& post.vars@[n].value == Some(xv)
        &&& post.vars@[n + 1].value == Some(cubic_xsq(m, xv))
        &&& post.vars@[n + 2].value == Some(cubic_xcube(m, xv))
        &&& post.vars@[n + 3].value == Some(cubic_out(m, xv))
    })
    &&& post.constraints@.len() == k + 3
    &&& post.constraints@.take(k) == pre.constraints@
    &&& post.constraints@[k].a@ == seq![(1u64, vx)]
    &&& post.constraints@[k].b@ == seq![(1u64, vx)]
    &&& post.constraints@[k].c@ == seq![(1u64, vsq)]
    &&& post.constraints@[k + 1].a@ == seq![(1u64, vsq)]
    &&& post.constraints@[k + 1].b@ == seq![(1u64, vx)]
    &&& post.constraints@[k + 1].c@ == seq![(1u64, vcu)]
    &&& post.constraints@[k + 2].a@ == seq![
        (1u64, vcu),
        (1u64, vx),
        (cubic_const(m), Variable::One),
    ]
    &&& post.constraints@[k + 2].b@ == seq![(1u64, Variable::One)]
    &&& post.constraints@[k + 2].c@ == seq![(1u64, vout)]
}

/// The evaluation of the output constraint's left side,
/// `1 * x^3 + 1 * x + 5 * 1`, under any assignment giving `x^3` and `x`.
proof fn lemma_eval_output_lhs(
    m: u64,
    vcu: Variable,
    vx: Variable,
    values: Seq<Option<u64>>,
    xcu: u64,
    xv: u64,
)
    requires
        m >= 2,
        var_value(values, vcu) == xcu,
        var_value(values, vx) == xv,
        xcu < m,
        xv < m,
    ensures
        eval_terms(m, seq![(1u64, vcu), (1u64, vx), (cubic_const(m), Variable::One)], values)
            == fadd(m, fadd(m, xcu, xv), cubic_const(m)),
{
    let five = cubic_const(m);
    let s1 = seq![(1u64, vcu)];
    let s2 = seq![(1u64, vcu), (1u64, vx)];
    let s3 = seq![(1u64, vcu), (1u64, vx), (five, Variable::One)];
    assert(s2 =~= s1.push((1u64, vx)));
    assert(s3 =~= s2.push((five, Variable::One)));
    lemma_eval_single(m, 1u64, vcu, values);
    crate::r1cs::lemma_eval_push(m, s1, 1u64, vx, values);
    crate::r1cs::lemma_eval_push(m, s2, five, Variable::One, values);
    crate::field::lemma_fmul_one(m, xcu);
    crate::field::lemma_fmul_one(m, xv);
    crate::field::lemma_fcanon_bound(m, 5);
    crate::field::lemma_fmul_one(m, five);
    crate::field::lemma_fadd_bound(m, xcu, xv);
}

/// Constraint satisfaction: every constraint a proving-mode cubic pass
/// appends holds under the recorded assignment,
/// `eval(A) * eval(B) = eval(C)` in the field.
pub proof fn lemma_cubic_constraints_hold(
    pre: ConstraintSystem,
    post: ConstraintSystem,
    x: Option<u64>,
)
    requires
        pre.wf(),
        pre.mode == SynthesisMode::Prove,
        x is Some,
        x->Some_0 < pre.modulus,
        pre.vars@.len() + 4 <= usize::MAX,
        cubic_synthesized(pre, post, x),
    ensures
        forall|i: int|
            pre.constraints@.len() <= i < post.constraints@.len() ==> constraint_holds(
                post.modulus,
                #[trigger] post.constraints@[i],
                values_of(post.vars@),
            ),
{
    let m = pre.modulus;
    let n = pre.vars@.len() as int;
    let k = pre.constraints@.len() as int;
    let xv = x->Some_0;
    let xsq = cubic_xsq(m, xv);
    let xcu = cubic_xcube(m, xv);
    let out = cubic_out(m, xv);
    let vx = Variable::Slot(n as usize);
    let vsq = Variable::Slot((n + 1) as usize);
    let vcu = Variable::Slot((n + 2) as usize);
    let vout = Variable::Slot((n + 3) as usize);
    let values = values_of(post.vars@);
    assert(var_value(values, vx) == xv);
    assert(var_value(values, vsq) == xsq);
    assert(var_value(values, vcu) == xcu);
    assert(var_value(values, vout) == out);
    crate::field::lemma_fmul_bound(m, xv, xv);
    crate::field::lemma_fmul_bound(m, xsq, xv);
    crate::field::lemma_fadd_bound(m, fadd(m, xcu, xv), cubic_const(m));
    lemma_eval_single(m, 1u64, vx, values);
    lemma_eval_single(m, 1u64, vsq, values);
    lemma_eval_single(m, 1u64, vcu, values);
    lemma_eval_single(m, 1u64, vout, values);
    lemma_eval_single(m, 1u64, Variable::One, values);
    crate::field::lemma_fmul_one(m, xv);
    crate::field::lemma_fmul_one(m, xsq);
    crate::field::lemma_fmul_one(m, xcu);
    crate::field::lemma_fmul_one(m, out);
    crate::field::lemma_fmul_one(m, 1u64);
    lemma_eval_output_lhs(m, vcu, vx, values, xcu, xv);
    assert(constraint_holds(m, post.constraints@[k], values));
    assert(constraint_holds(m, post.constraints@[k + 1], values));
    assert(constraint_holds(m, post.constraints@[k + 2], values));
}

/// Acceptance of the honest statement: a proving-mode cubic pass over a
/// fresh system leaves a fully assigned system whose every constraint
/// holds, so the satisfaction check accepts it.
pub proof fn lemma_cubic_accepted(pre: ConstraintSystem, post: ConstraintSystem, x: u64)
    requires
        pre.wf(),
        pre.mode == SynthesisMode::Prove,
        pre.vars@.len() == 0,
        pre.constraints@.len() == 0,
        x < pre.modulus,
        cubic_synthesized(pre, post, Some(x)),
    ensures
        crate::r1cs::constraints_assigned(post.constraints@, values_of(post.vars@)),
        crate::r1cs::constraints_hold(post.modulus, post.constraints@, values_of(post.vars@)),
{
    lemma_cubic_constraints_hold(pre, post, Some(x));
    let values = values_of(post.vars@);
    assert forall|i: int| 0 <= i < post.constraints@.len() implies crate::r1cs::constraint_assigned(
        #[trigger] post.constraints@[i],
        values,
    ) by {
        let vx = Variable::Slot(0);
        let vsq = Variable::Slot(1);
        let vcu = Variable::Slot(2);
        let vout = Variable::Slot(3);
        assert(crate::r1cs::var_assigned(values, vx));
        assert(crate::r1cs::var_assigned(values, vsq));
        assert(crate::r1cs::var_assigned(values, vcu));
        assert(crate::r1cs::var_assigned(values, vout));
    }
}

/// The public statement of a proving-mode cubic pass: the one public
/// input carries exactly `x^3 + x + 5` in the field.
pub proof fn lemma_cubic_public_input(pre: ConstraintSystem, post: ConstraintSystem, x: u64)
    requires
        pre.wf(),
        pre.mode == SynthesisMode::Prove,
        x < pre.modulus,
        cubic_synthesized(pre, post, Some(x)),
    ensures
        post.vars@[pre.vars@.len() as int + 3].kind == VarKind::PublicInput,
        post.vars@[pre.vars@.len() as int + 3].value == Some(cubic_out(pre.modulus, x)),
        cubic_out(pre.modulus, x) as int == ((x as int) * (x as int) * (x as int) + x + 5) % (
        pre.modulus as int),
{
    lemma_cubic_out_formula(pre.modulus, x);
}

/// A cubic pass over a fresh system leaves a public statement of exactly
/// one value: the circuit's output.
pub proof fn lemma_cubic_statement(pre: ConstraintSystem, post: ConstraintSystem, x: u64)
    requires
        pre.wf(),
        pre.mode == SynthesisMode::Prove,
        pre.vars@.len() == 0,
        x < pre.modulus,
        cubic_synthesized(pre, post, Some(x)),
    ensures
        crate::r1cs::public_statement(post.vars@) == seq![Some(cubic_out(pre.modulus, x))],
{
    reveal_with_fuel(Seq::filter, 6);
    let v = post.vars@;
    assert(v.drop_last().drop_last().drop_last().drop_last() =~= Seq::<crate::r1cs::VarEntry>::empty());
    assert(crate::r1cs::public_statement(v) =~= seq![Some(cubic_out(pre.modulus, x))]);
}

/// The closed form of the circuit's output: `(x^3 + x + 5) mod m`.
pub proof fn lemma_cubic_out_formula(m: u64, x: u64)
    requires
        m >= 2,
        x < m,
    ensures
        cubic_out(m, x) as int == ((x as int) * (x as int) * (x as int) + x + 5) % (m as int),
{
    let mi = m as int;
    let xi = x as int;
    vstd::arithmetic::div_mod::lemma_mod_division_less_than_divisor(xi * xi, mi);
    vstd::arithmetic::div_mod::lemma_mod_division_less_than_divisor(xi * xi * xi, mi);
    vstd::arithmetic::div_mod::lemma_mod_division_less_than_divisor(xi * xi * xi + xi, mi);
    vstd::arithmetic::div_mod::lemma_mod_division_less_than_divisor(5, mi);
    assert(cubic_xsq(m, x) as int == (xi * xi) % mi);
    vstd::arithmetic::div_mod::lemma_mul_mod_noop_left(xi * xi, xi, mi);
    assert(cubic_xcube(m, x) as int == (xi * xi * xi) % mi);
    vstd::arithmetic::div_mod::lemma_small_mod(x as nat, m as nat);
    vstd::arithmetic::div_mod::lemma_add_mod_noop(xi * xi * xi, xi, mi);
    assert(fadd(m, cubic_xcube(m, x), x) as int == (xi * xi * xi + xi) % mi);
    vstd::arithmetic::div_mod::lemma_add_mod_noop(xi * xi * xi + xi, 5, mi);
    assert(cubic_out(m, x) as int == (xi * xi * xi + xi + 5) % mi);
}

/// Shape invariance: two cubic passes over systems of equal size and
/// modulus append the same variable kinds and the same constraints,
/// whatever values each pass carried — in particular, a setup pass and a
/// proving pass agree on the circuit's topology.
pub proof fn lemma_cubic_shape_invariance(
    pre1: ConstraintSystem,
    post1: ConstraintSystem,
    x1: Option<u64>,
    pre2: ConstraintSystem,
    post2: ConstraintSystem,
    x2: Option<u64>,
)
    requires
        cubic_synthesized(pre1, post1, x1),
        cubic_synthesized(pre2, post2, x2),
        pre1.modulus == pre2.modulus,
        pre1.vars@.len() == pre2.vars@.len(),
        pre1.constraints@.len() == pre2.constraints@.len(),
    ensures
        post1.vars@.len() == post2.vars@.len(),
        forall|i: int|
            pre1.vars@.len() <= i < post1.vars@.len() ==> post1.vars@[i].kind
                == #[trigger] post2.vars@[i].kind,
        post1.constraints@.len() == post2.constraints@.len(),
        forall|i: int|
            pre1.constraints@.len() <= i < post1.constraints@.len()
                ==> #[trigger] post1.constraints@[i].a@ == post2.constraints@[i].a@
                && post1.constraints@[i].b@ == post2.constraints@[i].b@
                && post1.constraints@[i].c@ == post2.constraints@[i].c@,
{
}

/// Rejection of a wrong statement: replace the recorded public output of
/// a proving-mode cubic pass with any other residue, and the output
/// constraint no longer holds.
pub proof fn lemma_cubic_rejects_wrong_output(
    pre: ConstraintSystem,
    post: ConstraintSystem,
    x: u64,
    claimed: u64,
)
    requires
        pre.wf(),
        pre.mode == SynthesisMode::Prove,
        x < pre.modulus,
        pre.vars@.len() + 4 <= usize::MAX,
        cubic_synthesized(pre, post, Some(x)),
        claimed < pre.modulus,
        claimed != cubic_out(pre.modulus, x),
    ensures
        !constraint_holds(
            post.modulus,
            post.constraints@[post.constraints@.len() - 1],
            values_of(post.vars@).update(pre.vars@.len() as int + 3, Some(claimed)),
        ),
{
    let m = pre.modulus;
    let n = pre.vars@.len() as int;
    let k = pre.constraints@.len() as int;
    let xv = x;
    let xcu = cubic_xcube(m, xv);
    let out = cubic_out(m, xv);
    let vx = Variable::Slot(n as usize);
    let vcu = Variable::Slot((n + 2) as usize);
    let vout = Variable::Slot((n + 3) as usize);
    let values = values_of(post.vars@).update(n + 3, Some(claimed));
    assert(var_value(values, vx) == xv);
    assert(var_value(values, vcu) == xcu);
    assert(var_value(values, vout) == claimed);
    crate::field::lemma_fmul_bound(m, cubic_xsq(m, xv), xv);
    crate::field::lemma_fadd_bound(m, fadd(m, xcu, xv), cubic_const(m));
    lemma_eval_output_lhs(m, vcu, vx, values, xcu, xv);
    lemma_eval_single(m, 1u64, Variable::One, values);
    lemma_eval_single(m, 1u64, vout, values);
    crate::field::lemma_fmul_one(m, 1u64);
    crate::field::lemma_fmul_one(m, out);
    crate::field::lemma_fmul_one(m, claimed);
}

impl ConstraintSynthesizer for CubicCircuit {
    open spec fn values_wf(&self, m: u64) -> bool {
        match self.x {
            Some(v) => v < m,
            None => true,
        }
    }

    fn generate_constraints(self, cs: &mut ConstraintSystem) -> (r: Result<(), SynthesisError>)
        ensures
            (r is Ok <==> (old(cs).mode == SynthesisMode::Setup || self.x is Some)),
            r is Err ==> *final(cs) == *old(cs) && r == Err::<(), SynthesisError>(
                SynthesisError::AssignmentMissing,
            ),
            r is Ok ==> cubic_synthesized(*old(cs), *final(cs), self.x),
    {
        let ghost pre = *cs;
        let m = cs.modulus;
        let x_val = self.x;
        let x = match cs.new_witness_variable(x_val) {
            Ok(v) => v,
            Err(e) => {
                proof {
                    assert(cs.vars@.take(pre.vars@.len() as int) =~= cs.vars@);
                    assert(cs.constraints@.take(pre.constraints@.len() as int)
                        =~= cs.constraints@);
                }
                return Err(e);
            },
        };

        let x_square_val = match x_val {
            Some(v) => Some(mul_mod(m, v, v)),
            None => None,
        };
        let x_square = match cs.new_witness_variable(x_square_val) {
            Ok(v) => v,
            Err(e) => {
                return Err(e);
            },
        };

        let la = LinearCombination::new().add_var(x);
        let lb = LinearCombination::new().add_var(x);
        let lc = LinearCombination::new().add_var(x_square);
        proof {
            assert(la@ =~= seq![(1u64, x)]);
            assert(lb@ =~= seq![(1u64, x)]);
            assert(lc@ =~= seq![(1u64, x_square)]);
        }
        match cs.enforce_constraint(la, lb, lc) {
            Ok(_) => {},
            Err(e) => {
                return Err(e);
            },
        };

        let x_cube_val = match (x_square_val, x_val) {
            (Some(sq), Some(xv)) => Some(mul_mod(m, sq, xv)),
            _ => None,
        };
        let x_cube = match cs.new_witness_variable(x_cube_val) {
            Ok(v) => v,
            Err(e) => {
                return Err(e);
            },
        };

        let la2 = LinearCombination::new().add_var(x_square);
        let lb2 = LinearCombination::new().add_var(x);
        let lc2 = LinearCombination::new().add_var(x_cube);
        proof {
            assert(la2@ =~= seq![(1u64, x_square)]);
            assert(lb2@ =~= seq![(1u64, x)]);
            assert(lc2@ =~= seq![(1u64, x_cube)]);
        }
        match cs.enforce_constraint(la2, lb2, lc2) {
            Ok(_) => {},
            Err(e) => {
                return Err(e);
            },
        };

        let five = from_u32(m, 5);
        let out_val = match (x_cube_val, x_val) {
            (Some(cu), Some(xv)) => Some(add_mod(m, add_mod(m, cu, xv), five)),
            _ => None,
        };
        let out = match cs.new_input_variable(out_val) {
            Ok(v) => v,
            Err(e) => {
                return Err(e);
            },
        };

        let la3 = LinearCombination::new().add_var(x_cube).add_var(x).add_term(
            five,
            constant_one(),
        );
        let lb3 = LinearCombination::new().add_var(constant_one());
        let lc3 = LinearCombination::new().add_var(out);
        proof {
            assert(la3@ =~= seq![(1u64, x_cube), (1u64, x), (five, Variable::One)]);
            assert(lb3@ =~= seq![(1u64, Variable::One)]);
            assert(lc3@ =~= seq![(1u64, out)]);
        }
        match cs.enforce_constraint(la3, lb3, lc3) {
            Ok(_) => {},
            Err(e) => {
                return Err(e);
            },
        };

        proof {
            assert(cs.vars@.take(pre.vars@.len() as int) =~= pre.vars@);
            assert(cs.constraints@.take(pre.constraints@.len() as int) =~= pre.constraints@);
        }
        Ok(())
    }
}

} // verus!
