//! Variables, linear combinations and the constraint system.
//!
//! A constraint system is an append-only store: circuits allocate witness
//! and public-input variables and enforce rank-1 constraints `A * B = C`
//! during a single synthesis pass, after which the system is read-only.
//! In setup mode the store records the shape alone (no values); in proving
//! mode every allocation carries a value and the store records a full
//! assignment.

use vstd::prelude::*;
use vstd::pervasive::VecAdditionalExecFns;
use crate::field::{fadd, fmul, add_mod, mul_mod};

verus! {

/// A handle to one allocated slot of a constraint system, or the
/// distinguished constant standing for the field element one. Whether a
/// slot holds a witness or a public input is tracked by the system, not by
/// the handle.
#[derive(Clone, Copy, PartialEq, Eq, Structural, Debug)]
pub enum Variable {
    /// The constant field element one; usable in any linear combination
    /// without costing an allocation.
    One,
    /// The variable allocated at this position of the system's variable
    /// list.
    Slot(usize),
}

/// The constant-one handle.
pub fn constant_one() -> (v: Variable)
    ensures
        v == Variable::One,
{
    Variable::One
}

/// Whether an allocated variable is a private witness or a public input.
#[derive(Clone, Copy, PartialEq, Eq, Structural, Debug)]
pub enum VarKind {
    Witness,
    PublicInput,
}

/// Whether a synthesis pass records values (proving) or shape alone
/// (setup).
#[derive(Clone, Copy, PartialEq, Eq, Structural, Debug)]
pub enum SynthesisMode {
    Setup,
    Prove,
}

/// The failures synthesis and evaluation can report.
#[derive(Clone, Copy, PartialEq, Eq, Structural, Debug)]
pub enum SynthesisError {
    /// A value provider had no value: expected during setup, a caller
    /// error during proving.
    AssignmentMissing,
    /// A linear combination referred to a variable that has no value in
    /// the assignment, or was never allocated in the system.
    UnassignedVariable,
}

/// One allocated slot: its kind, and its value when synthesis runs in
/// proving mode.
#[derive(Clone, Copy, PartialEq, Eq, Debug)]
pub struct VarEntry {
    pub kind: VarKind,
    pub value: Option<u64>,
}

/// A formal sum of coefficient-variable terms, `sum of c_i * v_i`.
#[derive(Clone, PartialEq, Eq, Debug)]
pub struct LinearCombination {
    pub terms: Vec<(u64, Variable)>,
}

impl View for LinearCombination {
    type V = Seq<(u64, Variable)>;

    open spec fn view(&self) -> Seq<(u64, Variable)> {
        self.terms@
    }
}

/// Whether `v` has a value under the assignment `values` (the constant one
/// always has one).
pub open spec fn var_assigned(values: Seq<Option<u64>>, v: Variable) -> bool {
    match v {
        Variable::One => true,
        Variable::Slot(j) => j < values.len() && values[j as int] is Some,
    }
}

/// The value of `v` under the assignment `values`; meaningful only where
/// `var_assigned` holds.
pub open spec fn var_value(values: Seq<Option<u64>>, v: Variable) -> u64 {
    match v {
        Variable::One => 1u64,
        Variable::Slot(j) => if j < values.len() {
            match values[j as int] {
                Some(x) => x,
                None => 0u64,
            }
        } else {
            0u64
        },
    }
}

/// Whether every variable of the term sequence has a value under
/// `values`.
pub open spec fn lc_assigned(terms: Seq<(u64, Variable)>, values: Seq<Option<u64>>) -> bool {
    forall|i: int| 0 <= i < terms.len() ==> var_assigned(values, #[trigger] terms[i].1)
}

/// The residue a term sequence evaluates to under `values`:
/// `sum of c_i * value(v_i)` modulo `m`.
pub open spec fn eval_terms(m: u64, terms: Seq<(u64, Variable)>, values: Seq<Option<u64>>) -> u64
    decreases terms.len(),
{
    if terms.len() == 0 {
        0u64
    } else {
        fadd(
            m,
            eval_terms(m, terms.drop_last(), values),
            fmul(m, terms.last().0, var_value(values, terms.last().1)),
        )
    }
}

/// Evaluation stays below the modulus.
pub proof fn lemma_eval_terms_bound(m: u64, terms: Seq<(u64, Variable)>, values: Seq<Option<u64>>)
    requires
        m >= 2,
    ensures
        eval_terms(m, terms, values) < m,
    decreases terms.len(),
{
    if terms.len() == 0 {
    } else {
        crate::field::lemma_fadd_bound(
            m,
            eval_terms(m, terms.drop_last(), values),
            fmul(m, terms.last().0, var_value(values, terms.last().1)),
        );
    }
}

/// A one-term combination evaluates to its single term.
pub proof fn lemma_eval_single(m: u64, c: u64, v: Variable, values: Seq<Option<u64>>)
    requires
        m >= 2,
    ensures
        eval_terms(m, seq![(c, v)], values) == fmul(m, c, var_value(values, v)),
{
    let s = seq![(c, v)];
    assert(s.drop_last() =~= Seq::<(u64, Variable)>::empty());
    assert(s.last() == (c, v));
    assert(eval_terms(m, s.drop_last(), values) == 0);
    assert(eval_terms(m, s, values) == fadd(m, 0, fmul(m, c, var_value(values, v))));
    crate::field::lemma_fmul_bound(m, c, var_value(values, v));
    crate::field::lemma_fadd_zero(m, fmul(m, c, var_value(values, v)));
}

/// Extending a combination by one term adds that term's contribution.
pub proof fn lemma_eval_push(
    m: u64,
    s: Seq<(u64, Variable)>,
    c: u64,
    v: Variable,
    values: Seq<Option<u64>>,
)
    requires
        m >= 2,
    ensures
        eval_terms(m, s.push((c, v)), values) == fadd(
            m,
            eval_terms(m, s, values),
            fmul(m, c, var_value(values, v)),
        ),
{
    assert(s.push((c, v)).drop_last() =~= s);
    assert(s.push((c, v)).last() == (c, v));
}

/// Evaluation is additive over concatenation of term sequences.
pub proof fn lemma_eval_terms_concat(
    m: u64,
    s1: Seq<(u64, Variable)>,
    s2: Seq<(u64, Variable)>,
    values: Seq<Option<u64>>,
)
    requires
        m >= 2,
    ensures
        eval_terms(m, s1 + s2, values) == fadd(
            m,
            eval_terms(m, s1, values),
            eval_terms(m, s2, values),
        ),
    decreases s2.len(),
{
    lemma_eval_terms_bound(m, s1, values);
    if s2.len() == 0 {
        assert(s1 + s2 =~= s1);
        crate::field::lemma_fadd_zero(m, eval_terms(m, s1, values));
    } else {
        let whole = s1 + s2;
        assert(whole.drop_last() =~= s1 + s2.drop_last());
        assert(whole.last() == s2.last());
        lemma_eval_terms_concat(m, s1, s2.drop_last(), values);
        let e1 = eval_terms(m, s1, values);
        let e2 = eval_terms(m, s2.drop_last(), values);
        let t = fmul(m, s2.last().0, var_value(values, s2.last().1));
        lemma_eval_terms_bound(m, s2.drop_last(), values);
        crate::field::lemma_fmul_bound(m, s2.last().0, var_value(values, s2.last().1));
        crate::field::lemma_fadd_assoc(m, e1, e2, t);
    }
}

/// The first position at which `v` occurs in the term sequence, or -1
/// where it does not occur.
pub open spec fn find_var(s: Seq<(u64, Variable)>, v: Variable) -> int
    decreases s.len(),
{
    if s.len() == 0 {
        -1
    } else if s.first().1 == v {
        0
    } else {
        let r = find_var(s.drop_first(), v);
        if r == -1 {
            -1
        } else {
            r + 1
        }
    }
}

/// `find_var` returns the first occurrence, or -1 where there is none.
pub proof fn lemma_find_var(s: Seq<(u64, Variable)>, v: Variable)
    ensures
        -1 <= find_var(s, v) < s.len(),
        find_var(s, v) >= 0 ==> s[find_var(s, v)].1 == v,
        find_var(s, v) == -1 ==> forall|j: int| 0 <= j < s.len() ==> (#[trigger] s[j]).1 != v,
    decreases s.len(),
{
    if s.len() == 0 {
    } else if s.first().1 == v {
    } else {
        let t = s.drop_first();
        lemma_find_var(t, v);
        if find_var(s, v) == -1 {
            assert forall|j: int| 0 <= j < s.len() implies (#[trigger] s[j]).1 != v by {
                if j >= 1 {
                    assert(t[j - 1] == s[j]);
                }
            }
        }
    }
}

/// A position whose earlier positions all miss `v` is the first
/// occurrence.
proof fn lemma_find_var_first(s: Seq<(u64, Variable)>, v: Variable, j: int)
    requires
        0 <= j < s.len(),
        s[j].1 == v,
        forall|k: int| 0 <= k < j ==> (#[trigger] s[k]).1 != v,
    ensures
        find_var(s, v) == j,
    decreases s.len(),
{
    if j == 0 {
    } else {
        let t = s.drop_first();
        assert(forall|k: int| 0 <= k < t.len() ==> #[trigger] t[k] == s[k + 1]);
        lemma_find_var_first(t, v, j - 1);
    }
}

/// One step of the term-wise merge: add `c * v` into the sequence,
/// summing coefficients in the field where `v` already occurs and
/// appending a fresh term where it does not.
pub open spec fn insert_term(
    m: u64,
    s: Seq<(u64, Variable)>,
    c: u64,
    v: Variable,
) -> Seq<(u64, Variable)> {
    let i = find_var(s, v);
    if i >= 0 {
        s.update(i, (fadd(m, s[i].0, c), v))
    } else {
        s.push((c, v))
    }
}

/// The term-wise merge of two term sequences: each term of `s2` added
/// into `s1` in order, coefficients for the same variable summed in the
/// field.
pub open spec fn merge_terms(
    m: u64,
    s1: Seq<(u64, Variable)>,
    s2: Seq<(u64, Variable)>,
) -> Seq<(u64, Variable)>
    decreases s2.len(),
{
    if s2.len() == 0 {
        s1
    } else {
        merge_terms(m, insert_term(m, s1, s2.first().0, s2.first().1), s2.drop_first())
    }
}

/// Merging from the back: the last term of the right operand is the last
/// insertion.
proof fn lemma_merge_terms_snoc(
    m: u64,
    s1: Seq<(u64, Variable)>,
    s2: Seq<(u64, Variable)>,
    c: u64,
    v: Variable,
)
    ensures
        merge_terms(m, s1, s2.push((c, v))) == insert_term(m, merge_terms(m, s1, s2), c, v),
    decreases s2.len(),
{
    let p = s2.push((c, v));
    if s2.len() == 0 {
        assert(p.first() == (c, v));
        assert(p.drop_first() =~= Seq::<(u64, Variable)>::empty());
        assert(merge_terms(m, s1, p) == merge_terms(
            m,
            insert_term(m, s1, c, v),
            p.drop_first(),
        ));
        assert(merge_terms(m, insert_term(m, s1, c, v), p.drop_first()) == insert_term(
            m,
            s1,
            c,
            v,
        ));
    } else {
        assert(p.first() == s2.first());
        assert(p.drop_first() =~= s2.drop_first().push((c, v)));
        lemma_merge_terms_snoc(
            m,
            insert_term(m, s1, s2.first().0, s2.first().1),
            s2.drop_first(),
            c,
            v,
        );
    }
}

/// Folding `c` into the coefficient at position `i` adds `c * value`
/// to the evaluation.
proof fn lemma_eval_update_add(
    m: u64,
    s: Seq<(u64, Variable)>,
    i: int,
    c: u64,
    values: Seq<Option<u64>>,
)
    requires
        m >= 2,
        0 <= i < s.len(),
    ensures
        eval_terms(m, s.update(i, (fadd(m, s[i].0, c), s[i].1)), values) == fadd(
            m,
            eval_terms(m, s, values),
            fmul(m, c, var_value(values, s[i].1)),
        ),
    decreases s.len(),
{
    let v = s[i].1;
    let ci = s[i].0;
    let tnew = fmul(m, c, var_value(values, v));
    let s2 = s.update(i, (fadd(m, ci, c), v));
    let e = eval_terms(m, s.drop_last(), values);
    lemma_eval_terms_bound(m, s.drop_last(), values);
    crate::field::lemma_fmul_bound(m, c, var_value(values, v));
    if i == s.len() - 1 {
        assert(s2.drop_last() =~= s.drop_last());
        assert(s2.last() == (fadd(m, ci, c), v));
        crate::field::lemma_fmul_distributes(m, ci, c, var_value(values, v));
        crate::field::lemma_fmul_bound(m, ci, var_value(values, v));
        crate::field::lemma_fadd_assoc(m, e, fmul(m, ci, var_value(values, v)), tnew);
    } else {
        assert(s2.drop_last() =~= s.drop_last().update(i, (fadd(m, ci, c), v)));
        assert(s.drop_last()[i] == s[i]);
        assert(s2.last() == s.last());
        lemma_eval_update_add(m, s.drop_last(), i, c, values);
        let tl = fmul(m, s.last().0, var_value(values, s.last().1));
        crate::field::lemma_fmul_bound(m, s.last().0, var_value(values, s.last().1));
        crate::field::lemma_fadd_assoc(m, e, tnew, tl);
        crate::field::lemma_fadd_comm(m, tnew, tl);
        crate::field::lemma_fadd_assoc(m, e, tl, tnew);
    }
}

/// One merge step adds the inserted term's contribution to the
/// evaluation.
pub proof fn lemma_eval_insert_term(
    m: u64,
    s: Seq<(u64, Variable)>,
    c: u64,
    v: Variable,
    values: Seq<Option<u64>>,
)
    requires
        m >= 2,
    ensures
        eval_terms(m, insert_term(m, s, c, v), values) == fadd(
            m,
            eval_terms(m, s, values),
            fmul(m, c, var_value(values, v)),
        ),
{
    let i = find_var(s, v);
    lemma_find_var(s, v);
    if i >= 0 {
        lemma_eval_update_add(m, s, i, c, values);
    } else {
        lemma_eval_push(m, s, c, v, values);
    }
}

/// The merged combination evaluates to the modular sum of the two
/// evaluations: the semantic content of `LinearCombination::add_lc`.
pub proof fn lemma_eval_merge_terms(
    m: u64,
    s1: Seq<(u64, Variable)>,
    s2: Seq<(u64, Variable)>,
    values: Seq<Option<u64>>,
)
    requires
        m >= 2,
    ensures
        eval_terms(m, merge_terms(m, s1, s2), values) == fadd(
            m,
            eval_terms(m, s1, values),
            eval_terms(m, s2, values),
        ),
    decreases s2.len(),
{
    lemma_eval_terms_bound(m, s1, values);
    if s2.len() == 0 {
        crate::field::lemma_fadd_zero(m, eval_terms(m, s1, values));
    } else {
        let t = s2.first();
        let rest = s2.drop_first();
        let ins = insert_term(m, s1, t.0, t.1);
        lemma_eval_insert_term(m, s1, t.0, t.1, values);
        lemma_eval_merge_terms(m, ins, rest, values);
        assert(s2 =~= seq![t] + rest);
        lemma_eval_terms_concat(m, seq![t], rest, values);
        lemma_eval_single(m, t.0, t.1, values);
        let e1 = eval_terms(m, s1, values);
        let tv = fmul(m, t.0, var_value(values, t.1));
        let er = eval_terms(m, rest, values);
        crate::field::lemma_fmul_bound(m, t.0, var_value(values, t.1));
        lemma_eval_terms_bound(m, rest, values);
        crate::field::lemma_fadd_assoc(m, e1, tv, er);
    }
}

/// Whether every variable of the term sequence points at an allocated slot
/// of a system with `n` variables.
pub open spec fn lc_in_range(terms: Seq<(u64, Variable)>, n: nat) -> bool {
    forall|i: int| 0 <= i < terms.len() ==> match #[trigger] terms[i].1 {
        Variable::One => true,
        Variable::Slot(j) => j < n,
    }
}

impl LinearCombination {
    /// The empty combination; it evaluates to zero.
    pub fn new() -> (r: LinearCombination)
        ensures
            r@ =~= Seq::<(u64, Variable)>::empty(),
    {
        LinearCombination { terms: Vec::new() }
    }

    /// Extends the combination with the term `coeff * var`.
    pub fn add_term(self, coeff: u64, var: Variable) -> (r: LinearCombination)
        ensures
            r@ == self@.push((coeff, var)),
    {
        let mut terms = self.terms;
        terms.push((coeff, var));
        LinearCombination { terms }
    }

    /// Extends the combination with the variable at coefficient one:
    /// sugar for `add_term(1, var)`.
    pub fn add_var(self, var: Variable) -> (r: LinearCombination)
        ensures
            r@ == self@.push((1u64, var)),
    {
        self.add_term(1, var)
    }

    /// Adds `other` into this combination, term-wise: coefficients for
    /// the same variable are summed in the field, fresh variables are
    /// appended in order. The result evaluates to the modular sum of the
    /// two evaluations (`lemma_eval_merge_terms`).
    pub fn add_lc(self, m: u64, other: &LinearCombination) -> (r: LinearCombination)
        requires
            m >= 1,
        ensures
            r@ == merge_terms(m, self@, other@),
    {
        let mut terms = self.terms;
        let n = other.terms.len();
        let mut i: usize = 0;
        while i < n
            invariant
                m >= 1,
                n == other.terms@.len(),
                i <= n,
                terms@ == merge_terms(m, self.terms@, other.terms@.take(i as int)),
            decreases n - i,
        {
            let (c, v) = other.terms[i];
            match find_first(&terms, v) {
                Some(j) => {
                    let c0 = terms[j].0;
                    proof {
                        lemma_find_var(terms@, v);
                    }
                    terms.set(j, (add_mod(m, c0, c), v));
                },
                None => {
                    terms.push((c, v));
                },
            }
            proof {
                assert(other.terms@.take(i + 1) =~= other.terms@.take(i as int).push((c, v)));
                lemma_merge_terms_snoc(m, self.terms@, other.terms@.take(i as int), c, v);
            }
            i = i + 1;
        }
        proof {
            assert(other.terms@.take(n as int) =~= other.terms@);
        }
        LinearCombination { terms }
    }

    /// Evaluates the combination under `values`: the modular sum of
    /// `c_i * value(v_i)`. Reports `UnassignedVariable` exactly when a
    /// referenced variable has no value.
    pub fn evaluate(&self, m: u64, values: &Vec<Option<u64>>) -> (r: Result<u64, SynthesisError>)
        requires
            m >= 2,
        ensures
            lc_assigned(self@, values@) ==> r == Ok::<u64, SynthesisError>(
                eval_terms(m, self@, values@),
            ),
            !lc_assigned(self@, values@) ==> r == Err::<u64, SynthesisError>(
                SynthesisError::UnassignedVariable,
            ),
            r is Ok ==> r.unwrap() < m,
    {
        let n = self.terms.len();
        let mut acc: u64 = 0;
        let mut i: usize = 0;
        while i < n
            invariant
                m >= 2,
                n == self.terms@.len(),
                i <= n,
                acc == eval_terms(m, self.terms@.take(i as int), values@),
                acc < m,
                lc_assigned(self.terms@.take(i as int), values@),
            decreases n - i,
        {
            let (coeff, var) = self.terms[i];
            let val: u64 = match var {
                Variable::One => 1,
                Variable::Slot(j) => {
                    if j >= values.len() {
                        return Err(SynthesisError::UnassignedVariable);
                    }
                    match values[j] {
                        Some(x) => x,
                        None => {
                            return Err(SynthesisError::UnassignedVariable);
                        },
                    }
                },
            };
            proof {
                assert(val == var_value(values@, var));
                assert(var_assigned(values@, var));
            }
            let next = add_mod(m, acc, mul_mod(m, coeff, val));
            proof {
                let pre = self.terms@.take(i as int);
                let ext = self.terms@.take(i + 1);
                assert(ext.drop_last() =~= pre);
                assert(ext.last() == self.terms@[i as int]);
                assert(lc_assigned(ext, values@)) by {
                    assert(forall|k: int| 0 <= k < ext.len() ==> ext[k] == if k < i {
                        pre[k]
                    } else {
                        self.terms@[i as int]
                    });
                }
            }
            acc = next;
            i = i + 1;
        }
        proof {
            assert(self.terms@.take(n as int) =~= self.terms@);
        }
        Ok(acc)
    }
}

/// One rank-1 constraint: the assertion `A * B = C` once the three linear
/// combinations are evaluated under an assignment.
#[derive(Clone, PartialEq, Eq, Debug)]
pub struct Constraint {
    pub a: LinearCombination,
    pub b: LinearCombination,
    pub c: LinearCombination,
}

/// Whether every variable of a constraint has a value under `values`.
pub open spec fn constraint_assigned(c: Constraint, values: Seq<Option<u64>>) -> bool {
    lc_assigned(c.a@, values) && lc_assigned(c.b@, values) && lc_assigned(c.c@, values)
}

/// Whether `eval(A) * eval(B) = eval(C)` holds in the field.
pub open spec fn constraint_holds(m: u64, c: Constraint, values: Seq<Option<u64>>) -> bool {
    fmul(m, eval_terms(m, c.a@, values), eval_terms(m, c.b@, values)) == eval_terms(
        m,
        c.c@,
        values,
    )
}

/// Whether every constraint of the sequence is fully assigned.
pub open spec fn constraints_assigned(cs: Seq<Constraint>, values: Seq<Option<u64>>) -> bool {
    forall|i: int| 0 <= i < cs.len() ==> constraint_assigned(#[trigger] cs[i], values)
}

/// Whether every constraint of the sequence holds under `values`.
pub open spec fn constraints_hold(m: u64, cs: Seq<Constraint>, values: Seq<Option<u64>>) -> bool {
    forall|i: int| 0 <= i < cs.len() ==> constraint_holds(m, #[trigger] cs[i], values)
}

/// The per-slot values of a variable list: the assignment the system
/// carries in proving mode.
pub open spec fn values_of(vars: Seq<VarEntry>) -> Seq<Option<u64>> {
    vars.map_values(|e: VarEntry| e.value)
}

/// The ordered public statement of a variable list: the values of the
/// public-input slots, in allocation order.
pub open spec fn public_statement(vars: Seq<VarEntry>) -> Seq<Option<u64>> {
    vars.filter(|e: VarEntry| e.kind == VarKind::PublicInput).map_values(
        |e: VarEntry| e.value,
    )
}

/// What a well-formed slot looks like in each mode: no value during
/// setup, a residue below the modulus during proving.
pub open spec fn entry_wf(e: VarEntry, mode: SynthesisMode, m: u64) -> bool {
    match mode {
        SynthesisMode::Setup => e.value is None,
        SynthesisMode::Prove => match e.value {
            Some(v) => v < m,
            None => false,
        },
    }
}

/// An append-only store of allocated variables and enforced constraints,
/// owned by one synthesis pass.
pub struct ConstraintSystem {
    /// The field modulus; every stored value is a residue below it.
    pub modulus: u64,
    /// Setup (shape only) or proving (shape plus assignment).
    pub mode: SynthesisMode,
    /// The allocated variables, first-allocated-first-indexed.
    pub vars: Vec<VarEntry>,
    /// The enforced constraints, in enforcement order.
    pub constraints: Vec<Constraint>,
}

impl ConstraintSystem {
    /// Every slot fits the system's mode, and the modulus admits the
    /// distinct residues zero and one.
    pub open spec fn wf(&self) -> bool {
        &&& self.modulus >= 2
        &&& forall|i: int|
            0 <= i < self.vars@.len() ==> entry_wf(
                #[trigger] self.vars@[i],
                self.mode,
                self.modulus,
            )
    }

    /// A fresh, empty system for one synthesis pass.
    pub fn new(modulus: u64, mode: SynthesisMode) -> (r: ConstraintSystem)
        requires
            modulus >= 2,
        ensures
            r.wf(),
            r.modulus == modulus,
            r.mode == mode,
            r.vars@.len() == 0,
            r.constraints@.len() == 0,
    {
        ConstraintSystem { modulus, mode, vars: Vec::new(), constraints: Vec::new() }
    }

    fn allocate(&mut self, kind: VarKind, value: Option<u64>) -> (r: Result<
        Variable,
        SynthesisError,
    >)
        requires
            old(self).wf(),
            match value {
                Some(v) => v < old(self).modulus,
                None => true,
            },
        ensures
            final(self).wf(),
            final(self).modulus == old(self).modulus,
            final(self).mode == old(self).mode,
            final(self).constraints@ == old(self).constraints@,
            old(self).mode == SynthesisMode::Prove && value is None ==> r == Err::<
                Variable,
                SynthesisError,
            >(SynthesisError::AssignmentMissing) && *final(self) == *old(self),
            old(self).mode == SynthesisMode::Setup || value is Some ==> r == Ok::<
                Variable,
                SynthesisError,
            >(Variable::Slot(old(self).vars@.len() as usize)) && final(self).vars@ == old(
                self,
            ).vars@.push(
                VarEntry {
                    kind,
                    value: if old(self).mode == SynthesisMode::Prove {
                        value
                    } else {
                        None
                    },
                },
            ),
    {
        match self.mode {
            SynthesisMode::Prove => {
                match value {
                    None => Err(SynthesisError::AssignmentMissing),
                    Some(v) => {
                        let idx = self.vars.len();
                        self.vars.push(VarEntry { kind, value: Some(v) });
                        Ok(Variable::Slot(idx))
                    },
                }
            },
            SynthesisMode::Setup => {
                let idx = self.vars.len();
                self.vars.push(VarEntry { kind, value: None });
                Ok(Variable::Slot(idx))
            },
        }
    }

    /// Allocates a fresh private witness variable. The provided value is
    /// required in proving mode (its absence is the caller's error,
    /// reported as `AssignmentMissing`) and ignored in setup mode, where
    /// only the shape is recorded.
    pub fn new_witness_variable(&mut self, value: Option<u64>) -> (r: Result<
        Variable,
        SynthesisError,
    >)
        requires
            old(self).wf(),
            match value {
                Some(v) => v < old(self).modulus,
                None => true,
            },
        ensures
            final(self).wf(),
            final(self).modulus == old(self).modulus,
            final(self).mode == old(self).mode,
            final(self).constraints@ == old(self).constraints@,
            old(self).mode == SynthesisMode::Prove && value is None ==> r == Err::<
                Variable,
                SynthesisError,
            >(SynthesisError::AssignmentMissing) && *final(self) == *old(self),
            old(self).mode == SynthesisMode::Setup || value is Some ==> r == Ok::<
                Variable,
                SynthesisError,
            >(Variable::Slot(old(self).vars@.len() as usize)) && final(self).vars@ == old(
                self,
            ).vars@.push(
                VarEntry {
                    kind: VarKind::Witness,
                    value: if old(self).mode == SynthesisMode::Prove {
                        value
                    } else {
                        None
                    },
                },
            ),
    {
        self.allocate(VarKind::Witness, value)
    }

    /// Allocates a fresh public-input variable. The ordered sequence of
    /// public-input values forms the statement a verifier later checks,
    /// so allocation order is positional meaning.
    pub fn new_input_variable(&mut self, value: Option<u64>) -> (r: Result<
        Variable,
        SynthesisError,
    >)
        requires
            old(self).wf(),
            match value {
                Some(v) => v < old(self).modulus,
                None => true,
            },
        ensures
            final(self).wf(),
            final(self).modulus == old(self).modulus,
            final(self).mode == old(self).mode,
            final(self).constraints@ == old(self).constraints@,
            old(self).mode == SynthesisMode::Prove && value is None ==> r == Err::<
                Variable,
                SynthesisError,
            >(SynthesisError::AssignmentMissing) && *final(self) == *old(self),
            old(self).mode == SynthesisMode::Setup || value is Some ==> r == Ok::<
                Variable,
                SynthesisError,
            >(Variable::Slot(old(self).vars@.len() as usize)) && final(self).vars@ == old(
                self,
            ).vars@.push(
                VarEntry {
                    kind: VarKind::PublicInput,
                    value: if old(self).mode == SynthesisMode::Prove {
                        value
                    } else {
                        None
                    },
                },
            ),
    {
        self.allocate(VarKind::PublicInput, value)
    }

    /// Appends the constraint `a * b = c`. Nothing is evaluated here;
    /// the call fails only where a referenced variable was never
    /// allocated in this system.
    pub fn enforce_constraint(
        &mut self,
        a: LinearCombination,
        b: LinearCombination,
        c: LinearCombination,
    ) -> (r: Result<(), SynthesisError>)
        requires
            old(self).wf(),
        ensures
            final(self).wf(),
            final(self).modulus == old(self).modulus,
            final(self).mode == old(self).mode,
            final(self).vars@ == old(self).vars@,
            ({
                let n = old(self).vars@.len();
                if lc_in_range(a@, n) && lc_in_range(b@, n) && lc_in_range(c@, n) {
                    r == Ok::<(), SynthesisError>(()) && final(self).constraints@ == old(
                        self,
                    ).constraints@.push(Constraint { a, b, c })
                } else {
                    r == Err::<(), SynthesisError>(SynthesisError::UnassignedVariable)
                        && final(self).constraints@ == old(self).constraints@
                }
            }),
    {
        let n = self.vars.len();
        if lc_vars_allocated(&a, n) && lc_vars_allocated(&b, n) && lc_vars_allocated(&c, n) {
            self.constraints.push(Constraint { a, b, c });
            Ok(())
        } else {
            Err(SynthesisError::UnassignedVariable)
        }
    }

    /// The per-slot assignment the system carries: one optional value per
    /// allocated variable.
    pub fn assignment(&self) -> (r: Vec<Option<u64>>)
        ensures
            r@ == values_of(self.vars@),
    {
        let n = self.vars.len();
        let mut r: Vec<Option<u64>> = Vec::new();
        let mut i: usize = 0;
        while i < n
            invariant
                n == self.vars@.len(),
                i <= n,
                r@ =~= values_of(self.vars@.take(i as int)),
            decreases n - i,
        {
            r.push(self.vars[i].value);
            proof {
                assert(values_of(self.vars@.take(i + 1)) =~= values_of(
                    self.vars@.take(i as int),
                ).push(self.vars@[i as int].value));
            }
            i = i + 1;
        }
        proof {
            assert(self.vars@.take(n as int) =~= self.vars@);
        }
        r
    }

    /// The ordered sequence of public-input values: the statement a
    /// verifier later checks, positional meaning fixed by allocation
    /// order.
    pub fn public_inputs(&self) -> (r: Vec<Option<u64>>)
        ensures
            r@ == public_statement(self.vars@),
    {
        let n = self.vars.len();
        let mut r: Vec<Option<u64>> = Vec::new();
        let mut i: usize = 0;
        proof {
            reveal(Seq::filter);
            assert(self.vars@.take(0int) =~= Seq::<VarEntry>::empty());
            assert(r@ =~= public_statement(self.vars@.take(0int)));
        }
        while i < n
            invariant
                n == self.vars@.len(),
                i <= n,
                r@ == public_statement(self.vars@.take(i as int)),
            decreases n - i,
        {
            let entry = self.vars[i];
            match entry.kind {
                VarKind::PublicInput => {
                    r.push(entry.value);
                },
                VarKind::Witness => {},
            }
            proof {
                reveal(Seq::filter);
                let t0 = self.vars@.take(i as int);
                let t1 = self.vars@.take(i + 1);
                assert(t1.drop_last() =~= t0);
                assert(t1.last() == self.vars@[i as int]);
                if entry.kind == VarKind::PublicInput {
                    assert(public_statement(t1) =~= public_statement(t0).push(entry.value));
                } else {
                    assert(public_statement(t1) =~= public_statement(t0));
                }
            }
            i = i + 1;
        }
        proof {
            assert(self.vars@.take(n as int) =~= self.vars@);
        }
        r
    }

    /// Checks every enforced constraint against the stored assignment:
    /// the proving-mode satisfaction check. Reports `UnassignedVariable`
    /// where a constraint refers to a slot without a value, as happens in
    /// setup mode.
    pub fn is_satisfied(&self) -> (r: Result<bool, SynthesisError>)
        requires
            self.wf(),
        ensures
            constraints_assigned(self.constraints@, values_of(self.vars@)) ==> r == Ok::<
                bool,
                SynthesisError,
            >(constraints_hold(self.modulus, self.constraints@, values_of(self.vars@))),
            r is Err ==> !constraints_assigned(self.constraints@, values_of(self.vars@)) && r
                == Err::<bool, SynthesisError>(SynthesisError::UnassignedVariable),
            r == Ok::<bool, SynthesisError>(true) ==> constraints_assigned(
                self.constraints@,
                values_of(self.vars@),
            ) && constraints_hold(self.modulus, self.constraints@, values_of(self.vars@)),
            r == Ok::<bool, SynthesisError>(false) ==> !constraints_hold(
                self.modulus,
                self.constraints@,
                values_of(self.vars@),
            ),
    {
        let values = self.assignment();
        let m = self.modulus;
        let n = self.constraints.len();
        let mut i: usize = 0;
        while i < n
            invariant
                m == self.modulus,
                m >= 2,
                values@ == values_of(self.vars@),
                n == self.constraints@.len(),
                i <= n,
                forall|k: int|
                    0 <= k < i ==> constraint_assigned(#[trigger] self.constraints@[k], values@)
                        && constraint_holds(m, self.constraints@[k], values@),
            decreases n - i,
        {
            let cst = &self.constraints[i];
            let ea = match cst.a.evaluate(m, &values) {
                Ok(x) => x,
                Err(_) => {
                    return Err(SynthesisError::UnassignedVariable);
                },
            };
            let eb = match cst.b.evaluate(m, &values) {
                Ok(x) => x,
                Err(_) => {
                    return Err(SynthesisError::UnassignedVariable);
                },
            };
            let ec = match cst.c.evaluate(m, &values) {
                Ok(x) => x,
                Err(_) => {
                    return Err(SynthesisError::UnassignedVariable);
                },
            };
            if mul_mod(m, ea, eb) != ec {
                return Ok(false);
            }
            i = i + 1;
        }
        Ok(true)
    }
}

/// The first position holding variable `v`: the executable mirror of
/// `find_var`.
fn find_first(terms: &Vec<(u64, Variable)>, v: Variable) -> (r: Option<usize>)
    ensures
        match r {
            Some(j) => j == find_var(terms@, v) && j < terms@.len(),
            None => find_var(terms@, v) == -1,
        },
{
    let n = terms.len();
    let mut j: usize = 0;
    while j < n
        invariant
            n == terms@.len(),
            j <= n,
            forall|k: int| 0 <= k < j ==> (#[trigger] terms@[k]).1 != v,
        decreases n - j,
    {
        if terms[j].1 == v {
            proof {
                lemma_find_var_first(terms@, v, j as int);
            }
            return Some(j);
        }
        j = j + 1;
    }
    proof {
        lemma_find_var(terms@, v);
    }
    None
}

/// Whether every variable of the combination points below `n`: the
/// executable mirror of `lc_in_range`.
fn lc_vars_allocated(lc: &LinearCombination, n: usize) -> (r: bool)
    ensures
        r == lc_in_range(lc@, n as nat),
{
    let len = lc.terms.len();
    let mut i: usize = 0;
    while i < len
        invariant
            len == lc.terms@.len(),
            i <= len,
            forall|k: int| 0 <= k < i ==> match #[trigger] lc.terms@[k].1 {
                Variable::One => true,
                Variable::Slot(j) => j < n,
            },
        decreases len - i,
    {
        match lc.terms[i].1 {
            Variable::One => {},
            Variable::Slot(j) => {
                if j >= n {
                    return false;
                }
            },
        }
        i = i + 1;
    }
    true
}

/// The circuit abstraction: anything that can describe itself into a
/// constraint system, consuming its private values to allocate variables
/// and enforce constraints. Called exactly once per circuit instance and
/// synthesis pass.
pub trait ConstraintSynthesizer: Sized {
    /// What the circuit's private values must look like for the given
    /// modulus: each present value a canonical residue.
    spec fn values_wf(&self, m: u64) -> bool;

    /// Describes the circuit into `cs`: the one lifecycle operation.
    /// Whatever the outcome, the pass only appends: what was already in
    /// the system stays, and the modulus and mode are untouched.
    fn generate_constraints(self, cs: &mut ConstraintSystem) -> (r: Result<(), SynthesisError>)
        requires
            old(cs).wf(),
            self.values_wf(old(cs).modulus),
        ensures
            final(cs).wf(),
            final(cs).modulus == old(cs).modulus,
            final(cs).mode == old(cs).mode,
            final(cs).vars@.len() >= old(cs).vars@.len(),
            final(cs).vars@.take(old(cs).vars@.len() as int) == old(cs).vars@,
            final(cs).constraints@.len() >= old(cs).constraints@.len(),
            final(cs).constraints@.take(old(cs).constraints@.len() as int) == old(cs).constraints@,
    ;
}

} // verus!
