//! The constraint-system builder: a variable allocation table plus an
//! append-only set of constraints (A·x)·(B·x) = (C·x), driven either in setup
//! mode (no values, only topology) or in witness mode (a concrete
//! assignment). The two modes lay down identical structure by construction:
//! allocation never branches on whether a value is present.

use vstd::prelude::*;
use vstd::arithmetic::div_mod::{lemma_add_mod_noop, lemma_mul_mod_noop, lemma_small_mod};
use crate::scalar::{ScalarValue, field_modulus, field_add, field_mul};
use crate::lc::LinearCombination;

verus! {

/// How a synthesis run treats values: `Setup` stores none and never demands
/// one; `Witness` demands one at every allocation.
#[derive(Clone, Copy, Debug, PartialEq, Eq, Structural)]
pub enum SynthesisMode {
    Setup,
    Witness,
}

/// Verifier-side visibility of a variable. A `Public` variable's value is
/// part of the statement the verifier supplies; a `Private` one stays inside
/// the witness.
#[derive(Clone, Copy, Debug, PartialEq, Eq, Structural)]
pub enum VarKind {
    Private,
    Public,
}

/// What can go wrong while synthesizing or validating a circuit.
#[derive(Clone, Copy, Debug, PartialEq, Eq, Structural)]
pub enum SynthesisError {
    /// Witness mode asked for a value that was never supplied.
    MissingAssignment,
    /// A constraint's relation fails under the produced assignment.
    ConstraintUnsatisfied,
}

/// One allocated variable: its kind and, in witness mode, its value. Its
/// identifier is its allocation rank: the variable at table index `i` has
/// id `i + 1` (id 0 is the reserved one-variable).
#[derive(Clone, Copy, Debug, PartialEq, Eq)]
pub struct Variable {
    pub kind: VarKind,
    pub value: Option<ScalarValue>,
}

/// One constraint (A·x)·(B·x) = (C·x), with a diagnostic label that carries
/// no semantics.
#[derive(Debug, PartialEq, Eq)]
pub struct Constraint {
    pub label: String,
    pub a: LinearCombination,
    pub b: LinearCombination,
    pub c: LinearCombination,
}

/// A synthesis run's whole state: the mode, the allocation table in
/// allocation order, and the constraints in creation order.
#[derive(Debug, PartialEq, Eq)]
pub struct ConstraintSystem {
    pub mode: SynthesisMode,
    pub variables: Vec<Variable>,
    pub constraints: Vec<Constraint>,
}

/// The value `allocate` records for a variable: none in setup mode, the given
/// one in witness mode.
pub open spec fn stored(mode: SynthesisMode, value: Option<ScalarValue>) -> Option<ScalarValue> {
    if mode is Setup {
        None
    } else {
        value
    }
}

impl ConstraintSystem {
    /// Whether `id` can be evaluated: the reserved one-variable always can;
    /// an allocated variable can when it holds a value.
    pub open spec fn spec_resolves(self, id: usize) -> bool {
        ||| id == 0
        ||| (1 <= id <= self.variables@.len() && self.variables@[id - 1].value is Some)
    }

    /// The integer assigned to `id` (meaningful only where it resolves).
    pub open spec fn spec_value_at(self, id: usize) -> int {
        if id == 0 {
            1
        } else {
            self.variables@[id - 1].value.unwrap().as_int()
        }
    }

    /// Whether every variable a term list mentions resolves.
    pub open spec fn lc_resolvable(self, terms: Seq<(usize, ScalarValue)>) -> bool {
        forall|i: int| 0 <= i < terms.len() ==> self.spec_resolves((#[trigger] terms[i]).0)
    }

    /// The weighted sum a term list stands for, as an integer (not reduced).
    pub open spec fn lc_eval(self, terms: Seq<(usize, ScalarValue)>) -> int
        decreases terms.len(),
    {
        if terms.len() == 0 {
            0
        } else {
            self.lc_eval(terms.drop_last()) + terms.last().1.as_int() * self.spec_value_at(
                terms.last().0)
        }
    }

    /// Whether every variable a constraint mentions resolves.
    pub open spec fn constraint_resolvable(self, c: Constraint) -> bool {
        &&& self.lc_resolvable(c.a.terms@)
        &&& self.lc_resolvable(c.b.terms@)
        &&& self.lc_resolvable(c.c.terms@)
    }

    /// The algebraic relation of one constraint: eval(A)·eval(B) = eval(C)
    /// in the field.
    pub open spec fn constraint_holds(self, c: Constraint) -> bool {
        (self.lc_eval(c.a.terms@) * self.lc_eval(c.b.terms@)) % field_modulus() == self.lc_eval(
            c.c.terms@) % field_modulus()
    }

    /// Whether the recorded assignment covers every constraint.
    pub open spec fn all_resolvable(self) -> bool {
        forall|i: int| 0 <= i < self.constraints@.len() ==> self.constraint_resolvable(
            #[trigger] self.constraints@[i])
    }

    /// Whether the recorded assignment satisfies every constraint.
    pub open spec fn satisfied(self) -> bool {
        forall|i: int| 0 <= i < self.constraints@.len() ==> self.constraint_holds(
            #[trigger] self.constraints@[i])
    }

    /// The kinds of the allocated variables, in allocation order.
    pub open spec fn kind_seq(self) -> Seq<VarKind> {
        self.variables@.map_values(|v: Variable| v.kind)
    }

    /// Law of the combination builder: a variable added twice contributes
    /// the sum of its coefficients — appending (v, c1) and then (v, c2)
    /// evaluates as a single term whose coefficient is c1 + c2, never an
    /// overwrite.
    pub proof fn lemma_repeated_term_sums(self, terms: Seq<(usize, ScalarValue)>, v: usize,
        c1: ScalarValue, c2: ScalarValue)
        ensures
            self.lc_eval(terms.push((v, c1)).push((v, c2))) == self.lc_eval(terms) + (c1.as_int()
                + c2.as_int()) * self.spec_value_at(v),
    {
        let t1 = terms.push((v, c1));
        let t2 = t1.push((v, c2));
        assert(t2.drop_last() =~= t1);
        assert(t1.drop_last() =~= terms);
        assert(t2.last() == (v, c2));
        assert(t1.last() == (v, c1));
        assert(self.lc_eval(t2) == self.lc_eval(t1) + c2.as_int() * self.spec_value_at(v));
        assert(self.lc_eval(t1) == self.lc_eval(terms) + c1.as_int() * self.spec_value_at(v));
        vstd::arithmetic::mul::lemma_mul_is_distributive_add_other_way(self.spec_value_at(v),
            c1.as_int(), c2.as_int());
    }

    /// A fresh, empty system in the given mode.
    pub fn new(mode: SynthesisMode) -> (r: ConstraintSystem)
        ensures
            r.mode == mode,
            r.variables@ == Seq::<Variable>::empty(),
            r.constraints@ == Seq::<Constraint>::empty(),
    {
        ConstraintSystem { mode, variables: Vec::new(), constraints: Vec::new() }
    }

    /// Allocates a fresh variable and returns its identifier, strictly
    /// greater than every identifier issued before. Setup mode stores no
    /// value; witness mode demands one and fails with `MissingAssignment`
    /// when `value` is absent. The allocation sequence itself never depends
    /// on values.
    pub fn allocate(&mut self, kind: VarKind, value: Option<ScalarValue>) -> (r: Result<
        usize,
        SynthesisError,
    >)
        requires
            old(self).variables@.len() < usize::MAX,
        ensures
            final(self).mode == old(self).mode,
            final(self).constraints@ == old(self).constraints@,
            match r {
                Ok(id) => {
                    &&& id == old(self).variables@.len() + 1
                    &&& final(self).variables@ == old(self).variables@.push(
                        (Variable { kind, value: stored(old(self).mode, value) }),
                    )
                    &&& (old(self).mode is Witness ==> value is Some)
                },
                Err(e) => {
                    &&& e == SynthesisError::MissingAssignment
                    &&& old(self).mode is Witness
                    &&& value is None
                    &&& *final(self) == *old(self)
                },
            },
    {
        match self.mode {
            SynthesisMode::Setup => {
                self.variables.push(Variable { kind, value: None });
                Ok(self.variables.len())
            },
            SynthesisMode::Witness => {
                match value {
                    Some(v) => {
                        self.variables.push(Variable { kind, value: Some(v) });
                        Ok(self.variables.len())
                    },
                    None => Err(SynthesisError::MissingAssignment),
                }
            },
        }
    }

    /// Appends the constraint (a·x)·(b·x) = (c·x). Nothing is checked here:
    /// the set is strictly append-only, and satisfaction is deferred to
    /// `validate`, once an assignment exists.
    pub fn enforce(&mut self, label: &str, a: LinearCombination, b: LinearCombination,
        c: LinearCombination)
        ensures
            final(self).mode == old(self).mode,
            final(self).variables@ == old(self).variables@,
            final(self).constraints@.len() == old(self).constraints@.len() + 1,
            forall|i: int| 0 <= i < old(self).constraints@.len() ==> final(self).constraints@[i]
                == old(self).constraints@[i],
            final(self).constraints@.last().a == a,
            final(self).constraints@.last().b == b,
            final(self).constraints@.last().c == c,
            final(self).constraints@.last().label@ == label@,
    {
        let con = Constraint { label: label.to_owned(), a, b, c };
        self.constraints.push(con);
    }

    /// Evaluates a linear combination under the recorded assignment,
    /// reduced into the field; fails with `MissingAssignment` exactly when
    /// some variable it mentions has no value.
    pub fn eval_lc(&self, lc: &LinearCombination) -> (r: Result<ScalarValue, SynthesisError>)
        ensures
            match r {
                Ok(v) => self.lc_resolvable(lc.terms@) && v.as_int() == self.lc_eval(lc.terms@)
                    % field_modulus(),
                Err(e) => e == SynthesisError::MissingAssignment && !self.lc_resolvable(lc.terms@),
            },
    {
        let mut acc = ScalarValue::zero();
        proof {
            lemma_small_mod(0nat, field_modulus() as nat);
            assert(lc.terms@.take(0) =~= Seq::<(usize, ScalarValue)>::empty());
        }
        let n = lc.terms.len();
        let mut i: usize = 0;
        while i < n
            invariant
                n == lc.terms@.len(),
                0 <= i <= n,
                self.lc_resolvable(lc.terms@.take(i as int)),
                acc.as_int() == self.lc_eval(lc.terms@.take(i as int)) % field_modulus(),
            decreases n - i,
        {
            let (id, coeff) = lc.terms[i];
            let val: ScalarValue;
            if id == 0 {
                val = ScalarValue::one();
            } else if id <= self.variables.len() {
                match self.variables[id - 1].value {
                    Some(v) => {
                        val = v;
                    },
                    None => {
                        proof {
                            assert(!self.spec_resolves(lc.terms@[i as int].0));
                        }
                        return Err(SynthesisError::MissingAssignment);
                    },
                }
            } else {
                proof {
                    assert(!self.spec_resolves(lc.terms@[i as int].0));
                }
                return Err(SynthesisError::MissingAssignment);
            }
            let prod = field_mul(&coeff, &val);
            let next = field_add(&acc, &prod);
            proof {
                let pre = lc.terms@.take(i as int);
                let post = lc.terms@.take(i + 1);
                assert(post.drop_last() =~= pre);
                assert(post.last() == lc.terms@[i as int]);
                assert(self.lc_eval(post) == self.lc_eval(pre) + coeff.as_int()
                    * self.spec_value_at(id));
                lemma_add_mod_noop(self.lc_eval(pre), coeff.as_int() * self.spec_value_at(id),
                    field_modulus());
            }
            acc = next;
            i = i + 1;
        }
        proof {
            assert(lc.terms@.take(n as int) =~= lc.terms@);
        }
        Ok(acc)
    }

    /// Checks every constraint under the recorded assignment. Returns `Ok`
    /// exactly when the assignment is complete and satisfies them all;
    /// `MissingAssignment` exactly when some constraint mentions a variable
    /// without a value; `ConstraintUnsatisfied` exactly when the assignment
    /// is complete but some relation fails.
    pub fn validate(&self) -> (r: Result<(), SynthesisError>)
        ensures
            match r {
                Ok(_) => self.all_resolvable() && self.satisfied(),
                Err(e) => {
                    &&& (e == SynthesisError::MissingAssignment <==> !self.all_resolvable())
                    &&& (e == SynthesisError::ConstraintUnsatisfied <==> self.all_resolvable()
                        && !self.satisfied())
                },
            },
    {
        let n = self.constraints.len();
        let mut i: usize = 0;
        while i < n
            invariant
                n == self.constraints@.len(),
                0 <= i <= n,
                forall|j: int| 0 <= j < i ==> self.constraint_resolvable(
                    #[trigger] self.constraints@[j]),
            decreases n - i,
        {
            let con = &self.constraints[i];
            let ra = self.eval_lc(&con.a);
            let rb = self.eval_lc(&con.b);
            let rc = self.eval_lc(&con.c);
            if ra.is_err() || rb.is_err() || rc.is_err() {
                return Err(SynthesisError::MissingAssignment);
            }
            i = i + 1;
        }
        assert(self.all_resolvable());
        let mut i: usize = 0;
        while i < n
            invariant
                n == self.constraints@.len(),
                0 <= i <= n,
                self.all_resolvable(),
                forall|j: int| 0 <= j < i ==> self.constraint_holds(
                    #[trigger] self.constraints@[j]),
            decreases n - i,
        {
            let con = &self.constraints[i];
            let va = match self.eval_lc(&con.a) {
                Ok(v) => v,
                Err(_) => {
                    proof {
                        assert(false);
                    }
                    return Err(SynthesisError::MissingAssignment);
                },
            };
            let vb = match self.eval_lc(&con.b) {
                Ok(v) => v,
                Err(_) => {
                    proof {
                        assert(false);
                    }
                    return Err(SynthesisError::MissingAssignment);
                },
            };
            let vc = match self.eval_lc(&con.c) {
                Ok(v) => v,
                Err(_) => {
                    proof {
                        assert(false);
                    }
                    return Err(SynthesisError::MissingAssignment);
                },
            };
            let prod = field_mul(&va, &vb);
            proof {
                lemma_mul_mod_noop(self.lc_eval(con.a.terms@), self.lc_eval(con.b.terms@),
                    field_modulus());
            }
            if !(prod.l0 == vc.l0 && prod.l1 == vc.l1 && prod.l2 == vc.l2 && prod.l3 == vc.l3) {
                proof {
                    if self.constraint_holds(self.constraints@[i as int]) {
                        crate::scalar::lemma_as_int_injective(prod, vc);
                    }
                }
                return Err(SynthesisError::ConstraintUnsatisfied);
            }
            i = i + 1;
        }
        assert(self.satisfied());
        Ok(())
    }
}

/// Whether every public variable of a table holds a value.
pub open spec fn public_wf(vars: Seq<Variable>) -> bool {
    forall|i: int| 0 <= i < vars.len() ==> ((#[trigger] vars[i]).kind is Public ==> vars[i].value
        is Some)
}

/// The values of the public variables of a table, in allocation order.
pub open spec fn spec_public_values(vars: Seq<Variable>) -> Seq<ScalarValue>
    decreases vars.len(),
{
    if vars.len() == 0 {
        Seq::empty()
    } else if vars.last().kind is Public {
        spec_public_values(vars.drop_last()).push(vars.last().value.unwrap())
    } else {
        spec_public_values(vars.drop_last())
    }
}

/// Law: the statement handed to a verifier is drawn from the public
/// variables alone. Two tables that agree on kinds and on every public
/// variable's value — however their private values differ — yield the same
/// public-value sequence, so nothing assigned to a private variable reaches
/// the statement.
pub proof fn lemma_statement_ignores_private_values(v1: Seq<Variable>, v2: Seq<Variable>)
    requires
        v1.len() == v2.len(),
        forall|i: int| 0 <= i < v1.len() ==> (#[trigger] v1[i]).kind == v2[i].kind,
        forall|i: int| 0 <= i < v1.len() ==> ((#[trigger] v1[i]).kind is Public ==> v1[i].value
            == v2[i].value),
    ensures
        spec_public_values(v1) == spec_public_values(v2),
    decreases v1.len(),
{
    if v1.len() > 0 {
        let p1 = v1.drop_last();
        let p2 = v2.drop_last();
        assert(forall|i: int| 0 <= i < p1.len() ==> #[trigger] p1[i] == v1[i]);
        assert(forall|i: int| 0 <= i < p2.len() ==> #[trigger] p2[i] == v2[i]);
        lemma_statement_ignores_private_values(p1, p2);
        assert(v1.last() == v1[v1.len() - 1]);
        assert(v2.last() == v2[v1.len() - 1]);
    }
}

impl ConstraintSystem {
    /// How many public inputs the statement for this system has.
    pub fn num_public_inputs(&self) -> (n: usize)
        ensures
            n == spec_public_values(self.variables@).len(),
    {
        let m = self.variables.len();
        let mut n: usize = 0;
        let mut i: usize = 0;
        while i < m
            invariant
                m == self.variables@.len(),
                0 <= i <= m,
                n == spec_public_values(self.variables@.take(i as int)).len(),
                n <= i,
            decreases m - i,
        {
            proof {
                let pre = self.variables@.take(i as int);
                let post = self.variables@.take(i + 1);
                assert(post.drop_last() =~= pre);
            }
            match self.variables[i].kind {
                VarKind::Public => {
                    n = n + 1;
                },
                VarKind::Private => {},
            }
            i = i + 1;
        }
        proof {
            assert(self.variables@.take(m as int) =~= self.variables@);
        }
        n
    }

    /// Whether a proposed public-input sequence lists a value for exactly
    /// the public variables: a mismatched count must be rejected before any
    /// cryptographic check runs.
    pub fn accepts_statement(&self, inputs: &Vec<ScalarValue>) -> (r: bool)
        ensures
            r <==> inputs@.len() == spec_public_values(self.variables@).len(),
    {
        inputs.len() == self.num_public_inputs()
    }

    /// The statement: the values of the public variables, in allocation
    /// order, drawn from the public variables alone. Fails with
    /// `MissingAssignment` exactly when some public variable has no value.
    pub fn public_values(&self) -> (r: Result<Vec<ScalarValue>, SynthesisError>)
        ensures
            match r {
                Ok(v) => public_wf(self.variables@) && v@ == spec_public_values(self.variables@),
                Err(e) => e == SynthesisError::MissingAssignment && !public_wf(self.variables@),
            },
    {
        let m = self.variables.len();
        let mut out: Vec<ScalarValue> = Vec::new();
        let mut i: usize = 0;
        while i < m
            invariant
                m == self.variables@.len(),
                0 <= i <= m,
                public_wf(self.variables@.take(i as int)),
                out@ == spec_public_values(self.variables@.take(i as int)),
            decreases m - i,
        {
            proof {
                let pre = self.variables@.take(i as int);
                let post = self.variables@.take(i + 1);
                assert(post.drop_last() =~= pre);
            }
            match self.variables[i].kind {
                VarKind::Public => {
                    match self.variables[i].value {
                        Some(v) => {
                            out.push(v);
                        },
                        None => {
                            proof {
                                assert(self.variables@[i as int].kind is Public && self.variables@[
                                    i as int].value is None);
                            }
                            return Err(SynthesisError::MissingAssignment);
                        },
                    }
                },
                VarKind::Private => {},
            }
            i = i + 1;
        }
        proof {
            assert(self.variables@.take(m as int) =~= self.variables@);
        }
        Ok(out)
    }
}

} // verus!
