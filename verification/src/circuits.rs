//! Example circuits on top of the constraint-system core, and the laws that
//! hold of the descriptions they lay down: cross-run structural identity and
//! exact satisfiability of the multiplication constraint.

use vstd::prelude::*;
use crate::scalar::{ScalarValue, field_modulus, spec_one};
use crate::lc::LinearCombination;
use crate::system::{ConstraintSystem, SynthesisError, VarKind, Variable, stored};

verus! {

/// The circuit contract, the library's sole extension point. A circuit is a
/// fixed sequence of builder calls: which calls occur never depends on
/// whether values are present, only the values passed into them do. A
/// successful run leaves exactly the description `lays_down` states on top
/// of the starting system, in setup and witness mode alike; a run fails only
/// in witness mode, by a missing value, and then appends no constraint.
pub trait Circuit: Sized {
    /// The exact description a successful synthesis leaves on top of `base`.
    spec fn lays_down(self, base: ConstraintSystem, d: ConstraintSystem) -> bool;

    /// How many variables one synthesis run allocates (never negative).
    spec fn allocations(self) -> int;

    /// Whether every value a witness-mode run demands is present.
    spec fn complete_witness(self) -> bool;

    /// Runs the circuit's builder calls against `cs`.
    fn synthesize(self, cs: &mut ConstraintSystem) -> (r: Result<(), SynthesisError>)
        requires
            old(cs).variables@.len() + self.allocations() <= usize::MAX,
        ensures
            final(cs).mode == old(cs).mode,
            match r {
                Ok(_) => {
                    &&& self.lays_down(*old(cs), *final(cs))
                    &&& (old(cs).mode is Witness ==> self.complete_witness())
                },
                Err(e) => {
                    &&& e == SynthesisError::MissingAssignment
                    &&& old(cs).mode is Witness
                    &&& !self.complete_witness()
                    &&& final(cs).constraints@ == old(cs).constraints@
                },
            },
    ;
}

/// The circuit a·b = c: two private factors and a public product. The same
/// description is laid down with or without values.
pub struct MultiplyDemo {
    pub a: Option<ScalarValue>,
    pub b: Option<ScalarValue>,
    pub c: Option<ScalarValue>,
}

impl MultiplyDemo {
    /// The exact description this circuit lays down on top of `base`: three
    /// variables (two private, one public) and the single constraint
    /// (1·a)·(1·b) = (1·c) on their fresh identifiers.
    pub open spec fn describes(self, base: ConstraintSystem, d: ConstraintSystem) -> bool {
        &&& d.mode == base.mode
        &&& d.variables@ == base.variables@.push(
            (Variable { kind: VarKind::Private, value: stored(base.mode, self.a) }),
        ).push((Variable { kind: VarKind::Private, value: stored(base.mode, self.b) })).push(
            (Variable { kind: VarKind::Public, value: stored(base.mode, self.c) }),
        )
        &&& d.constraints@.len() == base.constraints@.len() + 1
        &&& forall|i: int| 0 <= i < base.constraints@.len() ==> d.constraints@[i]
            == base.constraints@[i]
        &&& d.constraints@.last().a.terms@.len() == 1
        &&& d.constraints@.last().a.terms@[0].0 == base.variables@.len() + 1
        &&& d.constraints@.last().a.terms@[0].1 == spec_one()
        &&& d.constraints@.last().b.terms@.len() == 1
        &&& d.constraints@.last().b.terms@[0].0 == base.variables@.len() + 2
        &&& d.constraints@.last().b.terms@[0].1 == spec_one()
        &&& d.constraints@.last().c.terms@.len() == 1
        &&& d.constraints@.last().c.terms@[0].0 == base.variables@.len() + 3
        &&& d.constraints@.last().c.terms@[0].1 == spec_one()
        &&& d.constraints@.last().label@ == "mult"@
    }

}

impl Circuit for MultiplyDemo {
    open spec fn lays_down(self, base: ConstraintSystem, d: ConstraintSystem) -> bool {
        self.describes(base, d)
    }

    open spec fn allocations(self) -> int {
        3
    }

    open spec fn complete_witness(self) -> bool {
        self.a is Some && self.b is Some && self.c is Some
    }

    /// Allocates a and b (private) and c (public), then enforces a·b = c.
    /// The sequence of builder calls is fixed; only values vary with the
    /// mode, so setup and witness runs lay down identical structure.
    fn synthesize(self, cs: &mut ConstraintSystem) -> (r: Result<(), SynthesisError>) {
        let a = match cs.allocate(VarKind::Private, self.a) {
            Ok(id) => id,
            Err(e) => {
                return Err(e);
            },
        };
        let b = match cs.allocate(VarKind::Private, self.b) {
            Ok(id) => id,
            Err(e) => {
                return Err(e);
            },
        };
        let c = match cs.allocate(VarKind::Public, self.c) {
            Ok(id) => id,
            Err(e) => {
                return Err(e);
            },
        };
        let one = ScalarValue::one();
        let la = LinearCombination::new().add_term(one, a);
        let lb = LinearCombination::new().add_term(one, b);
        let lcc = LinearCombination::new().add_term(one, c);
        cs.enforce("mult", la, lb, lcc);
        Ok(())
    }
}

/// The circuit a·b = k for a fixed public constant k: two private factors
/// and a constant-term right-hand side riding on the reserved one-variable.
pub struct FixedProductDemo {
    pub a: Option<ScalarValue>,
    pub b: Option<ScalarValue>,
    pub k: ScalarValue,
}

impl FixedProductDemo {
    /// The exact description this circuit lays down on top of `base`: two
    /// private variables and the single constraint (1·a)·(1·b) = (k·one).
    pub open spec fn describes(self, base: ConstraintSystem, d: ConstraintSystem) -> bool {
        &&& d.mode == base.mode
        &&& d.variables@ == base.variables@.push(
            (Variable { kind: VarKind::Private, value: stored(base.mode, self.a) }),
        ).push((Variable { kind: VarKind::Private, value: stored(base.mode, self.b) }))
        &&& d.constraints@.len() == base.constraints@.len() + 1
        &&& forall|i: int| 0 <= i < base.constraints@.len() ==> d.constraints@[i]
            == base.constraints@[i]
        &&& d.constraints@.last().a.terms@.len() == 1
        &&& d.constraints@.last().a.terms@[0].0 == base.variables@.len() + 1
        &&& d.constraints@.last().a.terms@[0].1 == spec_one()
        &&& d.constraints@.last().b.terms@.len() == 1
        &&& d.constraints@.last().b.terms@[0].0 == base.variables@.len() + 2
        &&& d.constraints@.last().b.terms@[0].1 == spec_one()
        &&& d.constraints@.last().c.terms@.len() == 1
        &&& d.constraints@.last().c.terms@[0].0 == 0
        &&& d.constraints@.last().c.terms@[0].1 == self.k
        &&& d.constraints@.last().label@ == "mult"@
    }

}

impl Circuit for FixedProductDemo {
    open spec fn lays_down(self, base: ConstraintSystem, d: ConstraintSystem) -> bool {
        self.describes(base, d)
    }

    open spec fn allocations(self) -> int {
        2
    }

    open spec fn complete_witness(self) -> bool {
        self.a is Some && self.b is Some
    }

    /// Allocates a and b (private), then enforces a·b = k.
    fn synthesize(self, cs: &mut ConstraintSystem) -> (r: Result<(), SynthesisError>) {
        let a = match cs.allocate(VarKind::Private, self.a) {
            Ok(id) => id,
            Err(e) => {
                return Err(e);
            },
        };
        let b = match cs.allocate(VarKind::Private, self.b) {
            Ok(id) => id,
            Err(e) => {
                return Err(e);
            },
        };
        let one = ScalarValue::one();
        let la = LinearCombination::new().add_term(one, a);
        let lb = LinearCombination::new().add_term(one, b);
        cs.enforce("mult", la, lb, LinearCombination::constant(self.k));
        Ok(())
    }
}

/// Law: allocation-order determinism and cross-mode structural identity for
/// `MultiplyDemo`. Any two successful synthesis runs on fresh systems — in
/// the same mode or across setup and witness mode, with any values — agree
/// on the variable-kind sequence and on every constraint's full shape.
pub proof fn lemma_multiply_demo_structure(c1: MultiplyDemo, c2: MultiplyDemo,
    b1: ConstraintSystem, b2: ConstraintSystem, d1: ConstraintSystem, d2: ConstraintSystem)
    requires
        b1.variables@.len() == 0,
        b1.constraints@.len() == 0,
        b2.variables@.len() == 0,
        b2.constraints@.len() == 0,
        c1.describes(b1, d1),
        c2.describes(b2, d2),
    ensures
        d1.kind_seq() == d2.kind_seq(),
        d1.variables@.len() == d2.variables@.len(),
        d1.constraints@.len() == d2.constraints@.len(),
        forall|i: int| 0 <= i < d1.constraints@.len() ==> {
            &&& (#[trigger] d1.constraints@[i]).a.terms@ == d2.constraints@[i].a.terms@
            &&& d1.constraints@[i].b.terms@ == d2.constraints@[i].b.terms@
            &&& d1.constraints@[i].c.terms@ == d2.constraints@[i].c.terms@
        },
{
    assert(d1.kind_seq() =~= seq![VarKind::Private, VarKind::Private, VarKind::Public]);
    assert(d2.kind_seq() =~= seq![VarKind::Private, VarKind::Private, VarKind::Public]);
    assert(d1.constraints@[0] == d1.constraints@.last());
    assert(d2.constraints@[0] == d2.constraints@.last());
    assert(d1.constraints@[0].a.terms@ =~= d2.constraints@[0].a.terms@);
    assert(d1.constraints@[0].b.terms@ =~= d2.constraints@[0].b.terms@);
    assert(d1.constraints@[0].c.terms@ =~= d2.constraints@[0].c.terms@);
}

/// Law: the same, for `FixedProductDemo` instances sharing the constant.
pub proof fn lemma_fixed_product_structure(c1: FixedProductDemo, c2: FixedProductDemo,
    b1: ConstraintSystem, b2: ConstraintSystem, d1: ConstraintSystem, d2: ConstraintSystem)
    requires
        b1.variables@.len() == 0,
        b1.constraints@.len() == 0,
        b2.variables@.len() == 0,
        b2.constraints@.len() == 0,
        c1.k == c2.k,
        c1.describes(b1, d1),
        c2.describes(b2, d2),
    ensures
        d1.kind_seq() == d2.kind_seq(),
        d1.variables@.len() == d2.variables@.len(),
        d1.constraints@.len() == d2.constraints@.len(),
        forall|i: int| 0 <= i < d1.constraints@.len() ==> {
            &&& (#[trigger] d1.constraints@[i]).a.terms@ == d2.constraints@[i].a.terms@
            &&& d1.constraints@[i].b.terms@ == d2.constraints@[i].b.terms@
            &&& d1.constraints@[i].c.terms@ == d2.constraints@[i].c.terms@
        },
{
    assert(d1.kind_seq() =~= seq![VarKind::Private, VarKind::Private]);
    assert(d2.kind_seq() =~= seq![VarKind::Private, VarKind::Private]);
    assert(d1.constraints@[0] == d1.constraints@.last());
    assert(d2.constraints@[0] == d2.constraints@.last());
    assert(d1.constraints@[0].a.terms@ =~= d2.constraints@[0].a.terms@);
    assert(d1.constraints@[0].b.terms@ =~= d2.constraints@[0].b.terms@);
    assert(d1.constraints@[0].c.terms@ =~= d2.constraints@[0].c.terms@);
}

/// Law: with a full witness, the description `MultiplyDemo` lays down is
/// completely resolvable, and is satisfied exactly when a·b = c in the
/// field — so `validate` returns `Ok` on exactly the witnesses whose
/// product matches the public value, and `ConstraintUnsatisfied` on all
/// others.
pub proof fn lemma_multiply_demo_satisfiability(c: MultiplyDemo, base: ConstraintSystem,
    d: ConstraintSystem, a: ScalarValue, b: ScalarValue, cv: ScalarValue)
    requires
        base.variables@.len() == 0,
        base.constraints@.len() == 0,
        base.mode is Witness,
        c.a == Some(a),
        c.b == Some(b),
        c.c == Some(cv),
        c.describes(base, d),
    ensures
        d.all_resolvable(),
        d.satisfied() <==> (a.as_int() * b.as_int()) % field_modulus() == cv.as_int()
            % field_modulus(),
{
    let con = d.constraints@[0];
    assert(con == d.constraints@.last());
    assert(d.variables@[0].value == Some(a));
    assert(d.variables@[1].value == Some(b));
    assert(d.variables@[2].value == Some(cv));
    lemma_singleton_eval(d, con.a.terms@, 1, spec_one());
    lemma_singleton_eval(d, con.b.terms@, 2, spec_one());
    lemma_singleton_eval(d, con.c.terms@, 3, spec_one());
    assert(d.spec_value_at(1) == a.as_int());
    assert(d.spec_value_at(2) == b.as_int());
    assert(d.spec_value_at(3) == cv.as_int());
    assert(d.lc_eval(con.a.terms@) == a.as_int());
    assert(d.lc_eval(con.b.terms@) == b.as_int());
    assert(d.lc_eval(con.c.terms@) == cv.as_int());
    assert(d.constraint_resolvable(con));
    assert forall|i: int| 0 <= i < d.constraints@.len() implies d.constraint_resolvable(
        #[trigger] d.constraints@[i]) by {
        assert(d.constraints@[i] == con);
    }
    if (a.as_int() * b.as_int()) % field_modulus() == cv.as_int() % field_modulus() {
        assert forall|i: int| 0 <= i < d.constraints@.len() implies d.constraint_holds(
            #[trigger] d.constraints@[i]) by {
            assert(d.constraints@[i] == con);
        }
    } else {
        assert(!d.constraint_holds(con));
        assert(!d.satisfied());
    }
}

/// Law: with a full witness, the description `FixedProductDemo` lays down is
/// completely resolvable, and is satisfied exactly when a·b = k in the
/// field.
pub proof fn lemma_fixed_product_satisfiability(c: FixedProductDemo, base: ConstraintSystem,
    d: ConstraintSystem, a: ScalarValue, b: ScalarValue)
    requires
        base.variables@.len() == 0,
        base.constraints@.len() == 0,
        base.mode is Witness,
        c.a == Some(a),
        c.b == Some(b),
        c.describes(base, d),
    ensures
        d.all_resolvable(),
        d.satisfied() <==> (a.as_int() * b.as_int()) % field_modulus() == c.k.as_int()
            % field_modulus(),
{
    let con = d.constraints@[0];
    assert(con == d.constraints@.last());
    assert(d.variables@[0].value == Some(a));
    assert(d.variables@[1].value == Some(b));
    lemma_singleton_eval(d, con.a.terms@, 1, spec_one());
    lemma_singleton_eval(d, con.b.terms@, 2, spec_one());
    lemma_singleton_eval(d, con.c.terms@, 0, c.k);
    assert(d.spec_value_at(1) == a.as_int());
    assert(d.spec_value_at(2) == b.as_int());
    assert(d.spec_value_at(0) == 1);
    assert(d.lc_eval(con.a.terms@) == a.as_int());
    assert(d.lc_eval(con.b.terms@) == b.as_int());
    assert(d.lc_eval(con.c.terms@) == c.k.as_int());
    assert(d.constraint_resolvable(con));
    assert forall|i: int| 0 <= i < d.constraints@.len() implies d.constraint_resolvable(
        #[trigger] d.constraints@[i]) by {
        assert(d.constraints@[i] == con);
    }
    if (a.as_int() * b.as_int()) % field_modulus() == c.k.as_int() % field_modulus() {
        assert forall|i: int| 0 <= i < d.constraints@.len() implies d.constraint_holds(
            #[trigger] d.constraints@[i]) by {
            assert(d.constraints@[i] == con);
        }
    } else {
        assert(!d.constraint_holds(con));
        assert(!d.satisfied());
    }
}

/// A one-term combination coeff·id evaluates to coeff times the variable.
proof fn lemma_singleton_eval(d: ConstraintSystem, terms: Seq<(usize, ScalarValue)>, id: usize,
    coeff: ScalarValue)
    requires
        terms.len() == 1,
        terms[0].0 == id,
        terms[0].1 == coeff,
    ensures
        d.lc_eval(terms) == coeff.as_int() * d.spec_value_at(id),
        coeff.as_int() == 1 ==> d.lc_eval(terms) == d.spec_value_at(id),
        d.spec_value_at(id) == 1 ==> d.lc_eval(terms) == coeff.as_int(),
        d.lc_resolvable(terms) <==> d.spec_resolves(id),
{
    assert(terms.drop_last() =~= Seq::<(usize, ScalarValue)>::empty());
    assert(terms.last() == terms[0]);
    assert(d.lc_eval(terms.drop_last()) == 0);
    vstd::arithmetic::mul::lemma_mul_basics(d.spec_value_at(id));
    vstd::arithmetic::mul::lemma_mul_basics(coeff.as_int());
}

} // verus!
