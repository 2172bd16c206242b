//! Linear combinations: weighted sums of variables, the three sides of every
//! constraint. Building one never evaluates anything; evaluation waits for a
//! concrete assignment (`system::ConstraintSystem::eval_lc`).

use vstd::prelude::*;
use crate::scalar::{ScalarValue, field_modulus, field_neg};

verus! {

/// The reserved identifier of the implicit "one" variable. It needs no
/// allocation and evaluates to the field's multiplicative identity in every
/// mode; constant terms ride on it.
pub const ONE_ID: usize = 0;

/// A weighted sum of variables: an ordered list of (variable id, coefficient)
/// terms. A repeated id is legal and its coefficients sum under evaluation.
#[derive(Debug, PartialEq, Eq)]
pub struct LinearCombination {
    pub terms: Vec<(usize, ScalarValue)>,
}

impl LinearCombination {
    /// The empty combination; it evaluates to the additive identity.
    pub fn new() -> (r: LinearCombination)
        ensures
            r.terms@ == Seq::<(usize, ScalarValue)>::empty(),
    {
        LinearCombination { terms: Vec::new() }
    }

    /// `self + coeff · var`: appends one term.
    pub fn add_term(self, coeff: ScalarValue, var: usize) -> (r: LinearCombination)
        ensures
            r.terms@ == self.terms@.push((var, coeff)),
    {
        let mut t = self.terms;
        t.push((var, coeff));
        LinearCombination { terms: t }
    }

    /// `self - coeff · var`: appends one term whose coefficient is the field
    /// negation of `coeff`.
    pub fn sub_term(self, coeff: ScalarValue, var: usize) -> (r: LinearCombination)
        ensures
            r.terms@.len() == self.terms@.len() + 1,
            r.terms@.take(self.terms@.len() as int) == self.terms@,
            r.terms@.last().0 == var,
            r.terms@.last().1.as_int() == (field_modulus() - coeff.as_int() % field_modulus())
                % field_modulus(),
    {
        let n = field_neg(&coeff);
        let mut t = self.terms;
        t.push((var, n));
        let r = LinearCombination { terms: t };
        proof {
            assert(r.terms@.take(self.terms@.len() as int) =~= self.terms@);
        }
        r
    }

    /// The fixed target `k`: the reserved one-variable scaled by `k`.
    pub fn constant(k: ScalarValue) -> (r: LinearCombination)
        ensures
            r.terms@ == seq![(ONE_ID, k)],
    {
        LinearCombination { terms: vec![(ONE_ID, k)] }
    }
}

} // verus!
