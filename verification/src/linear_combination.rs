//! Linear combinations: weighted sums of variables.

use crate::field::{modulus, Field};
use crate::variable::Variable;
use vstd::arithmetic::div_mod::lemma_add_mod_noop;
use vstd::prelude::*;

verus! {

/// One summand: a variable and the coefficient it is weighted with.
#[derive(Debug)]
pub struct Term {
    pub variable: Variable,
    pub coefficient: Field,
}

impl Clone for Term {
    fn clone(&self) -> (r: Self)
        ensures
            r == *self,
    {
        Term { variable: self.variable.clone(), coefficient: self.coefficient }
    }
}

/// The sum, over the integers, of each coefficient's residue times its
/// variable's residue.
pub open spec fn weighted_sum(terms: Seq<Term>) -> nat
    decreases terms.len(),
{
    if terms.len() == 0 {
        0
    } else {
        weighted_sum(terms.drop_last()) + terms.last().coefficient.value()
            * terms.last().variable.spec_value().value()
    }
}

/// The number of terms whose coefficient is not zero.
pub open spec fn count_nonzeros(terms: Seq<Term>) -> nat
    decreases terms.len(),
{
    if terms.len() == 0 {
        0
    } else {
        count_nonzeros(terms.drop_last()) + if terms.last().coefficient.value() != 0 {
            1nat
        } else {
            0nat
        }
    }
}

/// No variable occurs in two terms.
pub open spec fn distinct_variables(terms: Seq<Term>) -> bool {
    forall|i: int, j: int|
        0 <= i < j < terms.len() ==> (#[trigger] terms[i]).variable != (#[trigger] terms[j]).variable
}

/// The place of the term on `variable`, or the number of terms if there is none.
pub open spec fn position(terms: Seq<Term>, variable: Variable) -> int
    decreases terms.len(),
{
    if terms.len() == 0 {
        0
    } else if terms.first().variable == variable {
        0
    } else {
        1 + position(terms.drop_first(), variable)
    }
}

/// The terms after `coefficient` times `variable` has been added: the
/// coefficient joins that of the term on `variable`, or a new last term is made.
pub open spec fn with_term(terms: Seq<Term>, variable: Variable, coefficient: Field) -> Seq<Term> {
    let at = position(terms, variable);
    if at < terms.len() {
        terms.update(at, Term { variable, coefficient: terms[at].coefficient.spec_add(coefficient) })
    } else {
        terms.push(Term { variable, coefficient })
    }
}

/// `position` is the first place whose variable matches, and the end if none does.
pub proof fn lemma_position(terms: Seq<Term>, variable: Variable, at: int)
    requires
        0 <= at <= terms.len(),
        forall|k: int| 0 <= k < at ==> (#[trigger] terms[k]).variable != variable,
        at < terms.len() ==> terms[at].variable == variable,
    ensures
        position(terms, variable) == at,
    decreases terms.len(),
{
    if terms.len() > 0 && at > 0 {
        let rest = terms.drop_first();
        assert(terms[0].variable != variable);
        assert forall|k: int| 0 <= k < at - 1 implies (#[trigger] rest[k]).variable != variable by {
            assert(rest[k] == terms[k + 1]);
        }
        lemma_position(rest, variable, at - 1);
    }
}

/// A weighted sum over mutually distinct variables.
#[derive(Debug)]
pub struct LinearCombination {
    terms: Vec<Term>,
}

impl View for LinearCombination {
    type V = Seq<Term>;

    closed spec fn view(&self) -> Seq<Term> {
        self.terms@
    }
}

impl LinearCombination {
    /// No variable occurs twice. Every combination that executable code can
    /// hold is of this form.
    #[verifier::type_invariant]
    pub closed spec fn well_formed(&self) -> bool {
        distinct_variables(self.terms@)
    }

    /// The combination without terms, whose value is zero.
    pub fn zero() -> (r: LinearCombination)
        ensures
            r@ == Seq::<Term>::empty(),
    {
        LinearCombination { terms: Vec::new() }
    }

    /// Adds `coefficient` times `variable`.
    pub fn add_term(&mut self, variable: Variable, coefficient: Field)
        ensures
            final(self)@ == with_term(old(self)@, variable, coefficient),
            distinct_variables(final(self)@),
    {
        proof {
            use_type_invariant(&*self);
        }
        let ghost before = self.terms@;
        let mut terms: Vec<Term> = Vec::new();
        core::mem::swap(&mut self.terms, &mut terms);
        let n = terms.len();
        let mut at: usize = 0;
        while at < n && terms[at].variable != variable
            invariant
                n == terms.len(),
                terms@ == before,
                0 <= at <= n,
                forall|k: int| 0 <= k < at ==> (#[trigger] before[k]).variable != variable,
            decreases n - at,
        {
            at = at + 1;
        }
        proof {
            lemma_position(before, variable, at as int);
        }
        if at < n {
            let merged = terms[at].coefficient.add(&coefficient);
            terms.set(at, Term { variable, coefficient: merged });
            proof {
                assert forall|i: int, j: int| 0 <= i < j < terms@.len() implies (#[trigger] terms@[i]).variable
                    != (#[trigger] terms@[j]).variable by {
                    assert(before[i].variable != before[j].variable);
                }
            }
        } else {
            terms.push(Term { variable, coefficient });
            proof {
                assert forall|i: int, j: int| 0 <= i < j < terms@.len() implies (#[trigger] terms@[i]).variable
                    != (#[trigger] terms@[j]).variable by {
                    if j < before.len() {
                        assert(before[i].variable != before[j].variable);
                    } else {
                        assert(before[i].variable != variable);
                    }
                }
            }
        }
        core::mem::swap(&mut self.terms, &mut terms);
    }

    /// The number of terms, counting those with a zero coefficient.
    pub fn len(&self) -> (r: usize)
        ensures
            r == self@.len(),
    {
        self.terms.len()
    }

    /// The terms, in the order in which their variables were first added.
    pub fn to_terms(&self) -> (r: &Vec<Term>)
        ensures
            r@ == self@,
            distinct_variables(r@),
    {
        proof {
            use_type_invariant(self);
        }
        &self.terms
    }

    /// The number of terms whose coefficient is not zero.
    pub fn num_nonzeros(&self) -> (r: u64)
        ensures
            r == count_nonzeros(self@),
            r <= self@.len(),
    {
        let n = self.terms.len();
        let mut count: u64 = 0;
        let mut i: usize = 0;
        while i < n
            invariant
                n == self.terms.len(),
                0 <= i <= n,
                count == count_nonzeros(self.terms@.take(i as int)),
                count <= i,
            decreases n - i,
        {
            proof {
                assert(self.terms@.take(i + 1).drop_last() == self.terms@.take(i as int));
            }
            if !self.terms[i].coefficient.is_zero() {
                count = count + 1;
            }
            i = i + 1;
        }
        proof {
            assert(self.terms@.take(n as int) == self.terms@);
        }
        count
    }

    /// The value of the combination under the values that its variables carry.
    pub fn value(&self) -> (r: Field)
        ensures
            r == Field::from_residue(weighted_sum(self@) % modulus()),
            r.value() == weighted_sum(self@) % modulus(),
    {
        let n = self.terms.len();
        let mut total = Field::zero();
        let mut i: usize = 0;
        proof {
            assert(weighted_sum(self.terms@.take(0)) == 0);
            vstd::arithmetic::div_mod::lemma_small_mod(0, modulus());
        }
        while i < n
            invariant
                n == self.terms.len(),
                0 <= i <= n,
                total.value() == weighted_sum(self.terms@.take(i as int)) % modulus(),
            decreases n - i,
        {
            let term = &self.terms[i];
            let weighted = term.coefficient.mul(&term.variable.value());
            let next = total.add(&weighted);
            proof {
                let done = weighted_sum(self.terms@.take(i as int));
                let step = term.coefficient.value() * term.variable.spec_value().value();
                assert(self.terms@.take(i + 1).drop_last() == self.terms@.take(i as int));
                assert(weighted_sum(self.terms@.take(i + 1)) == done + step);
                lemma_add_mod_noop(done as int, step as int, modulus() as int);
            }
            total = next;
            i = i + 1;
        }
        proof {
            assert(self.terms@.take(n as int) == self.terms@);
            use_type_invariant(&total);
            Field::lemma_residue_round_trip(total);
        }
        total
    }
}

impl Clone for LinearCombination {
    fn clone(&self) -> (r: Self)
        ensures
            r@ == self@,
    {
        proof {
            use_type_invariant(self);
        }
        let n = self.terms.len();
        let mut terms: Vec<Term> = Vec::new();
        let mut i: usize = 0;
        while i < n
            invariant
                n == self.terms.len(),
                0 <= i <= n,
                terms@ == self.terms@.take(i as int),
            decreases n - i,
        {
            terms.push(self.terms[i].clone());
            proof {
                assert(terms@ == self.terms@.take(i + 1));
            }
            i = i + 1;
        }
        proof {
            assert(self.terms@.take(n as int) == self.terms@);
        }
        LinearCombination { terms }
    }
}

} // verus!
