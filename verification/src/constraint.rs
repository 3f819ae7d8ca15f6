//! Multiplicative constraints: `(A . x) * (B . x) = (C . x)`.

use crate::field::{decimal, modulus, Field};
use crate::linear_combination::{count_nonzeros, weighted_sum, LinearCombination, Term};
use crate::r1cs::Scope;
use vstd::arithmetic::div_mod::lemma_mul_mod_noop_general;
use vstd::prelude::*;
use vstd::string::StringExecFns;

verus! {

/// What a constraint says: the scope it was made in and its three combinations.
pub ghost struct ConstraintView {
    pub scope: Seq<char>,
    pub a: Seq<Term>,
    pub b: Seq<Term>,
    pub c: Seq<Term>,
}

impl ConstraintView {
    /// The product of the values of `a` and `b` is the value of `c`, in the field.
    pub open spec fn holds(self) -> bool {
        (weighted_sum(self.a) * weighted_sum(self.b)) % modulus() == weighted_sum(self.c)
            % modulus()
    }

    /// The numbers of terms with a coefficient other than zero in `a`, `b` and `c`.
    pub open spec fn nonzeros(self) -> (nat, nat, nat) {
        (count_nonzeros(self.a), count_nonzeros(self.b), count_nonzeros(self.c))
    }

    /// The constraint in words: its scope, then the three values in decimal,
    /// with `==` between product and result where it holds.
    pub open spec fn text(self) -> Seq<char> {
        "Constraint "@ + self.scope + ":\n\t"@ + decimal(weighted_sum(self.a) % modulus()) + " * "@
            + decimal(weighted_sum(self.b) % modulus()) + (if self.holds() {
            " == "@
        } else {
            " != "@
        }) + decimal(weighted_sum(self.c) % modulus()) + (if self.holds() {
            "\n"@
        } else {
            " (Unsatisfied)\n"@
        })
    }
}

/// A constraint that the product of two linear combinations equals a third.
#[derive(Debug)]
pub struct Constraint {
    scope: Scope,
    a: LinearCombination,
    b: LinearCombination,
    c: LinearCombination,
}

impl View for Constraint {
    type V = ConstraintView;

    closed spec fn view(&self) -> ConstraintView {
        ConstraintView { scope: self.scope@, a: self.a@, b: self.b@, c: self.c@ }
    }
}

impl Constraint {
    /// The constraint `a * b = c`, made in `scope`.
    pub fn new(scope: Scope, a: LinearCombination, b: LinearCombination, c: LinearCombination) -> (r:
        Constraint)
        ensures
            r@ == (ConstraintView { scope: scope@, a: a@, b: b@, c: c@ }),
    {
        Constraint { scope, a, b, c }
    }

    /// The scope in which the constraint was made.
    pub fn scope(&self) -> (r: &Scope)
        ensures
            r@ == self@.scope,
    {
        &self.scope
    }

    /// The three combinations `(a, b, c)`.
    pub fn to_terms(&self) -> (r: (&LinearCombination, &LinearCombination, &LinearCombination))
        ensures
            r.0@ == self@.a,
            r.1@ == self@.b,
            r.2@ == self@.c,
    {
        (&self.a, &self.b, &self.c)
    }

    /// The numbers of terms with a coefficient other than zero in `a`, `b` and `c`.
    pub fn num_nonzeros(&self) -> (r: (u64, u64, u64))
        ensures
            (r.0 as nat, r.1 as nat, r.2 as nat) == self@.nonzeros(),
    {
        (self.a.num_nonzeros(), self.b.num_nonzeros(), self.c.num_nonzeros())
    }

    /// Whether the product of the values of `a` and `b` is the value of `c`.
    pub fn is_satisfied(&self) -> (r: bool)
        ensures
            r == self@.holds(),
    {
        let a = self.a.value();
        let b = self.b.value();
        let c = self.c.value();
        let product = a.mul(&b);
        proof {
            lemma_mul_mod_noop_general(
                weighted_sum(self.a@) as int,
                weighted_sum(self.b@) as int,
                modulus() as int,
            );
            use_type_invariant(&product);
            use_type_invariant(&c);
            if product.value() == c.value() {
                Field::lemma_value_injective(product, c);
            }
        }
        product == c
    }

    /// The constraint in words.
    pub fn to_string(&self) -> (r: String)
        ensures
            r@ == self@.text(),
    {
        let a = self.a.value();
        let b = self.b.value();
        let c = self.c.value();
        let holds = self.is_satisfied();
        let mut out = String::from_str("Constraint ");
        out.append(self.scope.as_str());
        out.append(":\n\t");
        out.append(a.to_decimal().as_str());
        out.append(" * ");
        out.append(b.to_decimal().as_str());
        if holds {
            out.append(" == ");
        } else {
            out.append(" != ");
        }
        out.append(c.to_decimal().as_str());
        if holds {
            out.append("\n");
        } else {
            out.append(" (Unsatisfied)\n");
        }
        out
    }
}

impl Clone for Constraint {
    fn clone(&self) -> (r: Self)
        ensures
            r@ == self@,
    {
        Constraint {
            scope: self.scope.clone(),
            a: self.a.clone(),
            b: self.b.clone(),
            c: self.c.clone(),
        }
    }
}

} // verus!
