//! Lookup tables, and constraints that a triple of values is a row of one.

use crate::field::{decimal, modulus, Field};
use crate::linear_combination::{count_nonzeros, weighted_sum, LinearCombination, Term};
use crate::r1cs::Scope;
use vstd::prelude::*;
use vstd::string::StringExecFns;

verus! {

/// A table of rows of three field values each.
#[derive(Debug)]
pub struct LookupTable {
    rows: Vec<(Field, Field, Field)>,
}

impl View for LookupTable {
    type V = Seq<(Field, Field, Field)>;

    closed spec fn view(&self) -> Seq<(Field, Field, Field)> {
        self.rows@
    }
}

impl LookupTable {
    /// The table without rows.
    pub fn new() -> (r: LookupTable)
        ensures
            r@ == Seq::<(Field, Field, Field)>::empty(),
    {
        LookupTable { rows: Vec::new() }
    }

    /// Appends the row `(a, b, c)`.
    pub fn fill(&mut self, a: Field, b: Field, c: Field)
        ensures
            final(self)@ == old(self)@.push((a, b, c)),
    {
        self.rows.push((a, b, c));
    }

    /// The number of rows.
    pub fn len(&self) -> (r: usize)
        ensures
            r == self@.len(),
    {
        self.rows.len()
    }

    /// Whether `(a, b, c)` is a row of the table.
    pub fn contains(&self, a: &Field, b: &Field, c: &Field) -> (r: bool)
        ensures
            r == self@.contains((*a, *b, *c)),
    {
        let n = self.rows.len();
        let mut i: usize = 0;
        while i < n
            invariant
                n == self.rows.len(),
                0 <= i <= n,
                forall|k: int| 0 <= k < i ==> self.rows@[k] != (*a, *b, *c),
            decreases n - i,
        {
            let row = &self.rows[i];
            if row.0 == *a && row.1 == *b && row.2 == *c {
                return true;
            }
            i = i + 1;
        }
        false
    }
}

impl Clone for LookupTable {
    fn clone(&self) -> (r: Self)
        ensures
            r@ == self@,
    {
        let n = self.rows.len();
        let mut rows: Vec<(Field, Field, Field)> = Vec::new();
        let mut i: usize = 0;
        while i < n
            invariant
                n == self.rows.len(),
                0 <= i <= n,
                rows@ == self.rows@.take(i as int),
            decreases n - i,
        {
            let row = &self.rows[i];
            rows.push((row.0, row.1, row.2));
            proof {
                assert(rows@ == self.rows@.take(i + 1));
            }
            i = i + 1;
        }
        proof {
            assert(self.rows@.take(n as int) == self.rows@);
        }
        LookupTable { rows }
    }
}

/// What a lookup constraint says: the scope it was made in, its three
/// combinations, and the place of its table among the system's tables.
pub ghost struct LookupConstraintView {
    pub scope: Seq<char>,
    pub a: Seq<Term>,
    pub b: Seq<Term>,
    pub c: Seq<Term>,
    pub table_index: usize,
}

impl LookupConstraintView {
    /// The values of `a`, `b` and `c`, in the field.
    pub open spec fn row(self) -> (Field, Field, Field) {
        (
            Field::from_residue(weighted_sum(self.a) % modulus()),
            Field::from_residue(weighted_sum(self.b) % modulus()),
            Field::from_residue(weighted_sum(self.c) % modulus()),
        )
    }

    /// The values of `a`, `b` and `c` make a row of the table.
    pub open spec fn holds_in(self, table: Seq<(Field, Field, Field)>) -> bool {
        table.contains(self.row())
    }

    /// The numbers of terms with a coefficient other than zero in `a`, `b` and `c`.
    pub open spec fn nonzeros(self) -> (nat, nat, nat) {
        (count_nonzeros(self.a), count_nonzeros(self.b), count_nonzeros(self.c))
    }

    /// The constraint in words: its scope, then the three values in decimal.
    pub open spec fn text(self) -> Seq<char> {
        "Lookup "@ + self.scope + ":\n\t("@ + decimal(weighted_sum(self.a) % modulus()) + ", "@
            + decimal(weighted_sum(self.b) % modulus()) + ", "@ + decimal(
            weighted_sum(self.c) % modulus(),
        ) + ")\n"@
    }
}

/// A constraint that the values of three linear combinations make a row of a
/// lookup table.
#[derive(Debug)]
pub struct LookupConstraint {
    scope: Scope,
    a: LinearCombination,
    b: LinearCombination,
    c: LinearCombination,
    table_index: usize,
}

impl View for LookupConstraint {
    type V = LookupConstraintView;

    closed spec fn view(&self) -> LookupConstraintView {
        LookupConstraintView {
            scope: self.scope@,
            a: self.a@,
            b: self.b@,
            c: self.c@,
            table_index: self.table_index,
        }
    }
}

impl LookupConstraint {
    /// The constraint that `(a, b, c)` is a row of the table at `table_index`,
    /// made in `scope`.
    pub fn new(
        scope: Scope,
        a: LinearCombination,
        b: LinearCombination,
        c: LinearCombination,
        table_index: usize,
    ) -> (r: LookupConstraint)
        ensures
            r@ == (LookupConstraintView { scope: scope@, a: a@, b: b@, c: c@, table_index }),
    {
        LookupConstraint { scope, a, b, c, table_index }
    }

    /// The scope in which the constraint was made.
    pub fn scope(&self) -> (r: &Scope)
        ensures
            r@ == self@.scope,
    {
        &self.scope
    }

    /// The place of the constraint's table among the system's tables.
    pub fn table_index(&self) -> (r: usize)
        ensures
            r == self@.table_index,
    {
        self.table_index
    }

    /// The three combinations `(a, b, c)`.
    pub fn to_terms(&self) -> (r: (&LinearCombination, &LinearCombination, &LinearCombination))
        ensures
            r.0@ == self@.a,
            r.1@ == self@.b,
            r.2@ == self@.c,
    {
        (&self.a, &self.b, &self.c)
    }

    /// The numbers of terms with a coefficient other than zero in `a`, `b` and `c`.
    pub fn num_nonzeros(&self) -> (r: (u64, u64, u64))
        ensures
            (r.0 as nat, r.1 as nat, r.2 as nat) == self@.nonzeros(),
    {
        (self.a.num_nonzeros(), self.b.num_nonzeros(), self.c.num_nonzeros())
    }

    /// Whether the values of `a`, `b` and `c` make a row of `table`.
    pub fn is_satisfied(&self, table: &LookupTable) -> (r: bool)
        ensures
            r == self@.holds_in(table@),
    {
        let a = self.a.value();
        let b = self.b.value();
        let c = self.c.value();
        table.contains(&a, &b, &c)
    }

    /// The constraint in words.
    pub fn to_string(&self) -> (r: String)
        ensures
            r@ == self@.text(),
    {
        let a = self.a.value();
        let b = self.b.value();
        let c = self.c.value();
        let mut out = String::from_str("Lookup ");
        out.append(self.scope.as_str());
        out.append(":\n\t(");
        out.append(a.to_decimal().as_str());
        out.append(", ");
        out.append(b.to_decimal().as_str());
        out.append(", ");
        out.append(c.to_decimal().as_str());
        out.append(")\n");
        out
    }
}

impl Clone for LookupConstraint {
    fn clone(&self) -> (r: Self)
        ensures
            r@ == self@,
    {
        LookupConstraint {
            scope: self.scope.clone(),
            a: self.a.clone(),
            b: self.b.clone(),
            c: self.c.clone(),
            table_index: self.table_index,
        }
    }
}

} // verus!
