//! The constraint system: the variables allocated so far, the constraints
//! enforced so far, the lookup tables, and the scope counter.

use crate::constraint::{Constraint, ConstraintView};
use crate::counter::{
    all_hold, constraint_views, frames_wf, lookup_constraint_views, path, plus,
    total_lookup_nonzeros, total_nonzeros, with_innermost, without_innermost, Counter, FrameView,
    ScopeError,
};
use crate::field::Field;
use crate::lookup::{LookupConstraint, LookupConstraintView, LookupTable};
use crate::variable::Variable;
use std::rc::Rc;
use vstd::prelude::*;
use vstd::string::StringExecFns;

verus! {

/// The path of the scopes that are open, outermost first, with `/` between
/// their names.
pub type Scope = String;

/// The rows of the tables, table by table.
pub open spec fn table_views(tables: Seq<LookupTable>) -> Seq<Seq<(Field, Field, Field)>> {
    tables.map_values(|t: LookupTable| t@)
}

/// The constraints in words, one after the other.
pub open spec fn constraint_texts(constraints: Seq<ConstraintView>) -> Seq<char>
    decreases constraints.len(),
{
    if constraints.len() == 0 {
        Seq::empty()
    } else {
        constraint_texts(constraints.drop_last()) + constraints.last().text()
    }
}

/// The lookup constraints in words, one after the other.
pub open spec fn lookup_constraint_texts(constraints: Seq<LookupConstraintView>) -> Seq<char>
    decreases constraints.len(),
{
    if constraints.len() == 0 {
        Seq::empty()
    } else {
        lookup_constraint_texts(constraints.drop_last()) + constraints.last().text()
    }
}

/// The state of a constraint system.
pub ghost struct R1CSView {
    /// The constants, in the order of their allocation.
    pub constants: Seq<Variable>,
    /// The public variables, in the order of their allocation; the first is the one.
    pub public: Seq<Variable>,
    /// The private variables, in the order of their allocation.
    pub private: Seq<Variable>,
    /// The constraints, in the order of their enforcement.
    pub constraints: Seq<ConstraintView>,
    /// The lookup constraints, in the order of their enforcement.
    pub lookup_constraints: Seq<LookupConstraintView>,
    /// The lookup tables, in the order of their addition.
    pub tables: Seq<Seq<(Field, Field, Field)>>,
    /// The nonzero counts of all constraints of both kinds, summed.
    pub nonzeros: (nat, nat, nat),
    /// The frames of the scope counter, outermost first.
    pub frames: Seq<FrameView>,
}

impl R1CSView {
    /// The one: the public variable of index zero, whose value is the
    /// multiplicative identity.
    pub open spec fn one() -> Variable {
        Variable::Public(0, Rc::new(Field::from_residue(1)))
    }

    /// The state of a new system: nothing but the one, and no scope open.
    pub open spec fn fresh() -> R1CSView {
        R1CSView {
            constants: Seq::empty(),
            public: seq![R1CSView::one()],
            private: Seq::empty(),
            constraints: Seq::empty(),
            lookup_constraints: Seq::empty(),
            tables: Seq::empty(),
            nonzeros: (0, 0, 0),
            frames: seq![FrameView::fresh(Seq::empty())],
        }
    }

    /// What holds of every state that a system can reach.
    pub open spec fn wf(self) -> bool {
        &&& self.public.len() >= 1
        &&& self.public[0] == R1CSView::one()
        &&& self.public.len() <= u64::MAX
        &&& self.private.len() <= u64::MAX
        &&& self.constants.len() <= u64::MAX
        &&& forall|i: int|
            0 <= i < self.public.len() ==> (#[trigger] self.public[i]) is Public
                && self.public[i].spec_index() == i
        &&& forall|i: int|
            0 <= i < self.private.len() ==> (#[trigger] self.private[i]) is Private
                && self.private[i].spec_index() == i
        &&& forall|i: int| 0 <= i < self.constants.len() ==> (#[trigger] self.constants[i]) is Constant
        &&& self.nonzeros == plus(
            total_nonzeros(self.constraints),
            total_lookup_nonzeros(self.lookup_constraints),
        )
        &&& self.nonzeros.0 <= u64::MAX
        &&& self.nonzeros.1 <= u64::MAX
        &&& self.nonzeros.2 <= u64::MAX
        &&& frames_wf(self.frames)
        &&& forall|i: int| 0 <= i < self.frames.len() ==> self.bounds(#[trigger] self.frames[i])
    }

    /// A frame has counted no more than the system holds, and what it recorded
    /// is among what the system holds; the one is in no frame's count.
    pub open spec fn bounds(self, frame: FrameView) -> bool {
        &&& frame.constants <= self.constants.len()
        &&& frame.public + 1 <= self.public.len()
        &&& frame.private <= self.private.len()
        &&& forall|j: int|
            0 <= j < frame.constraints.len() ==> self.constraints.contains(
                #[trigger] frame.constraints[j],
            )
        &&& forall|j: int|
            0 <= j < frame.lookup_constraints.len() ==> self.lookup_constraints.contains(
                #[trigger] frame.lookup_constraints[j],
            )
        &&& frame.nonzeros.0 <= self.nonzeros.0
        &&& frame.nonzeros.1 <= self.nonzeros.1
        &&& frame.nonzeros.2 <= self.nonzeros.2
    }

    /// The constant that `with_constant` allocates.
    pub open spec fn next_constant(self, value: Field) -> Variable {
        Variable::Constant(Rc::new(value))
    }

    /// The public variable that `with_public` allocates.
    pub open spec fn next_public(self, value: Field) -> Variable {
        Variable::Public(self.public.len() as u64, Rc::new(value))
    }

    /// The private variable that `with_private` allocates.
    pub open spec fn next_private(self, value: Field) -> Variable {
        Variable::Private(self.private.len() as u64, Rc::new(value))
    }

    /// The state after a constant of `value` has been allocated.
    pub open spec fn with_constant(self, value: Field) -> R1CSView {
        R1CSView {
            constants: self.constants.push(self.next_constant(value)),
            frames: with_innermost(self.frames, self.frames.last().with_constant()),
            ..self
        }
    }

    /// The state after a public variable of `value` has been allocated.
    pub open spec fn with_public(self, value: Field) -> R1CSView {
        R1CSView {
            public: self.public.push(self.next_public(value)),
            frames: with_innermost(self.frames, self.frames.last().with_public()),
            ..self
        }
    }

    /// The state after a private variable of `value` has been allocated.
    pub open spec fn with_private(self, value: Field) -> R1CSView {
        R1CSView {
            private: self.private.push(self.next_private(value)),
            frames: with_innermost(self.frames, self.frames.last().with_private()),
            ..self
        }
    }

    /// The state after `constraint` has been enforced.
    pub open spec fn with_constraint(self, constraint: ConstraintView) -> R1CSView {
        R1CSView {
            constraints: self.constraints.push(constraint),
            nonzeros: plus(self.nonzeros, constraint.nonzeros()),
            frames: with_innermost(self.frames, self.frames.last().with_constraint(constraint)),
            ..self
        }
    }

    /// The state after the lookup constraint `constraint` has been enforced.
    pub open spec fn with_lookup_constraint(self, constraint: LookupConstraintView) -> R1CSView {
        R1CSView {
            lookup_constraints: self.lookup_constraints.push(constraint),
            nonzeros: plus(self.nonzeros, constraint.nonzeros()),
            frames: with_innermost(
                self.frames,
                self.frames.last().with_lookup_constraint(constraint),
            ),
            ..self
        }
    }

    /// The state after `table` has been added.
    pub open spec fn with_table(self, table: Seq<(Field, Field, Field)>) -> R1CSView {
        R1CSView { tables: self.tables.push(table), ..self }
    }

    /// The state after the scope `name` has been entered.
    pub open spec fn entered(self, name: Seq<char>) -> R1CSView {
        R1CSView { frames: self.frames.push(FrameView::fresh(name)), ..self }
    }

    /// The state after the innermost scope has been left.
    pub open spec fn left(self) -> R1CSView {
        R1CSView { frames: without_innermost(self.frames), ..self }
    }

    /// Allocating a constant keeps the invariant.
    pub proof fn lemma_with_constant(self, value: Field)
        requires
            self.wf(),
            self.constants.len() < u64::MAX,
        ensures
            self.with_constant(value).wf(),
    {
        let next = self.with_constant(value);
        assert(self.bounds(self.frames.last()));
        assert(self.frames.last().wf());
        assert forall|i: int| 0 <= i < next.frames.len() implies (#[trigger] next.frames[i]).wf()
            && next.bounds(next.frames[i]) by {
            assert(self.frames[i].wf());
            assert(self.bounds(self.frames[i]));
        }
    }

    /// Allocating a public variable keeps the invariant.
    pub proof fn lemma_with_public(self, value: Field)
        requires
            self.wf(),
            self.public.len() < u64::MAX,
        ensures
            self.with_public(value).wf(),
    {
        let next = self.with_public(value);
        assert(self.bounds(self.frames.last()));
        assert(self.frames.last().wf());
        assert forall|i: int| 0 <= i < next.frames.len() implies (#[trigger] next.frames[i]).wf()
            && next.bounds(next.frames[i]) by {
            assert(self.frames[i].wf());
            assert(self.bounds(self.frames[i]));
        }
    }

    /// Allocating a private variable keeps the invariant.
    pub proof fn lemma_with_private(self, value: Field)
        requires
            self.wf(),
            self.private.len() < u64::MAX,
        ensures
            self.with_private(value).wf(),
    {
        let next = self.with_private(value);
        assert(self.bounds(self.frames.last()));
        assert(self.frames.last().wf());
        assert forall|i: int| 0 <= i < next.frames.len() implies (#[trigger] next.frames[i]).wf()
            && next.bounds(next.frames[i]) by {
            assert(self.frames[i].wf());
            assert(self.bounds(self.frames[i]));
        }
    }

    /// Enforcing a constraint keeps the invariant, as long as the nonzero
    /// counts stay within 64 bits.
    pub proof fn lemma_with_constraint(self, c: ConstraintView)
        requires
            self.wf(),
            self.nonzeros.0 + c.nonzeros().0 <= u64::MAX,
            self.nonzeros.1 + c.nonzeros().1 <= u64::MAX,
            self.nonzeros.2 + c.nonzeros().2 <= u64::MAX,
        ensures
            self.with_constraint(c).wf(),
    {
        let next = self.with_constraint(c);
        assert(self.bounds(self.frames.last()));
        assert(self.frames.last().wf());
        assert(next.constraints.drop_last() =~= self.constraints);
        assert(next.frames.last().constraints.drop_last() =~= self.frames.last().constraints);
        assert(next.constraints.last() == c);
        assert forall|x: ConstraintView| self.constraints.contains(x) implies next.constraints.contains(
            x,
        ) by {
            let k = choose|k: int| 0 <= k < self.constraints.len() && self.constraints[k] == x;
            assert(next.constraints[k] == x);
        }
        assert forall|i: int| 0 <= i < next.frames.len() implies (#[trigger] next.frames[i]).wf()
            && next.bounds(next.frames[i]) by {
            assert(self.frames[i].wf());
            assert(self.bounds(self.frames[i]));
            let frame = next.frames[i];
            assert forall|j: int| 0 <= j < frame.constraints.len() implies next.constraints.contains(
                #[trigger] frame.constraints[j],
            ) by {
                if i == self.frames.len() - 1 && j == frame.constraints.len() - 1 {
                    assert(next.constraints[next.constraints.len() - 1] == c);
                } else {
                    assert(self.constraints.contains(self.frames[i].constraints[j]));
                }
            }
        }
    }

    /// Enforcing a lookup constraint keeps the invariant, as long as the
    /// nonzero counts stay within 64 bits.
    pub proof fn lemma_with_lookup_constraint(self, c: LookupConstraintView)
        requires
            self.wf(),
            self.nonzeros.0 + c.nonzeros().0 <= u64::MAX,
            self.nonzeros.1 + c.nonzeros().1 <= u64::MAX,
            self.nonzeros.2 + c.nonzeros().2 <= u64::MAX,
        ensures
            self.with_lookup_constraint(c).wf(),
    {
        let next = self.with_lookup_constraint(c);
        assert(self.bounds(self.frames.last()));
        assert(self.frames.last().wf());
        assert(next.lookup_constraints.drop_last() =~= self.lookup_constraints);
        assert(next.frames.last().lookup_constraints.drop_last()
            =~= self.frames.last().lookup_constraints);
        assert(next.lookup_constraints.last() == c);
        assert forall|x: LookupConstraintView|
            self.lookup_constraints.contains(x) implies next.lookup_constraints.contains(x) by {
            let k = choose|k: int|
                0 <= k < self.lookup_constraints.len() && self.lookup_constraints[k] == x;
            assert(next.lookup_constraints[k] == x);
        }
        assert forall|i: int| 0 <= i < next.frames.len() implies (#[trigger] next.frames[i]).wf()
            && next.bounds(next.frames[i]) by {
            assert(self.frames[i].wf());
            assert(self.bounds(self.frames[i]));
            let frame = next.frames[i];
            assert forall|j: int|
                0 <= j < frame.lookup_constraints.len() implies next.lookup_constraints.contains(
                #[trigger] frame.lookup_constraints[j],
            ) by {
                if i == self.frames.len() - 1 && j == frame.lookup_constraints.len() - 1 {
                    assert(next.lookup_constraints[next.lookup_constraints.len() - 1] == c);
                } else {
                    assert(self.lookup_constraints.contains(self.frames[i].lookup_constraints[j]));
                }
            }
        }
    }

    /// Entering a scope keeps the invariant.
    pub proof fn lemma_entered(self, name: Seq<char>)
        requires
            self.wf(),
        ensures
            self.entered(name).wf(),
    {
        let next = self.entered(name);
        assert forall|i: int| 0 <= i < next.frames.len() implies (#[trigger] next.frames[i]).wf()
            && next.bounds(next.frames[i]) by {
            if i < self.frames.len() {
                assert(self.frames[i].wf());
                assert(self.bounds(self.frames[i]));
            }
        }
    }

    /// Leaving a scope keeps the invariant.
    pub proof fn lemma_left(self)
        requires
            self.wf(),
        ensures
            self.left().wf(),
    {
        let next = self.left();
        assert forall|i: int| 0 <= i < next.frames.len() implies (#[trigger] next.frames[i]).wf()
            && next.bounds(next.frames[i]) by {
            assert(self.frames[i].wf());
            assert(self.bounds(self.frames[i]));
        }
    }

    /// The system in words: every constraint, then every lookup constraint,
    /// then a line break.
    pub open spec fn text(self) -> Seq<char> {
        constraint_texts(self.constraints) + lookup_constraint_texts(self.lookup_constraints)
            + "\n"@
    }
}

/// A rank-1 constraint system under construction.
#[derive(Debug)]
pub struct R1CS {
    constants: Vec<Variable>,
    public: Vec<Variable>,
    private: Vec<Variable>,
    constraints: Vec<Constraint>,
    lookup_constraints: Vec<LookupConstraint>,
    counter: Counter,
    pub tables: Vec<LookupTable>,
    nonzeros: (u64, u64, u64),
}

impl View for R1CS {
    type V = R1CSView;

    closed spec fn view(&self) -> R1CSView {
        R1CSView {
            constants: self.constants@,
            public: self.public@,
            private: self.private@,
            constraints: constraint_views(self.constraints@),
            lookup_constraints: lookup_constraint_views(self.lookup_constraints@),
            tables: table_views(self.tables@),
            nonzeros: (self.nonzeros.0 as nat, self.nonzeros.1 as nat, self.nonzeros.2 as nat),
            frames: self.counter@,
        }
    }
}

impl R1CS {
    /// The system's invariant.
    pub open spec fn wf(&self) -> bool {
        self@.wf()
    }

    /// Returns a new instance of a constraint system.
    pub fn new() -> (r: R1CS)
        ensures
            r.wf(),
            r@ == R1CSView::fresh(),
    {
        let mut public: Vec<Variable> = Vec::new();
        public.push(Variable::Public(0u64, Rc::new(Field::one())));
        let r = R1CS {
            constants: Vec::new(),
            public,
            private: Vec::new(),
            constraints: Vec::new(),
            lookup_constraints: Vec::new(),
            counter: Counter::new(),
            tables: Vec::new(),
            nonzeros: (0, 0, 0),
        };
        proof {
            assert(r@.constants =~= Seq::empty());
            assert(r@.public =~= seq![R1CSView::one()]);
            assert(r@.private =~= Seq::empty());
            assert(r@.constraints =~= Seq::empty());
            assert(r@.lookup_constraints =~= Seq::empty());
            assert(r@.tables =~= Seq::empty());
            assert(r@ == R1CSView::fresh());
        }
        r
    }

    /// Adds a lookup table, which later lookup constraints name by its place.
    pub fn add_lookup_table(&mut self, table: LookupTable)
        ensures
            final(self)@ == old(self)@.with_table(table@),
            old(self).wf() ==> final(self).wf(),
    {
        self.tables.push(table);
        proof {
            assert(self@.tables =~= old(self)@.tables.push(table@));
        }
    }

    /// Appends the given scope to the current environment.
    pub fn push_scope(&mut self, name: &str) -> (r: Result<(), ScopeError>)
        requires
            old(self).wf(),
        ensures
            r is Ok,
            final(self).wf(),
            final(self)@ == old(self)@.entered(name@),
    {
        proof {
            old(self)@.lemma_entered(name@);
        }
        self.counter.push(name)
    }

    /// Removes the given scope from the current environment.
    pub fn pop_scope(&mut self, name: &str) -> (r: Result<(), ScopeError>)
        requires
            old(self).wf(),
        ensures
            final(self).wf(),
            name@ == old(self)@.frames.last().name ==> r is Ok && final(self)@ == old(self)@.left(),
            name@ != old(self)@.frames.last().name ==> r == Err::<(), ScopeError>(
                ScopeError::Mismatch,
            ) && final(self)@ == old(self)@,
    {
        proof {
            old(self)@.lemma_left();
        }
        self.counter.pop(name)
    }

    /// Returns a new constant with the given value and scope.
    pub fn new_constant(&mut self, value: Field) -> (r: Variable)
        requires
            old(self).wf(),
        ensures
            final(self).wf(),
            r == old(self)@.next_constant(value),
            final(self)@ == old(self)@.with_constant(value),
    {
        let variable = Variable::Constant(Rc::new(value));
        self.constants.push(variable.clone());
        proof {
            assert(old(self)@.bounds(old(self)@.frames.last()));
            assert(self.constants@.len() == old(self)@.constants.len() + 1);
            assert(self.constants@.len() == self.constants.len());
        }
        self.counter.increment_constant();
        proof {
            old(self)@.lemma_with_constant(value);
        }
        variable
    }

    /// Returns a new public variable with the given value and scope.
    pub fn new_public(&mut self, value: Field) -> (r: Variable)
        requires
            old(self).wf(),
        ensures
            final(self).wf(),
            r == old(self)@.next_public(value),
            final(self)@ == old(self)@.with_public(value),
    {
        let variable = Variable::Public(self.public.len() as u64, Rc::new(value));
        self.public.push(variable.clone());
        proof {
            assert(old(self)@.bounds(old(self)@.frames.last()));
            assert(self.public@.len() == old(self)@.public.len() + 1);
            assert(self.public@.len() == self.public.len());
        }
        self.counter.increment_public();
        proof {
            old(self)@.lemma_with_public(value);
        }
        variable
    }

    /// Returns a new private variable with the given value and scope.
    pub fn new_private(&mut self, value: Field) -> (r: Variable)
        requires
            old(self).wf(),
        ensures
            final(self).wf(),
            r == old(self)@.next_private(value),
            final(self)@ == old(self)@.with_private(value),
    {
        let variable = Variable::Private(self.private.len() as u64, Rc::new(value));
        self.private.push(variable.clone());
        proof {
            assert(old(self)@.bounds(old(self)@.frames.last()));
            assert(self.private@.len() == old(self)@.private.len() + 1);
            assert(self.private@.len() == self.private.len());
        }
        self.counter.increment_private();
        proof {
            old(self)@.lemma_with_private(value);
        }
        variable
    }

    /// Adds one constraint enforcing that `(A * B) == C`.
    pub fn enforce(&mut self, constraint: Constraint)
        requires
            old(self).wf(),
            old(self)@.nonzeros.0 + constraint@.nonzeros().0 <= u64::MAX,
            old(self)@.nonzeros.1 + constraint@.nonzeros().1 <= u64::MAX,
            old(self)@.nonzeros.2 + constraint@.nonzeros().2 <= u64::MAX,
        ensures
            final(self).wf(),
            final(self)@ == old(self)@.with_constraint(constraint@),
    {
        let (a_nonzeros, b_nonzeros, c_nonzeros) = constraint.num_nonzeros();
        self.nonzeros.0 = self.nonzeros.0 + a_nonzeros;
        self.nonzeros.1 = self.nonzeros.1 + b_nonzeros;
        self.nonzeros.2 = self.nonzeros.2 + c_nonzeros;

        self.constraints.push(constraint.clone());
        proof {
            assert(self@.constraints =~= old(self)@.constraints.push(constraint@));
            assert(self@.constraints.drop_last() =~= old(self)@.constraints);
        }
        proof {
            assert(old(self)@.bounds(old(self)@.frames.last()));
            old(self)@.lemma_with_constraint(constraint@);
        }
        self.counter.add_constraint(constraint);
    }

    /// Adds one lookup constraint enforcing that `(A, B, C)` is a row of its table.
    pub fn enforce_lookup(&mut self, constraint: LookupConstraint)
        requires
            old(self).wf(),
            old(self)@.nonzeros.0 + constraint@.nonzeros().0 <= u64::MAX,
            old(self)@.nonzeros.1 + constraint@.nonzeros().1 <= u64::MAX,
            old(self)@.nonzeros.2 + constraint@.nonzeros().2 <= u64::MAX,
        ensures
            final(self).wf(),
            final(self)@ == old(self)@.with_lookup_constraint(constraint@),
    {
        let (a_nonzeros, b_nonzeros, c_nonzeros) = constraint.num_nonzeros();
        self.nonzeros.0 = self.nonzeros.0 + a_nonzeros;
        self.nonzeros.1 = self.nonzeros.1 + b_nonzeros;
        self.nonzeros.2 = self.nonzeros.2 + c_nonzeros;

        self.lookup_constraints.push(constraint.clone());
        proof {
            assert(self@.lookup_constraints =~= old(self)@.lookup_constraints.push(constraint@));
            assert(self@.lookup_constraints.drop_last() =~= old(self)@.lookup_constraints);
        }
        proof {
            assert(old(self)@.bounds(old(self)@.frames.last()));
            old(self)@.lemma_with_lookup_constraint(constraint@);
        }
        self.counter.add_lookup_constraint(constraint);
    }

    /// Returns `true` if all constraints in the environment are satisfied.
    /// Lookup constraints are not examined.
    pub fn is_satisfied(&self) -> (r: bool)
        ensures
            r == all_hold(self@.constraints),
    {
        let n = self.constraints.len();
        let mut i: usize = 0;
        while i < n
            invariant
                n == self.constraints.len(),
                0 <= i <= n,
                forall|k: int| 0 <= k < i ==> (#[trigger] self@.constraints[k]).holds(),
            decreases n - i,
        {
            if !self.constraints[i].is_satisfied() {
                proof {
                    assert(!self@.constraints[i as int].holds());
                }
                return false;
            }
            i = i + 1;
        }
        true
    }

    /// Returns `true` if all constraints in the current scope are satisfied.
    pub fn is_satisfied_in_scope(&self) -> (r: bool)
        requires
            self.wf(),
        ensures
            r == all_hold(self@.frames.last().constraints),
    {
        self.counter.is_satisfied_in_scope()
    }

    /// Returns the current scope.
    pub fn scope(&self) -> (r: Scope)
        requires
            self.wf(),
        ensures
            r@ == path(self@.frames),
    {
        self.counter.scope()
    }

    /// Returns the number of constants in the constraint system.
    pub fn num_constants(&self) -> (r: u64)
        ensures
            r == self@.constants.len(),
    {
        self.constants.len() as u64
    }

    /// Returns the number of public variables in the constraint system.
    pub fn num_public(&self) -> (r: u64)
        ensures
            r == self@.public.len(),
    {
        self.public.len() as u64
    }

    /// Returns the number of private variables in the constraint system.
    pub fn num_private(&self) -> (r: u64)
        ensures
            r == self@.private.len(),
    {
        self.private.len() as u64
    }

    /// Returns the number of constraints in the constraint system.
    pub fn num_constraints(&self) -> (r: u64)
        ensures
            r == self@.constraints.len(),
    {
        self.constraints.len() as u64
    }

    /// Returns the number of lookup constraints in the constraint system.
    pub fn num_lookup_constraints(&self) -> (r: u64)
        ensures
            r == self@.lookup_constraints.len(),
    {
        self.lookup_constraints.len() as u64
    }

    /// Returns the number of nonzeros in the constraint system.
    pub fn num_nonzeros(&self) -> (r: (u64, u64, u64))
        ensures
            (r.0 as nat, r.1 as nat, r.2 as nat) == self@.nonzeros,
    {
        self.nonzeros
    }

    /// Returns the number of constants for the current scope.
    pub fn num_constants_in_scope(&self) -> (r: u64)
        requires
            self.wf(),
        ensures
            r == self@.frames.last().constants,
    {
        self.counter.num_constants_in_scope()
    }

    /// Returns the number of public variables for the current scope.
    pub fn num_public_in_scope(&self) -> (r: u64)
        requires
            self.wf(),
        ensures
            r == self@.frames.last().public,
    {
        self.counter.num_public_in_scope()
    }

    /// Returns the number of private variables for the current scope.
    pub fn num_private_in_scope(&self) -> (r: u64)
        requires
            self.wf(),
        ensures
            r == self@.frames.last().private,
    {
        self.counter.num_private_in_scope()
    }

    /// Returns the number of constraints for the current scope.
    pub fn num_constraints_in_scope(&self) -> (r: u64)
        requires
            self.wf(),
        ensures
            r == self@.frames.last().constraints.len(),
    {
        self.counter.num_constraints_in_scope()
    }

    /// Returns the number of lookup constraints for the current scope.
    pub fn num_lookup_constraints_in_scope(&self) -> (r: u64)
        requires
            self.wf(),
        ensures
            r == self@.frames.last().lookup_constraints.len(),
    {
        self.counter.num_lookup_constraints_in_scope()
    }

    /// Returns the number of nonzeros for the current scope.
    pub fn num_nonzeros_in_scope(&self) -> (r: (u64, u64, u64))
        requires
            self.wf(),
        ensures
            (r.0 as nat, r.1 as nat, r.2 as nat) == self@.frames.last().nonzeros,
    {
        self.counter.num_nonzeros_in_scope()
    }

    /// Returns the public variables in the constraint system.
    pub fn to_public_variables(&self) -> (r: &Vec<Variable>)
        ensures
            r@ == self@.public,
    {
        &self.public
    }

    /// Returns the private variables in the constraint system.
    pub fn to_private_variables(&self) -> (r: &Vec<Variable>)
        ensures
            r@ == self@.private,
    {
        &self.private
    }

    /// Returns the constraints in the constraint system.
    pub fn to_constraints(&self) -> (r: &Vec<Constraint>)
        ensures
            constraint_views(r@) == self@.constraints,
    {
        &self.constraints
    }

    /// Returns the lookup constraints in the constraint system.
    pub fn to_lookup_constraints(&self) -> (r: &Vec<LookupConstraint>)
        ensures
            lookup_constraint_views(r@) == self@.lookup_constraints,
    {
        &self.lookup_constraints
    }

    /// The system in words: every constraint, then every lookup constraint,
    /// then a line break.
    pub fn to_string(&self) -> (r: String)
        ensures
            r@ == self@.text(),
    {
        let mut output = String::new();
        let n = self.constraints.len();
        let mut i: usize = 0;
        while i < n
            invariant
                n == self.constraints.len(),
                0 <= i <= n,
                output@ == constraint_texts(self@.constraints.take(i as int)),
            decreases n - i,
        {
            proof {
                assert(self@.constraints.take(i + 1).drop_last() =~= self@.constraints.take(
                    i as int,
                ));
            }
            output.append(self.constraints[i].to_string().as_str());
            i = i + 1;
        }
        proof {
            assert(self@.constraints.take(n as int) =~= self@.constraints);
        }
        let m = self.lookup_constraints.len();
        let mut j: usize = 0;
        while j < m
            invariant
                m == self.lookup_constraints.len(),
                0 <= j <= m,
                output@ == constraint_texts(self@.constraints) + lookup_constraint_texts(
                    self@.lookup_constraints.take(j as int),
                ),
            decreases m - j,
        {
            proof {
                assert(self@.lookup_constraints.take(j + 1).drop_last()
                    =~= self@.lookup_constraints.take(j as int));
            }
            output.append(self.lookup_constraints[j].to_string().as_str());
            proof {
                assert(output@ =~= constraint_texts(self@.constraints) + lookup_constraint_texts(
                    self@.lookup_constraints.take(j + 1),
                ));
            }
            j = j + 1;
        }
        proof {
            assert(self@.lookup_constraints.take(m as int) =~= self@.lookup_constraints);
        }
        output.append("\n");
        output
    }
}

} // verus!
