//! The scope counter: a stack of named frames, each with the tallies of what
//! was allocated and enforced while it was the innermost one.

use crate::constraint::{Constraint, ConstraintView};
use crate::lookup::{LookupConstraint, LookupConstraintView};
use crate::r1cs::Scope;
use vstd::prelude::*;
use vstd::string::StringExecFns;

verus! {

/// What goes wrong with scopes: the name given on leaving a scope is not that
/// of the innermost open scope.
#[derive(Clone, Copy, Debug, PartialEq, Eq, Structural)]
pub enum ScopeError {
    Mismatch,
}

impl ScopeError {
    /// The error in words.
    pub fn message(&self) -> (r: String)
        ensures
            r@ == "Mismatching scopes"@,
    {
        String::from_str("Mismatching scopes")
    }
}

/// The sum of two triples, place by place.
pub open spec fn plus(x: (nat, nat, nat), y: (nat, nat, nat)) -> (nat, nat, nat) {
    (x.0 + y.0, x.1 + y.1, x.2 + y.2)
}

/// The nonzero counts of all the constraints, summed place by place.
pub open spec fn total_nonzeros(constraints: Seq<ConstraintView>) -> (nat, nat, nat)
    decreases constraints.len(),
{
    if constraints.len() == 0 {
        (0, 0, 0)
    } else {
        plus(total_nonzeros(constraints.drop_last()), constraints.last().nonzeros())
    }
}

/// The nonzero counts of all the lookup constraints, summed place by place.
pub open spec fn total_lookup_nonzeros(constraints: Seq<LookupConstraintView>) -> (nat, nat, nat)
    decreases constraints.len(),
{
    if constraints.len() == 0 {
        (0, 0, 0)
    } else {
        plus(total_lookup_nonzeros(constraints.drop_last()), constraints.last().nonzeros())
    }
}

/// Every one of the constraints holds.
pub open spec fn all_hold(constraints: Seq<ConstraintView>) -> bool {
    forall|i: int| 0 <= i < constraints.len() ==> (#[trigger] constraints[i]).holds()
}

/// What the constraints say, one by one.
pub open spec fn constraint_views(constraints: Seq<Constraint>) -> Seq<ConstraintView> {
    constraints.map_values(|c: Constraint| c@)
}

/// What the lookup constraints say, one by one.
pub open spec fn lookup_constraint_views(constraints: Seq<LookupConstraint>) -> Seq<
    LookupConstraintView,
> {
    constraints.map_values(|c: LookupConstraint| c@)
}

/// One frame of the stack: its name and what was counted while it was innermost.
pub ghost struct FrameView {
    pub name: Seq<char>,
    pub constraints: Seq<ConstraintView>,
    pub lookup_constraints: Seq<LookupConstraintView>,
    pub constants: nat,
    pub public: nat,
    pub private: nat,
    pub nonzeros: (nat, nat, nat),
}

impl FrameView {
    /// The frame of a scope that has just been entered.
    pub open spec fn fresh(name: Seq<char>) -> FrameView {
        FrameView {
            name,
            constraints: Seq::empty(),
            lookup_constraints: Seq::empty(),
            constants: 0,
            public: 0,
            private: 0,
            nonzeros: (0, 0, 0),
        }
    }

    /// The frame's nonzero tally is the sum over what it recorded, and every
    /// tally fits in 64 bits.
    pub open spec fn wf(self) -> bool {
        &&& self.nonzeros == plus(
            total_nonzeros(self.constraints),
            total_lookup_nonzeros(self.lookup_constraints),
        )
        &&& self.constants <= u64::MAX
        &&& self.public <= u64::MAX
        &&& self.private <= u64::MAX
        &&& self.nonzeros.0 <= u64::MAX
        &&& self.nonzeros.1 <= u64::MAX
        &&& self.nonzeros.2 <= u64::MAX
    }

    /// The frame after one more constant.
    pub open spec fn with_constant(self) -> FrameView {
        FrameView { constants: self.constants + 1, ..self }
    }

    /// The frame after one more public variable.
    pub open spec fn with_public(self) -> FrameView {
        FrameView { public: self.public + 1, ..self }
    }

    /// The frame after one more private variable.
    pub open spec fn with_private(self) -> FrameView {
        FrameView { private: self.private + 1, ..self }
    }

    /// The frame after it has recorded `constraint`.
    pub open spec fn with_constraint(self, constraint: ConstraintView) -> FrameView {
        FrameView {
            constraints: self.constraints.push(constraint),
            nonzeros: plus(self.nonzeros, constraint.nonzeros()),
            ..self
        }
    }

    /// The frame after it has recorded the lookup constraint `constraint`.
    pub open spec fn with_lookup_constraint(self, constraint: LookupConstraintView) -> FrameView {
        FrameView {
            lookup_constraints: self.lookup_constraints.push(constraint),
            nonzeros: plus(self.nonzeros, constraint.nonzeros()),
            ..self
        }
    }
}

/// The names of all frames but the outermost, outermost first, with `/` between them.
pub open spec fn path(frames: Seq<FrameView>) -> Seq<char>
    decreases frames.len(),
{
    if frames.len() <= 1 {
        Seq::empty()
    } else if frames.len() == 2 {
        frames[1].name
    } else {
        path(frames.drop_last()) + "/"@ + frames.last().name
    }
}

/// The stack after its innermost frame has been left; the outermost frame stays.
pub open spec fn without_innermost(frames: Seq<FrameView>) -> Seq<FrameView> {
    if frames.len() > 1 {
        frames.drop_last()
    } else {
        frames
    }
}

/// The stack with its innermost frame replaced.
pub open spec fn with_innermost(frames: Seq<FrameView>, frame: FrameView) -> Seq<FrameView> {
    frames.update(frames.len() - 1, frame)
}

#[derive(Debug)]
struct Frame {
    name: Scope,
    constraints: Vec<Constraint>,
    lookup_constraints: Vec<LookupConstraint>,
    constants: u64,
    public: u64,
    private: u64,
    nonzeros: (u64, u64, u64),
}

impl View for Frame {
    type V = FrameView;

    closed spec fn view(&self) -> FrameView {
        FrameView {
            name: self.name@,
            constraints: constraint_views(self.constraints@),
            lookup_constraints: lookup_constraint_views(self.lookup_constraints@),
            constants: self.constants as nat,
            public: self.public as nat,
            private: self.private as nat,
            nonzeros: (self.nonzeros.0 as nat, self.nonzeros.1 as nat, self.nonzeros.2 as nat),
        }
    }
}

impl Frame {
    fn new(name: Scope) -> (r: Frame)
        ensures
            r@ == FrameView::fresh(name@),
    {
        let r = Frame {
            name,
            constraints: Vec::new(),
            lookup_constraints: Vec::new(),
            constants: 0,
            public: 0,
            private: 0,
            nonzeros: (0, 0, 0),
        };
        proof {
            assert(r@.constraints =~= Seq::empty());
            assert(r@.lookup_constraints =~= Seq::empty());
        }
        r
    }
}

/// The stack of frames. The outermost frame has the empty name and is never left.
#[derive(Debug)]
pub struct Counter {
    frames: Vec<Frame>,
}

impl View for Counter {
    type V = Seq<FrameView>;

    closed spec fn view(&self) -> Seq<FrameView> {
        self.frames@.map_values(|f: Frame| f@)
    }
}

/// The stack has its outermost frame, which is nameless, and every frame's
/// tallies are sound.
pub open spec fn frames_wf(frames: Seq<FrameView>) -> bool {
    &&& frames.len() >= 1
    &&& frames[0].name == Seq::<char>::empty()
    &&& forall|i: int| 0 <= i < frames.len() ==> (#[trigger] frames[i]).wf()
}

impl Counter {
    /// The counter's invariant.
    pub open spec fn wf(&self) -> bool {
        frames_wf(self@)
    }

    /// The counter with no scope open.
    pub fn new() -> (r: Counter)
        ensures
            r.wf(),
            r@ == seq![FrameView::fresh(Seq::empty())],
    {
        let mut frames: Vec<Frame> = Vec::new();
        frames.push(Frame::new(String::new()));
        let r = Counter { frames };
        proof {
            assert(r@ =~= seq![FrameView::fresh(Seq::empty())]);
        }
        r
    }

    /// Enters the scope `name`: a fresh frame becomes the innermost one.
    pub fn push(&mut self, name: &str) -> (r: Result<(), ScopeError>)
        requires
            old(self).wf(),
        ensures
            r is Ok,
            final(self).wf(),
            final(self)@ == old(self)@.push(FrameView::fresh(name@)),
    {
        self.frames.push(Frame::new(String::from_str(name)));
        proof {
            assert(self@ =~= old(self)@.push(FrameView::fresh(name@)));
        }
        Ok(())
    }

    /// Leaves the scope `name`, which must be the innermost one; the frame
    /// below it is innermost again, with the tallies it had. With no scope
    /// open, the empty name is accepted and nothing changes.
    pub fn pop(&mut self, name: &str) -> (r: Result<(), ScopeError>)
        requires
            old(self).wf(),
        ensures
            final(self).wf(),
            name@ == old(self)@.last().name ==> r is Ok && final(self)@ == without_innermost(
                old(self)@,
            ),
            name@ != old(self)@.last().name ==> r == Err::<(), ScopeError>(ScopeError::Mismatch)
                && final(self)@ == old(self)@,
    {
        let n = self.frames.len();
        let given = String::from_str(name);
        if given == self.frames[n - 1].name {
            if n > 1 {
                self.frames.pop();
                proof {
                    assert(self@ =~= old(self)@.drop_last());
                }
            }
            Ok(())
        } else {
            Err(ScopeError::Mismatch)
        }
    }

    /// Counts one more constant in the innermost frame.
    pub fn increment_constant(&mut self)
        requires
            old(self).wf(),
            old(self)@.last().constants < u64::MAX,
        ensures
            final(self).wf(),
            final(self)@ == with_innermost(old(self)@, old(self)@.last().with_constant()),
    {
        let mut frame = self.frames.pop().unwrap();
        frame.constants = frame.constants + 1;
        self.frames.push(frame);
        proof {
            assert(self@ =~= with_innermost(old(self)@, old(self)@.last().with_constant()));
        }
    }

    /// Counts one more public variable in the innermost frame.
    pub fn increment_public(&mut self)
        requires
            old(self).wf(),
            old(self)@.last().public < u64::MAX,
        ensures
            final(self).wf(),
            final(self)@ == with_innermost(old(self)@, old(self)@.last().with_public()),
    {
        let mut frame = self.frames.pop().unwrap();
        frame.public = frame.public + 1;
        self.frames.push(frame);
        proof {
            assert(self@ =~= with_innermost(old(self)@, old(self)@.last().with_public()));
        }
    }

    /// Counts one more private variable in the innermost frame.
    pub fn increment_private(&mut self)
        requires
            old(self).wf(),
            old(self)@.last().private < u64::MAX,
        ensures
            final(self).wf(),
            final(self)@ == with_innermost(old(self)@, old(self)@.last().with_private()),
    {
        let mut frame = self.frames.pop().unwrap();
        frame.private = frame.private + 1;
        self.frames.push(frame);
        proof {
            assert(self@ =~= with_innermost(old(self)@, old(self)@.last().with_private()));
        }
    }

    /// Records `constraint` in the innermost frame and adds its nonzero counts
    /// to that frame's tally.
    pub fn add_constraint(&mut self, constraint: Constraint)
        requires
            old(self).wf(),
            old(self)@.last().nonzeros.0 + constraint@.nonzeros().0 <= u64::MAX,
            old(self)@.last().nonzeros.1 + constraint@.nonzeros().1 <= u64::MAX,
            old(self)@.last().nonzeros.2 + constraint@.nonzeros().2 <= u64::MAX,
        ensures
            final(self).wf(),
            final(self)@ == with_innermost(
                old(self)@,
                old(self)@.last().with_constraint(constraint@),
            ),
    {
        let mut frame = self.frames.pop().unwrap();
        let ghost before = frame@;
        let (a, b, c) = constraint.num_nonzeros();
        frame.nonzeros = (frame.nonzeros.0 + a, frame.nonzeros.1 + b, frame.nonzeros.2 + c);
        frame.constraints.push(constraint);
        proof {
            assert(frame@.constraints =~= before.constraints.push(constraint@));
            assert(frame@.constraints.drop_last() =~= before.constraints);
            assert(frame@ == before.with_constraint(constraint@));
        }
        self.frames.push(frame);
        proof {
            assert(self@ =~= with_innermost(
                old(self)@,
                old(self)@.last().with_constraint(constraint@),
            ));
        }
    }

    /// Records the lookup constraint `constraint` in the innermost frame and
    /// adds its nonzero counts to that frame's tally.
    pub fn add_lookup_constraint(&mut self, constraint: LookupConstraint)
        requires
            old(self).wf(),
            old(self)@.last().nonzeros.0 + constraint@.nonzeros().0 <= u64::MAX,
            old(self)@.last().nonzeros.1 + constraint@.nonzeros().1 <= u64::MAX,
            old(self)@.last().nonzeros.2 + constraint@.nonzeros().2 <= u64::MAX,
        ensures
            final(self).wf(),
            final(self)@ == with_innermost(
                old(self)@,
                old(self)@.last().with_lookup_constraint(constraint@),
            ),
    {
        let mut frame = self.frames.pop().unwrap();
        let ghost before = frame@;
        let (a, b, c) = constraint.num_nonzeros();
        frame.nonzeros = (frame.nonzeros.0 + a, frame.nonzeros.1 + b, frame.nonzeros.2 + c);
        frame.lookup_constraints.push(constraint);
        proof {
            assert(frame@.lookup_constraints =~= before.lookup_constraints.push(constraint@));
            assert(frame@.lookup_constraints.drop_last() =~= before.lookup_constraints);
            assert(frame@ == before.with_lookup_constraint(constraint@));
        }
        self.frames.push(frame);
        proof {
            assert(self@ =~= with_innermost(
                old(self)@,
                old(self)@.last().with_lookup_constraint(constraint@),
            ));
        }
    }

    /// Whether every constraint that the innermost frame recorded holds.
    pub fn is_satisfied_in_scope(&self) -> (r: bool)
        requires
            self.wf(),
        ensures
            r == all_hold(self@.last().constraints),
    {
        let frame = &self.frames[self.frames.len() - 1];
        let n = frame.constraints.len();
        let mut i: usize = 0;
        while i < n
            invariant
                n == frame.constraints.len(),
                0 <= i <= n,
                frame@ == self@.last(),
                forall|k: int| 0 <= k < i ==> (#[trigger] frame@.constraints[k]).holds(),
            decreases n - i,
        {
            if !frame.constraints[i].is_satisfied() {
                proof {
                    assert(!frame@.constraints[i as int].holds());
                }
                return false;
            }
            i = i + 1;
        }
        true
    }

    /// The number of constants counted in the innermost frame.
    pub fn num_constants_in_scope(&self) -> (r: u64)
        requires
            self.wf(),
        ensures
            r == self@.last().constants,
    {
        self.frames[self.frames.len() - 1].constants
    }

    /// The number of public variables counted in the innermost frame.
    pub fn num_public_in_scope(&self) -> (r: u64)
        requires
            self.wf(),
        ensures
            r == self@.last().public,
    {
        self.frames[self.frames.len() - 1].public
    }

    /// The number of private variables counted in the innermost frame.
    pub fn num_private_in_scope(&self) -> (r: u64)
        requires
            self.wf(),
        ensures
            r == self@.last().private,
    {
        self.frames[self.frames.len() - 1].private
    }

    /// The number of constraints that the innermost frame recorded.
    pub fn num_constraints_in_scope(&self) -> (r: u64)
        requires
            self.wf(),
        ensures
            r == self@.last().constraints.len(),
    {
        self.frames[self.frames.len() - 1].constraints.len() as u64
    }

    /// The number of lookup constraints that the innermost frame recorded.
    pub fn num_lookup_constraints_in_scope(&self) -> (r: u64)
        requires
            self.wf(),
        ensures
            r == self@.last().lookup_constraints.len(),
    {
        self.frames[self.frames.len() - 1].lookup_constraints.len() as u64
    }

    /// The nonzero tally of the innermost frame.
    pub fn num_nonzeros_in_scope(&self) -> (r: (u64, u64, u64))
        requires
            self.wf(),
        ensures
            (r.0 as nat, r.1 as nat, r.2 as nat) == self@.last().nonzeros,
    {
        self.frames[self.frames.len() - 1].nonzeros
    }

    /// The path of the open scopes.
    pub fn scope(&self) -> (r: Scope)
        requires
            self.wf(),
        ensures
            r@ == path(self@),
    {
        let n = self.frames.len();
        let mut out = String::new();
        let mut i: usize = 1;
        while i < n
            invariant
                n == self.frames.len(),
                1 <= i <= n,
                out@ == path(self@.take(i as int)),
            decreases n - i,
        {
            proof {
                assert(self@.take(i + 1).drop_last() =~= self@.take(i as int));
                assert(self@.take(i + 1).last().name == self.frames@[i as int].name@);
            }
            if i > 1 {
                out.append("/");
            }
            out.append(self.frames[i].name.as_str());
            proof {
                if i == 1 {
                    assert(out@ =~= self.frames@[1].name@);
                }
            }
            i = i + 1;
        }
        proof {
            assert(self@.take(n as int) =~= self@);
        }
        out
    }
}

} // verus!
