//! Variables: handles to the field values that constraints speak of.

use crate::field::Field;
use std::rc::Rc;
use vstd::prelude::*;
use vstd::std_specs::cmp::PartialEqSpecImpl;

verus! {

/// The position of a variable among those of its kind.
pub type Index = u64;

/// A field value under one of three kinds. A constant is known by its value; a
/// public or private variable by its index among the variables of its kind.
/// The value is shared, never copied, by every handle made from this one.
#[derive(Debug)]
pub enum Variable {
    /// A value fixed in the circuit.
    Constant(Rc<Field>),
    /// A value that the verifier sees.
    Public(Index, Rc<Field>),
    /// A value that only the prover knows.
    Private(Index, Rc<Field>),
}

impl Variable {
    /// The value behind the handle.
    pub open spec fn spec_value(&self) -> Field {
        match *self {
            Variable::Constant(value) => *value,
            Variable::Public(_, value) => *value,
            Variable::Private(_, value) => *value,
        }
    }

    /// The index of a public or private variable; zero for a constant.
    pub open spec fn spec_index(&self) -> Index {
        match *self {
            Variable::Constant(_) => 0,
            Variable::Public(index, _) => index,
            Variable::Private(index, _) => index,
        }
    }

    /// The variable that differs from this one at most in its value, which is `value`.
    pub open spec fn with_value(&self, value: Field) -> Variable {
        match *self {
            Variable::Constant(_) => Variable::Constant(Rc::new(value)),
            Variable::Public(index, _) => Variable::Public(index, Rc::new(value)),
            Variable::Private(index, _) => Variable::Private(index, Rc::new(value)),
        }
    }

    /// Whether the variable is a constant.
    pub fn is_constant(&self) -> (r: bool)
        ensures
            r == (*self is Constant),
    {
        match self {
            Variable::Constant(_) => true,
            _ => false,
        }
    }

    /// Whether the variable is public.
    pub fn is_public(&self) -> (r: bool)
        ensures
            r == (*self is Public),
    {
        match self {
            Variable::Public(_, _) => true,
            _ => false,
        }
    }

    /// Whether the variable is private.
    pub fn is_private(&self) -> (r: bool)
        ensures
            r == (*self is Private),
    {
        match self {
            Variable::Private(_, _) => true,
            _ => false,
        }
    }

    /// The index of a public or private variable; zero for a constant.
    pub fn index(&self) -> (r: Index)
        ensures
            r == self.spec_index(),
    {
        match self {
            Variable::Constant(_) => 0,
            Variable::Public(index, _) => *index,
            Variable::Private(index, _) => *index,
        }
    }

    /// The value behind the handle.
    pub fn value(&self) -> (r: Field)
        ensures
            r == self.spec_value(),
    {
        match self {
            Variable::Constant(value) => **value,
            Variable::Public(_, value) => **value,
            Variable::Private(_, value) => **value,
        }
    }
}

impl Clone for Variable {
    /// A second handle to the same variable and the same value.
    fn clone(&self) -> (r: Self)
        ensures
            r == *self,
    {
        match self {
            Variable::Constant(value) => Variable::Constant(share(value)),
            Variable::Public(index, value) => Variable::Public(*index, share(value)),
            Variable::Private(index, value) => Variable::Private(*index, share(value)),
        }
    }
}

impl PartialEq for Variable {
    /// The same kind, the same index and the same value.
    fn eq(&self, other: &Self) -> (r: bool) {
        match (self, other) {
            (Variable::Constant(a), Variable::Constant(b)) => **a == **b,
            (Variable::Public(i, a), Variable::Public(j, b)) => *i == *j && **a == **b,
            (Variable::Private(i, a), Variable::Private(j, b)) => *i == *j && **a == **b,
            _ => false,
        }
    }
}

impl Eq for Variable {

}

impl PartialEqSpecImpl for Variable {
    open spec fn obeys_eq_spec() -> bool {
        true
    }

    open spec fn eq_spec(&self, other: &Self) -> bool {
        *self == *other
    }
}

/// `Rc::clone`: a second handle to the same allocation, and so to the same value.
#[verifier::external_body]
fn share(value: &Rc<Field>) -> (r: Rc<Field>)
    ensures
        r == *value,
{
    Rc::clone(value)
}

} // verus!
