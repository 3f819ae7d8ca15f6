//! A rank-1 constraint system over the scalar field of BLS12-377.
//!
//! Circuit code allocates variables in an [`r1cs::R1CS`], builds linear
//! combinations over them and enforces constraints of the form
//! `(A . x) * (B . x) = (C . x)`, or that a triple of values is a row of a
//! lookup table. Named scopes, which nest, count what each part of a circuit
//! allocates and enforces.
//!
//! Every function states what it returns and changes over the views of the
//! types; [`laws`] states what holds across calls.

pub mod constraint;
pub mod counter;
pub mod field;
pub mod laws;
pub mod linear_combination;
pub mod lookup;
pub mod r1cs;
pub mod variable;
