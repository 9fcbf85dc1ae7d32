//! A rank-1 constraint system for the quartic relation
//! `x = w^4 + a*w^3 + b*w^2 + c*w + d` over the bn256 scalar field, with a
//! proved encoding: synthesis emits exactly the constraints of the relation,
//! any satisfying assignment solves the polynomial, and the honest witness
//! satisfies the constraints exactly when the public value is correct. An
//! external Groth16 backend consumes the synthesized trace to set up keys,
//! prove, and verify.

pub mod circuit;
pub mod field;
pub mod laws;
pub mod r1cs;
