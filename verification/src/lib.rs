//! Search engine for coefficients of a fast reciprocal-square-root
//! approximation (the bit-shift trick followed by one Newton step).
//!
//! Floating-point values are represented throughout as IEEE-754 binary32 bit
//! patterns held in `u32`, and the arithmetic on them is carried out by a
//! verified software implementation, so that every part of the optimization
//! engine — error evaluation, peak finding, mutation, selection and
//! replication — is deterministic, panic-free and specified.

use vstd::prelude::*;

pub mod approx;
pub mod fbits;
pub mod gauss;
pub mod laws;
pub mod population;
pub mod rng;
pub mod softfloat;

verus! {

} // verus!
