//! Foundational principles toward which evaluation converges.

use vstd::prelude::*;

verus! {

/// The primordial principles guiding creation.
#[derive(Debug, Clone, Copy, PartialEq, Eq, Structural)]
pub enum PrimordialPrinciple {
    /// The generative void.
    Nammu,
    /// The infinite ocean of potential.
    Tamtu,
    /// The embodied will.
    Inanna,
}

} // verus!
