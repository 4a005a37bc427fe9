//! Verified core of a small embedded vector-similarity search service, together
//! with the narrative reduction utilities that accompany it.

pub mod axioms;
pub mod narrative;
pub mod vector;
