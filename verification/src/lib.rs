//! Wa-Tor: fish and sharks on a torus. A seeded generator drives every
//! choice, each species lives in an index keyed by cell, and a world steps
//! by giving every fish and then every shark its turn.

pub mod rand;
pub mod particles;
pub mod rules;
pub mod world;
pub mod placement;
pub mod laws;
pub mod invariants;
pub mod census;
